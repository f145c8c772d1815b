//! Multiple choice: the items offered and what a choice stores.

use vstd::prelude::*;
use crate::context::{assoc_insert, unique_keys, Context};
use crate::steps::select::{
    hint_shortenable, json_string_map, pair_views, pairs_map, json_string_pairs, shorten_hint,
    shortened_hint,
};
use crate::text::{chars_of, decimal, decimal_chars, join, join_strings, string_of};

verus! {

/// An item offered for a multiple choice.
#[derive(Debug, Clone)]
pub struct MultiSelectItem {
    pub value: String,
    pub label: String,
    pub hint: Option<String>,
    /// Whether the item starts selected.
    pub is_selected: Option<bool>,
}

/// The items offered: given in the flow, or a text naming variables that
/// holds them as JSON.
#[derive(Debug, Clone)]
pub enum MultiSelectItems {
    Static(Vec<MultiSelectItem>),
    Variable(String),
}

/// What the JSON text of a variable item list was read as: a list of items,
/// an object of names and descriptions (in the order the reader gave them),
/// or neither.
pub enum ParsedMultiSelectItems {
    Items(Vec<MultiSelectItem>),
    Pairs(Vec<(String, String)>),
    Unreadable,
}

/// The item made from a name and its description.
pub open spec fn multi_item_from_pair(item: MultiSelectItem, pair: (String, String)) -> bool {
    &&& item.value@ == pair.0@
    &&& item.label@ == pair.0@
    &&& item.hint matches Some(h) && h@ == shortened_hint(pair.1@)
    &&& item.is_selected is None
}

/// The items offered after reading a variable item list: the items read, one
/// item per name and description, or none.
pub fn multi_select_items_from_parsed(parsed: ParsedMultiSelectItems) -> (items: Vec<MultiSelectItem>)
    requires
        parsed matches ParsedMultiSelectItems::Pairs(ps) ==> forall|i: int|
            0 <= i < ps@.len() ==> hint_shortenable(#[trigger] ps@[i].1@),
    ensures
        parsed matches ParsedMultiSelectItems::Items(v) ==> items@ == v@,
        parsed matches ParsedMultiSelectItems::Pairs(ps) ==> items@.len() == ps@.len() && forall|i: int|
            0 <= i < ps@.len() ==> multi_item_from_pair(#[trigger] items@[i], ps@[i]),
        parsed is Unreadable ==> items@.len() == 0,
{
    match parsed {
        ParsedMultiSelectItems::Items(v) => v,
        ParsedMultiSelectItems::Pairs(ps) => {
            let mut items: Vec<MultiSelectItem> = Vec::new();
            let mut i: usize = 0;
            while i < ps.len()
                invariant
                    i <= ps@.len(),
                    items@.len() == i,
                    forall|j: int| 0 <= j < ps@.len() ==> hint_shortenable(#[trigger] ps@[j].1@),
                    forall|j: int| 0 <= j < i ==> multi_item_from_pair(#[trigger] items@[j], ps@[j]),
                decreases ps@.len() - i,
            {
                let hint = shorten_hint(&ps[i].1);
                items.push(
                    MultiSelectItem {
                        value: ps[i].0.clone(),
                        label: ps[i].0.clone(),
                        hint: Some(hint),
                        is_selected: None,
                    },
                );
                i = i + 1;
            }
            items
        },
        ParsedMultiSelectItems::Unreadable => Vec::new(),
    }
}

/// What reading a multiple-choice item list gives: the items read as a
/// list when there are, else the names and descriptions of the object of
/// strings in `text`, else nothing readable.
pub open spec fn multi_parse_of(
    text: Seq<char>,
    typed: Option<Vec<MultiSelectItem>>,
    p: ParsedMultiSelectItems,
) -> bool {
    match typed {
        Some(v) => p matches ParsedMultiSelectItems::Items(w) && w@ == v@,
        None => match json_string_map(text) {
            Some(m) => p matches ParsedMultiSelectItems::Pairs(ps) && unique_keys(pair_views(ps@))
                && pairs_map(pair_views(ps@)) == m,
            None => p is Unreadable,
        },
    }
}

/// Reads a multiple-choice item list: the items read as a list (`typed`)
/// when there are, else the names and descriptions of the object of strings
/// in `text`, else nothing readable.
pub fn parse_multi_select_items(text: &str, typed: Option<Vec<MultiSelectItem>>) -> (p:
    ParsedMultiSelectItems)
    ensures
        multi_parse_of(text@, typed, p),
{
    match typed {
        Some(v) => ParsedMultiSelectItems::Items(v),
        None => match json_string_pairs(text) {
            Some(ps) => ParsedMultiSelectItems::Pairs(ps),
            None => ParsedMultiSelectItems::Unreadable,
        },
    }
}

/// The values of the items that start selected, in the order of the items.
pub open spec fn preselected(items: Seq<MultiSelectItem>) -> Seq<Seq<char>>
    decreases items.len(),
{
    if items.len() == 0 {
        Seq::empty()
    } else {
        let rest = preselected(items.drop_last());
        if items.last().is_selected == Some(true) {
            rest.push(items.last().value@)
        } else {
            rest
        }
    }
}

/// The views of a list of strings.
pub open spec fn string_views(v: Seq<String>) -> Seq<Seq<char>> {
    v.map_values(|s: String| s@)
}

/// The values of the items that start selected.
pub fn preselected_values(items: &Vec<MultiSelectItem>) -> (r: Vec<String>)
    ensures
        string_views(r@) == preselected(items@),
{
    let mut r: Vec<String> = Vec::new();
    let mut i: usize = 0;
    assert(items@.take(0) =~= Seq::<MultiSelectItem>::empty());
    while i < items.len()
        invariant
            i <= items@.len(),
            string_views(r@) == preselected(items@.take(i as int)),
        decreases items@.len() - i,
    {
        assert(items@.take(i + 1).drop_last() =~= items@.take(i as int));
        assert(items@.take(i + 1).last() == items@[i as int]);
        let ghost before = r@;
        if items[i].is_selected == Some(true) {
            r.push(items[i].value.clone());
            assert(string_views(r@) =~= string_views(before).push(items@[i as int].value@));
        }
        i = i + 1;
    }
    assert(items@.take(items@.len() as int) =~= items@);
    r
}

/// The name under which the choice at position `i` is stored.
pub open spec fn indexed_name(key: Seq<char>, i: nat) -> Seq<char> {
    key + seq!['_'] + decimal(i)
}

/// The name under which the number of choices is stored.
pub open spec fn count_name(key: Seq<char>) -> Seq<char> {
    key + "_count"@
}

/// The variables after storing the first `n` choices under their indexed
/// names, in order.
pub open spec fn store_indexed(
    vars: Seq<(Seq<char>, Seq<char>)>,
    key: Seq<char>,
    chosen: Seq<Seq<char>>,
    n: nat,
) -> Seq<(Seq<char>, Seq<char>)>
    decreases n,
{
    if n == 0 {
        vars
    } else {
        let prev = store_indexed(vars, key, chosen, (n - 1) as nat);
        assoc_insert(prev, indexed_name(key, (n - 1) as nat), chosen[n - 1])
    }
}

/// The variables after a multiple choice stored under `key`: the choices
/// joined by commas under `key`, each choice under `key_<index>`, and their
/// number under `key_count`.
pub open spec fn multi_select_outputs(
    vars: Seq<(Seq<char>, Seq<char>)>,
    key: Seq<char>,
    chosen: Seq<Seq<char>>,
) -> Seq<(Seq<char>, Seq<char>)> {
    let v1 = assoc_insert(vars, key, join(chosen, seq![',']));
    let v2 = store_indexed(v1, key, chosen, chosen.len());
    assoc_insert(v2, count_name(key), decimal(chosen.len()))
}

/// Stores the values chosen in a multiple choice under `key`.
pub fn store_multi_select(context: &mut Context, key: &String, chosen: &Vec<String>)
    ensures
        final(context)@ == multi_select_outputs(
            old(context)@,
            key@,
            chosen@.map_values(|s: String| s@),
        ),
        unique_keys(final(context)@),
{
    proof {
        use_type_invariant(&*context);
    }
    let ghost cs = chosen@.map_values(|s: String| s@);
    let sep = vec![','];
    assert(sep@ =~= seq![',']);
    let combined = join_strings(chosen, &sep);
    context.insert(key.clone(), combined);
    let ghost v1 = context@;
    let key_chars = chars_of(key.as_str());
    let mut i: usize = 0;
    while i < chosen.len()
        invariant
            i <= chosen@.len(),
            cs == chosen@.map_values(|s: String| s@),
            key_chars@ == key@,
            unique_keys(context@),
            context@ == store_indexed(v1, key@, cs, i as nat),
        decreases chosen@.len() - i,
    {
        let mut name = key_chars.clone();
        name.push('_');
        let digits = decimal_chars(i);
        crate::text::append_chars(&mut name, &digits);
        assert(name@ =~= indexed_name(key@, i as nat));
        context.insert(string_of(&name), chosen[i].clone());
        i = i + 1;
    }
    let mut count = key.clone();
    count.append("_count");
    let digits = decimal_chars(chosen.len());
    context.insert(count, string_of(&digits));
}

/// A copy of a list of items.
pub fn copy_items(items: &Vec<MultiSelectItem>) -> (r: Vec<MultiSelectItem>)
    ensures
        r@ == items@,
{
    let mut r: Vec<MultiSelectItem> = Vec::new();
    let mut i: usize = 0;
    while i < items.len()
        invariant
            i <= items@.len(),
            r@ == items@.take(i as int),
        decreases items@.len() - i,
    {
        let it = &items[i];
        r.push(
            MultiSelectItem {
                value: it.value.clone(),
                label: it.label.clone(),
                hint: crate::text::copy_opt_string(&it.hint),
                is_selected: it.is_selected,
            },
        );
        i = i + 1;
        assert(r@ =~= items@.take(i as int));
    }
    assert(items@.take(items@.len() as int) =~= items@);
    r
}

} // verus!
