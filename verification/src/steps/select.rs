//! Single choice: the items offered and what a choice stores.

use vstd::prelude::*;
use vstd::utf8::{decode_utf8, encode_utf8, is_char_boundary};
use crate::context::{has_key, lookup, unique_keys, Context};
use crate::steps::password::byte_len;

verus! {

/// An item offered for a single choice.
#[derive(Debug, Clone)]
pub struct SelectItem {
    pub value: String,
    pub label: String,
    pub hint: Option<String>,
    /// A prompt flow to run when this item is chosen.
    pub execute_yaml: Option<String>,
}

/// The items offered: given in the flow, or a text naming variables that
/// holds them as JSON.
#[derive(Debug, Clone)]
pub enum SelectItems {
    Static(Vec<SelectItem>),
    Variable(String),
}

/// What the JSON text of a variable item list was read as: a list of items,
/// an object of names and descriptions (in the order the reader gave them),
/// or neither.
pub enum ParsedSelectItems {
    Items(Vec<SelectItem>),
    Pairs(Vec<(String, String)>),
    Unreadable,
}

/// Whether a description can be shortened: it is at most 50 bytes long, or
/// its first 47 bytes end on a character boundary.
pub open spec fn hint_shortenable(value: Seq<char>) -> bool {
    byte_len(value) <= 50 || is_char_boundary(encode_utf8(value), 47)
}

/// A description as a hint: unchanged up to 50 bytes, else its first 47
/// bytes followed by `...`.
pub open spec fn shortened_hint(value: Seq<char>) -> Seq<char> {
    if byte_len(value) > 50 {
        decode_utf8(encode_utf8(value).subrange(0, 47)) + "..."@
    } else {
        value
    }
}

/// Whether `value` can be shortened to a hint.
pub fn hint_can_be_shortened(value: &String) -> (b: bool)
    ensures
        b == hint_shortenable(value@),
{
    let s = value.as_str();
    let n = s.as_bytes().len();
    n <= 50 || s.is_char_boundary(47)
}

/// A description shortened to a hint.
pub fn shorten_hint(value: &String) -> (h: String)
    requires
        hint_shortenable(value@),
    ensures
        h@ == shortened_hint(value@),
{
    let s = value.as_str();
    if s.as_bytes().len() > 50 {
        let (head, _tail) = s.split_at(47);
        proof {
            vstd::utf8::encode_utf8_decode_utf8(head@);
        }
        let mut h = head.to_owned();
        h.append("...");
        h
    } else {
        value.clone()
    }
}

/// The item made from a name and its description.
pub open spec fn item_from_pair(item: SelectItem, pair: (String, String)) -> bool {
    &&& item.value@ == pair.0@
    &&& item.label@ == pair.0@
    &&& item.hint matches Some(h) && h@ == shortened_hint(pair.1@)
    &&& item.execute_yaml is None
}

/// The items offered after reading a variable item list: the items read, one
/// item per name and description, or none.
pub fn select_items_from_parsed(parsed: ParsedSelectItems) -> (items: Vec<SelectItem>)
    requires
        parsed matches ParsedSelectItems::Pairs(ps) ==> forall|i: int|
            0 <= i < ps@.len() ==> hint_shortenable(#[trigger] ps@[i].1@),
    ensures
        parsed matches ParsedSelectItems::Items(v) ==> items@ == v@,
        parsed matches ParsedSelectItems::Pairs(ps) ==> items@.len() == ps@.len() && forall|i: int|
            0 <= i < ps@.len() ==> item_from_pair(#[trigger] items@[i], ps@[i]),
        parsed is Unreadable ==> items@.len() == 0,
{
    match parsed {
        ParsedSelectItems::Items(v) => v,
        ParsedSelectItems::Pairs(ps) => {
            let mut items: Vec<SelectItem> = Vec::new();
            let mut i: usize = 0;
            while i < ps.len()
                invariant
                    i <= ps@.len(),
                    items@.len() == i,
                    forall|j: int| 0 <= j < ps@.len() ==> hint_shortenable(#[trigger] ps@[j].1@),
                    forall|j: int| 0 <= j < i ==> item_from_pair(#[trigger] items@[j], ps@[j]),
                decreases ps@.len() - i,
            {
                let hint = shorten_hint(&ps[i].1);
                items.push(
                    SelectItem {
                        value: ps[i].0.clone(),
                        label: ps[i].0.clone(),
                        hint: Some(hint),
                        execute_yaml: None,
                    },
                );
                i = i + 1;
            }
            items
        },
        ParsedSelectItems::Unreadable => Vec::new(),
    }
}

/// The names and descriptions of a list of pairs, as plain text.
pub open spec fn pair_views(ps: Seq<(String, String)>) -> Seq<(Seq<char>, Seq<char>)> {
    ps.map_values(|e: (String, String)| (e.0@, e.1@))
}

/// The map that a list of pairs without repeated names gives.
pub open spec fn pairs_map(ps: Seq<(Seq<char>, Seq<char>)>) -> Map<Seq<char>, Seq<char>> {
    Map::new(|k: Seq<char>| has_key(ps, k), |k: Seq<char>| lookup(ps, k)->0)
}

/// The map of names to descriptions that `serde_json::from_str` reads from
/// `text` as a `HashMap<String, String>`, or `None` where it refuses the
/// text.
pub uninterp spec fn json_string_map(text: Seq<char>) -> Option<Map<Seq<char>, Seq<char>>>;

/// Calls `serde_json::from_str::<HashMap<String, String>>` on `text` and
/// hands out its entries. Claims that it fails exactly where the name
/// `json_string_map` has no map, and that otherwise the entries name each
/// key once and make up that map. The order of the entries is the map's
/// walk order, which each process seeds, so nothing is claimed of it.
#[verifier::external_body]
pub(crate) fn json_string_pairs(text: &str) -> (r: Option<Vec<(String, String)>>)
    ensures
        r is None <==> json_string_map(text@) is None,
        r matches Some(ps) ==> unique_keys(pair_views(ps@)) && json_string_map(text@) == Some(
            pairs_map(pair_views(ps@)),
        ),
{
    serde_json::from_str::<std::collections::HashMap<String, String>>(text).ok().map(
        |m| m.into_iter().collect(),
    )
}

/// Whether every description of the object of strings in `text` (if it is
/// one) can be shortened to a hint.
pub open spec fn text_hints_ok(text: Seq<char>) -> bool {
    json_string_map(text) matches Some(m) ==> forall|k: Seq<char>|
        #[trigger] m.dom().contains(k) ==> hint_shortenable(m[k])
}

/// Whether the JSON text of an item list gives no item: the list read as
/// items was empty (`typed_len`), or, where the text is no such list, it is
/// no object of strings or an empty one.
pub open spec fn no_items_in(text: Seq<char>, typed_len: Option<nat>) -> bool {
    match typed_len {
        Some(n) => n == 0,
        None => match json_string_map(text) {
            Some(m) => m.dom() == Set::<Seq<char>>::empty(),
            None => true,
        },
    }
}

/// What reading an item list gives: the items read as a list when there
/// are, else the names and descriptions of the object of strings in `text`,
/// else nothing readable.
pub open spec fn select_parse_of(text: Seq<char>, typed: Option<Vec<SelectItem>>, p: ParsedSelectItems) -> bool {
    match typed {
        Some(v) => p matches ParsedSelectItems::Items(w) && w@ == v@,
        None => match json_string_map(text) {
            Some(m) => p matches ParsedSelectItems::Pairs(ps) && unique_keys(pair_views(ps@))
                && pairs_map(pair_views(ps@)) == m,
            None => p is Unreadable,
        },
    }
}

/// The entries of a list without repeated names are the entries of its map.
pub proof fn lemma_pairs_map(ps: Seq<(Seq<char>, Seq<char>)>)
    requires
        unique_keys(ps),
    ensures
        forall|i: int|
            0 <= i < ps.len() ==> pairs_map(ps).dom().contains(#[trigger] ps[i].0) && pairs_map(ps)[ps[i].0]
                == ps[i].1,
        forall|k: Seq<char>|
            #[trigger] pairs_map(ps).dom().contains(k) ==> exists|i: int|
                0 <= i < ps.len() && #[trigger] ps[i].0 == k,
        ps.len() == 0 <==> pairs_map(ps).dom() == Set::<Seq<char>>::empty(),
{
    assert forall|i: int| 0 <= i < ps.len() implies pairs_map(ps).dom().contains(#[trigger] ps[i].0)
        && pairs_map(ps)[ps[i].0] == ps[i].1 by {
        crate::context::lemma_lookup_at(ps, i);
    }
    if ps.len() == 0 {
        assert(pairs_map(ps).dom() =~= Set::<Seq<char>>::empty());
    } else {
        assert(pairs_map(ps).dom().contains(ps[0].0));
    }
}

/// Where every description of the text's object can be shortened, every
/// description of its entries can.
pub proof fn lemma_pair_hints(ps: Seq<(String, String)>, text: Seq<char>)
    requires
        unique_keys(pair_views(ps)),
        json_string_map(text) == Some(pairs_map(pair_views(ps))),
    ensures
        text_hints_ok(text) <==> forall|i: int| 0 <= i < ps.len() ==> hint_shortenable(#[trigger] ps[i].1@),
{
    let vs = pair_views(ps);
    lemma_pairs_map(vs);
    let m = pairs_map(vs);
    assert(json_string_map(text)->0 == m);
    if text_hints_ok(text) {
        assert forall|i: int| 0 <= i < ps.len() implies hint_shortenable(#[trigger] ps[i].1@) by {
            assert(vs[i] == (ps[i].0@, ps[i].1@));
            assert(m.dom().contains(vs[i].0));
            assert(m[vs[i].0] == vs[i].1);
        }
    }
    if forall|i: int| 0 <= i < ps.len() ==> hint_shortenable(#[trigger] ps[i].1@) {
        assert forall|k: Seq<char>| #[trigger] m.dom().contains(k) implies hint_shortenable(m[k]) by {
            let i = choose|i: int| 0 <= i < vs.len() && #[trigger] vs[i].0 == k;
            assert(vs[i] == (ps[i].0@, ps[i].1@));
            assert(hint_shortenable(ps[i].1@));
        }
    }
}

/// Whether the descriptions of the object of strings in `text` can all be
/// shortened to hints.
pub fn text_hints_fit(text: &str) -> (b: bool)
    ensures
        b == text_hints_ok(text@),
{
    match json_string_pairs(text) {
        None => true,
        Some(ps) => {
            proof {
                lemma_pair_hints(ps@, text@);
            }
            let mut i: usize = 0;
            while i < ps.len()
                invariant
                    i <= ps@.len(),
                    forall|j: int| 0 <= j < i ==> hint_shortenable(#[trigger] ps@[j].1@),
                    text_hints_ok(text@) <==> forall|j: int|
                        0 <= j < ps@.len() ==> hint_shortenable(#[trigger] ps@[j].1@),
                decreases ps@.len() - i,
            {
                if !hint_can_be_shortened(&ps[i].1) {
                    assert(!hint_shortenable(ps@[i as int].1@));
                    return false;
                }
                i = i + 1;
            }
            true
        },
    }
}

/// Reads an item list: the items read as a list (`typed`) when there are,
/// else the names and descriptions of the object of strings in `text`, else
/// nothing readable.
pub fn parse_select_items(text: &str, typed: Option<Vec<SelectItem>>) -> (p: ParsedSelectItems)
    ensures
        select_parse_of(text@, typed, p),
{
    match typed {
        Some(v) => ParsedSelectItems::Items(v),
        None => match json_string_pairs(text) {
            Some(ps) => ParsedSelectItems::Pairs(ps),
            None => ParsedSelectItems::Unreadable,
        },
    }
}

/// The position of the first item whose value is `selected`.
pub fn find_selected(items: &Vec<SelectItem>, selected: &String) -> (r: Option<usize>)
    ensures
        r matches Some(i) ==> i < items@.len() && items@[i as int].value@ == selected@ && forall|j: int|
            0 <= j < i ==> #[trigger] items@[j].value@ != selected@,
        r is None ==> forall|j: int| 0 <= j < items@.len() ==> #[trigger] items@[j].value@ != selected@,
{
    let mut i: usize = 0;
    while i < items.len()
        invariant
            i <= items@.len(),
            forall|j: int| 0 <= j < i ==> #[trigger] items@[j].value@ != selected@,
        decreases items@.len() - i,
    {
        if items[i].value == *selected {
            return Some(i);
        }
        i = i + 1;
    }
    None
}

/// The JSON object text of the named values, as `serde_json::to_string`
/// writes a map of them, or `None` where it fails.
pub uninterp spec fn json_object(entries: Seq<(Seq<char>, Seq<char>)>) -> Option<Seq<char>>;

/// Calls `serde_json::to_string` on a `serde_json::Map` holding each name
/// with its value as a JSON string. Claims that the result is the one named
/// by `json_object` for these entries.
#[verifier::external_body]
fn json_object_text(entries: &Vec<(String, String)>) -> (r: Option<String>)
    requires
        unique_keys(entries@.map_values(|e: (String, String)| (e.0@, e.1@))),
    ensures
        r matches Some(t) ==> json_object(entries@.map_values(|e: (String, String)| (e.0@, e.1@)))
            == Some(t@),
        r is None ==> json_object(entries@.map_values(|e: (String, String)| (e.0@, e.1@))) is None,
{
    let map: serde_json::Map<String, serde_json::Value> = entries.iter().map(
        |e| (e.0.clone(), serde_json::Value::String(e.1.clone())),
    ).collect();
    serde_json::to_string(&map).ok()
}

/// The name under which a nested flow hands back the value of the choice.
pub open spec fn external_output_name() -> Seq<char> {
    "external_step_output"@
}

/// What a choice that ran a nested flow stores: the nested flow's
/// `external_step_output`, or else the JSON text of all its values, or else
/// (should that text fail) the chosen value.
pub open spec fn nested_choice_value(
    selected: Seq<char>,
    result: Seq<(Seq<char>, Seq<char>)>,
) -> Seq<char> {
    match lookup(result, external_output_name()) {
        Some(v) => v,
        None => match json_object(result) {
            Some(t) => t,
            None => selected,
        },
    }
}

/// The value a choice stores, given the nested flow's
/// `external_step_output` (if it set one) and the JSON text of its values
/// (if writing it succeeded).
pub fn choice_output_from(selected: &String, external: Option<&String>, json: Option<String>) -> (r: String)
    ensures
        external matches Some(v) ==> r@ == v@,
        external is None && json is Some ==> r@ == json->0@,
        external is None && json is None ==> r@ == selected@,
{
    match external {
        Some(v) => v.clone(),
        None => match json {
            Some(t) => t,
            None => selected.clone(),
        },
    }
}

/// The value a choice stores after the nested flow it ran gave `result`.
pub fn nested_output_value(selected: &String, result: &Context) -> (r: String)
    ensures
        r@ == nested_choice_value(selected@, result@),
{
    proof {
        use_type_invariant(result);
    }
    let key = String::from_str("external_step_output");
    let external = result.get(&key);
    let json = match external {
        Some(_) => None,
        None => json_object_text(&result.pairs()),
    };
    choice_output_from(selected, external, json)
}

/// A copy of a list of items.
pub fn copy_items(items: &Vec<SelectItem>) -> (r: Vec<SelectItem>)
    ensures
        r@ == items@,
{
    let mut r: Vec<SelectItem> = Vec::new();
    let mut i: usize = 0;
    while i < items.len()
        invariant
            i <= items@.len(),
            r@ == items@.take(i as int),
        decreases items@.len() - i,
    {
        let it = &items[i];
        r.push(
            SelectItem {
                value: it.value.clone(),
                label: it.label.clone(),
                hint: crate::text::copy_opt_string(&it.hint),
                execute_yaml: crate::text::copy_opt_string(&it.execute_yaml),
            },
        );
        i = i + 1;
        assert(r@ =~= items@.take(i as int));
    }
    assert(items@.take(items@.len() as int) =~= items@);
    r
}

} // verus!
