//! Messages inside the frame: the text shown and how it is marked.

use vstd::prelude::*;
use crate::context::{lookup, unique_keys, Context};
use crate::text::{chars_of, placeholder, replace_all, replace_all_chars, string_of};
use crate::variables::{opt_view, placeholder_chars, replace_context_vars, replace_each};

verus! {

/// How a message is marked.
#[derive(Debug, Clone, Copy, PartialEq, Eq)]
pub enum PrintLevel {
    /// Lines continuing the frame's bar.
    Plain,
    /// A remark without a marker.
    Remark,
    Info,
    Warning,
    Error,
}

/// The marking for a configured level: none gives plain lines; `info`,
/// `warning` or `warn`, and `error` their markers; anything else a remark.
pub open spec fn level_of(loglevel: Option<Seq<char>>) -> PrintLevel {
    match loglevel {
        None => PrintLevel::Plain,
        Some(l) => if l == "info"@ {
            PrintLevel::Info
        } else if l == "warning"@ || l == "warn"@ {
            PrintLevel::Warning
        } else if l == "error"@ {
            PrintLevel::Error
        } else {
            PrintLevel::Remark
        },
    }
}

/// The marking for `loglevel`.
pub fn print_level(loglevel: &Option<String>) -> (l: PrintLevel)
    ensures
        l == level_of(opt_view(*loglevel)),
{
    match loglevel {
        None => PrintLevel::Plain,
        Some(l) => {
            if *l == String::from_str("info") {
                PrintLevel::Info
            } else if *l == String::from_str("warning") || *l == String::from_str("warn") {
                PrintLevel::Warning
            } else if *l == String::from_str("error") {
                PrintLevel::Error
            } else {
                PrintLevel::Remark
            }
        },
    }
}

/// The text of a message: the variable named by `input` replaced first, when
/// it is set, then every variable.
pub open spec fn print_display(
    text: Seq<char>,
    input: Option<Seq<char>>,
    vars: Seq<(Seq<char>, Seq<char>)>,
) -> Seq<char> {
    let t = match input {
        Some(k) => match lookup(vars, k) {
            Some(v) => replace_all(text, placeholder(k), v),
            None => text,
        },
        None => text,
    };
    replace_each(t, vars)
}

/// The text of a message, with its variables replaced.
pub fn print_text(text: &String, input: &Option<String>, context: &Context) -> (r: String)
    ensures
        r@ == print_display(text@, opt_view(*input), context@),
{
    proof {
        use_type_invariant(context);
    }
    let mut cs = chars_of(text.as_str());
    if let Some(k) = input {
        if let Some(v) = context.get(k) {
            let pat = placeholder_chars(k);
            let rep = chars_of(v.as_str());
            cs = replace_all_chars(&cs, &pat, &rep);
        }
    }
    let out = replace_context_vars(cs, context);
    string_of(&out)
}

/// A line without the carriage return that ended it.
pub open spec fn strip_cr(line: Seq<char>) -> Seq<char> {
    if line.len() > 0 && line.last() == '\r' {
        line.drop_last()
    } else {
        line
    }
}

/// The lines of `s`, with `cur` the start of the current line: split at each
/// newline, a carriage return before the newline dropped, and no empty line
/// after a final newline.
pub open spec fn split_lines(s: Seq<char>, cur: Seq<char>) -> Seq<Seq<char>>
    decreases s.len(),
{
    if s.len() == 0 {
        if cur.len() == 0 {
            Seq::empty()
        } else {
            seq![cur]
        }
    } else if s[0] == '\n' {
        seq![strip_cr(cur)] + split_lines(s.skip(1), Seq::empty())
    } else {
        split_lines(s.skip(1), cur.push(s[0]))
    }
}

/// The lines of `s`, as `str::lines` gives them.
pub open spec fn text_lines(s: Seq<char>) -> Seq<Seq<char>> {
    split_lines(s, Seq::empty())
}

/// The lines of a plain message.
pub fn plain_lines(text: &String) -> (lines: Vec<String>)
    ensures
        lines@.map_values(|l: String| l@) == text_lines(text@),
{
    let cs = chars_of(text.as_str());
    let mut lines: Vec<String> = Vec::new();
    let mut cur: Vec<char> = Vec::new();
    let mut i: usize = 0;
    assert(cs@.skip(0) =~= cs@);
    while i < cs.len()
        invariant
            i <= cs@.len(),
            cs@ == text@,
            text_lines(text@) == lines@.map_values(|l: String| l@) + split_lines(cs@.skip(i as int), cur@),
        decreases cs@.len() - i,
    {
        let ghost rest = cs@.skip(i as int);
        assert(rest[0] == cs@[i as int]);
        assert(rest.skip(1) =~= cs@.skip(i + 1));
        let ghost before = lines@.map_values(|l: String| l@);
        let ghost cur0 = cur@;
        if cs[i] == '\n' {
            if cur.len() > 0 && cur[cur.len() - 1] == '\r' {
                cur.pop();
                assert(cur@ =~= cur0.drop_last());
            }
            assert(cur@ == strip_cr(cur0));
            lines.push(string_of(&cur));
            cur = Vec::new();
            assert(lines@.map_values(|l: String| l@) =~= before.push(strip_cr(cur0)));
            assert(before.push(strip_cr(cur0)) + split_lines(rest.skip(1), Seq::empty()) =~= before + (seq![strip_cr(cur0)] + split_lines(rest.skip(1), Seq::empty())));
        } else {
            cur.push(cs[i]);
        }
        i = i + 1;
    }
    assert(cs@.skip(i as int) =~= Seq::<char>::empty());
    let ghost before = lines@.map_values(|l: String| l@);
    if cur.len() > 0 {
        lines.push(string_of(&cur));
        assert(lines@.map_values(|l: String| l@) =~= before.push(cur@));
    }
    assert(lines@.map_values(|l: String| l@) =~= text_lines(text@));
    lines
}

/// Whether `text` ends with a newline.
pub fn ends_with_newline(text: &String) -> (b: bool)
    ensures
        b == (text@.len() > 0 && text@.last() == '\n'),
{
    let n = text.unicode_len();
    n > 0 && text.get_char(n - 1) == '\n'
}

} // verus!
