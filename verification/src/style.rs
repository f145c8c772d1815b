//! Colouring of banner text.

use vstd::prelude::*;
use crate::TextStyle;
use crate::text::digit_char;

verus! {

/// The console style term for a background colour name, or nothing for a
/// name that is not offered.
pub open spec fn background_term(name: Seq<char>) -> Seq<char> {
    if name == "cyan"@ {
        "on_cyan"@
    } else if name == "green"@ {
        "on_green"@
    } else if name == "red"@ {
        "on_red"@
    } else if name == "yellow"@ {
        "on_yellow"@
    } else {
        Seq::empty()
    }
}

/// The console style term for a text colour name, or nothing for a name
/// that is not offered.
pub open spec fn color_term(name: Seq<char>) -> Seq<char> {
    if name == "black"@ {
        "black"@
    } else if name == "white"@ {
        "white"@
    } else if name == "red"@ {
        "red"@
    } else if name == "green"@ {
        "green"@
    } else if name == "blue"@ {
        "blue"@
    } else {
        Seq::empty()
    }
}

/// The dotted style description of a banner style: the background term, then
/// the colour term, joined by a dot when both are present.
pub open spec fn style_terms(background: Option<Seq<char>>, color: Option<Seq<char>>) -> Seq<char> {
    let b = match background {
        Some(n) => background_term(n),
        None => Seq::empty(),
    };
    let c = match color {
        Some(n) => color_term(n),
        None => Seq::empty(),
    };
    if b.len() > 0 && c.len() > 0 {
        b + "."@ + c
    } else {
        b + c
    }
}

/// Whether `s` is the word `w`.
fn is_word(s: &String, w: &str) -> (b: bool)
    ensures
        b == (s@ == w@),
{
    let t = String::from_str(w);
    *s == t
}

fn background_term_of(name: &String) -> (t: String)
    ensures
        t@ == background_term(name@),
{
    if is_word(name, "cyan") {
        String::from_str("on_cyan")
    } else if is_word(name, "green") {
        String::from_str("on_green")
    } else if is_word(name, "red") {
        String::from_str("on_red")
    } else if is_word(name, "yellow") {
        String::from_str("on_yellow")
    } else {
        String::new()
    }
}

fn color_term_of(name: &String) -> (t: String)
    ensures
        t@ == color_term(name@),
{
    if is_word(name, "black") {
        String::from_str("black")
    } else if is_word(name, "white") {
        String::from_str("white")
    } else if is_word(name, "red") {
        String::from_str("red")
    } else if is_word(name, "green") {
        String::from_str("green")
    } else if is_word(name, "blue") {
        String::from_str("blue")
    } else {
        String::new()
    }
}

/// The dotted console style description of `style`.
pub fn text_style_terms(style: &TextStyle) -> (t: String)
    ensures
        t@ == style_terms(crate::variables::opt_view(style.background), crate::variables::opt_view(style.color)),
{
    let b = match &style.background {
        Some(n) => background_term_of(n),
        None => String::new(),
    };
    let c = match &style.color {
        Some(n) => color_term_of(n),
        None => String::new(),
    };
    let mut t = b;
    if t.unicode_len() > 0 && c.unicode_len() > 0 {
        t.append(".");
    }
    t.append(c.as_str());
    t
}

/// The code of a foreground colour term of `console::Style::from_dotted_str`
/// (`Color::ansi_num`), for the eight plain colours.
pub open spec fn console_fg(term: Seq<char>) -> Option<nat> {
    if term == "black"@ {
        Some(0)
    } else if term == "red"@ {
        Some(1)
    } else if term == "green"@ {
        Some(2)
    } else if term == "yellow"@ {
        Some(3)
    } else if term == "blue"@ {
        Some(4)
    } else if term == "magenta"@ {
        Some(5)
    } else if term == "cyan"@ {
        Some(6)
    } else if term == "white"@ {
        Some(7)
    } else {
        None
    }
}

/// The code of a background colour term of `console::Style::from_dotted_str`,
/// for the eight plain colours.
pub open spec fn console_bg(term: Seq<char>) -> Option<nat> {
    if term == "on_black"@ {
        Some(0)
    } else if term == "on_red"@ {
        Some(1)
    } else if term == "on_green"@ {
        Some(2)
    } else if term == "on_yellow"@ {
        Some(3)
    } else if term == "on_blue"@ {
        Some(4)
    } else if term == "on_magenta"@ {
        Some(5)
    } else if term == "on_cyan"@ {
        Some(6)
    } else if term == "on_white"@ {
        Some(7)
    } else {
        None
    }
}

/// Whether a part of a dotted style description is empty or a plain colour.
pub open spec fn plain_part(p: Seq<char>) -> bool {
    p.len() == 0 || console_fg(p) is Some || console_bg(p) is Some
}

/// The part of `s` before its dot and the part after it (all of `s` and
/// nothing when it has no dot).
pub open spec fn dotted_parts(s: Seq<char>) -> (Seq<char>, Seq<char>) {
    if s.contains('.') {
        let i = choose|i: int| 0 <= i < s.len() && s[i] == '.';
        (s.take(i), s.skip(i + 1))
    } else {
        (s, Seq::empty())
    }
}

/// Whether `s` is a style description of at most one foreground and one
/// background plain colour: at most one dot, and plain parts around it.
pub open spec fn plain_description(s: Seq<char>) -> bool {
    &&& forall|i: int, j: int|
        0 <= i < s.len() && 0 <= j < s.len() && s[i] == '.' && s[j] == '.' ==> i == j
    &&& plain_part(dotted_parts(s).0)
    &&& plain_part(dotted_parts(s).1)
}

/// The foreground code that a plain description sets: that of the later part
/// when it names one, else that of the earlier.
pub open spec fn description_fg(s: Seq<char>) -> Option<nat> {
    let (p, q) = dotted_parts(s);
    if console_fg(q) is Some {
        console_fg(q)
    } else {
        console_fg(p)
    }
}

/// The background code that a plain description sets.
pub open spec fn description_bg(s: Seq<char>) -> Option<nat> {
    let (p, q) = dotted_parts(s);
    if console_bg(q) is Some {
        console_bg(q)
    } else {
        console_bg(p)
    }
}

/// `text` written with the ANSI codes of a foreground and a background
/// plain colour: `ESC[3Nm`, then `ESC[4Nm`, then the text, then `ESC[0m`
/// when a code was written.
pub open spec fn ansi_text(fg: Option<nat>, bg: Option<nat>, text: Seq<char>) -> Seq<char> {
    let f = match fg {
        Some(n) => seq!['\x1b', '[', '3', digit_char(n), 'm'],
        None => Seq::empty(),
    };
    let b = match bg {
        Some(n) => seq!['\x1b', '[', '4', digit_char(n), 'm'],
        None => Seq::empty(),
    };
    let reset = if fg is Some || bg is Some {
        seq!['\x1b', '[', '0', 'm']
    } else {
        Seq::empty()
    };
    f + b + text + reset
}

/// The foreground code of a banner colour name: black, red, green, blue and
/// white are offered.
pub open spec fn banner_fg(name: Option<Seq<char>>) -> Option<nat> {
    match name {
        Some(n) => if n == "black"@ {
            Some(0)
        } else if n == "white"@ {
            Some(7)
        } else if n == "red"@ {
            Some(1)
        } else if n == "green"@ {
            Some(2)
        } else if n == "blue"@ {
            Some(4)
        } else {
            None
        },
        None => None,
    }
}

/// The background code of a banner background name: red, green, yellow and
/// cyan are offered.
pub open spec fn banner_bg(name: Option<Seq<char>>) -> Option<nat> {
    match name {
        Some(n) => if n == "cyan"@ {
            Some(6)
        } else if n == "green"@ {
            Some(2)
        } else if n == "red"@ {
            Some(1)
        } else if n == "yellow"@ {
            Some(3)
        } else {
            None
        },
        None => None,
    }
}

/// Calls `console::Style::from_dotted_str(terms)`, sets
/// `force_styling(colours)`, applies the style to `text` and renders it with
/// `to_string`. With colours forced on, the rendering is the ANSI codes of
/// the foreground and background that the description sets around the
/// text; with colours forced off, it is the text itself. The description is
/// one of at most one foreground and one background plain colour.
#[verifier::external_body]
fn console_styled(terms: &str, text: &str, colours: bool) -> (r: String)
    requires
        plain_description(terms@),
    ensures
        colours ==> r@ == ansi_text(description_fg(terms@), description_bg(terms@), text@),
        !colours ==> r@ == text@,
{
    console::Style::from_dotted_str(terms).force_styling(colours).apply_to(text).to_string()
}

/// Calls `console::colors_enabled`: whether colours are written to the
/// standard output. The environment and the terminal decide, so nothing is
/// claimed of the answer.
#[verifier::external_body]
pub(crate) fn colours_enabled() -> (b: bool) {
    console::colors_enabled()
}

/// Lengths and letters of the colour terms, enough to tell them apart, and
/// that none holds a dot.
proof fn lemma_colour_words()
    ensures
        "black"@.len() == 5,
        "black"@[0] == 'b',
        "black"@[3] == 'c',
        !"black"@.contains('.'),
        "red"@.len() == 3,
        "red"@[0] == 'r',
        !"red"@.contains('.'),
        "green"@.len() == 5,
        "green"@[0] == 'g',
        "green"@[3] == 'e',
        !"green"@.contains('.'),
        "yellow"@.len() == 6,
        "yellow"@[0] == 'y',
        "yellow"@[3] == 'l',
        !"yellow"@.contains('.'),
        "blue"@.len() == 4,
        "blue"@[0] == 'b',
        "blue"@[3] == 'e',
        !"blue"@.contains('.'),
        "magenta"@.len() == 7,
        "magenta"@[0] == 'm',
        "magenta"@[3] == 'e',
        !"magenta"@.contains('.'),
        "cyan"@.len() == 4,
        "cyan"@[0] == 'c',
        "cyan"@[3] == 'n',
        !"cyan"@.contains('.'),
        "white"@.len() == 5,
        "white"@[0] == 'w',
        "white"@[3] == 't',
        !"white"@.contains('.'),
        "on_black"@.len() == 8,
        "on_black"@[0] == 'o',
        "on_black"@[3] == 'b',
        !"on_black"@.contains('.'),
        "on_red"@.len() == 6,
        "on_red"@[0] == 'o',
        "on_red"@[3] == 'r',
        !"on_red"@.contains('.'),
        "on_green"@.len() == 8,
        "on_green"@[0] == 'o',
        "on_green"@[3] == 'g',
        !"on_green"@.contains('.'),
        "on_yellow"@.len() == 9,
        "on_yellow"@[0] == 'o',
        "on_yellow"@[3] == 'y',
        !"on_yellow"@.contains('.'),
        "on_blue"@.len() == 7,
        "on_blue"@[0] == 'o',
        "on_blue"@[3] == 'b',
        !"on_blue"@.contains('.'),
        "on_magenta"@.len() == 10,
        "on_magenta"@[0] == 'o',
        "on_magenta"@[3] == 'm',
        !"on_magenta"@.contains('.'),
        "on_cyan"@.len() == 7,
        "on_cyan"@[0] == 'o',
        "on_cyan"@[3] == 'c',
        !"on_cyan"@.contains('.'),
        "on_white"@.len() == 8,
        "on_white"@[0] == 'o',
        "on_white"@[3] == 'w',
        !"on_white"@.contains('.'),
{
    reveal_strlit("black");
    reveal_strlit("red");
    reveal_strlit("green");
    reveal_strlit("yellow");
    reveal_strlit("blue");
    reveal_strlit("magenta");
    reveal_strlit("cyan");
    reveal_strlit("white");
    reveal_strlit("on_black");
    reveal_strlit("on_red");
    reveal_strlit("on_green");
    reveal_strlit("on_yellow");
    reveal_strlit("on_blue");
    reveal_strlit("on_magenta");
    reveal_strlit("on_cyan");
    reveal_strlit("on_white");
    lemma_no_dot("black"@);
    lemma_no_dot("red"@);
    lemma_no_dot("green"@);
    lemma_no_dot("yellow"@);
    lemma_no_dot("blue"@);
    lemma_no_dot("magenta"@);
    lemma_no_dot("cyan"@);
    lemma_no_dot("white"@);
    lemma_no_dot("on_black"@);
    lemma_no_dot("on_red"@);
    lemma_no_dot("on_green"@);
    lemma_no_dot("on_yellow"@);
    lemma_no_dot("on_blue"@);
    lemma_no_dot("on_magenta"@);
    lemma_no_dot("on_cyan"@);
    lemma_no_dot("on_white"@);
}

/// A word of at most ten letters, none of them a dot, holds no dot.
proof fn lemma_no_dot(t: Seq<char>)
    requires
        t.len() <= 10,
        t.len() > 0 ==> t[0] != '.',
        t.len() > 1 ==> t[1] != '.',
        t.len() > 2 ==> t[2] != '.',
        t.len() > 3 ==> t[3] != '.',
        t.len() > 4 ==> t[4] != '.',
        t.len() > 5 ==> t[5] != '.',
        t.len() > 6 ==> t[6] != '.',
        t.len() > 7 ==> t[7] != '.',
        t.len() > 8 ==> t[8] != '.',
        t.len() > 9 ==> t[9] != '.',
    ensures
        !t.contains('.'),
{
    if t.contains('.') {
        let i = choose|i: int| 0 <= i < t.len() && t[i] == '.';
        if i == 0 {} else if i == 1 {} else if i == 2 {} else if i == 3 {} else if i == 4 {}
        else if i == 5 {} else if i == 6 {} else if i == 7 {} else if i == 8 {} else {}
    }
}

/// A colour term holds no dot, sets no background and the foreground of its
/// colour name.
proof fn lemma_color_term(name: Seq<char>)
    ensures
        !color_term(name).contains('.'),
        console_bg(color_term(name)) is None,
        console_fg(color_term(name)) == banner_fg(Some(name)),
{
    lemma_colour_words();
    assert(!Seq::<char>::empty().contains('.'));
}

/// A background term holds no dot, sets no foreground and the background of
/// its name.
proof fn lemma_background_term(name: Seq<char>)
    ensures
        !background_term(name).contains('.'),
        console_fg(background_term(name)) is None,
        console_bg(background_term(name)) == banner_bg(Some(name)),
{
    lemma_colour_words();
    assert(!Seq::<char>::empty().contains('.'));
}

/// The description of a banner style is plain, and sets the foreground of
/// its colour and the background of its background.
proof fn lemma_style_terms(background: Option<Seq<char>>, color: Option<Seq<char>>)
    ensures
        plain_description(style_terms(background, color)),
        description_fg(style_terms(background, color)) == banner_fg(color),
        description_bg(style_terms(background, color)) == banner_bg(background),
{
    let b = match background {
        Some(n) => background_term(n),
        None => Seq::empty(),
    };
    let c = match color {
        Some(n) => color_term(n),
        None => Seq::empty(),
    };
    lemma_colour_words();
    assert(console_fg(Seq::<char>::empty()) is None);
    assert(console_bg(Seq::<char>::empty()) is None);
    if let Some(n) = background {
        lemma_background_term(n);
    }
    if let Some(n) = color {
        lemma_color_term(n);
    }
    assert(!b.contains('.'));
    assert(!c.contains('.'));
    assert(console_fg(b) is None);
    assert(console_bg(c) is None);
    let s = style_terms(background, color);
    if b.len() > 0 && c.len() > 0 {
        reveal_strlit(".");
        let dot = "."@;
        assert(dot =~= seq!['.']);
        assert(s =~= b + seq!['.'] + c);
        assert(s[b.len() as int] == '.');
        assert forall|i: int| 0 <= i < s.len() && s[i] == '.' implies i == b.len() by {
            if i < b.len() {
                assert(s[i] == b[i]);
                assert(b.contains(b[i]));
            } else if i > b.len() {
                assert(s[i] == c[i - b.len() - 1]);
                assert(c.contains(c[i - b.len() - 1]));
            }
        }
        assert(s.contains('.'));
        let i = choose|i: int| 0 <= i < s.len() && s[i] == '.';
        assert(i == b.len());
        assert(s.take(i) =~= b);
        assert(s.skip(i + 1) =~= c);
    } else {
        assert(s =~= b + c);
        assert(!s.contains('.')) by {
            if s.contains('.') {
                let i = choose|i: int| 0 <= i < s.len() && s[i] == '.';
                if b.len() == 0 {
                    assert(s =~= c);
                    assert(c.contains(c[i]));
                } else {
                    assert(s =~= b);
                    assert(b.contains(b[i]));
                }
            }
        }
        assert(dotted_parts(s) == (s, Seq::<char>::empty()));
        if b.len() == 0 {
            assert(s =~= c);
        } else {
            assert(s =~= b);
        }
    }
}

/// `text` in the colours of `style_opt`, with colours written or not as
/// `colours` says: unchanged when there is no style or colours are off,
/// else written with the ANSI codes of the colour and the background asked
/// for.
pub fn style_text(text: &str, style_opt: &Option<TextStyle>, colours: bool) -> (r: String)
    ensures
        style_opt is None ==> r@ == text@,
        style_opt matches Some(st) ==> r@ == (if colours {
            ansi_text(
                banner_fg(crate::variables::opt_view(st.color)),
                banner_bg(crate::variables::opt_view(st.background)),
                text@,
            )
        } else {
            text@
        }),
{
    match style_opt {
        None => String::from_str(text),
        Some(st) => {
            let terms = text_style_terms(st);
            proof {
                lemma_style_terms(
                    crate::variables::opt_view(st.background),
                    crate::variables::opt_view(st.color),
                );
            }
            console_styled(terms.as_str(), text, colours)
        },
    }
}

/// `text` in the colours of `style_opt`; unchanged when there is no style.
/// With a style, the text is written with the ANSI codes of the colour and
/// the background asked for when the console takes colours (which the
/// environment decides, as `console::colors_enabled` reports it), and is
/// unchanged otherwise.
pub fn apply_text_style(text: &str, style_opt: &Option<TextStyle>) -> (r: String)
    ensures
        style_opt is None ==> r@ == text@,
        style_opt matches Some(st) ==> (r@ == text@ || r@ == ansi_text(
            banner_fg(crate::variables::opt_view(st.color)),
            banner_bg(crate::variables::opt_view(st.background)),
            text@,
        )),
{
    let colours = colours_enabled();
    style_text(text, style_opt, colours)
}

} // verus!
