//! Console status lines: a label followed by a coloured `[ok]` or `[no]`.

use vstd::prelude::*;
use vstd::string::StringExecFns;
use vstd::string::StrSliceExecFns;
use colored::Colorize;

verus! {

/// `char::is_whitespace`: the Unicode `White_Space` property.
pub open spec fn is_white_space(c: char) -> bool {
    ||| '\u{9}' <= c <= '\u{d}'
    ||| c == ' '
    ||| c == '\u{85}'
    ||| c == '\u{a0}'
    ||| c == '\u{1680}'
    ||| '\u{2000}' <= c <= '\u{200a}'
    ||| c == '\u{2028}'
    ||| c == '\u{2029}'
    ||| c == '\u{202f}'
    ||| c == '\u{205f}'
    ||| c == '\u{3000}'
}

pub open spec fn trim_start(s: Seq<char>) -> Seq<char>
    decreases s.len(),
{
    if s.len() > 0 && is_white_space(s[0]) {
        trim_start(s.drop_first())
    } else {
        s
    }
}

pub open spec fn trim_end(s: Seq<char>) -> Seq<char>
    decreases s.len(),
{
    if s.len() > 0 && is_white_space(s.last()) {
        trim_end(s.drop_last())
    } else {
        s
    }
}

/// `s` without its leading and trailing white space.
pub open spec fn spec_trim(s: Seq<char>) -> Seq<char> {
    trim_end(trim_start(s))
}

fn is_ws(c: char) -> (r: bool)
    ensures
        r == is_white_space(c),
{
    ('\u{9}' <= c && c <= '\u{d}') || c == ' ' || c == '\u{85}' || c == '\u{a0}' || c == '\u{1680}'
        || ('\u{2000}' <= c && c <= '\u{200a}') || c == '\u{2028}' || c == '\u{2029}' || c
        == '\u{202f}' || c == '\u{205f}' || c == '\u{3000}'
}

/// The string without leading and trailing white space, as
/// `char::is_whitespace` defines it (what `str::trim` gives).
fn trim(s: &str) -> (t: &str)
    ensures
        t@ == spec_trim(s@),
{
    let len = s.unicode_len();
    let mut i: usize = 0;
    assert(s@.subrange(0, len as int) =~= s@);
    while i < len && is_ws(s.get_char(i))
        invariant
            i <= len,
            len == s@.len(),
            trim_start(s@) == trim_start(s@.subrange(i as int, len as int)),
        decreases len - i,
    {
        proof {
            let x = s@.subrange(i as int, len as int);
            assert(x.drop_first() =~= s@.subrange(i + 1, len as int));
        }
        i = i + 1;
    }
    proof {
        let x = s@.subrange(i as int, len as int);
        assert(trim_start(x) == x);
        assert(trim_start(s@) == x);
    }
    let mut j: usize = len;
    while j > i && is_ws(s.get_char(j - 1))
        invariant
            i <= j <= len,
            len == s@.len(),
            trim_end(s@.subrange(i as int, len as int)) == trim_end(s@.subrange(i as int, j as int)),
        decreases j - i,
    {
        proof {
            let x = s@.subrange(i as int, j as int);
            assert(x.drop_last() =~= s@.subrange(i as int, j - 1));
        }
        j = j - 1;
    }
    proof {
        let x = s@.subrange(i as int, j as int);
        assert(trim_end(x) == x);
    }
    s.substring_char(i, j)
}

/// The word that a status shows: `ok` or `no`.
pub open spec fn status_word(ok: bool) -> Seq<char> {
    if ok {
        "ok"@
    } else {
        "no"@
    }
}

/// The colour a status word is painted in: green for `ok`, yellow for `no`.
pub open spec fn status_color(ok: bool) -> Seq<char> {
    if ok {
        "green"@
    } else {
        "yellow"@
    }
}

/// The terminal foreground code of the two colours that status words use.
pub open spec fn fg_code(color: Seq<char>) -> Seq<char> {
    if color == "green"@ {
        "32"@
    } else {
        "33"@
    }
}

/// `word` in bold and the foreground colour `color`, as terminal escape
/// sequences: the style, the word, and a reset.
pub open spec fn bold_painted(word: Seq<char>, color: Seq<char>) -> Seq<char> {
    "\u{1b}[1;"@ + fg_code(color) + "m"@ + word + "\u{1b}[0m"@
}

/// `word.color(color).bold()` from `colored`, rendered with `format!`.
/// `colored` writes the word unchanged when colouring is off, and otherwise
/// between the style sequence (`1` for bold, `32` for green or `33` for
/// yellow) and a reset. Whether colouring is on depends on the environment
/// (`CLICOLOR`, `CLICOLOR_FORCE`, `NO_COLOR`) and on whether standard output
/// is a terminal, so the contract states both outcomes. With colours on,
/// `colored` also inserts its style after every reset sequence inside the
/// word; a word without an escape character has none, which the `requires`
/// asks for, together with one of the two colours.
#[verifier::external_body]
fn paint_bold(word: &str, color: &str) -> (tag: String)
    requires
        !word@.contains('\u{1b}'),
        color@ == "green"@ || color@ == "yellow"@,
    ensures
        tag@ == word@ || tag@ == bold_painted(word@, color@),
{
    format!("{}", word.color(color).bold())
}

/// The status line for `label` with the tag `tag`: a good status shows the
/// trimmed label and ends in a carriage return (the next line overwrites
/// it); a bad one keeps the label as it is and ends the line.
pub open spec fn status_text(label: Seq<char>, ok: bool, tag: Seq<char>) -> Seq<char> {
    if ok {
        spec_trim(label) + " ["@ + tag + "]\r"@
    } else {
        label + " ["@ + tag + "]\n"@
    }
}

/// Builds the status line for `label` from an already rendered tag.
pub fn compose_status(label: &str, ok: bool, tag: &str) -> (s: String)
    ensures
        s@ == status_text(label@, ok, tag@),
{
    let mut s = if ok {
        trim(label).to_owned()
    } else {
        label.to_owned()
    };
    s.append(" [");
    s.append(tag);
    if ok {
        s.append("]\r");
    } else {
        s.append("]\n");
    }
    s
}

/// The status line that `status` prints for `label`.
pub fn status_line(label: &str, ok: bool) -> (s: String)
    ensures
        exists|tag: Seq<char>|
            (tag == status_word(ok) || tag == bold_painted(status_word(ok), status_color(ok)))
                && s@ == status_text(label@, ok, tag),
{
    let (word, color) = if ok {
        ("ok", "green")
    } else {
        ("no", "yellow")
    };
    proof {
        reveal_strlit("ok");
        reveal_strlit("no");
        assert(word@ == status_word(ok));
        assert(color@ == status_color(ok));
        assert(!word@.contains('\u{1b}')) by {
            if word@.contains('\u{1b}') {
                let i = choose|i: int| 0 <= i < word@.len() && word@[i] == '\u{1b}';
                assert(word@[i] != '\u{1b}');
            }
        }
    }
    let tag = paint_bold(word, color);
    let s = compose_status(label, ok, tag.as_str());
    assert((tag@ == status_word(ok) || tag@ == bold_painted(status_word(ok), status_color(ok)))
        && s@ == status_text(label@, ok, tag@));
    s
}

} // verus!
