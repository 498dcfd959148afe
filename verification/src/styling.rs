//! Terminal styling used in user-facing messages.
//!
//! Styles are ANSI SGR sequences; every styled run ends with [`RESET`].

use vstd::prelude::*;

use crate::text::{append_chars, append_str};

verus! {

/// Emoji that opens an error message.
pub const ERROR_EMOJI: &'static str = "\u{274C}";

/// Emoji that opens a hint.
pub const HINT_EMOJI: &'static str = "\u{1F4A1}";

/// Emoji that opens an informational message.
pub const INFO_EMOJI: &'static str = "\u{26AA}";

/// Emoji that opens a warning.
pub const WARNING_EMOJI: &'static str = "\u{1F7E1}";

/// Red text.
pub const ERROR: &'static str = "\x1b[31m";

/// Bold red text.
pub const ERROR_BOLD: &'static str = "\x1b[1;31m";

/// Dimmed text.
pub const HINT: &'static str = "\x1b[2m";

/// Bold dimmed text.
pub const HINT_BOLD: &'static str = "\x1b[1;2m";

/// Yellow text.
pub const WARNING: &'static str = "\x1b[33m";

/// Bold text (the `<bold>` markup).
pub const BOLD: &'static str = "\x1b[1m";

/// End of a bold run (the `</>` closing `<bold>`).
pub const BOLD_END: &'static str = "\x1b[22m";

/// Cyan text (the `<cyan>` markup).
pub const CYAN: &'static str = "\x1b[36m";

/// Bright black text (the `<bright-black>` markup).
pub const BRIGHT_BLACK: &'static str = "\x1b[90m";

/// End of a colored run (the `</>` closing a color).
pub const COLOR_END: &'static str = "\x1b[39m";

/// Clears every style.
pub const RESET: &'static str = "\x1b[0m";

/// The prefix of each line in a gutter block.
pub const GUTTER: &'static str = "  ";

/// `text` indented as a block: every line is prefixed with [`GUTTER`], and
/// the block ends with a newline.
pub open spec fn gutter_spec(text: Seq<char>) -> Seq<char> {
    GUTTER@ + indent_rest(text) + seq!['\n']
}

/// `text` with [`GUTTER`] inserted after every newline.
pub open spec fn indent_rest(text: Seq<char>) -> Seq<char>
    decreases text.len(),
{
    if text.len() == 0 {
        Seq::empty()
    } else if text[0] == '\n' {
        seq!['\n'] + GUTTER@ + indent_rest(text.drop_first())
    } else {
        seq![text[0]] + indent_rest(text.drop_first())
    }
}

/// Render `text` as an indented block (see [`gutter_spec`]).
pub fn format_with_gutter(text: &[char]) -> (r: Vec<char>)
    ensures
        r@ == gutter_spec(text@),
{
    let mut r: Vec<char> = Vec::new();
    append_str(&mut r, GUTTER);
    let ghost head = r@;
    let mut i: usize = 0;
    assert(text@.skip(0) =~= text@);
    assert(r@ + indent_rest(text@.skip(0)) =~= head + indent_rest(text@));
    while i < text.len()
        invariant
            i <= text@.len(),
            head == GUTTER@,
            r@ + indent_rest(text@.skip(i as int)) == head + indent_rest(text@),
        decreases text.len() - i,
    {
        let ghost rest = text@.skip(i as int);
        assert(rest.drop_first() =~= text@.skip(i + 1));
        let ghost before = r@;
        if text[i] == '\n' {
            r.push('\n');
            append_str(&mut r, GUTTER);
            assert(before + indent_rest(rest) =~= r@ + indent_rest(rest.drop_first()));
        } else {
            r.push(text[i]);
            assert(before + indent_rest(rest) =~= r@ + indent_rest(rest.drop_first()));
        }
        i = i + 1;
    }
    assert(text@.skip(text@.len() as int) =~= Seq::<char>::empty());
    r.push('\n');
    r
}

/// A warning line: `text` after the warning emoji, in warning colour.
pub open spec fn warning_message_spec(text: Seq<char>) -> Seq<char> {
    WARNING_EMOJI@ + " "@ + WARNING@ + text + RESET@
}

/// Style `text` as a warning.
pub fn warning_message(text: &[char]) -> (r: Vec<char>)
    ensures
        r@ == warning_message_spec(text@),
{
    let mut r: Vec<char> = Vec::new();
    append_str(&mut r, WARNING_EMOJI);
    append_str(&mut r, " ");
    append_str(&mut r, WARNING);
    append_chars(&mut r, text);
    append_str(&mut r, RESET);
    assert(r@ =~= warning_message_spec(text@));
    r
}

/// `text` in bold (the `<bold>text</>` markup).
pub open spec fn bold_spec(text: Seq<char>) -> Seq<char> {
    BOLD@ + text + BOLD_END@
}

} // verus!
