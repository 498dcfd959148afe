//! Counts as the copy-progress spinner shows them.

use vstd::prelude::*;
use crate::text::{append_str, decimal, decimal_chars, from_chars};
use crate::styling::{COLOR_END, CYAN};

verus! {

/// The first `i` digits of `d`, with a `,` before each digit that starts a
/// group of three counted from the right.
pub open spec fn grouped_prefix(d: Seq<char>, i: int) -> Seq<char>
    decreases i,
{
    if i <= 0 {
        Seq::empty()
    } else {
        let prev = grouped_prefix(d, i - 1);
        let with_sep = if i - 1 > 0 && (d.len() - (i - 1)) % 3 == 0 {
            prev.push(',')
        } else {
            prev
        };
        with_sep.push(d[i - 1])
    }
}

/// `n` in decimal with thousands separated by commas (`1,234,567`).
pub open spec fn format_count_spec(n: nat) -> Seq<char> {
    grouped_prefix(decimal(n), decimal(n).len() as int)
}

/// Format a count with thousands separators.
pub fn format_count(n: usize) -> (r: String)
    ensures
        r@ == format_count_spec(n as nat),
{
    let d = decimal_chars(n as u64);
    let mut out: Vec<char> = Vec::new();
    let mut i: usize = 0;
    while i < d.len()
        invariant
            i <= d@.len(),
            d@ == decimal(n as nat),
            out@ == grouped_prefix(d@, i as int),
        decreases d.len() - i,
    {
        if i > 0 && (d.len() - i) % 3 == 0 {
            out.push(',');
        }
        out.push(d[i]);
        i = i + 1;
    }
    from_chars(out.as_slice())
}


/// The spinner line: the spinner frame in cyan, then `Copying...` before
/// the first file, else the file count (with `file` or `files`) and the
/// size copied so far.
pub open spec fn progress_line_spec(spinner: char, files: nat, size: Seq<char>) -> Seq<char> {
    CYAN@ + seq![spinner] + COLOR_END@ + if files == 0 {
        " Copying..."@
    } else {
        " Copying "@ + format_count_spec(files) + (if files == 1 { " file"@ } else { " files"@ }) + " \u{b7} "@ + size
    }
}

/// The spinner line for `files` files and `size` (the formatted byte count).
pub fn progress_line(spinner: char, files: usize, size: &str) -> (r: String)
    ensures
        r@ == progress_line_spec(spinner, files as nat, size@),
{
    let mut v: Vec<char> = Vec::new();
    append_str(&mut v, CYAN);
    v.push(spinner);
    append_str(&mut v, COLOR_END);
    if files == 0 {
        append_str(&mut v, " Copying...");
    } else {
        append_str(&mut v, " Copying ");
        let c = format_count(files);
        append_str(&mut v, c.as_str());
        if files == 1 {
            append_str(&mut v, " file");
        } else {
            append_str(&mut v, " files");
        }
        append_str(&mut v, " \u{b7} ");
        append_str(&mut v, size);
    }
    from_chars(v.as_slice())
}

} // verus!
