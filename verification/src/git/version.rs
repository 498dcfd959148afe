//! Detection and validation of the Git executable's version.
//!
//! `git --version` output is parsed into a [`GitInfo`]; running git is the
//! caller's part.

use vstd::prelude::*;
use crate::git::error::Error;
use crate::text::{
    append_chars, append_str, decimal, decimal_chars, digits_value, find_first, from_chars, is_digit,
    is_ws, is_ws_exec, lemma_digits_value_prefix, lemma_split_acc_nonempty, nth, nth_field,
    split_chars, split_seq, strip_prefix, strip_prefix_chars, to_chars, trim, trim_chars,
    trim_start, vviews, all_digits, slice_copy,
};

verus! {

/// A Git version, ordered by (major, minor, patch).
#[derive(Debug, Clone, Copy, PartialEq, Eq, PartialOrd, Ord, Structural)]
pub struct GitVersion {
    pub major: u32,
    pub minor: u32,
    pub patch: u32,
}

impl GitVersion {
    /// A version from its components.
    pub fn new(major: u32, minor: u32, patch: u32) -> (r: GitVersion)
        ensures
            r == (GitVersion { major, minor, patch }),
    {
        GitVersion { major, minor, patch }
    }

    /// `major.minor.patch`.
    pub fn display(&self) -> (r: String)
        ensures
            r@ == version_text(*self),
    {
        let mut v = decimal_chars(self.major as u64);
        v.push('.');
        let m = decimal_chars(self.minor as u64);
        append_chars(&mut v, m.as_slice());
        v.push('.');
        let p = decimal_chars(self.patch as u64);
        append_chars(&mut v, p.as_slice());
        from_chars(v.as_slice())
    }
}

/// `major.minor.patch`.
pub open spec fn version_text(v: GitVersion) -> Seq<char> {
    decimal(v.major as nat) + seq!['.'] + decimal(v.minor as nat) + seq!['.'] + decimal(v.patch as nat)
}

/// Whether `v` is at least `min` in (major, minor, patch) order.
pub open spec fn version_at_least(v: GitVersion, min: GitVersion) -> bool {
    ||| v.major > min.major
    ||| (v.major == min.major && v.minor > min.minor)
    ||| (v.major == min.major && v.minor == min.minor && v.patch >= min.patch)
}

/// The oldest Git this program supports.
pub open spec fn minimum_git_version() -> GitVersion {
    GitVersion { major: 2, minor: 43, patch: 0 }
}

/// What `git --version` reported.
#[derive(Debug, Clone, PartialEq, Eq)]
pub struct GitInfo {
    /// The parsed version.
    pub version: GitVersion,
    /// The text after `git version `.
    pub reported_version: String,
}

/// `format!("{:?}", s)`: the string in quotes with Rust's escapes.
pub uninterp spec fn str_debug(s: Seq<char>) -> Seq<char>;

/// `<str as Debug>::fmt`, through `format!`: the result is the debug form
/// of the argument.
#[verifier::external_body]
fn debug_quoted(s: &str) -> (r: String)
    ensures
        r@ == str_debug(s@),
{
    format!("{:?}", s)
}

/// `std::str::from_utf8`: `Some` exactly for valid UTF-8, holding the
/// decoded characters.
#[verifier::external_body]
fn str_from_utf8(bytes: &[u8]) -> (r: Option<String>)
    ensures
        r is Some <==> vstd::utf8::valid_utf8(bytes@),
        r matches Some(s) ==> s@ == vstd::utf8::decode_utf8(bytes@),
{
    match std::str::from_utf8(bytes) {
        Ok(s) => Some(s.to_string()),
        Err(_) => None,
    }
}

/// The leading ASCII digits of `s`.
pub open spec fn digit_prefix(s: Seq<char>) -> Seq<char>
    decreases s.len(),
{
    if s.len() > 0 && is_digit(s[0]) {
        seq![s[0]] + digit_prefix(s.drop_first())
    } else {
        Seq::empty()
    }
}

/// `s` up to its first whitespace character.
pub open spec fn until_ws(s: Seq<char>) -> Seq<char>
    decreases s.len(),
{
    if s.len() > 0 && !is_ws(s[0]) {
        seq![s[0]] + until_ws(s.drop_first())
    } else {
        Seq::empty()
    }
}

/// The first whitespace-separated word of `s`, if it has one.
pub open spec fn first_word(s: Seq<char>) -> Option<Seq<char>> {
    if trim_start(s).len() == 0 {
        None
    } else {
        Some(until_ws(trim_start(s)))
    }
}

/// The value of a version component: its leading digits, if there are some
/// and they fit in a `u32`.
pub open spec fn component_value(c: Seq<char>) -> Option<u32> {
    let d = digit_prefix(c);
    if d.len() > 0 && digits_value(d) <= u32::MAX {
        Some(digits_value(d) as u32)
    } else {
        None
    }
}

/// The error text for output that is not `git version <version>`.
pub open spec fn unexpected_response() -> Seq<char> {
    "git --version returned an unexpected response"@
}

/// The outcome of parsing `git --version` output: the version after
/// `git version ` (one line, not empty), whose first word has a major and a
/// minor component (dot-separated, leading digits, within `u32`) and
/// optionally a patch component (0 when absent or unreadable).
pub open spec fn parse_git_version_spec(stdout: Seq<u8>) -> Result<(GitVersion, Seq<char>), Seq<char>> {
    if !vstd::utf8::valid_utf8(stdout) {
        Err("git --version returned invalid UTF-8"@)
    } else {
        let t = trim(vstd::utf8::decode_utf8(stdout));
        match strip_prefix(t, "git version "@) {
            None => Err(unexpected_response()),
            Some(reported) => if reported.len() == 0 || reported.contains('\r') || reported.contains('\n') {
                Err(unexpected_response())
            } else {
                match first_word(reported) {
                    None => Err(unexpected_response()),
                    Some(word) => {
                        let parts = split_seq(word, '.');
                        let component = |k: int| match nth(parts, k) {
                            Some(c) => c,
                            None => Seq::<char>::empty(),
                        };
                        match component_value(component(0)) {
                            None => Err("could not parse Git major version from "@ + str_debug(reported)),
                            Some(major) => match component_value(component(1)) {
                                None => Err("could not parse Git minor version from "@ + str_debug(reported)),
                                Some(minor) => {
                                    let patch = match component_value(component(2)) {
                                        Some(p) => p,
                                        None => 0u32,
                                    };
                                    Ok((GitVersion { major, minor, patch }, reported))
                                },
                            },
                        }
                    },
                }
            },
        }
    }
}

fn digit_prefix_exec(s: &[char]) -> (r: Vec<char>)
    ensures
        r@ == digit_prefix(s@),
        forall|k: int| 0 <= k < r@.len() ==> is_digit(#[trigger] r@[k]),
{
    let mut i: usize = 0;
    while i < s.len() && '0' <= s[i] && s[i] <= '9'
        invariant
            i <= s@.len(),
            forall|k: int| 0 <= k < i ==> is_digit(s@[k]),
        decreases s.len() - i,
    {
        i = i + 1;
    }
    proof {
        lemma_digit_prefix_at(s@, i as int);
    }
    let r = slice_copy(s, 0, i);
    assert(s@.subrange(0, i as int) =~= s@.take(i as int));
    r
}

proof fn lemma_digit_prefix_at(s: Seq<char>, i: int)
    requires
        0 <= i <= s.len(),
        forall|k: int| 0 <= k < i ==> is_digit(s[k]),
        i == s.len() || !is_digit(s[i]),
    ensures
        digit_prefix(s) == s.take(i),
    decreases i,
{
    if i > 0 {
        lemma_digit_prefix_at(s.drop_first(), i - 1);
        assert(s.take(i) =~= seq![s[0]] + s.drop_first().take(i - 1));
    } else {
        assert(s.take(0) =~= Seq::<char>::empty());
    }
}

proof fn lemma_until_ws_at(s: Seq<char>, i: int)
    requires
        0 <= i <= s.len(),
        forall|k: int| 0 <= k < i ==> !is_ws(s[k]),
        i == s.len() || is_ws(s[i]),
    ensures
        until_ws(s) == s.take(i),
    decreases i,
{
    if i > 0 {
        lemma_until_ws_at(s.drop_first(), i - 1);
        assert(s.take(i) =~= seq![s[0]] + s.drop_first().take(i - 1));
    } else {
        assert(s.take(0) =~= Seq::<char>::empty());
    }
}

pub fn first_word_exec(s: &[char]) -> (r: Option<Vec<char>>)
    ensures
        r matches Some(w) ==> first_word(s@) == Some(w@),
        r is None ==> first_word(s@) is None,
{
    let mut a: usize = 0;
    assert(s@.skip(0) =~= s@);
    while a < s.len() && is_ws_exec(s[a])
        invariant
            a <= s@.len(),
            trim_start(s@) == trim_start(s@.skip(a as int)),
        decreases s.len() - a,
    {
        assert(s@.skip(a as int).drop_first() =~= s@.skip(a + 1));
        a = a + 1;
    }
    assert(trim_start(s@) == s@.skip(a as int));
    if a == s.len() {
        return None;
    }
    let mut b: usize = a;
    while b < s.len() && !is_ws_exec(s[b])
        invariant
            a <= b <= s@.len(),
            forall|k: int| a <= k < b ==> !is_ws(s@[k]),
        decreases s.len() - b,
    {
        b = b + 1;
    }
    proof {
        let t = s@.skip(a as int);
        assert forall|k: int| 0 <= k < b - a implies !is_ws(t[k]) by {
            assert(t[k] == s@[a + k]);
        }
        lemma_until_ws_at(t, b - a);
        assert(t.take(b - a) =~= s@.subrange(a as int, b as int));
    }
    Some(slice_copy(s, a, b))
}

fn component_value_exec(c: &[char]) -> (r: Option<u32>)
    ensures
        r == component_value(c@),
{
    let d = digit_prefix_exec(c);
    if d.len() == 0 {
        return None;
    }
    let mut acc: u64 = 0;
    let mut i: usize = 0;
    while i < d.len()
        invariant
            i <= d@.len(),
            d@ == digit_prefix(c@),
            forall|k: int| 0 <= k < d@.len() ==> is_digit(d@[k]),
            acc == digits_value(d@.take(i as int)),
            acc <= u32::MAX,
        decreases d.len() - i,
    {
        assert(is_digit(d@[i as int]));
        let digit = (d[i] as u32 - '0' as u32) as u64;
        assert(d@.take(i + 1).drop_last() =~= d@.take(i as int));
        assert(d@.take(i + 1).last() == d@[i as int]);
        acc = acc * 10 + digit;
        if acc > 0xFFFF_FFFFu64 {
            proof {
                lemma_digits_value_prefix(d@, i + 1, d@.len() as int);
                assert(d@.take(d@.len() as int) =~= d@);
            }
            return None;
        }
        i = i + 1;
    }
    assert(d@.take(d@.len() as int) =~= d@);
    Some(acc as u32)
}

fn err_text(v: Vec<char>) -> (r: Error)
    ensures
        r matches Error::Other(m) && m@ == v@,
{
    Error::Other(from_chars(v.as_slice()))
}

fn component_of(parts: &Vec<Vec<char>>, k: usize) -> (r: Vec<char>)
    ensures
        r@ == (match nth(vviews(parts@), k as int) {
            Some(c) => c,
            None => Seq::<char>::empty(),
        }),
{
    match nth_field(parts, k) {
        Some(c) => c,
        None => Vec::new(),
    }
}

/// Parse `git --version` output.
pub fn parse_git_version(stdout: &[u8]) -> (r: Result<GitInfo, Error>)
    ensures
        match parse_git_version_spec(stdout@) {
            Ok((v, reported)) => r matches Ok(info) && info.version == v && info.reported_version@ == reported,
            Err(m) => r matches Err(Error::Other(e)) && e@ == m,
        },
{
    let text = match str_from_utf8(stdout) {
        Some(s) => s,
        None => return Err(err_text(to_chars("git --version returned invalid UTF-8"))),
    };
    let chars = to_chars(text.as_str());
    let t = trim_chars(chars.as_slice());
    let prefix = to_chars("git version ");
    let reported = match strip_prefix_chars(t.as_slice(), prefix.as_slice()) {
        Some(r) => r,
        None => return Err(err_text(to_chars("git --version returned an unexpected response"))),
    };
    if reported.len() == 0 || crate::text::contains_char(reported.as_slice(), '\r')
        || crate::text::contains_char(reported.as_slice(), '\n') {
        return Err(err_text(to_chars("git --version returned an unexpected response")));
    }
    let word = match first_word_exec(reported.as_slice()) {
        Some(w) => w,
        None => return Err(err_text(to_chars("git --version returned an unexpected response"))),
    };
    let parts = split_chars(word.as_slice(), '.');
    let reported_str = from_chars(reported.as_slice());
    let major_c = component_of(&parts, 0);
    let major = match component_value_exec(major_c.as_slice()) {
        Some(m) => m,
        None => {
            let mut v = to_chars("could not parse Git major version from ");
            let q = debug_quoted(reported_str.as_str());
            append_str(&mut v, q.as_str());
            return Err(err_text(v));
        },
    };
    let minor_c = component_of(&parts, 1);
    let minor = match component_value_exec(minor_c.as_slice()) {
        Some(m) => m,
        None => {
            let mut v = to_chars("could not parse Git minor version from ");
            let q = debug_quoted(reported_str.as_str());
            append_str(&mut v, q.as_str());
            return Err(err_text(v));
        },
    };
    let patch_c = component_of(&parts, 2);
    let patch = match component_value_exec(patch_c.as_slice()) {
        Some(p) => p,
        None => 0,
    };
    Ok(GitInfo { version: GitVersion { major, minor, patch }, reported_version: reported_str })
}

/// The outcome of running `git --version`: a failed run is an error,
/// otherwise its output is parsed.
pub fn git_info_from_output(success: bool, stdout: &[u8]) -> (r: Result<GitInfo, Error>)
    ensures
        !success ==> (r matches Err(Error::Other(m)) && m@ == "git --version failed"@),
        success ==> (match parse_git_version_spec(stdout@) {
            Ok((v, reported)) => r matches Ok(info) && info.version == v && info.reported_version@ == reported,
            Err(m) => r matches Err(Error::Other(e)) && e@ == m,
        }),
{
    if !success {
        return Err(err_text(to_chars("git --version failed")));
    }
    parse_git_version(stdout)
}

/// The version string the Git executable reported.
pub fn git_version(info: &GitInfo) -> (r: String)
    ensures
        r@ == info.reported_version@,
{
    crate::git::remote_ref::info::copy_string(&info.reported_version)
}

/// Reject Git versions older than the supported minimum (2.43.0).
pub fn require_minimum_git(info: &GitInfo) -> (r: Result<(), Error>)
    ensures
        version_at_least(info.version, minimum_git_version()) ==> r is Ok,
        !version_at_least(info.version, minimum_git_version()) ==> (r matches Err(Error::Other(m))
            && m@ == "Git "@ + version_text(info.version) + " is unsupported; Worktrunk requires Git "@
            + version_text(minimum_git_version()) + " or newer"@),
{
    let min = GitVersion::new(2, 43, 0);
    let v = info.version;
    let ok = v.major > min.major || (v.major == min.major && v.minor > min.minor) || (v.major
        == min.major && v.minor == min.minor && v.patch >= min.patch);
    if ok {
        return Ok(());
    }
    let mut m = to_chars("Git ");
    let vt = v.display();
    append_str(&mut m, vt.as_str());
    append_str(&mut m, " is unsupported; Worktrunk requires Git ");
    let mt = min.display();
    append_str(&mut m, mt.as_str());
    append_str(&mut m, " or newer");
    Err(err_text(m))
}

} // verus!
