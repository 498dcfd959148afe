//! Character-sequence helpers shared by the parsers.
//!
//! Text is processed as `Vec<char>` (or `Vec<u8>` for raw git output), whose
//! view is the same `Seq` that Verus uses as the view of `str` and `String`.
//! Each helper is specified by a spec function over sequences that reads the
//! way the corresponding `str` method is documented.

use vstd::prelude::*;

verus! {

// ---------------------------------------------------------------------------
// Specifications
// ---------------------------------------------------------------------------

/// Splitting on a delimiter: `cur` is the field being collected, `rest` the
/// input not yet read. Every delimiter closes a field; the end closes the last.
pub open spec fn split_acc<A>(cur: Seq<A>, rest: Seq<A>, d: A) -> Seq<Seq<A>>
    decreases rest.len(),
{
    if rest.len() == 0 {
        seq![cur]
    } else if rest[0] == d {
        seq![cur] + split_acc(Seq::empty(), rest.drop_first(), d)
    } else {
        split_acc(cur.push(rest[0]), rest.drop_first(), d)
    }
}

/// `s.split(d)`: the fields between delimiters; always at least one field.
pub open spec fn split_seq<A>(s: Seq<A>, d: A) -> Seq<Seq<A>> {
    split_acc(Seq::empty(), s, d)
}

/// The fields of `parts` that are not empty, in order.
pub open spec fn drop_empty<A>(parts: Seq<Seq<A>>) -> Seq<Seq<A>>
    decreases parts.len(),
{
    if parts.len() == 0 {
        Seq::empty()
    } else if parts[0].len() == 0 {
        drop_empty(parts.drop_first())
    } else {
        seq![parts[0]] + drop_empty(parts.drop_first())
    }
}

/// Index of the first `d` in `s` at or after `from`.
pub open spec fn find_from<A>(s: Seq<A>, d: A, from: int) -> Option<int>
    decreases s.len() - from,
{
    if from < 0 || from >= s.len() {
        None
    } else if s[from] == d {
        Some(from)
    } else {
        find_from(s, d, from + 1)
    }
}

/// Index of the first `d` in `s`.
pub open spec fn find_first<A>(s: Seq<A>, d: A) -> Option<int> {
    find_from(s, d, 0)
}

/// `s.split_once(d)`: the parts before and after the first `d`.
pub open spec fn split_once_seq<A>(s: Seq<A>, d: A) -> Option<(Seq<A>, Seq<A>)> {
    match find_first(s, d) {
        Some(i) => Some((s.take(i), s.skip(i + 1))),
        None => None,
    }
}

/// `s.starts_with(p)`.
pub open spec fn starts_with<A>(s: Seq<A>, p: Seq<A>) -> bool {
    p.len() <= s.len() && s.take(p.len() as int) == p
}

/// `s.ends_with(p)`.
pub open spec fn ends_with<A>(s: Seq<A>, p: Seq<A>) -> bool {
    p.len() <= s.len() && s.skip(s.len() - p.len()) == p
}

/// `s.strip_prefix(p)`.
pub open spec fn strip_prefix<A>(s: Seq<A>, p: Seq<A>) -> Option<Seq<A>> {
    if starts_with(s, p) {
        Some(s.skip(p.len() as int))
    } else {
        None
    }
}

/// `s.strip_suffix(p)`.
pub open spec fn strip_suffix<A>(s: Seq<A>, p: Seq<A>) -> Option<Seq<A>> {
    if ends_with(s, p) {
        Some(s.take(s.len() - p.len()))
    } else {
        None
    }
}

/// `s.strip_prefix(p).unwrap_or(s)`.
pub open spec fn strip_prefix_or_keep<A>(s: Seq<A>, p: Seq<A>) -> Seq<A> {
    if starts_with(s, p) {
        s.skip(p.len() as int)
    } else {
        s
    }
}

/// `char::is_whitespace`: the Unicode `White_Space` property.
pub open spec fn is_ws(c: char) -> bool {
    ||| c == ' ' || c == '\t' || c == '\n' || c == '\r'
    ||| c == '\u{0B}' || c == '\u{0C}' || c == '\u{85}' || c == '\u{A0}'
    ||| c == '\u{1680}' || ('\u{2000}' <= c && c <= '\u{200A}')
    ||| c == '\u{2028}' || c == '\u{2029}' || c == '\u{202F}' || c == '\u{205F}'
    ||| c == '\u{3000}'
}

/// `s.trim_start()`.
pub open spec fn trim_start(s: Seq<char>) -> Seq<char>
    decreases s.len(),
{
    if s.len() > 0 && is_ws(s[0]) {
        trim_start(s.drop_first())
    } else {
        s
    }
}

/// `s.trim_end()`.
pub open spec fn trim_end(s: Seq<char>) -> Seq<char>
    decreases s.len(),
{
    if s.len() > 0 && is_ws(s.last()) {
        trim_end(s.drop_last())
    } else {
        s
    }
}

/// `s.trim()`.
pub open spec fn trim(s: Seq<char>) -> Seq<char> {
    trim_end(trim_start(s))
}

/// A terminated line loses its `\r` before the `\n`, if it has one.
pub open spec fn strip_cr(line: Seq<char>) -> Seq<char> {
    if line.len() > 0 && line.last() == '\r' {
        line.drop_last()
    } else {
        line
    }
}

/// `s.lines()`: the `\n`-separated lines, each terminated line without its
/// trailing `\r`; a final empty line (after a final `\n`) is not a line.
pub open spec fn lines_seq(s: Seq<char>) -> Seq<Seq<char>> {
    let parts = split_seq(s, '\n');
    let terminated = parts.drop_last().map_values(|l: Seq<char>| strip_cr(l));
    if parts.last().len() == 0 {
        terminated
    } else {
        terminated.push(parts.last())
    }
}

/// An ASCII decimal digit.
pub open spec fn is_digit(c: char) -> bool {
    '0' <= c && c <= '9'
}

/// The value of a string of decimal digits.
pub open spec fn digits_value(s: Seq<char>) -> nat
    decreases s.len(),
{
    if s.len() == 0 {
        0
    } else {
        digits_value(s.drop_last()) * 10 + ((s.last() as int - '0' as int) as nat)
    }
}

/// All characters are decimal digits.
pub open spec fn all_digits(s: Seq<char>) -> bool {
    forall|i: int| 0 <= i < s.len() ==> is_digit(#[trigger] s[i])
}

/// `s.parse::<u32>()`: an optional `+`, then one or more decimal digits
/// whose value fits in a `u32`.
pub open spec fn parse_u32_spec(s: Seq<char>) -> Option<u32> {
    let d = sign_stripped(s);
    if d.len() > 0 && all_digits(d) && digits_value(d) <= u32::MAX {
        Some(digits_value(d) as u32)
    } else {
        None
    }
}

/// The digits of an unsigned number: `s` without one leading `+`.
pub open spec fn sign_stripped(s: Seq<char>) -> Seq<char> {
    if s.len() > 0 && s[0] == '+' {
        s.drop_first()
    } else {
        s
    }
}

/// Decimal rendering of a natural number, without leading zeros (`0` is `"0"`).
pub open spec fn decimal(n: nat) -> Seq<char>
    decreases n,
{
    if n < 10 {
        seq![digit_char(n)]
    } else {
        decimal(n / 10).push(digit_char(n % 10))
    }
}

/// The ASCII digit for `d < 10`.
pub open spec fn digit_char(d: nat) -> char {
    ((d + '0' as nat) as u32) as char
}

/// The views of a sequence of character vectors.
pub open spec fn vviews<A>(r: Seq<Vec<A>>) -> Seq<Seq<A>> {
    r.map_values(|v: Vec<A>| v@)
}

// ---------------------------------------------------------------------------
// Conversions
// ---------------------------------------------------------------------------

/// Copy the characters of `s` into a vector.
pub fn to_chars(s: &str) -> (v: Vec<char>)
    ensures
        v@ == s@,
{
    let mut v: Vec<char> = Vec::new();
    for c in it: s.chars()
        invariant
            v@ == it.seq().take(it.index() as int),
            it.seq() == s@,
    {
        v.push(c);
    }
    v
}

/// `String::push`: appends one character.
#[verifier::external_body]
fn push_char(s: &mut String, c: char)
    ensures
        final(s)@ == old(s)@.push(c),
{
    s.push(c);
}

/// Build a `String` holding exactly the characters of `v`.
pub fn from_chars(v: &[char]) -> (s: String)
    ensures
        s@ == v@,
{
    let mut s = String::new();
    let mut i: usize = 0;
    while i < v.len()
        invariant
            i <= v.len(),
            s@ == v@.take(i as int),
        decreases v.len() - i,
    {
        push_char(&mut s, v[i]);
        assert(v@.take(i + 1) == v@.take(i as int).push(v@[i as int]));
        i = i + 1;
    }
    assert(v@.take(v.len() as int) == v@);
    s
}

/// Characters of a string literal or other `&str`, as a `String`.
pub fn string_of(s: &str) -> (r: String)
    ensures
        r@ == s@,
{
    let v = to_chars(s);
    from_chars(v.as_slice())
}

// ---------------------------------------------------------------------------
// Executable helpers
// ---------------------------------------------------------------------------

/// Split a character slice on `d`.
pub fn split_chars(s: &[char], d: char) -> (r: Vec<Vec<char>>)
    ensures
        vviews(r@) == split_seq(s@, d),
{
    let mut r: Vec<Vec<char>> = Vec::new();
    let mut cur: Vec<char> = Vec::new();
    let mut i: usize = 0;
    assert(s@.skip(0) =~= s@);
    assert(vviews(r@) =~= Seq::<Seq<char>>::empty());
    while i < s.len()
        invariant
            i <= s.len(),
            vviews(r@) + split_acc(cur@, s@.skip(i as int), d) == split_seq(s@, d),
        decreases s.len() - i,
    {
        let ghost rest = s@.skip(i as int);
        assert(rest.drop_first() =~= s@.skip(i + 1));
        let ghost cur_old = cur@;
        if s[i] == d {
            let ghost old_r = vviews(r@);
            r.push(cur);
            assert(vviews(r@) =~= old_r.push(cur@));
            cur = Vec::new();
            assert(old_r.push(cur_old) + split_acc(cur@, rest.drop_first(), d) =~= old_r + (seq![cur_old] + split_acc(Seq::empty(), rest.drop_first(), d)));
        } else {
            cur.push(s[i]);
        }
        i = i + 1;
    }
    assert(s@.skip(s.len() as int) =~= Seq::<char>::empty());
    let ghost old_r = vviews(r@);
    r.push(cur);
    assert(vviews(r@) =~= old_r.push(cur@));
    r
}

/// Split a byte slice on `d`.
pub fn split_bytes(s: &[u8], d: u8) -> (r: Vec<Vec<u8>>)
    ensures
        vviews(r@) == split_seq(s@, d),
{
    let mut r: Vec<Vec<u8>> = Vec::new();
    let mut cur: Vec<u8> = Vec::new();
    let mut i: usize = 0;
    assert(s@.skip(0) =~= s@);
    assert(vviews(r@) =~= Seq::<Seq<u8>>::empty());
    while i < s.len()
        invariant
            i <= s.len(),
            vviews(r@) + split_acc(cur@, s@.skip(i as int), d) == split_seq(s@, d),
        decreases s.len() - i,
    {
        let ghost rest = s@.skip(i as int);
        assert(rest.drop_first() =~= s@.skip(i + 1));
        let ghost cur_old = cur@;
        if s[i] == d {
            let ghost old_r = vviews(r@);
            r.push(cur);
            assert(vviews(r@) =~= old_r.push(cur@));
            cur = Vec::new();
            assert(old_r.push(cur_old) + split_acc(cur@, rest.drop_first(), d) =~= old_r + (seq![cur_old] + split_acc(Seq::empty(), rest.drop_first(), d)));
        } else {
            cur.push(s[i]);
        }
        i = i + 1;
    }
    assert(s@.skip(s.len() as int) =~= Seq::<u8>::empty());
    let ghost old_r = vviews(r@);
    r.push(cur);
    assert(vviews(r@) =~= old_r.push(cur@));
    r
}


/// Keep the non-empty fields, in order.
pub fn drop_empty_fields<A>(parts: Vec<Vec<A>>) -> (r: Vec<Vec<A>>)
    ensures
        vviews(r@) == drop_empty(vviews(parts@)),
{
    let ghost all = vviews(parts@);
    let mut r: Vec<Vec<A>> = Vec::new();
    assert(all.skip(0) =~= all);
    for p in it: parts
        invariant
            it.seq() == parts@,
            all == vviews(parts@),
            vviews(r@) + drop_empty(all.skip(it.index() as int)) == drop_empty(all),
    {
        let ghost i = it.index() as int;
        assert(all.skip(i).drop_first() =~= all.skip(i + 1));
        assert(all.skip(i)[0] == p@);
        if p.len() > 0 {
            let ghost old_r = vviews(r@);
            r.push(p);
            assert(vviews(r@) =~= old_r.push(all[i]));
            assert(old_r + drop_empty(all.skip(i)) =~= old_r.push(all[i]) + drop_empty(all.skip(i + 1)));
        }
    }
    assert(all.skip(all.len() as int) =~= Seq::<Seq<A>>::empty());
    r
}


/// A copy of `s[from..to]`.
pub fn slice_copy<A: Copy>(s: &[A], from: usize, to: usize) -> (r: Vec<A>)
    requires
        from <= to <= s@.len(),
    ensures
        r@ == s@.subrange(from as int, to as int),
{
    let mut r: Vec<A> = Vec::new();
    let mut i = from;
    while i < to
        invariant
            from <= i <= to <= s@.len(),
            r@ == s@.subrange(from as int, i as int),
        decreases to - i,
    {
        r.push(s[i]);
        assert(s@.subrange(from as int, i + 1) =~= s@.subrange(from as int, i as int).push(s@[i as int]));
        i = i + 1;
    }
    r
}

/// A copy of `s[from..]`.
pub fn tail<A: Copy>(s: &[A], from: usize) -> (r: Vec<A>)
    requires
        from <= s@.len(),
    ensures
        r@ == s@.skip(from as int),
{
    let r = slice_copy(s, from, s.len());
    assert(s@.subrange(from as int, s@.len() as int) =~= s@.skip(from as int));
    r
}

/// `a == b` for character sequences.
pub fn eq_chars(a: &[char], b: &[char]) -> (r: bool)
    ensures
        r == (a@ == b@),
{
    if a.len() != b.len() {
        return false;
    }
    let mut i: usize = 0;
    while i < a.len()
        invariant
            i <= a@.len() == b@.len(),
            forall|k: int| 0 <= k < i ==> a@[k] == b@[k],
        decreases a.len() - i,
    {
        if a[i] != b[i] {
            return false;
        }
        i = i + 1;
    }
    assert(a@ =~= b@);
    true
}

/// `a == b` for byte sequences.
pub fn eq_bytes(a: &[u8], b: &[u8]) -> (r: bool)
    ensures
        r == (a@ == b@),
{
    if a.len() != b.len() {
        return false;
    }
    let mut i: usize = 0;
    while i < a.len()
        invariant
            i <= a@.len() == b@.len(),
            forall|k: int| 0 <= k < i ==> a@[k] == b@[k],
        decreases a.len() - i,
    {
        if a[i] != b[i] {
            return false;
        }
        i = i + 1;
    }
    assert(a@ =~= b@);
    true
}

/// `s.starts_with(p)` for characters.
pub fn starts_with_chars(s: &[char], p: &[char]) -> (r: bool)
    ensures
        r == starts_with(s@, p@),
{
    if p.len() > s.len() {
        return false;
    }
    let mut i: usize = 0;
    while i < p.len()
        invariant
            i <= p@.len() <= s@.len(),
            forall|k: int| 0 <= k < i ==> s@[k] == p@[k],
        decreases p.len() - i,
    {
        if s[i] != p[i] {
            assert(s@.take(p@.len() as int)[i as int] != p@[i as int]);
            return false;
        }
        i = i + 1;
    }
    assert(s@.take(p@.len() as int) =~= p@);
    true
}

/// `s.starts_with(p)` for bytes.
pub fn starts_with_bytes(s: &[u8], p: &[u8]) -> (r: bool)
    ensures
        r == starts_with(s@, p@),
{
    if p.len() > s.len() {
        return false;
    }
    let mut i: usize = 0;
    while i < p.len()
        invariant
            i <= p@.len() <= s@.len(),
            forall|k: int| 0 <= k < i ==> s@[k] == p@[k],
        decreases p.len() - i,
    {
        if s[i] != p[i] {
            assert(s@.take(p@.len() as int)[i as int] != p@[i as int]);
            return false;
        }
        i = i + 1;
    }
    assert(s@.take(p@.len() as int) =~= p@);
    true
}

/// `s.ends_with(p)` for characters.
pub fn ends_with_chars(s: &[char], p: &[char]) -> (r: bool)
    ensures
        r == ends_with(s@, p@),
{
    if p.len() > s.len() {
        return false;
    }
    let off = s.len() - p.len();
    let mut i: usize = 0;
    while i < p.len()
        invariant
            i <= p@.len() <= s@.len(),
            off + p@.len() == s@.len(),
            s@.len() == s.len(),
            forall|k: int| 0 <= k < i ==> s@[off + k] == p@[k],
        decreases p.len() - i,
    {
        if s[off + i] != p[i] {
            assert(s@.skip(off as int)[i as int] != p@[i as int]);
            return false;
        }
        i = i + 1;
    }
    assert(s@.skip(off as int) =~= p@);
    true
}

/// `s.strip_prefix(p)` for characters.
pub fn strip_prefix_chars(s: &[char], p: &[char]) -> (r: Option<Vec<char>>)
    ensures
        r matches Some(v) ==> strip_prefix(s@, p@) == Some(v@),
        r is None ==> strip_prefix(s@, p@) is None,
{
    if starts_with_chars(s, p) {
        Some(tail(s, p.len()))
    } else {
        None
    }
}

/// `s.strip_suffix(p)` for characters.
pub fn strip_suffix_chars(s: &[char], p: &[char]) -> (r: Option<Vec<char>>)
    ensures
        r matches Some(v) ==> strip_suffix(s@, p@) == Some(v@),
        r is None ==> strip_suffix(s@, p@) is None,
{
    if ends_with_chars(s, p) {
        let v = slice_copy(s, 0, s.len() - p.len());
        assert(s@.subrange(0, s@.len() - p@.len()) =~= s@.take(s@.len() - p@.len()));
        Some(v)
    } else {
        None
    }
}

/// `s.strip_prefix(p).unwrap_or(s)` for characters.
pub fn strip_prefix_or_keep_chars(s: &[char], p: &[char]) -> (r: Vec<char>)
    ensures
        r@ == strip_prefix_or_keep(s@, p@),
{
    match strip_prefix_chars(s, p) {
        Some(v) => v,
        None => slice_copy(s, 0, s.len()),
    }
}

/// Index of the first `d` at or after `from`.
pub fn find_char_from(s: &[char], d: char, from: usize) -> (r: Option<usize>)
    requires
        from <= s@.len(),
    ensures
        r matches Some(i) ==> find_from(s@, d, from as int) == Some(i as int),
        r is None ==> find_from(s@, d, from as int) is None,
{
    let mut i = from;
    while i < s.len()
        invariant
            from <= i <= s@.len(),
            find_from(s@, d, from as int) == find_from(s@, d, i as int),
        decreases s.len() - i,
    {
        if s[i] == d {
            return Some(i);
        }
        i = i + 1;
    }
    None
}

/// Index of the first `d` at or after `from`, in bytes.
pub fn find_byte_from(s: &[u8], d: u8, from: usize) -> (r: Option<usize>)
    requires
        from <= s@.len(),
    ensures
        r matches Some(i) ==> find_from(s@, d, from as int) == Some(i as int),
        r is None ==> find_from(s@, d, from as int) is None,
{
    let mut i = from;
    while i < s.len()
        invariant
            from <= i <= s@.len(),
            find_from(s@, d, from as int) == find_from(s@, d, i as int),
        decreases s.len() - i,
    {
        if s[i] == d {
            return Some(i);
        }
        i = i + 1;
    }
    None
}

/// Whether `d` occurs in `s`.
pub fn contains_char(s: &[char], d: char) -> (r: bool)
    ensures
        r == s@.contains(d),
{
    let mut i: usize = 0;
    while i < s.len()
        invariant
            i <= s@.len(),
            forall|k: int| 0 <= k < i ==> s@[k] != d,
        decreases s.len() - i,
    {
        if s[i] == d {
            assert(s@[i as int] == d);
            return true;
        }
        i = i + 1;
    }
    false
}

/// `s.split_once(d)` for characters.
pub fn split_once_chars(s: &[char], d: char) -> (r: Option<(Vec<char>, Vec<char>)>)
    ensures
        r matches Some((a, b)) ==> split_once_seq(s@, d) == Some((a@, b@)),
        r is None ==> split_once_seq(s@, d) is None,
{
    let n = s.len();
    proof {
        lemma_find_from_bounds(s@, d, 0);
    }
    match find_char_from(s, d, 0) {
        Some(i) => {
            let a = slice_copy(s, 0, i);
            assert(i < n);
            let b = tail(s, i + 1);
            assert(s@.subrange(0, i as int) =~= s@.take(i as int));
            Some((a, b))
        },
        None => None,
    }
}

pub proof fn lemma_find_from_bounds<A>(s: Seq<A>, d: A, from: int)
    ensures
        find_from(s, d, from) matches Some(i) ==> from <= i < s.len() && s[i] == d,
    decreases s.len() - from,
{
    if 0 <= from < s.len() && s[from] != d {
        lemma_find_from_bounds(s, d, from + 1);
    }
}

/// `s.trim()` for characters.
pub fn trim_chars(s: &[char]) -> (r: Vec<char>)
    ensures
        r@ == trim(s@),
{
    let mut a: usize = 0;
    assert(s@.skip(0) =~= s@);
    while a < s.len() && is_ws_exec(s[a])
        invariant
            a <= s@.len(),
            trim_start(s@) == trim_start(s@.skip(a as int)),
        decreases s.len() - a,
    {
        assert(s@.skip(a as int).drop_first() =~= s@.skip(a + 1));
        a = a + 1;
    }
    let mut b: usize = s.len();
    assert(s@.skip(a as int) =~= s@.subrange(a as int, b as int));
    while b > a && is_ws_exec(s[b - 1])
        invariant
            a <= b <= s@.len(),
            trim(s@) == trim_end(s@.subrange(a as int, b as int)),
        decreases b,
    {
        assert(s@.subrange(a as int, b as int).drop_last() =~= s@.subrange(a as int, b - 1));
        b = b - 1;
    }
    slice_copy(s, a, b)
}

/// `char::is_whitespace`.
pub fn is_ws_exec(c: char) -> (r: bool)
    ensures
        r == is_ws(c),
{
    c == ' ' || c == '\t' || c == '\n' || c == '\r' || c == '\u{0B}' || c == '\u{0C}'
        || c == '\u{85}' || c == '\u{A0}' || c == '\u{1680}' || ('\u{2000}' <= c && c
        <= '\u{200A}') || c == '\u{2028}' || c == '\u{2029}' || c == '\u{202F}' || c
        == '\u{205F}' || c == '\u{3000}'
}

/// `s.lines()` for characters.
pub fn lines_chars(s: &[char]) -> (r: Vec<Vec<char>>)
    ensures
        vviews(r@) == lines_seq(s@),
{
    let parts = split_chars(s, '\n');
    let ghost pv = vviews(parts@);
    proof {
        lemma_split_acc_nonempty(Seq::empty(), s@, '\n');
    }
    let n = parts.len();
    let mut r: Vec<Vec<char>> = Vec::new();
    let mut i: usize = 0;
    while i + 1 < n
        invariant
            n == parts@.len() >= 1,
            pv == vviews(parts@),
            i + 1 <= n,
            vviews(r@) == pv.drop_last().map_values(|l: Seq<char>| strip_cr(l)).take(i as int),
        decreases n - i,
    {
        let line = &parts[i];
        let l = line.len();
        let v = if l > 0 && line[l - 1] == '\r' {
            let v = slice_copy(line.as_slice(), 0, l - 1);
            assert(v@ =~= line@.drop_last());
            v
        } else {
            let v = slice_copy(line.as_slice(), 0, l);
            assert(v@ =~= line@);
            v
        };
        let ghost old_r = vviews(r@);
        let ghost full = pv.drop_last().map_values(|l: Seq<char>| strip_cr(l));
        assert(v@ == strip_cr(pv[i as int]));
        assert(full[i as int] == strip_cr(pv[i as int]));
        r.push(v);
        assert(vviews(r@) =~= old_r.push(v@));
        assert(full.take(i + 1) =~= full.take(i as int).push(full[i as int]));
        i = i + 1;
    }
    assert(pv.drop_last().map_values(|l: Seq<char>| strip_cr(l)).take((n - 1) as int)
        =~= pv.drop_last().map_values(|l: Seq<char>| strip_cr(l)));
    let last = &parts[n - 1];
    if last.len() > 0 {
        let v = slice_copy(last.as_slice(), 0, last.len());
        assert(last@.subrange(0, last@.len() as int) =~= last@);
        let ghost old_r = vviews(r@);
        r.push(v);
        assert(vviews(r@) =~= old_r.push(pv.last()));
    }
    r
}

/// Splitting always yields at least one field.
pub proof fn lemma_split_acc_nonempty<A>(cur: Seq<A>, rest: Seq<A>, d: A)
    ensures
        split_acc(cur, rest, d).len() >= 1,
    decreases rest.len(),
{
    if rest.len() > 0 {
        if rest[0] == d {
            lemma_split_acc_nonempty(Seq::empty(), rest.drop_first(), d);
        } else {
            lemma_split_acc_nonempty(cur.push(rest[0]), rest.drop_first(), d);
        }
    }
}


/// The ASCII digit for `d < 10`.
pub fn digit_char_exec(d: u64) -> (c: char)
    requires
        d < 10,
    ensures
        c == digit_char(d as nat),
{
    let c = if d == 0 { '0' } else if d == 1 { '1' } else if d == 2 { '2' } else if d == 3 {
        '3'
    } else if d == 4 { '4' } else if d == 5 { '5' } else if d == 6 { '6' } else if d == 7 {
        '7'
    } else if d == 8 { '8' } else { '9' };
    c
}

/// Decimal rendering of `n` (`n.to_string()`).
pub fn decimal_chars(n: u64) -> (r: Vec<char>)
    ensures
        r@ == decimal(n as nat),
    decreases n,
{
    if n < 10 {
        let mut v = Vec::new();
        v.push(digit_char_exec(n));
        assert(v@ =~= seq![digit_char(n as nat)]);
        v
    } else {
        let mut v = decimal_chars(n / 10);
        v.push(digit_char_exec(n % 10));
        v
    }
}

pub proof fn lemma_digits_value_prefix(s: Seq<char>, j: int, k: int)
    requires
        0 <= j <= k <= s.len(),
    ensures
        digits_value(s.take(j)) <= digits_value(s.take(k)),
    decreases k - j,
{
    if j < k {
        lemma_digits_value_prefix(s, j, k - 1);
        assert(s.take(k).drop_last() =~= s.take(k - 1));
    }
}

/// `s.parse::<u32>()` for characters.
pub fn parse_u32_chars(s: &[char]) -> (r: Option<u32>)
    ensures
        r == parse_u32_spec(s@),
{
    let start: usize = if s.len() > 0 && s[0] == '+' { 1 } else { 0 };
    let ghost d = s@.skip(start as int);
    assert(d =~= sign_stripped(s@));
    if start >= s.len() {
        return None;
    }
    let mut i = start;
    while i < s.len()
        invariant
            start <= i <= s@.len(),
            d == s@.skip(start as int),
            d == sign_stripped(s@),
            forall|k: int| start <= k < i ==> is_digit(s@[k]),
        decreases s.len() - i,
    {
        if !('0' <= s[i] && s[i] <= '9') {
            assert(d[i - start] == s@[i as int]);
            assert(!is_digit(d[i - start]));
            return None;
        }
        i = i + 1;
    }
    assert(all_digits(d));
    let mut acc: u64 = 0;
    let mut i = start;
    assert(d.take(0) =~= Seq::<char>::empty());
    while i < s.len()
        invariant
            start <= i <= s@.len(),
            d == s@.skip(start as int),
            d == sign_stripped(s@),
            all_digits(d),
            acc as nat == digits_value(d.take(i - start)),
            acc <= u32::MAX,
        decreases s.len() - i,
    {
        assert(d[i - start] == s@[i as int]);
        assert(is_digit(d[i - start]));
        let digit = (s[i] as u32 - '0' as u32) as u64;
        assert(d.take(i - start + 1).drop_last() =~= d.take(i - start));
        assert(d.take(i - start + 1).last() == d[i - start]);
        acc = acc * 10 + digit;
        if acc > 0xffff_ffff {
            proof {
                lemma_digits_value_prefix(d, i - start + 1, d.len() as int);
                assert(d.take(d.len() as int) =~= d);
            }
            return None;
        }
        i = i + 1;
    }
    assert(d.take(d.len() as int) =~= d);
    Some(acc as u32)
}


/// Append the characters of `s` to `out`.
pub fn append_str(out: &mut Vec<char>, s: &str)
    ensures
        final(out)@ == old(out)@ + s@,
{
    let mut v = to_chars(s);
    out.append(&mut v);
}

/// Append the characters of `s` to `out`.
pub fn append_chars(out: &mut Vec<char>, s: &[char])
    ensures
        final(out)@ == old(out)@ + s@,
{
    let mut v = slice_copy(s, 0, s.len());
    assert(s@.subrange(0, s@.len() as int) =~= s@);
    out.append(&mut v);
}


/// `s.trim_end()` for characters.
pub fn trim_end_chars(s: &[char]) -> (r: Vec<char>)
    ensures
        r@ == trim_end(s@),
{
    let mut b: usize = s.len();
    assert(s@.subrange(0, b as int) =~= s@);
    while b > 0 && is_ws_exec(s[b - 1])
        invariant
            b <= s@.len(),
            trim_end(s@) == trim_end(s@.subrange(0, b as int)),
        decreases b,
    {
        assert(s@.subrange(0, b as int).drop_last() =~= s@.subrange(0, b - 1));
        b = b - 1;
    }
    slice_copy(s, 0, b)
}


/// Index of the last `d` in `s`.
pub open spec fn rfind<A>(s: Seq<A>, d: A) -> Option<int>
    decreases s.len(),
{
    if s.len() == 0 {
        None
    } else if s.last() == d {
        Some(s.len() - 1)
    } else {
        rfind(s.drop_last(), d)
    }
}

/// Index of the last `d` in `s`.
pub fn rfind_char(s: &[char], d: char) -> (r: Option<usize>)
    ensures
        r matches Some(i) ==> rfind(s@, d) == Some(i as int) && i < s@.len() && s@[i as int] == d,
        r is None ==> rfind(s@, d) is None,
{
    let mut b: usize = s.len();
    assert(s@.take(b as int) =~= s@);
    while b > 0
        invariant
            b <= s@.len(),
            rfind(s@, d) == rfind(s@.take(b as int), d),
        decreases b,
    {
        if s[b - 1] == d {
            return Some(b - 1);
        }
        assert(s@.take(b as int).drop_last() =~= s@.take(b - 1));
        b = b - 1;
    }
    None
}

/// ASCII lowercase of one character.
pub open spec fn ascii_lower(c: char) -> char {
    if 'A' <= c && c <= 'Z' {
        ((c as u32) + 32) as char
    } else {
        c
    }
}

/// `s.to_ascii_lowercase()`.
pub open spec fn ascii_lower_seq(s: Seq<char>) -> Seq<char> {
    s.map_values(|c: char| ascii_lower(c))
}

/// ASCII lowercase of one character.
pub fn ascii_lower_char(c: char) -> (r: char)
    ensures
        r == ascii_lower(c),
{
    if 'A' <= c && c <= 'Z' {
        let code: u32 = c as u32;
        let lower: u8 = (code + 32) as u8;
        lower as char
    } else {
        c
    }
}

/// `s.to_ascii_lowercase()` for characters.
pub fn ascii_lower_chars(s: &[char]) -> (r: Vec<char>)
    ensures
        r@ == ascii_lower_seq(s@),
{
    let mut r: Vec<char> = Vec::new();
    let mut i: usize = 0;
    while i < s.len()
        invariant
            i <= s@.len(),
            r@ == ascii_lower_seq(s@).take(i as int),
        decreases s.len() - i,
    {
        r.push(ascii_lower_char(s[i]));
        assert(ascii_lower_seq(s@).take(i + 1) =~= ascii_lower_seq(s@).take(i as int).push(
            ascii_lower(s@[i as int]),
        ));
        i = i + 1;
    }
    assert(ascii_lower_seq(s@).take(s@.len() as int) =~= ascii_lower_seq(s@));
    r
}

/// `s.trim_end_matches(d)`.
pub open spec fn trim_end_matches(s: Seq<char>, d: char) -> Seq<char>
    decreases s.len(),
{
    if s.len() > 0 && s.last() == d {
        trim_end_matches(s.drop_last(), d)
    } else {
        s
    }
}

/// `s.trim_end_matches(d)` for characters.
pub fn trim_end_matches_chars(s: &[char], d: char) -> (r: Vec<char>)
    ensures
        r@ == trim_end_matches(s@, d),
{
    let mut b: usize = s.len();
    assert(s@.subrange(0, b as int) =~= s@);
    while b > 0 && s[b - 1] == d
        invariant
            b <= s@.len(),
            trim_end_matches(s@, d) == trim_end_matches(s@.subrange(0, b as int), d),
        decreases b,
    {
        assert(s@.subrange(0, b as int).drop_last() =~= s@.subrange(0, b - 1));
        b = b - 1;
    }
    slice_copy(s, 0, b)
}

/// The `k`-th field of `parts`, if there is one (`parts.nth(k)`).
pub open spec fn nth<A>(parts: Seq<A>, k: int) -> Option<A> {
    if 0 <= k < parts.len() {
        Some(parts[k])
    } else {
        None
    }
}

/// The `k`-th field of `parts`, copied, if there is one.
pub fn nth_field(parts: &Vec<Vec<char>>, k: usize) -> (r: Option<Vec<char>>)
    ensures
        r matches Some(v) ==> nth(vviews(parts@), k as int) == Some(v@),
        r is None ==> nth(vviews(parts@), k as int) is None,
{
    if k < parts.len() {
        let p = &parts[k];
        let v = slice_copy(p.as_slice(), 0, p.len());
        assert(p@.subrange(0, p@.len() as int) =~= p@);
        Some(v)
    } else {
        None
    }
}

/// Whether `parts` has a field equal to `x`.
pub fn contains_field(parts: &Vec<Vec<char>>, x: &[char]) -> (r: bool)
    ensures
        r == vviews(parts@).contains(x@),
{
    let mut i: usize = 0;
    while i < parts.len()
        invariant
            i <= parts@.len(),
            forall|k: int| 0 <= k < i ==> vviews(parts@)[k] != x@,
        decreases parts.len() - i,
    {
        if eq_chars(parts[i].as_slice(), x) {
            assert(vviews(parts@)[i as int] == x@);
            return true;
        }
        i = i + 1;
    }
    false
}

/// Whether every character is an ASCII digit.
pub fn all_digits_exec(s: &[char]) -> (r: bool)
    ensures
        r == all_digits(s@),
{
    let mut i: usize = 0;
    while i < s.len()
        invariant
            i <= s@.len(),
            forall|k: int| 0 <= k < i ==> is_digit(s@[k]),
        decreases s.len() - i,
    {
        if !('0' <= s[i] && s[i] <= '9') {
            assert(!is_digit(s@[i as int]));
            return false;
        }
        i = i + 1;
    }
    true
}


/// `s.trim_start_matches(d)`.
pub open spec fn trim_start_matches(s: Seq<char>, d: char) -> Seq<char>
    decreases s.len(),
{
    if s.len() > 0 && s[0] == d {
        trim_start_matches(s.drop_first(), d)
    } else {
        s
    }
}

/// `s.trim_start_matches(d)` for characters.
pub fn trim_start_matches_chars(s: &[char], d: char) -> (r: Vec<char>)
    ensures
        r@ == trim_start_matches(s@, d),
{
    let mut a: usize = 0;
    assert(s@.skip(0) =~= s@);
    while a < s.len() && s[a] == d
        invariant
            a <= s@.len(),
            trim_start_matches(s@, d) == trim_start_matches(s@.skip(a as int), d),
        decreases s.len() - a,
    {
        assert(s@.skip(a as int).drop_first() =~= s@.skip(a + 1));
        a = a + 1;
    }
    tail(s, a)
}

/// `s.strip_suffix(p).unwrap_or(s)`.
pub open spec fn strip_suffix_or_keep<A>(s: Seq<A>, p: Seq<A>) -> Seq<A> {
    if ends_with(s, p) {
        s.take(s.len() - p.len())
    } else {
        s
    }
}

/// `s.strip_suffix(p).unwrap_or(s)` for characters.
pub fn strip_suffix_or_keep_chars(s: &[char], p: &[char]) -> (r: Vec<char>)
    ensures
        r@ == strip_suffix_or_keep(s@, p@),
{
    match strip_suffix_chars(s, p) {
        Some(r) => r,
        None => {
            assert(s@.subrange(0, s@.len() as int) =~= s@);
            slice_copy(s, 0, s.len())
        },
    }
}

/// The parts before and after the last `d`, if `s` holds one
/// (`s.rsplit_once(d)`).
pub open spec fn rsplit_once_seq<A>(s: Seq<A>, d: A) -> Option<(Seq<A>, Seq<A>)> {
    match rfind(s, d) {
        Some(i) => Some((s.take(i), s.skip(i + 1))),
        None => None,
    }
}

/// `s.rsplit_once(d)` for characters.
pub fn rsplit_once_chars(s: &[char], d: char) -> (r: Option<(Vec<char>, Vec<char>)>)
    ensures
        r matches Some((a, b)) ==> rsplit_once_seq(s@, d) == Some((a@, b@)),
        r is None ==> rsplit_once_seq(s@, d) is None,
{
    match rfind_char(s, d) {
        Some(i) => {
            assert(i < s.len());
            let a = slice_copy(s, 0, i);
            let b = tail(s, i + 1);
            assert(s@.subrange(0, i as int) =~= s@.take(i as int));
            Some((a, b))
        },
        None => None,
    }
}


/// The text after the last `d`, or all of `s` when it holds none.
pub open spec fn after_last_or_all(s: Seq<char>, d: char) -> Seq<char> {
    match rfind(s, d) {
        Some(i) => s.skip(i + 1),
        None => s,
    }
}


/// `trim_start` leaves no leading whitespace.
pub proof fn lemma_trim_start_clean(s: Seq<char>)
    ensures
        trim_start(s).len() == 0 || !is_ws(trim_start(s)[0]),
    decreases s.len(),
{
    if s.len() > 0 && is_ws(s[0]) {
        lemma_trim_start_clean(s.drop_first());
    }
}

/// `trim_end` keeps a prefix and leaves no trailing whitespace.
pub proof fn lemma_trim_end_prefix(s: Seq<char>)
    ensures
        trim_end(s) == s.take(trim_end(s).len() as int),
        trim_end(s).len() <= s.len(),
        trim_end(s).len() == 0 || !is_ws(trim_end(s).last()),
    decreases s.len(),
{
    if s.len() > 0 && is_ws(s.last()) {
        lemma_trim_end_prefix(s.drop_last());
        assert(s.drop_last().take(trim_end(s).len() as int) =~= s.take(trim_end(s).len() as int));
    } else {
        assert(s.take(s.len() as int) =~= s);
    }
}

/// Trimming twice is trimming once.
pub proof fn lemma_trim_idempotent(s: Seq<char>)
    ensures
        trim(trim(s)) == trim(s),
{
    let t = trim_start(s);
    lemma_trim_start_clean(s);
    let e = trim_end(t);
    lemma_trim_end_prefix(t);
    if e.len() > 0 {
        assert(e[0] == t[0]);
    }
    assert(trim_start(e) == e);
    lemma_trim_end_prefix(e);
    assert(trim_end(e) == e);
}


/// Whether `p` occurs in `s` at position `i`.
pub open spec fn occurs_at<A>(s: Seq<A>, p: Seq<A>, i: int) -> bool {
    0 <= i && i + p.len() <= s.len() && s.subrange(i, i + p.len()) == p
}

/// `s.contains(p)` for a substring `p`.
pub open spec fn contains_sub<A>(s: Seq<A>, p: Seq<A>) -> bool {
    exists|i: int| #[trigger] occurs_at(s, p, i)
}

fn occurs_at_exec(s: &[char], p: &[char], at: usize) -> (r: bool)
    requires
        at + p@.len() <= s@.len(),
    ensures
        r == occurs_at(s@, p@, at as int),
{
    let mut i: usize = 0;
    while i < p.len()
        invariant
            i <= p@.len(),
            at + p@.len() <= s@.len(),
            forall|k: int| 0 <= k < i ==> s@[at + k] == p@[k],
        decreases p.len() - i,
    {
        assert(at + i < s.len());
        if s[at + i] != p[i] {
            assert(s@.subrange(at as int, at + p@.len())[i as int] != p@[i as int]);
            return false;
        }
        i = i + 1;
    }
    assert(s@.subrange(at as int, at + p@.len()) =~= p@);
    true
}

/// `s.contains(p)` for a character substring.
pub fn contains_sub_chars(s: &[char], p: &[char]) -> (r: bool)
    ensures
        r == contains_sub(s@, p@),
{
    if p.len() > s.len() {
        assert forall|i: int| !occurs_at(s@, p@, i) by {}
        return false;
    }
    let last = s.len() - p.len();
    let mut at: usize = 0;
    loop
        invariant
            at <= last,
            last + p@.len() == s@.len(),
            forall|i: int| 0 <= i < at ==> !occurs_at(s@, p@, i),
        ensures
            forall|i: int| 0 <= i <= last ==> !occurs_at(s@, p@, i),
        decreases last - at,
    {
        if occurs_at_exec(s, p, at) {
            return true;
        }
        if at == last {
            break;
        }
        at = at + 1;
    }
    assert forall|i: int| !occurs_at(s@, p@, i) by {
        if 0 <= i <= last {
        }
    }
    false
}

/// `s.contains(p)` for a literal `p`.
pub fn contains_str(s: &[char], p: &str) -> (r: bool)
    ensures
        r == contains_sub(s@, p@),
{
    let pv = to_chars(p);
    contains_sub_chars(s, pv.as_slice())
}


/// `s.parse::<i64>()`: an optional sign, then one or more decimal digits
/// whose value fits in an `i64`.
pub open spec fn parse_i64_spec(s: Seq<char>) -> Option<i64> {
    if s.len() > 0 && s[0] == '-' {
        let d = s.drop_first();
        if d.len() > 0 && all_digits(d) && digits_value(d) <= 0x8000_0000_0000_0000 {
            Some((0 - digits_value(d)) as i64)
        } else {
            None
        }
    } else {
        let d = sign_stripped(s);
        if d.len() > 0 && all_digits(d) && digits_value(d) <= i64::MAX {
            Some(digits_value(d) as i64)
        } else {
            None
        }
    }
}

/// The value of all-digit `d` if it is at most `limit`.
fn digits_up_to(d: &[char], limit: u64) -> (r: Option<u64>)
    requires
        limit >= 9,
    ensures
        r matches Some(v) ==> d@.len() > 0 && all_digits(d@) && v == digits_value(d@) && v <= limit,
        r is None ==> !(d@.len() > 0 && all_digits(d@) && digits_value(d@) <= limit),
{
    if d.len() == 0 {
        return None;
    }
    if !all_digits_exec(d) {
        return None;
    }
    let mut acc: u64 = 0;
    let mut i: usize = 0;
    assert(d@.take(0) =~= Seq::<char>::empty());
    while i < d.len()
        invariant
            i <= d@.len(),
            all_digits(d@),
            acc as nat == digits_value(d@.take(i as int)),
            acc <= limit,
            limit >= 9,
        decreases d.len() - i,
    {
        assert(is_digit(d@[i as int]));
        let digit = (d[i] as u32 - '0' as u32) as u64;
        assert(d@.take(i + 1).drop_last() =~= d@.take(i as int));
        assert(d@.take(i + 1).last() == d@[i as int]);
        assert(digit <= 9);
        if acc > (limit - digit) / 10 {
            assert(acc * 10 + digit > limit) by (nonlinear_arith)
                requires
                    acc > (limit - digit) / 10,
                    digit <= 9,
                    limit >= 9,
            {
            }
            proof {
                lemma_digits_value_prefix(d@, i + 1, d@.len() as int);
                assert(d@.take(d@.len() as int) =~= d@);
            }
            return None;
        }
        assert(acc * 10 + digit <= limit) by (nonlinear_arith)
            requires
                acc <= (limit - digit) / 10,
                digit <= 9,
                limit >= 9,
        {
        }
        acc = acc * 10 + digit;
        i = i + 1;
    }
    assert(d@.take(d@.len() as int) =~= d@);
    Some(acc)
}

/// `s.parse::<i64>()` for characters.
pub fn parse_i64_chars(s: &[char]) -> (r: Option<i64>)
    ensures
        r == parse_i64_spec(s@),
{
    if s.len() > 0 && s[0] == '-' {
        let d = tail(s, 1);
        assert(d@ =~= s@.drop_first());
        match digits_up_to(d.as_slice(), 0x8000_0000_0000_0000u64) {
            Some(v) => {
                if v == 0x8000_0000_0000_0000u64 {
                    Some(i64::MIN)
                } else {
                    Some(0 - (v as i64))
                }
            },
            None => None,
        }
    } else {
        let start: usize = if s.len() > 0 && s[0] == '+' { 1 } else { 0 };
        let d = tail(s, start);
        assert(d@ =~= sign_stripped(s@));
        match digits_up_to(d.as_slice(), 0x7FFF_FFFF_FFFF_FFFFu64) {
            Some(v) => Some(v as i64),
            None => None,
        }
    }
}


/// The decimal rendering of `n` is a non-empty run of digits whose value is `n`.
pub proof fn lemma_decimal_digits(n: nat)
    ensures
        decimal(n).len() > 0,
        all_digits(decimal(n)),
        digits_value(decimal(n)) == n,
    decreases n,
{
    if n < 10 {
        let c = digit_char(n);
        assert(decimal(n) == seq![c]);
        assert(c as int == n + 48);
        assert('0' as int == 48);
        assert(seq![c].drop_last() =~= Seq::<char>::empty());
        assert(seq![c].last() == c);
        assert(digits_value(seq![c]) == digits_value(seq![c].drop_last()) * 10 + ((c as int - '0' as int) as nat));
        assert(digits_value(Seq::<char>::empty()) == 0);
    } else {
        lemma_decimal_digits(n / 10);
        let d = decimal(n / 10);
        let c = digit_char(n % 10);
        assert(c as int == n % 10 + 48);
        assert(decimal(n) == d.push(c));
        assert(d.push(c).drop_last() =~= d);
        assert forall|i: int| 0 <= i < d.push(c).len() implies is_digit(#[trigger] d.push(c)[i]) by {
            if i < d.len() {
                assert(d.push(c)[i] == d[i]);
            }
        }
        assert('0' as int == 48);
        assert(d.push(c).last() == c);
        assert(digits_value(d.push(c)) == digits_value(d.push(c).drop_last()) * 10 + ((c as int - '0' as int) as nat));
        assert((n / 10) * 10 + n % 10 == n) by (nonlinear_arith);
    }
}

/// Parsing the decimal rendering of a `u32` gives it back.
pub proof fn lemma_parse_decimal(n: u32)
    ensures
        parse_u32_spec(decimal(n as nat)) == Some(n),
{
    lemma_decimal_digits(n as nat);
    assert(is_digit(decimal(n as nat)[0]));
    assert(sign_stripped(decimal(n as nat)) == decimal(n as nat));
}

} // verus!
