//! Character-level text primitives, each specified over `Seq<char>`.
//!
//! Positions are character positions. Every function of the library that
//! searches and then slices does both in the same unit, so the pieces it
//! returns are the same as with byte offsets.

use vstd::prelude::*;

verus! {

broadcast use vstd::string::group_string_axioms;

// ---------------------------------------------------------------------------
// Specifications
// ---------------------------------------------------------------------------

/// `p` occurs in `h` starting at position `i`.
pub open spec fn occurs_at(h: Seq<char>, p: Seq<char>, i: int) -> bool {
    0 <= i && i + p.len() <= h.len() && h.subrange(i, i + p.len()) =~= p
}

/// The first position at or after `i` where `p` occurs in `h`.
pub open spec fn find_from(h: Seq<char>, p: Seq<char>, i: int) -> Option<int>
    decreases h.len() - i,
{
    if i < 0 || i + p.len() > h.len() {
        None
    } else if occurs_at(h, p, i) {
        Some(i)
    } else {
        find_from(h, p, i + 1)
    }
}

/// The first position where `p` occurs in `h` (`str::find`).
pub open spec fn find(h: Seq<char>, p: Seq<char>) -> Option<int> {
    find_from(h, p, 0)
}

/// The last position at or before `i` where `p` occurs in `h`.
pub open spec fn rfind_upto(h: Seq<char>, p: Seq<char>, i: int) -> Option<int>
    decreases i + 1,
{
    if i < 0 {
        None
    } else if occurs_at(h, p, i) {
        Some(i)
    } else {
        rfind_upto(h, p, i - 1)
    }
}

/// The last position where `p` occurs in `h` (`str::rfind`).
pub open spec fn rfind(h: Seq<char>, p: Seq<char>) -> Option<int> {
    rfind_upto(h, p, h.len() - p.len())
}

/// `h` contains `p` (`str::contains`).
pub open spec fn contains(h: Seq<char>, p: Seq<char>) -> bool {
    find(h, p) is Some
}

/// `h` begins with `p` (`str::starts_with`).
pub open spec fn starts_with(h: Seq<char>, p: Seq<char>) -> bool {
    occurs_at(h, p, 0)
}

/// `h` ends with `p` (`str::ends_with`).
pub open spec fn ends_with(h: Seq<char>, p: Seq<char>) -> bool {
    occurs_at(h, p, h.len() - p.len())
}

/// The Unicode `White_Space` property (`char::is_whitespace`).
pub open spec fn is_ws(c: char) -> bool {
    ||| ('\u{9}' <= c && c <= '\u{d}')
    ||| c == ' '
    ||| c == '\u{85}'
    ||| c == '\u{a0}'
    ||| c == '\u{1680}'
    ||| ('\u{2000}' <= c && c <= '\u{200a}')
    ||| c == '\u{2028}'
    ||| c == '\u{2029}'
    ||| c == '\u{202f}'
    ||| c == '\u{205f}'
    ||| c == '\u{3000}'
}

/// `s` without its leading whitespace.
pub open spec fn trim_start(s: Seq<char>) -> Seq<char>
    decreases s.len(),
{
    if s.len() > 0 && is_ws(s[0]) {
        trim_start(s.drop_first())
    } else {
        s
    }
}

/// `s` without its trailing whitespace.
pub open spec fn trim_end(s: Seq<char>) -> Seq<char>
    decreases s.len(),
{
    if s.len() > 0 && is_ws(s.last()) {
        trim_end(s.drop_last())
    } else {
        s
    }
}

/// `s` without leading and trailing whitespace (`str::trim`).
pub open spec fn trim(s: Seq<char>) -> Seq<char> {
    trim_end(trim_start(s))
}

/// `s` without one trailing `c`, where it ends with one (`str::strip_suffix`).
pub open spec fn strip_last(s: Seq<char>, c: char) -> Seq<char> {
    if s.len() > 0 && s.last() == c {
        s.drop_last()
    } else {
        s
    }
}

/// The lines of `s` (`str::lines`): pieces ended by `'\n'`, each without
/// its `'\n'` and then without one `'\r'` before it; no empty last line.
pub open spec fn lines(s: Seq<char>) -> Seq<Seq<char>>
    decreases s.len(),
{
    if s.len() == 0 {
        Seq::empty()
    } else {
        match find(s, seq!['\n']) {
            None => seq![s],
            Some(k) => {
                proof {
                    lemma_find_from(s, seq!['\n'], 0);
                }
                seq![strip_last(s.subrange(0, k), '\r')] + lines(
                    s.subrange(k + 1, s.len() as int),
                )
            },
        }
    }
}

/// The pieces of `s` between occurrences of `sep` (`str::split`), for a
/// non-empty `sep`.
pub open spec fn split(s: Seq<char>, sep: Seq<char>) -> Seq<Seq<char>>
    decreases s.len(),
{
    if sep.len() == 0 {
        seq![s]
    } else {
        match find(s, sep) {
            None => seq![s],
            Some(k) => {
                proof {
                    lemma_find_from(s, sep, 0);
                }
                seq![s.subrange(0, k)] + split(s.subrange(k + sep.len(), s.len() as int), sep)
            },
        }
    }
}

/// The maximal runs of non-whitespace of `s` (`str::split_whitespace`).
pub open spec fn words(s: Seq<char>) -> Seq<Seq<char>>
    decreases s.len(),
{
    let t = trim_start(s);
    if t.len() == 0 {
        Seq::empty()
    } else {
        let n = word_len(t);
        proof {
            lemma_trim_start_len(s);
            lemma_word_len(t);
        }
        seq![t.subrange(0, n)] + words(t.subrange(n, t.len() as int))
    }
}

/// The length of the leading run of non-whitespace of `s`.
pub open spec fn word_len(s: Seq<char>) -> int
    decreases s.len(),
{
    if s.len() == 0 || is_ws(s[0]) {
        0
    } else {
        1 + word_len(s.drop_first())
    }
}

/// `c` is an ASCII decimal digit.
pub open spec fn is_digit(c: char) -> bool {
    '0' <= c && c <= '9'
}

/// Why `str::parse` refuses an integer (`IntErrorKind`).
#[derive(Debug, Clone, Copy, PartialEq, Eq, Structural)]
pub enum IntErrorKind {
    Empty,
    InvalidDigit,
    PosOverflow,
}

/// The value of the decimal digit `c`.
pub open spec fn digit_value(c: char) -> nat {
    (c as nat - '0' as nat) as nat
}

/// Reading the digits of `t` from position `i` on, with `val` read so far:
/// the value, or the first problem met (a non-digit, or a value above
/// `max`), left to right.
pub open spec fn digit_scan(t: Seq<char>, max: nat, i: int, val: nat) -> Result<nat, IntErrorKind>
    decreases t.len() - i,
{
    if i >= t.len() {
        Ok(val)
    } else if !is_digit(t[i]) {
        Err(IntErrorKind::InvalidDigit)
    } else if val * 10 + digit_value(t[i]) > max {
        Err(IntErrorKind::PosOverflow)
    } else {
        digit_scan(t, max, i + 1, val * 10 + digit_value(t[i]))
    }
}

/// `s` without one leading `'+'`.
pub open spec fn sign_stripped(s: Seq<char>) -> Seq<char> {
    if s.len() > 0 && s[0] == '+' {
        s.drop_first()
    } else {
        s
    }
}

/// What `str::parse` gives for an unsigned integer type whose largest value
/// is `max`: an optional `'+'`, then one or more decimal digits, and a value
/// of at most `max`; otherwise the kind of the error.
pub open spec fn parse_int(s: Seq<char>, max: nat) -> Result<nat, IntErrorKind> {
    if s.len() == 0 {
        Err(IntErrorKind::Empty)
    } else if s.len() == 1 && s[0] == '+' {
        Err(IntErrorKind::InvalidDigit)
    } else {
        digit_scan(sign_stripped(s), max, 0, 0)
    }
}

/// The value `str::parse` gives for an unsigned integer type whose largest
/// value is `max`, where it gives one.
pub open spec fn parse_unsigned(s: Seq<char>, max: nat) -> Option<nat> {
    match parse_int(s, max) {
        Ok(n) => Some(n),
        Err(_) => None,
    }
}

/// The text of a parse error (`ParseIntError`'s `Display`).
pub open spec fn int_error_text(k: IntErrorKind) -> Seq<char> {
    match k {
        IntErrorKind::Empty => "cannot parse integer from empty string"@,
        IntErrorKind::InvalidDigit => "invalid digit found in string"@,
        IntErrorKind::PosOverflow => "number too large to fit in target type"@,
    }
}

/// The text of a parse error.
pub fn int_error_message(k: IntErrorKind) -> (r: &'static str)
    ensures
        r@ == int_error_text(k),
{
    match k {
        IntErrorKind::Empty => "cannot parse integer from empty string",
        IntErrorKind::InvalidDigit => "invalid digit found in string",
        IntErrorKind::PosOverflow => "number too large to fit in target type",
    }
}

/// Every character of `s` is ASCII.
pub open spec fn all_ascii(s: Seq<char>) -> bool {
    forall|i: int| 0 <= i < s.len() ==> (s[i] as u32) < 128
}

/// `s` with its ASCII letters lower-cased (`str::to_ascii_lowercase`).
pub open spec fn ascii_lowered(s: Seq<char>) -> Seq<char> {
    s.map_values(|c: char| ascii_lower(c))
}

/// ASCII lower case of one character (`char::to_ascii_lowercase`).
pub open spec fn ascii_lower(c: char) -> char {
    if 'A' <= c && c <= 'Z' {
        ((c as u32) + 32) as char
    } else {
        c
    }
}

/// `a` and `b` match ignoring ASCII case (`str::eq_ignore_ascii_case`).
pub open spec fn eq_ignore_ascii_case(a: Seq<char>, b: Seq<char>) -> bool {
    a.len() == b.len() && forall|i: int|
        0 <= i < a.len() ==> ascii_lower(#[trigger] a[i]) == ascii_lower(b[i])
}

/// The concatenation of `parts` with `sep` between them (`slice::join`).
pub open spec fn join(parts: Seq<Seq<char>>, sep: Seq<char>) -> Seq<char>
    decreases parts.len(),
{
    if parts.len() == 0 {
        Seq::empty()
    } else if parts.len() == 1 {
        parts[0]
    } else {
        join(parts.drop_last(), sep) + sep + parts.last()
    }
}

/// The concatenation of `parts`.
pub open spec fn concat(parts: Seq<Seq<char>>) -> Seq<char>
    decreases parts.len(),
{
    if parts.len() == 0 {
        Seq::empty()
    } else {
        concat(parts.drop_last()) + parts.last()
    }
}

/// What `str::to_lowercase` gives for `s` (Unicode lower case mapping).
pub uninterp spec fn lowercase(s: Seq<char>) -> Seq<char>;

/// What `str::to_uppercase` gives for `s` (Unicode upper case mapping).
pub uninterp spec fn uppercase(s: Seq<char>) -> Seq<char>;

/// What `str::parse::<u32>` gives for `s`.
pub open spec fn parse_u32(s: Seq<char>) -> Option<u32> {
    match parse_unsigned(s, u32::MAX as nat) {
        Some(n) => Some(n as u32),
        None => None,
    }
}

/// Piece `i` of `parts`, where there is one.
pub open spec fn nth(parts: Seq<Seq<char>>, i: int) -> Option<Seq<char>> {
    if 0 <= i < parts.len() {
        Some(parts[i])
    } else {
        None
    }
}

/// `line[from..]`.
pub open spec fn tail(line: Seq<char>, from: int) -> Seq<char> {
    line.subrange(from, line.len() as int)
}

// ---------------------------------------------------------------------------
// Trusted std calls
// ---------------------------------------------------------------------------

/// `String::push`: appends one character to the end of the string.
#[verifier::external_body]
pub(crate) fn push_char(s: &mut String, c: char)
    ensures
        final(s)@ == old(s)@.push(c),
{
    s.push(c)
}

/// `str::to_lowercase`: the result is the string's Unicode lower case,
/// which this library names `lowercase` and does not spell out beyond
/// ASCII: on a string of ASCII characters it lower-cases the letters `A` to
/// `Z` and keeps every other character, as `to_ascii_lowercase` does.
#[verifier::external_body]
pub(crate) fn to_lowercase(s: &str) -> (r: String)
    ensures
        r@ == lowercase(s@),
        all_ascii(s@) ==> r@ == ascii_lowered(s@),
{
    s.to_lowercase()
}

/// `str::to_uppercase`: the result is the string's Unicode upper case,
/// which this library names `uppercase` and does not spell out.
#[verifier::external_body]
pub(crate) fn to_uppercase(s: &str) -> (r: String)
    ensures
        r@ == uppercase(s@),
{
    s.to_uppercase()
}

// ---------------------------------------------------------------------------
// Executable primitives
// ---------------------------------------------------------------------------

/// The characters of `s`, in order.
pub fn chars_of(s: &str) -> (v: Vec<char>)
    ensures
        v@ == s@,
{
    let mut v: Vec<char> = Vec::new();
    for c in it: s.chars()
        invariant
            it.seq() == s@,
            v@ == it.seq().take(it.index()),
    {
        v.push(c);
    }
    v
}

/// A new string holding `v[from..to]`.
pub fn string_of(v: &Vec<char>, from: usize, to: usize) -> (r: String)
    requires
        from <= to <= v.len(),
    ensures
        r@ == v@.subrange(from as int, to as int),
{
    let mut r = String::new();
    let mut i = from;
    while i < to
        invariant
            from <= i <= to <= v.len(),
            r@ == v@.subrange(from as int, i as int),
        decreases to - i,
    {
        push_char(&mut r, v[i]);
        assert(v@.subrange(from as int, i + 1) =~= v@.subrange(from as int, i as int).push(v@[i as int]));
        i += 1;
    }
    r
}

/// A new string holding all of `v`.
pub fn string_of_all(v: &Vec<char>) -> (r: String)
    ensures
        r@ == v@,
{
    let r = string_of(v, 0, v.len());
    assert(v@.subrange(0, v@.len() as int) =~= v@);
    r
}

/// Appends `v[from..to]` to `out`.
pub fn append_range(out: &mut String, v: &Vec<char>, from: usize, to: usize)
    requires
        from <= to <= v.len(),
    ensures
        final(out)@ == old(out)@ + v@.subrange(from as int, to as int),
{
    let mut i = from;
    while i < to
        invariant
            from <= i <= to <= v.len(),
            out@ == old(out)@ + v@.subrange(from as int, i as int),
        decreases to - i,
    {
        push_char(out, v[i]);
        assert(old(out)@ + v@.subrange(from as int, i + 1) =~= (old(out)@ + v@.subrange(
            from as int,
            i as int,
        )).push(v@[i as int]));
        i += 1;
    }
}

/// Appends the whole of `s` to `out`.
pub fn append_str(out: &mut String, s: &str)
    ensures
        final(out)@ == old(out)@ + s@,
{
    let v = chars_of(s);
    append_range(out, &v, 0, v.len());
    assert(v@.subrange(0, v@.len() as int) =~= v@);
}

/// `p` occurs in `h` at `i`.
pub fn occurs_at_exec(h: &Vec<char>, p: &Vec<char>, i: usize) -> (b: bool)
    ensures
        b == occurs_at(h@, p@, i as int),
{
    if i > h.len() || p.len() > h.len() - i {
        return false;
    }
    let mut k: usize = 0;
    while k < p.len()
        invariant
            i + p.len() <= h.len(),
            k <= p.len(),
            forall|j: int| 0 <= j < k ==> h@[i + j] == p@[j],
        decreases p.len() - k,
    {
        if h[i + k] != p[k] {
            assert(h@.subrange(i as int, i + p.len())[k as int] != p@[k as int]);
            return false;
        }
        k += 1;
    }
    assert(h@.subrange(i as int, i + p.len()) =~= p@);
    true
}

/// The first position at or after `from` where `p` occurs in `h`.
pub fn find_from_exec(h: &Vec<char>, p: &Vec<char>, from: usize) -> (r: Option<usize>)
    requires
        from <= h.len(),
    ensures
        r matches Some(i) ==> find_from(h@, p@, from as int) == Some(i as int),
        r is None ==> find_from(h@, p@, from as int) is None,
{
    let mut i = from;
    while i <= h.len()
        invariant
            from <= i <= h.len() + 1,
            find_from(h@, p@, from as int) == find_from(h@, p@, i as int),
        decreases h.len() + 1 - i,
    {
        if p.len() > h.len() - i {
            return None;
        }
        if occurs_at_exec(h, p, i) {
            return Some(i);
        }
        i += 1;
    }
    None
}

/// The first position where `p` occurs in `h` (`str::find`).
pub fn find_exec(h: &Vec<char>, p: &Vec<char>) -> (r: Option<usize>)
    ensures
        r matches Some(i) ==> find(h@, p@) == Some(i as int),
        r is None ==> find(h@, p@) is None,
{
    find_from_exec(h, p, 0)
}

/// The first position of the character `c` in `h`.
pub fn find_char(h: &Vec<char>, c: char) -> (r: Option<usize>)
    ensures
        r matches Some(i) ==> find(h@, seq![c]) == Some(i as int) && i < h.len() && h@[i as int] == c,
        r is None ==> find(h@, seq![c]) is None,
{
    let pv: Vec<char> = vec![c];
    assert(pv@ =~= seq![c]);
    let r = find_exec(h, &pv);
    proof {
        lemma_find_from(h@, seq![c], 0);
        if let Some(i) = r {
            assert(h@.subrange(i as int, i + 1)[0] == c);
        }
    }
    r
}

/// `find(h[from..], p)`: the first position of `p` in the tail of `h`,
/// counted from `from`.
pub fn find_str_in_tail(h: &Vec<char>, from: usize, p: &str) -> (r: Option<usize>)
    requires
        from <= h.len(),
    ensures
        r matches Some(i) ==> find(h@.subrange(from as int, h.len() as int), p@) == Some(i as int)
            && from + i <= h.len(),
        r is None ==> find(h@.subrange(from as int, h.len() as int), p@) is None,
{
    let t = slice_vec(h, from, h.len());
    let r = find_str(&t, p);
    proof {
        lemma_find_from(t@, p@, 0);
    }
    r
}

/// `str::parse::<u32>` of `v[from..to]`.
pub fn parse_u32_exec(v: &Vec<char>, from: usize, to: usize) -> (r: Option<u32>)
    requires
        from <= to <= v.len(),
    ensures
        r == parse_u32(v@.subrange(from as int, to as int)),
{
    match parse_unsigned_exec(v, from, to, 0xffff_ffff) {
        Some(n) => Some(n as u32),
        None => None,
    }
}

/// `str::parse::<u32>` of all of `v`.
pub fn parse_u32_all(v: &Vec<char>) -> (r: Option<u32>)
    ensures
        r == parse_u32(v@),
{
    assert(v@.subrange(0, v@.len() as int) =~= v@);
    parse_u32_exec(v, 0, v.len())
}

/// The first position where `p` occurs in `h`, with `p` given as a `&str`.
pub fn find_str(h: &Vec<char>, p: &str) -> (r: Option<usize>)
    ensures
        r matches Some(i) ==> find(h@, p@) == Some(i as int),
        r is None ==> find(h@, p@) is None,
{
    let pv = chars_of(p);
    find_exec(h, &pv)
}

/// `h` contains `p`.
pub fn contains_str(h: &Vec<char>, p: &str) -> (b: bool)
    ensures
        b == contains(h@, p@),
{
    find_str(h, p).is_some()
}

/// The last position where `pv` occurs in `h`.
pub fn rfind_vec(h: &Vec<char>, pv: &Vec<char>) -> (r: Option<usize>)
    ensures
        r matches Some(i) ==> rfind(h@, pv@) == Some(i as int),
        r is None ==> rfind(h@, pv@) is None,
{
    if pv.len() > h.len() {
        return None;
    }
    let mut i = h.len() - pv.len();
    loop
        invariant
            i + pv.len() <= h.len(),
            rfind(h@, pv@) == rfind_upto(h@, pv@, i as int),
        decreases i,
    {
        if occurs_at_exec(h, pv, i) {
            return Some(i);
        }
        if i == 0 {
            assert(rfind_upto(h@, pv@, -1) is None);
            return None;
        }
        i -= 1;
    }
}

/// A copy of `v[from..to]`.
pub fn slice_vec(v: &Vec<char>, from: usize, to: usize) -> (r: Vec<char>)
    requires
        from <= to <= v.len(),
    ensures
        r@ == v@.subrange(from as int, to as int),
{
    let mut r: Vec<char> = Vec::new();
    let mut i = from;
    while i < to
        invariant
            from <= i <= to <= v.len(),
            r@ == v@.subrange(from as int, i as int),
        decreases to - i,
    {
        r.push(v[i]);
        assert(v@.subrange(from as int, i + 1) =~= v@.subrange(from as int, i as int).push(v@[i as int]));
        i += 1;
    }
    r
}

/// `c` has the Unicode `White_Space` property.
pub fn is_ws_exec(c: char) -> (b: bool)
    ensures
        b == is_ws(c),
{
    ('\u{9}' <= c && c <= '\u{d}') || c == ' ' || c == '\u{85}' || c == '\u{a0}' || c
        == '\u{1680}' || ('\u{2000}' <= c && c <= '\u{200a}') || c == '\u{2028}' || c
        == '\u{2029}' || c == '\u{202f}' || c == '\u{205f}' || c == '\u{3000}'
}

/// The bounds `(a, b)` of `trim(v[from..to])` within `v`.
pub fn trim_bounds(v: &Vec<char>, from: usize, to: usize) -> (r: (usize, usize))
    requires
        from <= to <= v.len(),
    ensures
        from <= r.0 <= r.1 <= to,
        v@.subrange(r.0 as int, r.1 as int) == trim(v@.subrange(from as int, to as int)),
{
    let mut a = from;
    while a < to && is_ws_exec(v[a])
        invariant
            from <= a <= to <= v.len(),
            forall|j: int| from <= j < a ==> is_ws(#[trigger] v@[j]),
        decreases to - a,
    {
        a += 1;
    }
    let mut b = to;
    while b > a && is_ws_exec(v[b - 1])
        invariant
            from <= a <= b <= to <= v.len(),
            forall|j: int| b <= j < to ==> is_ws(#[trigger] v@[j]),
        decreases b,
    {
        b -= 1;
    }
    proof {
        let s = v@.subrange(from as int, to as int);
        lemma_trim_start_at(s, a - from);
        let t = v@.subrange(a as int, to as int);
        assert(trim_start(s) =~= t);
        lemma_trim_end_at(t, b - a);
        assert(t.subrange(0, b - a) =~= v@.subrange(a as int, b as int));
    }
    (a, b)
}

/// `trim(v)`, as a new vector.
pub fn trim_vec(v: &Vec<char>) -> (r: Vec<char>)
    ensures
        r@ == trim(v@),
{
    let (a, b) = trim_bounds(v, 0, v.len());
    assert(v@.subrange(0, v@.len() as int) =~= v@);
    slice_vec(v, a, b)
}

/// `trim(v[from..to])`, as a new string.
pub fn trimmed_string(v: &Vec<char>, from: usize, to: usize) -> (r: String)
    requires
        from <= to <= v.len(),
    ensures
        r@ == trim(v@.subrange(from as int, to as int)),
{
    let (a, b) = trim_bounds(v, from, to);
    string_of(v, a, b)
}

/// Where the leading whitespace of `s` ends at `k`, trimming it leaves
/// `s[k..]`.
pub proof fn lemma_trim_start_at(s: Seq<char>, k: int)
    requires
        0 <= k <= s.len(),
        forall|j: int| 0 <= j < k ==> is_ws(#[trigger] s[j]),
        k < s.len() ==> !is_ws(s[k]),
    ensures
        trim_start(s) =~= s.subrange(k, s.len() as int),
    decreases k,
{
    if k > 0 {
        assert forall|j: int| 0 <= j < k - 1 implies is_ws(#[trigger] s.drop_first()[j]) by {
            assert(s.drop_first()[j] == s[j + 1]);
        }
        lemma_trim_start_at(s.drop_first(), k - 1);
        assert(s.drop_first().subrange(k - 1, s.len() - 1) =~= s.subrange(k, s.len() as int));
    }
}

/// Where the trailing whitespace of `s` starts at `k`, trimming it leaves
/// `s[..k]`.
pub proof fn lemma_trim_end_at(s: Seq<char>, k: int)
    requires
        0 <= k <= s.len(),
        forall|j: int| k <= j < s.len() ==> is_ws(#[trigger] s[j]),
        k > 0 ==> !is_ws(s[k - 1]),
    ensures
        trim_end(s) =~= s.subrange(0, k),
    decreases s.len() - k,
{
    if k < s.len() {
        assert forall|j: int| k <= j < s.len() - 1 implies is_ws(#[trigger] s.drop_last()[j]) by {
            assert(s.drop_last()[j] == s[j]);
        }
        lemma_trim_end_at(s.drop_last(), k);
        assert(s.drop_last().subrange(0, k) =~= s.subrange(0, k));
    }
}

/// `str::parse` of `v[from..to]` as an unsigned integer whose largest
/// value is `max`.
pub fn parse_int_exec(v: &Vec<char>, from: usize, to: usize, max: u64) -> (r: Result<u64, IntErrorKind>)
    requires
        from <= to <= v.len(),
    ensures
        match (r, parse_int(v@.subrange(from as int, to as int), max as nat)) {
            (Ok(n), Ok(m)) => n == m,
            (Err(e), Err(f)) => e == f,
            _ => false,
        },
        r matches Ok(n) ==> n <= max,
{
    let ghost s = v@.subrange(from as int, to as int);
    if from == to {
        return Err(IntErrorKind::Empty);
    }
    if to - from == 1 && v[from] == '+' {
        return Err(IntErrorKind::InvalidDigit);
    }
    let start = if v[from] == '+' {
        from + 1
    } else {
        from
    };
    let ghost t = v@.subrange(start as int, to as int);
    assert(s[0] == v@[from as int]);
    assert(t =~= sign_stripped(s));
    assert(parse_int(s, max as nat) == digit_scan(t, max as nat, 0, 0));
    let mut val: u64 = 0;
    let mut i = start;
    while i < to
        invariant
            start <= i <= to <= v.len(),
            t == v@.subrange(start as int, to as int),
            val <= max,
            parse_int(s, max as nat) == digit_scan(t, max as nat, i - start, val as nat),
            s == v@.subrange(from as int, to as int),
        decreases to - i,
    {
        let c = v[i];
        assert(t[i - start] == c);
        if !('0' <= c && c <= '9') {
            return Err(IntErrorKind::InvalidDigit);
        }
        let d = (c as u32 - '0' as u32) as u64;
        assert(d == digit_value(c));
        let next: u128 = val as u128 * 10 + d as u128;
        if next > max as u128 {
            return Err(IntErrorKind::PosOverflow);
        }
        val = next as u64;
        i += 1;
    }
    Ok(val)
}

/// The value of `v[from..to]` as `str::parse` reads an unsigned integer
/// whose largest value is `max`, where it reads one.
pub fn parse_unsigned_exec(v: &Vec<char>, from: usize, to: usize, max: u64) -> (r: Option<u64>)
    requires
        from <= to <= v.len(),
    ensures
        r matches Some(n) ==> parse_unsigned(v@.subrange(from as int, to as int), max as nat)
            == Some(n as nat),
        r is None ==> parse_unsigned(v@.subrange(from as int, to as int), max as nat) is None,
{
    match parse_int_exec(v, from, to, max) {
        Ok(n) => Some(n),
        Err(_) => None,
    }
}

/// Searching a suffix is searching the whole from where the suffix starts.
pub proof fn lemma_find_from_shift(h: Seq<char>, p: Seq<char>, i: int, k: int)
    requires
        0 <= i <= h.len(),
        0 <= k,
    ensures
        find_from(h.subrange(i, h.len() as int), p, k) == (match find_from(h, p, i + k) {
            Some(j) => Some(j - i),
            None => None::<int>,
        }),
    decreases h.len() - i - k,
{
    let t = h.subrange(i, h.len() as int);
    if k + p.len() > t.len() {
    } else {
        assert(occurs_at(t, p, k) == occurs_at(h, p, i + k)) by {
            if k + p.len() <= t.len() {
                assert(t.subrange(k, k + p.len()) =~= h.subrange(i + k, i + k + p.len()));
            }
        }
        if !occurs_at(t, p, k) {
            lemma_find_from_shift(h, p, i, k + 1);
        }
    }
}

/// The lines of `v` (`str::lines`).
pub fn lines_exec(v: &Vec<char>) -> (r: Vec<Vec<char>>)
    ensures
        r.deep_view() == lines(v@),
{
    let nl: Vec<char> = vec!['\n'];
    let mut r: Vec<Vec<char>> = Vec::new();
    let mut i: usize = 0;
    assert(v@.subrange(0, v@.len() as int) =~= v@);
    while i < v.len()
        invariant
            i <= v.len(),
            nl@ == seq!['\n'],
            r.deep_view() + lines(v@.subrange(i as int, v@.len() as int)) == lines(v@),
        decreases v.len() - i,
    {
        let ghost t = v@.subrange(i as int, v@.len() as int);
        proof {
            lemma_find_from_shift(v@, seq!['\n'], i as int, 0);
            lemma_find_from(v@, seq!['\n'], i as int);
        }
        match find_from_exec(v, &nl, i) {
            None => {
                let line = slice_vec(v, i, v.len());
                proof {
                    assert(lines(t) == seq![t]);
                    assert(r.deep_view().push(line@) =~= r.deep_view() + lines(t));
                }
                let ghost before = r.deep_view();
                assert(line.deep_view() =~= line@);
                r.push(line);
                assert(r.deep_view() =~= before.push(line@));
                proof {
                    assert(lines(v@.subrange(v@.len() as int, v@.len() as int)) =~= Seq::<Seq<char>>::empty());
                    assert(r.deep_view() =~= r.deep_view() + Seq::<Seq<char>>::empty());
                }
                i = v.len();
            },
            Some(k) => {
                let end = if k > i && v[k - 1] == '\r' {
                    k - 1
                } else {
                    k
                };
                let line = slice_vec(v, i, end);
                proof {
                    let kk = k - i;
                    assert(find(t, seq!['\n']) == Some(kk as int));
                    assert(line@ =~= strip_last(t.subrange(0, kk as int), '\r'));
                    assert(t.subrange(kk + 1, t.len() as int) =~= v@.subrange(k + 1, v@.len() as int));
                    assert(lines(t) == seq![line@] + lines(v@.subrange(k + 1, v@.len() as int)));
                    assert(r.deep_view().push(line@) + lines(v@.subrange(k + 1, v@.len() as int))
                        =~= r.deep_view() + lines(t));
                }
                let ghost before = r.deep_view();
                assert(line.deep_view() =~= line@);
                r.push(line);
                assert(r.deep_view() =~= before.push(line@));
                i = k + 1;
            },
        }
    }
    assert(lines(v@.subrange(i as int, v@.len() as int)) =~= Seq::<Seq<char>>::empty());
    assert(r.deep_view() + Seq::<Seq<char>>::empty() =~= r.deep_view());
    r
}

/// The pieces of `v` between occurrences of `sep` (`str::split`).
pub fn split_exec(v: &Vec<char>, sep: &Vec<char>) -> (r: Vec<Vec<char>>)
    requires
        sep.len() > 0,
    ensures
        r.deep_view() == split(v@, sep@),
        r.len() >= 1,
{
    let mut r: Vec<Vec<char>> = Vec::new();
    let mut i: usize = 0;
    assert(v@.subrange(0, v@.len() as int) =~= v@);
    loop
        invariant
            i <= v.len(),
            sep.len() > 0,
            r.deep_view() + split(v@.subrange(i as int, v@.len() as int), sep@) == split(v@, sep@),
        decreases v.len() - i,
    {
        let ghost t = v@.subrange(i as int, v@.len() as int);
        proof {
            lemma_find_from_shift(v@, sep@, i as int, 0);
            lemma_find_from(v@, sep@, i as int);
        }
        match find_from_exec(v, sep, i) {
            None => {
                let piece = slice_vec(v, i, v.len());
                let ghost before = r.deep_view();
                assert(piece.deep_view() =~= piece@);
                r.push(piece);
                assert(r.deep_view() =~= before.push(piece@));
                assert(split(t, sep@) == seq![t]);
                assert(r.deep_view() =~= split(v@, sep@));
                return r;
            },
            Some(k) => {
                let piece = slice_vec(v, i, k);
                let ghost before = r.deep_view();
                assert(piece.deep_view() =~= piece@);
                r.push(piece);
                assert(r.deep_view() =~= before.push(piece@));
                proof {
                    let kk = k - i;
                    assert(find(t, sep@) == Some(kk as int));
                    assert(t.subrange(0, kk as int) =~= piece@);
                    assert(t.subrange(kk + sep@.len(), t.len() as int) =~= v@.subrange(
                        k + sep@.len(),
                        v@.len() as int,
                    ));
                    assert(r.deep_view() + split(v@.subrange(k + sep@.len(), v@.len() as int), sep@)
                        =~= before + split(t, sep@));
                }
                i = k + sep.len();
            },
        }
    }
}

/// The pieces of `v` between occurrences of the character `c`.
pub fn split_char(v: &Vec<char>, c: char) -> (r: Vec<Vec<char>>)
    ensures
        r.deep_view() == split(v@, seq![c]),
        r.len() >= 1,
{
    let sep: Vec<char> = vec![c];
    assert(sep@ =~= seq![c]);
    split_exec(v, &sep)
}

/// The whitespace-separated words of `v` (`str::split_whitespace`).
pub fn words_exec(v: &Vec<char>) -> (r: Vec<Vec<char>>)
    ensures
        r.deep_view() == words(v@),
{
    let mut r: Vec<Vec<char>> = Vec::new();
    let mut i: usize = 0;
    assert(v@.subrange(0, v@.len() as int) =~= v@);
    loop
        invariant
            i <= v.len(),
            r.deep_view() + words(v@.subrange(i as int, v@.len() as int)) == words(v@),
        decreases v.len() - i,
    {
        let ghost s = v@.subrange(i as int, v@.len() as int);
        let mut a = i;
        while a < v.len() && is_ws_exec(v[a])
            invariant
                i <= a <= v.len(),
                forall|j: int| i <= j < a ==> is_ws(#[trigger] v@[j]),
            decreases v.len() - a,
        {
            a += 1;
        }
        proof {
            lemma_trim_start_at(s, a - i);
            assert(s.subrange(a - i, s.len() as int) =~= v@.subrange(a as int, v@.len() as int));
        }
        if a == v.len() {
            assert(words(s) =~= Seq::<Seq<char>>::empty());
            assert(r.deep_view() + Seq::<Seq<char>>::empty() =~= r.deep_view());
            return r;
        }
        let mut b = a;
        while b < v.len() && !is_ws_exec(v[b])
            invariant
                a <= b <= v.len(),
                forall|j: int| a <= j < b ==> !is_ws(#[trigger] v@[j]),
            decreases v.len() - b,
        {
            b += 1;
        }
        let word = slice_vec(v, a, b);
        proof {
            let t = v@.subrange(a as int, v@.len() as int);
            lemma_word_len(t);
            lemma_word_len_at(t, b - a);
            assert(t.subrange(0, b - a) =~= word@);
            assert(t.subrange(b - a, t.len() as int) =~= v@.subrange(b as int, v@.len() as int));
        }
        let ghost before = r.deep_view();
        assert(word.deep_view() =~= word@);
        r.push(word);
        assert(r.deep_view() =~= before.push(word@));
        assert(r.deep_view() + words(v@.subrange(b as int, v@.len() as int)) =~= before + words(s));
        i = b;
    }
}

/// Where the first whitespace of `s` is at `k`, its leading word is `k`
/// long.
pub proof fn lemma_word_len_at(s: Seq<char>, k: int)
    requires
        0 <= k <= s.len(),
        forall|j: int| 0 <= j < k ==> !is_ws(#[trigger] s[j]),
        k < s.len() ==> is_ws(s[k]),
    ensures
        word_len(s) == k,
    decreases k,
{
    if k > 0 {
        assert forall|j: int| 0 <= j < k - 1 implies !is_ws(#[trigger] s.drop_first()[j]) by {
            assert(s.drop_first()[j] == s[j + 1]);
        }
        lemma_word_len_at(s.drop_first(), k - 1);
    }
}

/// `a` and `b` hold the same characters.
pub fn same_chars(a: &Vec<char>, b: &Vec<char>) -> (r: bool)
    ensures
        r == (a@ == b@),
{
    if a.len() != b.len() {
        return false;
    }
    let mut i: usize = 0;
    while i < a.len()
        invariant
            i <= a.len() == b.len(),
            forall|j: int| 0 <= j < i ==> a@[j] == b@[j],
        decreases a.len() - i,
    {
        if a[i] != b[i] {
            return false;
        }
        i += 1;
    }
    assert(a@ =~= b@);
    true
}

/// `v` holds exactly the characters of `s`.
pub fn eq_str(v: &Vec<char>, s: &str) -> (r: bool)
    ensures
        r == (v@ == s@),
{
    let w = chars_of(s);
    same_chars(v, &w)
}

/// The value paired with the first key of `table` equal to `key`.
pub open spec fn lookup(table: Seq<(Seq<char>, Seq<char>)>, key: Seq<char>) -> Option<Seq<char>>
    decreases table.len(),
{
    if table.len() == 0 {
        None
    } else if table[0].0 == key {
        Some(table[0].1)
    } else {
        lookup(table.drop_first(), key)
    }
}

/// The views of the pairs of `t`.
pub open spec fn pairs_view(t: Seq<(&str, &str)>) -> Seq<(Seq<char>, Seq<char>)> {
    t.map_values(|p: (&str, &str)| (p.0@, p.1@))
}

/// The value paired with the first key of `table` equal to `key`.
pub fn lookup_exec(table: &Vec<(&str, &str)>, key: &Vec<char>) -> (r: Option<String>)
    ensures
        r.deep_view() == lookup(pairs_view(table@), key@),
{
    let ghost tv = pairs_view(table@);
    let mut i: usize = 0;
    assert(tv.skip(0) =~= tv);
    while i < table.len()
        invariant
            i <= table.len(),
            tv == pairs_view(table@),
            lookup(tv, key@) == lookup(tv.skip(i as int), key@),
        decreases table.len() - i,
    {
        let (k, v) = table[i];
        assert(tv.skip(i as int)[0] == (k@, v@));
        assert(tv.skip(i as int).drop_first() =~= tv.skip(i + 1));
        if eq_str(key, k) {
            return Some(v.to_owned());
        }
        i += 1;
    }
    assert(tv.skip(i as int) =~= Seq::<(Seq<char>, Seq<char>)>::empty());
    None
}

/// The decimal digits of `n` (`u64::to_string`).
pub open spec fn decimal(n: nat) -> Seq<char>
    decreases n,
{
    if n < 10 {
        seq![(('0' as nat) + n) as char]
    } else {
        decimal(n / 10) + seq![(('0' as nat) + n % 10) as char]
    }
}

/// Appends the decimal digits of `n` to `out`.
pub fn push_decimal(out: &mut String, n: u64)
    ensures
        final(out)@ == old(out)@ + decimal(n as nat),
    decreases n,
{
    if n >= 10 {
        push_decimal(out, n / 10);
    }
    let d = ((n % 10) as u32 + '0' as u32) as u8 as char;
    assert(d == (('0' as nat) + n % 10) as char);
    push_char(out, d);
}

/// Concatenating one more part appends it.
pub proof fn lemma_concat_push(parts: Seq<Seq<char>>, x: Seq<char>)
    ensures
        concat(parts.push(x)) == concat(parts) + x,
{
    assert(parts.push(x).drop_last() =~= parts);
}

/// Trimming never lengthens, and leaves a string that does not start with
/// whitespace.
pub proof fn lemma_trim_start_len(s: Seq<char>)
    ensures
        trim_start(s).len() <= s.len(),
        trim_start(s).len() > 0 ==> !is_ws(trim_start(s)[0]),
        trim_start(s) =~= s.subrange(s.len() - trim_start(s).len(), s.len() as int),
    decreases s.len(),
{
    if s.len() > 0 && is_ws(s[0]) {
        lemma_trim_start_len(s.drop_first());
    }
}

/// The leading word of `s` is within `s`, and is not empty when `s` starts
/// with a non-whitespace character.
pub proof fn lemma_word_len(s: Seq<char>)
    ensures
        0 <= word_len(s) <= s.len(),
        s.len() > 0 && !is_ws(s[0]) ==> word_len(s) >= 1,
        forall|i: int| 0 <= i < word_len(s) ==> !is_ws(#[trigger] s[i]),
        word_len(s) < s.len() ==> is_ws(s[word_len(s)]),
    decreases s.len(),
{
    if s.len() > 0 && !is_ws(s[0]) {
        lemma_word_len(s.drop_first());
        assert forall|i: int| 0 <= i < word_len(s) implies !is_ws(#[trigger] s[i]) by {
            if i > 0 {
                assert(s[i] == s.drop_first()[i - 1]);
            }
        }
    }
}

/// Where `p` occurs at `m` and at no earlier position, `m` is where it is
/// found.
pub proof fn lemma_find_first(h: Seq<char>, p: Seq<char>, m: int)
    requires
        occurs_at(h, p, m),
        forall|j: int| 0 <= j < m ==> !occurs_at(h, p, j),
    ensures
        find(h, p) == Some(m),
{
    lemma_find_from(h, p, 0);
}

/// Where `p` occurs at `m` and at no later position, `m` is where `rfind`
/// finds it.
pub proof fn lemma_rfind_last(h: Seq<char>, p: Seq<char>, m: int)
    requires
        occurs_at(h, p, m),
        forall|j: int| m < j ==> !occurs_at(h, p, j),
    ensures
        rfind(h, p) == Some(m),
{
    lemma_rfind_upto(h, p, h.len() - p.len());
}

/// Where `p` occurs in `h` at some position, `h` contains it.
pub proof fn lemma_contains_at(h: Seq<char>, p: Seq<char>, k: int)
    requires
        occurs_at(h, p, k),
    ensures
        contains(h, p),
{
    lemma_find_from(h, p, 0);
}

/// Each part of a join stands in it.
pub proof fn lemma_join_holds_part(parts: Seq<Seq<char>>, sep: Seq<char>, k: int)
    requires
        0 <= k < parts.len(),
    ensures
        exists|j: int| occurs_at(join(parts, sep), parts[k], j),
    decreases parts.len(),
{
    let h = join(parts, sep);
    if parts.len() == 1 {
        assert(h.subrange(0, parts[k].len() as int) =~= parts[k]);
        assert(occurs_at(h, parts[k], 0));
    } else {
        let init = join(parts.drop_last(), sep);
        assert(h == init + sep + parts.last());
        if k == parts.len() - 1 {
            let j: int = (init.len() + sep.len()) as int;
            assert(h.subrange(j, j + parts[k].len()) =~= parts[k]);
            assert(occurs_at(h, parts[k], j));
        } else {
            lemma_join_holds_part(parts.drop_last(), sep, k);
            assert(parts.drop_last()[k] == parts[k]);
            let j = choose|j: int| occurs_at(init, parts[k], j);
            assert(h.subrange(j, j + parts[k].len()) =~= init.subrange(j, j + parts[k].len()));
            assert(occurs_at(h, parts[k], j));
        }
    }
}

/// What a part of a concatenation contains, the concatenation contains.
pub proof fn lemma_contains_within(a: Seq<char>, b: Seq<char>, c: Seq<char>, p: Seq<char>)
    requires
        contains(b, p),
    ensures
        contains(a + b + c, p),
{
    lemma_find_from(b, p, 0);
    let j = find(b, p)->0;
    let h = a + b + c;
    assert(h.subrange(a.len() + j, a.len() + j + p.len()) =~= b.subrange(j, j + p.len()));
    lemma_contains_at(h, p, a.len() + j);
}

/// Every part of a join stands in it.
pub proof fn law_join_holds_parts(parts: Seq<Seq<char>>, sep: Seq<char>, k: int)
    requires
        0 <= k < parts.len(),
    ensures
        contains(join(parts, sep), parts[k]),
{
    lemma_join_holds_part(parts, sep, k);
    let j = choose|j: int| occurs_at(join(parts, sep), parts[k], j);
    lemma_contains_at(join(parts, sep), parts[k], j);
}

/// A first lemma about `find_from`: a found position is an occurrence, no
/// earlier position at or after `i` is one, and it lies within `h`.
pub proof fn lemma_find_from(h: Seq<char>, p: Seq<char>, i: int)
    requires
        0 <= i,
    ensures
        find_from(h, p, i) matches Some(k) ==> i <= k && occurs_at(h, p, k) && forall|j: int|
            i <= j < k ==> !occurs_at(h, p, j),
        find_from(h, p, i) is None ==> forall|j: int| i <= j ==> !occurs_at(h, p, j),
    decreases h.len() - i,
{
    if i + p.len() > h.len() {
    } else if occurs_at(h, p, i) {
    } else {
        lemma_find_from(h, p, i + 1);
        assert forall|j: int| i <= j && #[trigger] occurs_at(h, p, j) implies j > i by {}
    }
}

/// A found position of `rfind` is an occurrence, and no later one exists.
pub proof fn lemma_rfind_upto(h: Seq<char>, p: Seq<char>, i: int)
    ensures
        rfind_upto(h, p, i) matches Some(k) ==> 0 <= k <= i && occurs_at(h, p, k) && forall|j: int|
            k < j <= i ==> !occurs_at(h, p, j),
        rfind_upto(h, p, i) is None ==> forall|j: int| 0 <= j <= i ==> !occurs_at(h, p, j),
    decreases i + 1,
{
    if i >= 0 && !occurs_at(h, p, i) {
        lemma_rfind_upto(h, p, i - 1);
    }
}

/// The value of the digits of `t` from position `i` on, read left to right
/// onto `val`.
pub open spec fn digits_fold(t: Seq<char>, i: int, val: nat) -> nat
    decreases t.len() - i,
{
    if i >= t.len() {
        val
    } else {
        digits_fold(t, i + 1, val * 10 + digit_value(t[i]))
    }
}

/// Reading more digits never lowers the value.
pub proof fn lemma_digits_fold_grows(t: Seq<char>, i: int, val: nat)
    ensures
        digits_fold(t, i, val) >= val,
    decreases t.len() - i,
{
    if i < t.len() {
        lemma_digits_fold_grows(t, i + 1, val * 10 + digit_value(t[i]));
    }
}

/// Where every character from `i` on is a digit and the value fits under
/// `max`, the scan gives that value.
pub proof fn lemma_digit_scan_fold(t: Seq<char>, max: nat, i: int, val: nat)
    requires
        0 <= i <= t.len(),
        forall|j: int| i <= j < t.len() ==> is_digit(#[trigger] t[j]),
        digits_fold(t, i, val) <= max,
    ensures
        digit_scan(t, max, i, val) == Ok::<nat, IntErrorKind>(digits_fold(t, i, val)),
    decreases t.len() - i,
{
    if i < t.len() {
        let next = val * 10 + digit_value(t[i]);
        lemma_digits_fold_grows(t, i + 1, next);
        lemma_digit_scan_fold(t, max, i + 1, next);
    }
}

/// Reading one more digit at the end multiplies by ten and adds it.
pub proof fn lemma_digits_fold_push(a: Seq<char>, c: char, i: int, val: nat)
    requires
        0 <= i <= a.len(),
    ensures
        digits_fold(a.push(c), i, val) == digits_fold(a, i, val) * 10 + digit_value(c),
    decreases a.len() - i,
{
    if i < a.len() {
        assert(a.push(c)[i] == a[i]);
        lemma_digits_fold_push(a, c, i + 1, val * 10 + digit_value(a[i]));
    } else {
        assert(a.push(c)[i] == c);
        assert(digits_fold(a.push(c), i + 1, val * 10 + digit_value(c)) == val * 10 + digit_value(c));
    }
}

/// The decimal digits of `n` are one or more digits whose value is `n`.
pub proof fn lemma_decimal(n: nat)
    ensures
        decimal(n).len() > 0,
        forall|j: int| 0 <= j < decimal(n).len() ==> is_digit(#[trigger] decimal(n)[j]),
        digits_fold(decimal(n), 0, 0) == n,
    decreases n,
{
    let c = (('0' as nat) + n % 10) as char;
    assert(digit_value(c) == n % 10);
    if n < 10 {
        assert(decimal(n) =~= seq![c]);
        assert(decimal(n) =~= Seq::<char>::empty().push(c));
        lemma_digits_fold_push(Seq::<char>::empty(), c, 0, 0);
    } else {
        lemma_decimal(n / 10);
        let a = decimal(n / 10);
        assert(decimal(n) =~= a.push(c));
        lemma_digits_fold_push(a, c, 0, 0);
        assert forall|j: int| 0 <= j < decimal(n).len() implies is_digit(#[trigger] decimal(n)[j]) by {
            if j < a.len() {
                assert(decimal(n)[j] == a[j]);
            }
        }
    }
}

/// `str::parse` reads back the decimal digits of any value that fits.
pub proof fn lemma_parse_decimal(n: nat, max: nat)
    requires
        n <= max,
    ensures
        parse_int(decimal(n), max) == Ok::<nat, IntErrorKind>(n),
{
    lemma_decimal(n);
    let t = decimal(n);
    assert(is_digit(t[0]));
    assert(sign_stripped(t) == t);
    lemma_digit_scan_fold(t, max, 0, 0);
}

} // verus!
