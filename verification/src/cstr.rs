//! Byte-string helpers with the meaning that the C library gives them in the
//! "C" locale: comparison and search that ignore ASCII case, and the reading
//! of an unsigned decimal number.
use vstd::prelude::*;

verus! {

/// The byte with ASCII upper case letters folded to lower case.
pub open spec fn ascii_lower(c: u8) -> u8 {
    if 65 <= c <= 90 {
        (c + 32) as u8
    } else {
        c
    }
}

/// `a` and `b` are the same string when ASCII case is ignored.
pub open spec fn eq_ignore_case(a: Seq<u8>, b: Seq<u8>) -> bool {
    &&& a.len() == b.len()
    &&& forall|i: int| 0 <= i < a.len() ==> #[trigger] ascii_lower(a[i]) == ascii_lower(b[i])
}

/// `needle` occurs in `hay` starting at position `i`, ignoring ASCII case.
pub open spec fn occurs_at(hay: Seq<u8>, needle: Seq<u8>, i: int) -> bool {
    &&& 0 <= i
    &&& i + needle.len() <= hay.len()
    &&& eq_ignore_case(hay.subrange(i, i + needle.len()), needle)
}

/// `needle` occurs somewhere in `hay`, ignoring ASCII case.
pub open spec fn contains_ignore_case(hay: Seq<u8>, needle: Seq<u8>) -> bool {
    exists|i: int| #[trigger] occurs_at(hay, needle, i)
}

/// Folds one byte to ASCII lower case.
pub fn to_ascii_lower(c: u8) -> (r: u8)
    ensures
        r == ascii_lower(c),
{
    if 65 <= c && c <= 90 {
        c + 32
    } else {
        c
    }
}

/// Whether `a` and `b` are equal when ASCII case is ignored
/// (what `strcasecmp(a, b) == 0` decides).
pub fn str_eq_ignore_case(a: &[u8], b: &[u8]) -> (r: bool)
    ensures
        r == eq_ignore_case(a@, b@),
{
    if a.len() != b.len() {
        return false;
    }
    let mut i: usize = 0;
    while i < a.len()
        invariant
            a@.len() == b@.len(),
            i <= a@.len(),
            forall|k: int| 0 <= k < i ==> #[trigger] ascii_lower(a@[k]) == ascii_lower(b@[k]),
        decreases a@.len() - i,
    {
        if to_ascii_lower(a[i]) != to_ascii_lower(b[i]) {
            return false;
        }
        i = i + 1;
    }
    true
}

/// Whether `needle` occurs in `hay` at position `at`, ignoring ASCII case.
fn occurs_at_exec(hay: &[u8], needle: &[u8], at: usize) -> (r: bool)
    requires
        at + needle@.len() <= hay@.len(),
    ensures
        r == occurs_at(hay@, needle@, at as int),
{
    let mut k: usize = 0;
    while k < needle.len()
        invariant
            at + needle@.len() <= hay@.len(),
            hay@.len() == hay.len(),
            k <= needle@.len(),
            forall|j: int| 0 <= j < k ==> ascii_lower(hay@[at + j]) == ascii_lower(needle@[j]),
        decreases needle@.len() - k,
    {
        if to_ascii_lower(hay[at + k]) != to_ascii_lower(needle[k]) {
            assert(hay@.subrange(at as int, at + needle@.len())[k as int] == hay@[at + k]);
            return false;
        }
        k = k + 1;
    }
    assert forall|j: int| 0 <= j < needle@.len() implies #[trigger] ascii_lower(
        hay@.subrange(at as int, at + needle@.len())[j],
    ) == ascii_lower(needle@[j]) by {
        assert(hay@.subrange(at as int, at + needle@.len())[j] == hay@[at + j]);
    }
    true
}

/// Whether `needle` occurs in `hay`, ignoring ASCII case
/// (what `strcasestr(hay, needle) != NULL` decides).
pub fn str_contains_ignore_case(hay: &[u8], needle: &[u8]) -> (r: bool)
    ensures
        r == contains_ignore_case(hay@, needle@),
{
    if needle.len() > hay.len() {
        assert forall|i: int| !#[trigger] occurs_at(hay@, needle@, i) by {}
        return false;
    }
    let last: usize = hay.len() - needle.len();
    let mut at: usize = 0;
    loop
        invariant
            last + needle@.len() == hay@.len(),
            at <= last,
            forall|i: int| 0 <= i < at ==> !#[trigger] occurs_at(hay@, needle@, i),
        ensures
            forall|i: int| 0 <= i <= last ==> !#[trigger] occurs_at(hay@, needle@, i),
        decreases last - at,
    {
        if occurs_at_exec(hay, needle, at) {
            return true;
        }
        if at == last {
            break;
        }
        at = at + 1;
    }
    assert forall|i: int| !#[trigger] occurs_at(hay@, needle@, i) by {}
    false
}

/// A white-space byte as `isspace` sees it in the "C" locale.
pub open spec fn is_c_space(c: u8) -> bool {
    c == 32 || (9 <= c <= 13)
}

/// A decimal digit.
pub open spec fn is_digit(c: u8) -> bool {
    48 <= c <= 57
}

/// The first position at or after `i` that holds no white space.
pub open spec fn skip_spaces(s: Seq<u8>, i: int) -> int
    decreases s.len() - i,
{
    if 0 <= i < s.len() && is_c_space(s[i]) {
        skip_spaces(s, i + 1)
    } else {
        i
    }
}

/// The first position at or after `i` that holds no digit.
pub open spec fn digits_end(s: Seq<u8>, i: int) -> int
    decreases s.len() - i,
{
    if 0 <= i < s.len() && is_digit(s[i]) {
        digits_end(s, i + 1)
    } else {
        i
    }
}

/// The number that a run of decimal digits denotes.
pub open spec fn digits_value(d: Seq<u8>) -> nat
    decreases d.len(),
{
    if d.len() == 0 {
        0
    } else {
        digits_value(d.drop_last()) * 10 + (d.last() - 48) as nat
    }
}

/// Where the sign of a number written in `s` would stand.
pub open spec fn sign_pos(s: Seq<u8>) -> int {
    skip_spaces(s, 0)
}

/// `s` has a minus sign before its digits.
pub open spec fn has_minus(s: Seq<u8>) -> bool {
    sign_pos(s) < s.len() && s[sign_pos(s)] == 45
}

/// Where the digits of a number written in `s` begin.
pub open spec fn digits_start(s: Seq<u8>) -> int {
    let p = sign_pos(s);
    if p < s.len() && (s[p] == 43 || s[p] == 45) {
        p + 1
    } else {
        p
    }
}

/// The magnitude of the number written at the head of `s`.
pub open spec fn magnitude(s: Seq<u8>) -> nat {
    digits_value(s.subrange(digits_start(s), digits_end(s, digits_start(s))))
}

/// What `strtoul(s, NULL, 10)` gives: leading white space is skipped, a sign
/// may follow, then the longest run of digits is read; a minus sign negates
/// the value modulo 2^64. `None` stands for a magnitude that does not fit in
/// 64 bits (the range error).
pub open spec fn strtoul_spec(s: Seq<u8>) -> Option<u64> {
    let v = magnitude(s);
    if v > u64::MAX {
        None
    } else if has_minus(s) && v > 0 {
        Some((u64::MAX + 1 - v) as u64)
    } else {
        Some(v as u64)
    }
}

proof fn lemma_skip_spaces_bounds(s: Seq<u8>, i: int)
    requires
        0 <= i <= s.len(),
    ensures
        i <= skip_spaces(s, i) <= s.len(),
    decreases s.len() - i,
{
    if i < s.len() && is_c_space(s[i]) {
        lemma_skip_spaces_bounds(s, i + 1);
    }
}

proof fn lemma_digits_end_bounds(s: Seq<u8>, i: int)
    requires
        0 <= i <= s.len(),
    ensures
        i <= digits_end(s, i) <= s.len(),
    decreases s.len() - i,
{
    if i < s.len() && is_digit(s[i]) {
        lemma_digits_end_bounds(s, i + 1);
    }
}

/// Reads the sign and the magnitude of the number written at the head of
/// `s`: whether a minus sign stands before the digits, and the magnitude
/// when it fits in 64 bits.
fn read_number(s: &[u8]) -> (r: (bool, Option<u64>))
    ensures
        r.0 == has_minus(s@),
        magnitude(s@) <= u64::MAX ==> r.1 == Some(magnitude(s@) as u64),
        magnitude(s@) > u64::MAX ==> r.1 is None,
{
    let n = s.len();
    let mut i: usize = 0;
    while i < n && (s[i] == 32 || (9 <= s[i] && s[i] <= 13))
        invariant
            n == s@.len(),
            i <= n,
            skip_spaces(s@, 0) == skip_spaces(s@, i as int),
        decreases n - i,
    {
        i = i + 1;
    }
    proof {
        lemma_skip_spaces_bounds(s@, i as int);
    }
    assert(i == sign_pos(s@));
    let mut negative = false;
    if i < n && (s[i] == 43 || s[i] == 45) {
        negative = s[i] == 45;
        i = i + 1;
    }
    assert(i == digits_start(s@));
    assert(negative == has_minus(s@));
    let start: usize = i;
    let mut acc: u64 = 0;
    let mut overflow = false;
    while i < n && 48 <= s[i] && s[i] <= 57
        invariant
            n == s@.len(),
            start <= i <= n,
            digits_end(s@, start as int) == digits_end(s@, i as int),
            forall|k: int| start <= k < i ==> is_digit(s@[k]),
            !overflow ==> acc == digits_value(s@.subrange(start as int, i as int)),
            overflow ==> digits_value(s@.subrange(start as int, i as int)) > u64::MAX,
        decreases n - i,
    {
        let d = (s[i] - 48) as u64;
        assert(s@.subrange(start as int, i + 1).drop_last() =~= s@.subrange(
            start as int,
            i as int,
        ));
        if !overflow {
            if acc > (u64::MAX - d) / 10 {
                overflow = true;
            } else {
                acc = acc * 10 + d;
            }
        }
        i = i + 1;
    }
    proof {
        lemma_digits_end_bounds(s@, i as int);
    }
    assert(i == digits_end(s@, start as int));
    if overflow {
        (negative, None)
    } else {
        (negative, Some(acc))
    }
}

/// Reads an unsigned decimal number the way `strtoul(s, NULL, 10)` does.
/// `None` is the range error.
pub fn parse_ulong(s: &[u8]) -> (r: Option<u64>)
    ensures
        r == strtoul_spec(s@),
{
    let (negative, mag) = read_number(s);
    match mag {
        None => None,
        Some(acc) => {
            if negative && acc > 0 {
                Some(u64::MAX - acc + 1)
            } else {
                Some(acc)
            }
        },
    }
}

/// What `strtol(s, NULL, 10)` gives: the number written at the head of `s`
/// (white space, a sign, digits), held to the range of a 64-bit signed
/// integer: a larger magnitude gives the bound on its side.
pub open spec fn strtol_spec(s: Seq<u8>) -> i64 {
    let m = magnitude(s);
    if has_minus(s) {
        if m > 0x8000_0000_0000_0000 {
            i64::MIN
        } else {
            (-m) as i64
        }
    } else {
        if m > i64::MAX {
            i64::MAX
        } else {
            m as i64
        }
    }
}

/// Reads a signed decimal number the way `strtol(s, NULL, 10)` does.
pub fn parse_long(s: &[u8]) -> (r: i64)
    ensures
        r == strtol_spec(s@),
{
    let (negative, mag) = read_number(s);
    match mag {
        None => {
            if negative {
                i64::MIN
            } else {
                i64::MAX
            }
        },
        Some(acc) => {
            if negative {
                if acc > 0x8000_0000_0000_0000 {
                    i64::MIN
                } else if acc == 0x8000_0000_0000_0000 {
                    i64::MIN
                } else {
                    -(acc as i64)
                }
            } else {
                if acc > 0x7fff_ffff_ffff_ffff {
                    i64::MAX
                } else {
                    acc as i64
                }
            }
        },
    }
}

/// Two single bytes are equal ignoring case exactly when they are the same
/// byte or the upper and lower case of one ASCII letter.
pub proof fn law_one_byte_ignoring_case(x: u8, y: u8)
    ensures
        eq_ignore_case(seq![x], seq![y]) <==> (x == y || (65 <= x <= 90 && y == x + 32) || (65 <= y
            <= 90 && x == y + 32)),
{
    assert(seq![x][0] == x);
    assert(seq![y][0] == y);
    if eq_ignore_case(seq![x], seq![y]) {
        assert(ascii_lower(seq![x][0]) == ascii_lower(seq![y][0]));
    }
    if x == y || (65 <= x <= 90 && y == x + 32) || (65 <= y <= 90 && x == y + 32) {
        assert forall|i: int| 0 <= i < 1 implies #[trigger] ascii_lower(seq![x][i]) == ascii_lower(
            seq![y][i],
        ) by {
            assert(i == 0);
        }
    }
}

/// Equality ignoring case is an equivalence.
pub proof fn law_ignore_case_equivalence(a: Seq<u8>, b: Seq<u8>, c: Seq<u8>)
    ensures
        eq_ignore_case(a, a),
        eq_ignore_case(a, b) ==> eq_ignore_case(b, a),
        eq_ignore_case(a, b) && eq_ignore_case(b, c) ==> eq_ignore_case(a, c),
{
    if eq_ignore_case(a, b) && eq_ignore_case(b, c) {
        assert forall|i: int| 0 <= i < a.len() implies #[trigger] ascii_lower(a[i]) == ascii_lower(c[i]) by {
            assert(ascii_lower(a[i]) == ascii_lower(b[i]));
            assert(ascii_lower(b[i]) == ascii_lower(c[i]));
        }
    }
    if eq_ignore_case(a, b) {
        assert forall|i: int| 0 <= i < b.len() implies #[trigger] ascii_lower(b[i]) == ascii_lower(a[i]) by {
            assert(ascii_lower(a[i]) == ascii_lower(b[i]));
        }
    }
}

/// A needle that stands in the haystack as it is is found; the empty
/// needle is found in every haystack; a needle longer than the haystack is
/// never found.
pub proof fn law_contains(hay: Seq<u8>, needle: Seq<u8>, i: int)
    ensures
        0 <= i && i + needle.len() <= hay.len() && hay.subrange(i, i + needle.len()) == needle
            ==> contains_ignore_case(hay, needle),
        needle.len() == 0 ==> contains_ignore_case(hay, needle),
        needle.len() > hay.len() ==> !contains_ignore_case(hay, needle),
{
    if 0 <= i && i + needle.len() <= hay.len() && hay.subrange(i, i + needle.len()) == needle {
        assert(occurs_at(hay, needle, i));
    }
    if needle.len() == 0 {
        assert(hay.subrange(0, 0) =~= needle);
        assert(occurs_at(hay, needle, 0));
    }
}

/// Reading a number: white space before it is skipped, and a digit written
/// after a run of digits makes the number ten times larger plus the digit.
pub proof fn law_decimal_reading(d: Seq<u8>, c: u8)
    requires
        forall|i: int| 0 <= i < d.len() ==> is_digit(#[trigger] d[i]),
        is_digit(c),
    ensures
        magnitude(seq![32u8] + d) == magnitude(d),
        magnitude(d.push(c)) == magnitude(d) * 10 + (c - 48),
{
    let sd = seq![32u8] + d;
    assert(skip_spaces(sd, 0) == skip_spaces(sd, 1));
    assert(sd.subrange(1, sd.len() as int) =~= d);
    lemma_shift_spaces(d, sd);
    lemma_digits_prefix(d, c);
}

proof fn lemma_shift_spaces(d: Seq<u8>, sd: Seq<u8>)
    requires
        sd == seq![32u8] + d,
        forall|i: int| 0 <= i < d.len() ==> is_digit(#[trigger] d[i]),
    ensures
        magnitude(sd) == magnitude(d),
{
    assert(skip_spaces(sd, 0) == skip_spaces(sd, 1));
    if d.len() > 0 {
        assert(is_digit(d[0]));
        assert(sd[1] == d[0]);
    }
    assert(skip_spaces(sd, 1) == 1);
    assert(skip_spaces(d, 0) == 0);
    assert(digits_start(sd) == 1);
    assert(digits_start(d) == 0);
    lemma_digits_end_all(d, 0);
    lemma_digits_end_all(sd, 1);
    assert(sd.subrange(1, sd.len() as int) =~= d.subrange(0, d.len() as int));
}

proof fn lemma_digits_end_all(s: Seq<u8>, i: int)
    requires
        0 <= i <= s.len(),
        forall|k: int| i <= k < s.len() ==> is_digit(#[trigger] s[k]),
    ensures
        digits_end(s, i) == s.len(),
    decreases s.len() - i,
{
    if i < s.len() {
        lemma_digits_end_all(s, i + 1);
    }
}

proof fn lemma_digits_prefix(d: Seq<u8>, c: u8)
    requires
        forall|i: int| 0 <= i < d.len() ==> is_digit(#[trigger] d[i]),
        is_digit(c),
    ensures
        magnitude(d.push(c)) == magnitude(d) * 10 + (c - 48),
{
    let dc = d.push(c);
    if d.len() > 0 {
        assert(is_digit(d[0]));
        assert(dc[0] == d[0]);
    }
    assert(skip_spaces(dc, 0) == 0);
    assert(skip_spaces(d, 0) == 0);
    assert forall|k: int| 0 <= k < dc.len() implies is_digit(#[trigger] dc[k]) by {
        if k < d.len() {
            assert(dc[k] == d[k]);
        }
    }
    lemma_digits_end_all(d, 0);
    lemma_digits_end_all(dc, 0);
    assert(dc.subrange(0, dc.len() as int).drop_last() =~= d.subrange(0, d.len() as int));
    assert(dc.subrange(0, dc.len() as int).last() == c);
}

} // verus!
