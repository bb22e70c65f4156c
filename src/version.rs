//! Reading the server's version string and deciding whether the 64-bit
//! large-object calls (`lo_lseek64`, `lo_truncate64`, ...) are available.
use vstd::prelude::*;

verus! {

/// The separator of the fields of a version string.
pub const DOT: char = '.';

/// The largest magnitude that is tracked exactly while reading digits; any
/// larger value is out of `i32`'s range whatever its sign.
const DIGITS_CAP: i64 = 0x1_0000_0000;

pub open spec fn is_digit(c: char) -> bool {
    '0' <= c <= '9'
}

pub open spec fn all_digits(s: Seq<char>) -> bool {
    forall|i: int| 0 <= i < s.len() ==> is_digit(#[trigger] s[i])
}

/// The value of a run of decimal digits, most significant first.
pub open spec fn digits_value(s: Seq<char>) -> int
    decreases s.len(),
{
    if s.len() == 0 {
        0
    } else {
        digits_value(s.drop_last()) * 10 + (s.last() as int - '0' as int)
    }
}

/// An `i32` written in decimal with an optional leading `+` or `-`, as
/// `i32::from_str` accepts it; `None` where it accepts nothing.
pub open spec fn spec_parse_i32(s: Seq<char>) -> Option<int> {
    let signed = s.len() > 0 && (s[0] == '-' || s[0] == '+');
    let digits = if signed { s.drop_first() } else { s };
    let v = if signed && s[0] == '-' { -digits_value(digits) } else { digits_value(digits) };
    if digits.len() == 0 || !all_digits(digits) {
        None
    } else if i32::MIN <= v <= i32::MAX {
        Some(v)
    } else {
        None
    }
}

/// The index of the first `'.'` at or after `from`, or the length of `s`.
pub open spec fn field_end(s: Seq<char>, from: int) -> int
    decreases s.len() - from,
{
    if from < 0 || from >= s.len() || s[from] == DOT {
        from
    } else {
        field_end(s, from + 1)
    }
}

/// Major and minor number of a version string `major.minor[.patch]...`:
/// the first two fields split on `'.'`, each read as an `i32`.
pub open spec fn spec_parse_version(s: Seq<char>) -> Option<(int, int)> {
    let e1 = field_end(s, 0);
    let e2 = field_end(s, e1 + 1);
    if e1 >= s.len() {
        None
    } else {
        match (spec_parse_i32(s.subrange(0, e1)), spec_parse_i32(s.subrange(e1 + 1, e2))) {
            (Some(major), Some(minor)) => Some((major, minor)),
            _ => None,
        }
    }
}

/// The 64-bit calls exist from server version 9.3 on.
pub open spec fn spec_has_64(major: int, minor: int) -> bool {
    major > 9 || (major == 9 && minor >= 3)
}

/// Returns the index of the first `'.'` at or after `from`, or the length.
fn find_field_end(b: &str, len: usize, from: usize) -> (r: usize)
    requires
        len == b@.len(),
        from <= b@.len(),
    ensures
        r == field_end(b@, from as int),
        from <= r <= b@.len(),
{
    let mut i: usize = from;
    while i < len && b.get_char(i) != DOT
        invariant
            len == b@.len(),
            from <= i <= b@.len(),
            field_end(b@, i as int) == field_end(b@, from as int),
        decreases b@.len() - i,
    {
        i = i + 1;
    }
    i
}

/// Reads `b[start..end]` as an `i32` in decimal, with an optional sign.
pub fn parse_i32(b: &str, start: usize, end: usize) -> (r: Option<i32>)
    requires
        start <= end <= b@.len(),
    ensures
        r matches Some(v) ==> spec_parse_i32(b@.subrange(start as int, end as int)) == Some(
            v as int,
        ),
        r is None ==> spec_parse_i32(b@.subrange(start as int, end as int)) is None,
{
    let ghost s = b@.subrange(start as int, end as int);
    assert(start < end ==> s[0] == b@[start as int]);
    let lead = if start < end {
        b.get_char(start)
    } else {
        '0'
    };
    let negative = start < end && lead == '-';
    let signed = start < end && (lead == '-' || lead == '+');
    let first: usize = if signed { start + 1 } else { start };
    let ghost digits = if signed { s.drop_first() } else { s };
    assert(signed == (s.len() > 0 && (s[0] == '-' || s[0] == '+')));
    assert(negative == (signed && s[0] == '-'));
    assert(digits =~= b@.subrange(first as int, end as int));
    if first == end {
        return None;
    }
    let mut acc: i64 = 0;
    let mut i: usize = first;
    while i < end
        invariant
            first <= i <= end <= b@.len(),
            digits == b@.subrange(first as int, end as int),
            s == b@.subrange(start as int, end as int),
            digits == if signed { s.drop_first() } else { s },
            signed == (s.len() > 0 && (s[0] == '-' || s[0] == '+')),
            negative == (signed && s[0] == '-'),
            all_digits(b@.subrange(first as int, i as int)),
            0 <= digits_value(b@.subrange(first as int, i as int)),
            acc == if digits_value(b@.subrange(first as int, i as int)) < DIGITS_CAP {
                digits_value(b@.subrange(first as int, i as int))
            } else {
                DIGITS_CAP as int
            },
        decreases end - i,
    {
        let c = b.get_char(i);
        if c < '0' || c > '9' {
            assert(digits[i - first] == c);
            assert(!all_digits(digits));
            return None;
        }
        let ghost prev = b@.subrange(first as int, i as int);
        let ghost next = b@.subrange(first as int, i + 1);
        assert(next.drop_last() =~= prev);
        assert(next.last() == c);
        if acc < DIGITS_CAP {
            acc = acc * 10 + (c as u32 - '0' as u32) as i64;
            if acc > DIGITS_CAP {
                acc = DIGITS_CAP;
            }
        }
        i = i + 1;
    }
    assert(b@.subrange(first as int, end as int) =~= digits);
    if negative {
        if acc <= 0x8000_0000 {
            Some((-acc) as i32)
        } else {
            None
        }
    } else if acc <= 0x7fff_ffff {
        Some(acc as i32)
    } else {
        None
    }
}

/// Reads the major and minor number out of a server version string such as
/// `"9.6.24"` or `"16.2"`; `None` where it has no two such fields.
pub fn parse_server_version(version: &str) -> (r: Option<(i32, i32)>)
    ensures
        r matches Some((major, minor)) ==> spec_parse_version(version@) == Some(
            (major as int, minor as int),
        ),
        r is None ==> spec_parse_version(version@) is None,
{
    let b = version;
    let len = version.unicode_len();
    let e1 = find_field_end(b, len, 0);
    if e1 >= len {
        return None;
    }
    let e2 = find_field_end(b, len, e1 + 1);
    let major = parse_i32(b, 0, e1);
    let minor = parse_i32(b, e1 + 1, e2);
    match (major, minor) {
        (Some(major), Some(minor)) => Some((major, minor)),
        _ => None,
    }
}

/// Whether a server of this version offers the 64-bit large-object calls.
pub fn has_64_bit_support(major: i32, minor: i32) -> (r: bool)
    ensures
        r == spec_has_64(major as int, minor as int),
{
    major > 9 || (major == 9 && minor >= 3)
}

/// Decides the addressing capability from the server's version string,
/// which must hold a `major.minor`: true from 9.3 on.
pub fn negotiate(version: &str) -> (r: bool)
    requires
        spec_parse_version(version@) is Some,
    ensures
        r == spec_has_64(
            spec_parse_version(version@)->Some_0.0,
            spec_parse_version(version@)->Some_0.1,
        ),
{
    match parse_server_version(version) {
        Some((major, minor)) => has_64_bit_support(major, minor),
        None => false,
    }
}

} // verus!
