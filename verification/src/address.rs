//! IPv4 addresses in dotted-quad text form and as 32-bit table keys.

use vstd::prelude::*;
use vstd::string::*;

verus! {

/// The longest dotted quad: four fields of three digits and three dots.
pub const MAX_TEXT_LEN: usize = 15;

/// An input that is not an IPv4 address in dotted-quad form.
#[derive(Clone, Copy, Debug, PartialEq, Eq, Structural)]
pub struct ValidationError;

pub open spec fn is_digit(c: char) -> bool {
    '0' <= c && c <= '9'
}

pub open spec fn digit_value(c: char) -> int {
    c as int - '0' as int
}

/// The number that a run of decimal digits denotes.
pub open spec fn decimal_value(digits: Seq<char>) -> int
    decreases digits.len(),
{
    if digits.len() == 0 {
        0
    } else {
        10 * decimal_value(digits.drop_last()) + digit_value(digits.last())
    }
}

/// One field of a dotted quad: one to three decimal digits, no leading
/// zero unless the field is the single digit zero, and at most 255.
pub open spec fn is_octet(field: Seq<char>) -> bool {
    &&& 1 <= field.len() <= 3
    &&& forall|i: int| 0 <= i < field.len() ==> is_digit(#[trigger] field[i])
    &&& (field.len() > 1 ==> field[0] != '0')
    &&& decimal_value(field) <= 255
}

/// The index of the first dot of `text` at or after `start`, or the
/// length of `text` where there is none.
pub open spec fn dot_from(text: Seq<char>, start: int) -> int
    decreases text.len() - start,
{
    if start >= text.len() {
        text.len() as int
    } else if text[start] == '.' {
        start
    } else {
        dot_from(text, start + 1)
    }
}

/// The key of the address whose four fields have these values, the
/// first field in the most significant byte.
pub open spec fn key_of(a: int, b: int, c: int, d: int) -> int {
    a * 0x100_0000 + b * 0x1_0000 + c * 0x100 + d
}

/// The key that `text` denotes, if it is a dotted quad: four octets
/// separated by single dots, with nothing before, between or after.
pub open spec fn address_of(text: Seq<char>) -> Option<u32> {
    let dot1 = dot_from(text, 0);
    let dot2 = dot_from(text, dot1 + 1);
    let dot3 = dot_from(text, dot2 + 1);
    let a = text.subrange(0, dot1);
    let b = text.subrange(dot1 + 1, dot2);
    let c = text.subrange(dot2 + 1, dot3);
    let d = text.subrange(dot3 + 1, text.len() as int);
    if dot3 < text.len() && is_octet(a) && is_octet(b) && is_octet(c) && is_octet(d) {
        Some(
            key_of(decimal_value(a), decimal_value(b), decimal_value(c), decimal_value(d)) as u32,
        )
    } else {
        None
    }
}

pub open spec fn is_dotted_quad(text: Seq<char>) -> bool {
    address_of(text) is Some
}

/// `dot_from` never moves backwards and never leaves the text.
pub proof fn lemma_dot_from_bounds(text: Seq<char>, start: int)
    requires
        0 <= start,
    ensures
        start <= text.len() ==> start <= dot_from(text, start) <= text.len(),
        start >= text.len() ==> dot_from(text, start) == text.len(),
        dot_from(text, start) < text.len() ==> text[dot_from(text, start)] == '.',
        forall|i: int| start <= i < dot_from(text, start) ==> text[i] != '.',
    decreases text.len() - start,
{
    if start < text.len() && text[start] != '.' {
        lemma_dot_from_bounds(text, start + 1);
    }
}

/// The text of the four fields with a dot between each two.
pub open spec fn dotted(a: Seq<char>, b: Seq<char>, c: Seq<char>, d: Seq<char>) -> Seq<char> {
    a + seq!['.'] + b + seq!['.'] + c + seq!['.'] + d
}

/// A run of digits denotes a number that is not negative.
pub proof fn lemma_decimal_value_bounds(digits: Seq<char>)
    requires
        forall|i: int| 0 <= i < digits.len() ==> is_digit(#[trigger] digits[i]),
    ensures
        0 <= decimal_value(digits),
    decreases digits.len(),
{
    if digits.len() > 0 {
        lemma_decimal_value_bounds(digits.drop_last());
    }
}

/// Where a dot stands at `dot` and none between `start` and `dot`, the
/// first dot from `start` on is the one at `dot`.
pub proof fn lemma_dot_from_finds(text: Seq<char>, start: int, dot: int)
    requires
        0 <= start <= dot < text.len(),
        text[dot] == '.',
        forall|i: int| start <= i < dot ==> text[i] != '.',
    ensures
        dot_from(text, start) == dot,
    decreases dot - start,
{
    if start < dot {
        lemma_dot_from_finds(text, start + 1, dot);
    }
}

/// Four octets joined by dots denote the address with these four
/// bytes, the first octet in the most significant byte; the key fits in
/// 32 bits.
pub proof fn lemma_address_of_dotted(a: Seq<char>, b: Seq<char>, c: Seq<char>, d: Seq<char>)
    requires
        is_octet(a),
        is_octet(b),
        is_octet(c),
        is_octet(d),
    ensures
        0 <= key_of(decimal_value(a), decimal_value(b), decimal_value(c), decimal_value(d))
            <= u32::MAX,
        address_of(dotted(a, b, c, d)) == Some(
            key_of(decimal_value(a), decimal_value(b), decimal_value(c), decimal_value(d)) as u32,
        ),
{
    let text = dotted(a, b, c, d);
    let dot1 = a.len() as int;
    let dot2 = dot1 + 1 + b.len();
    let dot3 = dot2 + 1 + c.len();
    assert(text.len() == dot3 + 1 + d.len());
    assert forall|i: int| 0 <= i < dot1 implies text[i] != '.' by {
        assert(text[i] == a[i]);
    }
    assert forall|i: int| dot1 + 1 <= i < dot2 implies text[i] != '.' by {
        assert(text[i] == b[i - dot1 - 1]);
    }
    assert forall|i: int| dot2 + 1 <= i < dot3 implies text[i] != '.' by {
        assert(text[i] == c[i - dot2 - 1]);
    }
    lemma_dot_from_finds(text, 0, dot1);
    lemma_dot_from_finds(text, dot1 + 1, dot2);
    lemma_dot_from_finds(text, dot2 + 1, dot3);
    assert(text.subrange(0, dot1) =~= a);
    assert(text.subrange(dot1 + 1, dot2) =~= b);
    assert(text.subrange(dot2 + 1, dot3) =~= c);
    assert(text.subrange(dot3 + 1, text.len() as int) =~= d);
    lemma_decimal_value_bounds(a);
    lemma_decimal_value_bounds(b);
    lemma_decimal_value_bounds(c);
    lemma_decimal_value_bounds(d);
}

/// Only four octets joined by dots denote an address.
pub proof fn lemma_dotted_quad_shape(text: Seq<char>)
    requires
        is_dotted_quad(text),
    ensures
        exists|a: Seq<char>, b: Seq<char>, c: Seq<char>, d: Seq<char>|
            is_octet(a) && is_octet(b) && is_octet(c) && is_octet(d) && #[trigger] dotted(
                a,
                b,
                c,
                d,
            ) == text,
        text.len() <= MAX_TEXT_LEN,
{
    lemma_dot_from_bounds(text, 0);
    let dot1 = dot_from(text, 0);
    lemma_dot_from_bounds(text, dot1 + 1);
    let dot2 = dot_from(text, dot1 + 1);
    lemma_dot_from_bounds(text, dot2 + 1);
    let dot3 = dot_from(text, dot2 + 1);
    let a = text.subrange(0, dot1);
    let b = text.subrange(dot1 + 1, dot2);
    let c = text.subrange(dot2 + 1, dot3);
    let d = text.subrange(dot3 + 1, text.len() as int);
    assert(dotted(a, b, c, d) =~= text);
}

/// Finds the first dot at or after `start`.
fn find_dot(text: &str, len: usize, start: usize) -> (end: usize)
    requires
        len == text@.len(),
        start <= len,
    ensures
        end == dot_from(text@, start as int),
        start <= end <= len,
{
    let mut i: usize = start;
    while i < len && text.get_char(i) != '.'
        invariant
            len == text@.len(),
            start <= i <= len,
            dot_from(text@, start as int) == dot_from(text@, i as int),
        decreases len - i,
    {
        i = i + 1;
    }
    i
}

/// Reads the field that fills `text[start..end]`.
fn read_octet(text: &str, start: usize, end: usize) -> (r: Option<u8>)
    requires
        start <= end <= text@.len(),
    ensures
        r is Some <==> is_octet(text@.subrange(start as int, end as int)),
        r is Some ==> r->0 == decimal_value(text@.subrange(start as int, end as int)),
{
    let ghost field = text@.subrange(start as int, end as int);
    let width: usize = end - start;
    if width < 1 || width > 3 {
        return None;
    }
    let mut value: u32 = 0;
    let mut i: usize = 0;
    while i < width
        invariant
            start <= end <= text@.len(),
            width == end - start,
            width <= 3,
            field == text@.subrange(start as int, end as int),
            0 <= i <= width,
            forall|j: int| 0 <= j < i ==> is_digit(#[trigger] field[j]),
            value == decimal_value(field.take(i as int)),
            value <= 999,
            i == 0 ==> value == 0,
            i == 1 ==> value <= 9,
            i == 2 ==> value <= 99,
        decreases width - i,
    {
        let c = text.get_char(start + i);
        assert(c == field[i as int]);
        if c < '0' || c > '9' {
            return None;
        }
        let digit: u32 = c as u32 - '0' as u32;
        proof {
            assert(field.take(i + 1).drop_last() =~= field.take(i as int));
            assert(field.take(i + 1).last() == c);
        }
        value = value * 10 + digit;
        i = i + 1;
    }
    assert(field.take(width as int) =~= field);
    if width > 1 && text.get_char(start) == '0' {
        return None;
    }
    if value > 255 {
        return None;
    }
    Some(value as u8)
}

/// Parses an IPv4 address in dotted-quad form into its key.
pub fn parse_ipv4(text: &str) -> (r: Result<u32, ValidationError>)
    ensures
        r == match address_of(text@) {
            Some(key) => Ok::<u32, ValidationError>(key),
            None => Err::<u32, ValidationError>(ValidationError),
        },
{
    let len = text.unicode_len();
    proof {
        lemma_dot_from_bounds(text@, 0);
        lemma_dot_from_bounds(text@, dot_from(text@, 0) + 1);
        lemma_dot_from_bounds(text@, dot_from(text@, dot_from(text@, 0) + 1) + 1);
    }
    if len > MAX_TEXT_LEN {
        return Err(ValidationError);
    }
    let dot1 = find_dot(text, len, 0);
    if dot1 >= len {
        return Err(ValidationError);
    }
    let dot2 = find_dot(text, len, dot1 + 1);
    if dot2 >= len {
        return Err(ValidationError);
    }
    let dot3 = find_dot(text, len, dot2 + 1);
    if dot3 >= len {
        return Err(ValidationError);
    }
    let a = match read_octet(text, 0, dot1) {
        Some(v) => v,
        None => { return Err(ValidationError); },
    };
    let b = match read_octet(text, dot1 + 1, dot2) {
        Some(v) => v,
        None => { return Err(ValidationError); },
    };
    let c = match read_octet(text, dot2 + 1, dot3) {
        Some(v) => v,
        None => { return Err(ValidationError); },
    };
    let d = match read_octet(text, dot3 + 1, len) {
        Some(v) => v,
        None => { return Err(ValidationError); },
    };
    let key: u32 = (a as u32) * 0x100_0000 + (b as u32) * 0x1_0000 + (c as u32) * 0x100 + (d as u32);
    Ok(key)
}

} // verus!
