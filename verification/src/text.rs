//! Byte-level helpers for source text.
//!
//! Source offsets are byte offsets, so every operation here works on the
//! UTF-8 bytes of a string and is specified over `Seq<u8>`.

use vstd::prelude::*;
use vstd::utf8::*;

verus! {

/// Number of occurrences of `b` in `s`.
pub open spec fn count_byte(s: Seq<u8>, b: u8) -> nat
    decreases s.len(),
{
    if s.len() == 0 {
        0
    } else {
        count_byte(s.drop_last(), b) + if s.last() == b { 1nat } else { 0nat }
    }
}

/// Number of line feeds among the first `offset` bytes of `source`; an
/// offset past the end counts the whole text.
pub open spec fn newlines_before(source: Seq<u8>, offset: int) -> nat {
    if offset <= 0 {
        0
    } else if offset >= source.len() {
        count_byte(source, 10u8)
    } else {
        count_byte(source.subrange(0, offset), 10u8)
    }
}

/// `needle` occurs in `hay` at position `at`.
pub open spec fn occurs_at(hay: Seq<u8>, needle: Seq<u8>, at: int) -> bool {
    0 <= at && at + needle.len() <= hay.len() && hay.subrange(at, at + needle.len()) == needle
}

/// `needle` occurs somewhere in `hay`. The empty needle occurs everywhere.
pub open spec fn contains_bytes(hay: Seq<u8>, needle: Seq<u8>) -> bool {
    exists|at: int| occurs_at(hay, needle, at)
}

/// `hay` with every occurrence of `from` replaced by `to`, scanning from
/// the left and never looking again at bytes already replaced. An empty
/// `from` leaves `hay` unchanged.
pub open spec fn replaced(hay: Seq<u8>, from: Seq<u8>, to: Seq<u8>) -> Seq<u8>
    decreases hay.len(),
{
    if hay.len() == 0 || from.len() == 0 {
        hay
    } else if occurs_at(hay, from, 0) {
        to + replaced(hay.subrange(from.len() as int, hay.len() as int), from, to)
    } else {
        seq![hay[0]] + replaced(hay.subrange(1, hay.len() as int), from, to)
    }
}

pub proof fn lemma_count_byte_bound(s: Seq<u8>, b: u8)
    ensures
        count_byte(s, b) <= s.len(),
    decreases s.len(),
{
    if s.len() > 0 {
        lemma_count_byte_bound(s.drop_last(), b);
    }
}

/// Two strings with the same UTF-8 bytes are the same string.
pub proof fn lemma_utf8_injective(a: Seq<char>, b: Seq<char>)
    requires
        encode_utf8(a) == encode_utf8(b),
    ensures
        a == b,
{
    encode_utf8_decode_utf8(a);
    encode_utf8_decode_utf8(b);
}

/// Calls `String::from_utf8`: a string comes back exactly when the bytes
/// are valid UTF-8, and it then holds those bytes.
#[verifier::external_body]
pub(crate) fn string_from_utf8(bytes: Vec<u8>) -> (r: Option<String>)
    ensures
        r is Some <==> valid_utf8(bytes@),
        r matches Some(s) ==> encode_utf8(s@) == bytes@,
{
    match String::from_utf8(bytes) {
        Ok(s) => Some(s),
        Err(_) => None,
    }
}

/// Whether two byte slices hold the same bytes.
pub fn bytes_eq(a: &[u8], b: &[u8]) -> (r: bool)
    ensures
        r == (a@ == b@),
{
    if a.len() != b.len() {
        return false;
    }
    let mut i: usize = 0;
    while i < a.len()
        invariant
            a.len() == b.len(),
            i <= a.len(),
            forall|k: int| 0 <= k < i ==> a@[k] == b@[k],
        decreases a.len() - i,
    {
        if a[i] != b[i] {
            return false;
        }
        i += 1;
    }
    assert(a@ =~= b@);
    true
}

/// Whether two strings are equal.
pub fn str_eq(a: &str, b: &str) -> (r: bool)
    ensures
        r == (a@ == b@),
{
    let r = bytes_eq(a.as_bytes(), b.as_bytes());
    proof {
        if r {
            lemma_utf8_injective(a@, b@);
        }
    }
    r
}

/// Whether `needle` occurs in `hay` at byte position `at`.
pub fn occurs_at_exec(hay: &[u8], needle: &[u8], at: usize) -> (r: bool)
    ensures
        r == occurs_at(hay@, needle@, at as int),
{
    if needle.len() > hay.len() || at > hay.len() - needle.len() {
        return false;
    }
    let mut k: usize = 0;
    while k < needle.len()
        invariant
            k <= needle.len(),
            at + needle.len() <= hay.len(),
            forall|j: int| 0 <= j < k ==> hay@[at + j] == needle@[j],
        decreases needle.len() - k,
    {
        if hay[at + k] != needle[k] {
            assert(hay@.subrange(at as int, at + needle.len())[k as int] == hay@[at + k]);
            return false;
        }
        k += 1;
    }
    assert(hay@.subrange(at as int, at + needle.len()) =~= needle@);
    true
}

/// Whether `needle` occurs anywhere in `hay`.
pub fn contains(hay: &[u8], needle: &[u8]) -> (r: bool)
    ensures
        r == contains_bytes(hay@, needle@),
{
    if needle.len() > hay.len() {
        return false;
    }
    let last: usize = hay.len() - needle.len();
    let mut at: usize = 0;
    loop
        invariant
            last == hay.len() - needle.len(),
            at <= last,
            forall|k: int| 0 <= k < at ==> !occurs_at(hay@, needle@, k),
        decreases last - at,
    {
        if occurs_at_exec(hay, needle, at) {
            return true;
        }
        if at == last {
            return false;
        }
        at += 1;
    }
}

/// Number of line feeds among the first `offset` bytes of `source`.
pub fn count_newlines_before(source: &[u8], offset: usize) -> (r: usize)
    ensures
        r == newlines_before(source@, offset as int),
        r <= source.len(),
{
    let end: usize = if offset < source.len() { offset } else { source.len() };
    let mut n: usize = 0;
    let mut i: usize = 0;
    while i < end
        invariant
            i <= end <= source.len(),
            n == count_byte(source@.subrange(0, i as int), 10u8),
            n <= i,
        decreases end - i,
    {
        assert(source@.subrange(0, i + 1).drop_last() =~= source@.subrange(0, i as int));
        if source[i] == 10u8 {
            n += 1;
        }
        i += 1;
    }
    assert(source@.subrange(0, source.len() as int) =~= source@);
    n
}

/// The three slices one after another.
pub fn concat3(a: &[u8], b: &[u8], c: &[u8]) -> (r: Vec<u8>)
    ensures
        r@ == a@ + b@ + c@,
{
    let mut out: Vec<u8> = Vec::new();
    out.extend_from_slice(a);
    out.extend_from_slice(b);
    out.extend_from_slice(c);
    out
}

/// `hay` with every occurrence of `from` replaced by `to`.
pub fn replace_all(hay: &[u8], from: &[u8], to: &[u8]) -> (r: Vec<u8>)
    ensures
        r@ == replaced(hay@, from@, to@),
{
    let mut out: Vec<u8> = Vec::new();
    if from.len() == 0 {
        out.extend_from_slice(hay);
        return out;
    }
    let mut i: usize = 0;
    assert(hay@.subrange(0, hay.len() as int) =~= hay@);
    assert(out@ + replaced(hay@, from@, to@) =~= replaced(hay@, from@, to@));
    while i < hay.len()
        invariant
            i <= hay.len(),
            from.len() > 0,
            out@ + replaced(hay@.subrange(i as int, hay.len() as int), from@, to@) == replaced(
                hay@,
                from@,
                to@,
            ),
        decreases hay.len() - i,
    {
        let ghost rest = hay@.subrange(i as int, hay.len() as int);
        if occurs_at_exec(hay, from, i) {
            proof {
                assert(rest.subrange(0, from.len() as int) =~= hay@.subrange(
                    i as int,
                    i + from.len(),
                ));
                assert(rest.subrange(from.len() as int, rest.len() as int) =~= hay@.subrange(
                    i + from.len(),
                    hay.len() as int,
                ));
                assert(out@ + (to@ + replaced(
                    hay@.subrange(i + from.len(), hay.len() as int),
                    from@,
                    to@,
                )) =~= (out@ + to@) + replaced(
                    hay@.subrange(i + from.len(), hay.len() as int),
                    from@,
                    to@,
                ));
            }
            out.extend_from_slice(to);
            i += from.len();
        } else {
            proof {
                if from.len() <= rest.len() {
                    assert(rest.subrange(0, from.len() as int) =~= hay@.subrange(
                        i as int,
                        i + from.len(),
                    ));
                }
                assert(rest.subrange(1, rest.len() as int) =~= hay@.subrange(
                    i + 1,
                    hay.len() as int,
                ));
                assert(out@ + (seq![hay@[i as int]] + replaced(
                    hay@.subrange(i + 1, hay.len() as int),
                    from@,
                    to@,
                )) =~= out@.push(hay@[i as int]) + replaced(
                    hay@.subrange(i + 1, hay.len() as int),
                    from@,
                    to@,
                ));
            }
            out.push(hay[i]);
            i += 1;
        }
    }
    assert(hay@.subrange(hay.len() as int, hay.len() as int) =~= Seq::<u8>::empty());
    assert(out@ + Seq::<u8>::empty() =~= out@);
    out
}

/// `head` followed by `tail`.
pub fn append_str(head: String, tail: &str) -> (r: String)
    ensures
        r@ == head@ + tail@,
{
    let mut out = head;
    out.append(tail);
    out
}

/// `head` followed by the text that `tail` holds; bytes that are not
/// UTF-8 are left out, so that only `head` comes back.
pub fn append_bytes_lossy(head: String, tail: &[u8]) -> (r: String)
    ensures
        valid_utf8(tail@) ==> encode_utf8(r@) == encode_utf8(head@) + tail@,
        !valid_utf8(tail@) ==> r@ == head@,
{
    let mut copy: Vec<u8> = Vec::new();
    copy.extend_from_slice(tail);
    assert(copy@ =~= tail@);
    match string_from_utf8(copy) {
        Some(t) => {
            let mut out = head;
            proof {
                lemma_encode_concat(head@, t@);
            }
            out.append(t.as_str());
            out
        },
        None => head,
    }
}

/// The UTF-8 bytes of two strings joined are the bytes of the first
/// followed by the bytes of the second.
pub proof fn lemma_encode_concat(a: Seq<char>, b: Seq<char>)
    ensures
        encode_utf8(a + b) == encode_utf8(a) + encode_utf8(b),
{
    let joined = encode_utf8(a) + encode_utf8(b);
    encode_utf8_valid_utf8(a);
    encode_utf8_valid_utf8(b);
    valid_utf8_concat(encode_utf8(a), encode_utf8(b));
    is_char_boundary_start_end_of_seq(encode_utf8(a));
    lemma_boundary_of_prefix(encode_utf8(a), encode_utf8(b));
    decode_utf8_split(joined, encode_utf8(a).len() as int);
    assert(joined.subrange(0, encode_utf8(a).len() as int) =~= encode_utf8(a));
    assert(joined.subrange(encode_utf8(a).len() as int, joined.len() as int) =~= encode_utf8(b));
    encode_utf8_decode_utf8(a);
    encode_utf8_decode_utf8(b);
    assert(decode_utf8(joined) == a + b);
    decode_utf8_encode_utf8(joined);
}

/// Where one valid text ends inside two joined texts, a character begins.
pub proof fn lemma_boundary_of_prefix(a: Seq<u8>, b: Seq<u8>)
    requires
        valid_utf8(a),
        valid_utf8(b),
    ensures
        is_char_boundary(a + b, a.len() as int),
    decreases a.len(),
{
    valid_utf8_concat(a, b);
    if a.len() == 0 {
    } else {
        let rest = pop_first_scalar(a);
        lemma_boundary_of_prefix(rest, b);
        assert(pop_first_scalar(a + b) =~= rest + b);
        assert(length_of_first_scalar(a + b) == length_of_first_scalar(a));
        assert(rest.len() == a.len() - length_of_first_scalar(a));
    }
}

/// An ASCII capital letter becomes its small letter; every other byte stays.
pub open spec fn lower_byte(b: u8) -> u8 {
    if 0x41 <= b <= 0x5a {
        (b + 0x20) as u8
    } else {
        b
    }
}

/// The bytes with ASCII capital letters made small.
pub open spec fn lower_bytes(s: Seq<u8>) -> Seq<u8> {
    Seq::new(s.len(), |i: int| lower_byte(s[i]))
}

/// The bytes with ASCII capital letters made small.
pub fn to_lower(s: &[u8]) -> (r: Vec<u8>)
    ensures
        r@ == lower_bytes(s@),
{
    let mut out: Vec<u8> = Vec::new();
    let mut i: usize = 0;
    while i < s.len()
        invariant
            i <= s@.len(),
            out@.len() == i,
            forall|k: int| 0 <= k < i ==> out@[k] == lower_byte(s@[k]),
        decreases s@.len() - i,
    {
        let b = s[i];
        if 0x41 <= b && b <= 0x5a {
            out.push(b + 0x20);
        } else {
            out.push(b);
        }
        i += 1;
    }
    assert(out@ =~= lower_bytes(s@));
    out
}

/// Whether a character is white space, as `char::is_whitespace` says:
/// whether it has the Unicode property `White_Space`.
pub open spec fn is_white_space(c: char) -> bool {
    let n = c as u32;
    ||| 0x09 <= n <= 0x0d
    ||| n == 0x20
    ||| n == 0x85
    ||| n == 0xa0
    ||| n == 0x1680
    ||| 0x2000 <= n <= 0x200a
    ||| n == 0x2028
    ||| n == 0x2029
    ||| n == 0x202f
    ||| n == 0x205f
    ||| n == 0x3000
}

/// Number of white space characters at the start of a string.
pub open spec fn leading_space(s: Seq<char>) -> nat
    decreases s.len(),
{
    if s.len() > 0 && is_white_space(s[0]) {
        1 + leading_space(s.drop_first())
    } else {
        0
    }
}

/// Number of white space characters at the end of a string.
pub open spec fn trailing_space(s: Seq<char>) -> nat
    decreases s.len(),
{
    if s.len() > 0 && is_white_space(s.last()) {
        1 + trailing_space(s.drop_last())
    } else {
        0
    }
}

/// The string without the white space at its start and at its end.
pub open spec fn trimmed(s: Seq<char>) -> Seq<char> {
    if leading_space(s) >= s.len() {
        Seq::empty()
    } else {
        s.subrange(leading_space(s) as int, s.len() - trailing_space(s))
    }
}

/// Calls `str::trim`, which takes the white space off both ends of a
/// string; white space is what `char::is_whitespace` says it is.
#[verifier::external_body]
pub(crate) fn trim(s: &str) -> (r: &str)
    ensures
        r@ == trimmed(s@),
        r@.len() > 0 ==> !is_white_space(r@[0]) && !is_white_space(r@.last()),
{
    s.trim()
}

/// The number that a string of decimal digits stands for.
pub open spec fn digits_value(digits: Seq<u8>) -> nat
    decreases digits.len(),
{
    if digits.len() == 0 {
        0
    } else {
        digits_value(digits.drop_last()) * 10 + (digits.last() - 0x30) as nat
    }
}

/// Every byte is a decimal digit.
pub open spec fn all_digits(digits: Seq<u8>) -> bool {
    forall|i: int| 0 <= i < digits.len() ==> 0x30 <= #[trigger] digits[i] <= 0x39
}

/// The digits of a number in text: the text without a `+` at its start.
pub open spec fn unsigned_digits(text: Seq<u8>) -> Seq<u8> {
    if text.len() > 0 && text[0] == 0x2b {
        text.drop_first()
    } else {
        text
    }
}

/// The number that a text stands for, as `u32`: one or more decimal
/// digits, with or without a `+` before them, that give a number no
/// greater than the greatest `u32`. Any other text stands for no number.
pub open spec fn parsed_u32(text: Seq<u8>) -> Option<u32> {
    let digits = unsigned_digits(text);
    if digits.len() > 0 && all_digits(digits) && digits_value(digits) <= u32::MAX {
        Some(digits_value(digits) as u32)
    } else {
        None
    }
}

/// The value of digits does not get smaller as digits are added.
pub proof fn lemma_digits_value_grows(digits: Seq<u8>, n: int)
    requires
        all_digits(digits),
        0 <= n <= digits.len(),
    ensures
        digits_value(digits.subrange(0, n)) <= digits_value(digits),
    decreases digits.len() - n,
{
    if n < digits.len() {
        lemma_digits_value_grows(digits, n + 1);
        assert(digits.subrange(0, n + 1).drop_last() =~= digits.subrange(0, n));
        assert(digits.subrange(0, n + 1).last() == digits[n]);
    } else {
        assert(digits.subrange(0, n) =~= digits);
    }
}

/// Reads a `u32` from text: see [`parsed_u32`].
pub fn parse_u32(text: &[u8]) -> (r: Option<u32>)
    ensures
        r == parsed_u32(text@),
{
    let start: usize = if text.len() > 0 && text[0] == 0x2b {
        1
    } else {
        0
    };
    let digits = &text[start..text.len()];
    assert(digits@ =~= unsigned_digits(text@));
    if digits.len() == 0 {
        return None;
    }
    let mut value: u64 = 0;
    let mut i: usize = 0;
    while i < digits.len()
        invariant
            i <= digits@.len(),
            digits@ == unsigned_digits(text@),
            digits@.len() > 0,
            value == digits_value(digits@.subrange(0, i as int)),
            value <= u32::MAX,
            forall|k: int| 0 <= k < i ==> 0x30 <= #[trigger] digits@[k] <= 0x39,
        decreases digits@.len() - i,
    {
        let d = digits[i];
        if d < 0x30 || d > 0x39 {
            assert(!(0x30 <= digits@[i as int] <= 0x39));
            return None;
        }
        assert(digits@.subrange(0, i + 1).drop_last() =~= digits@.subrange(0, i as int));
        assert(digits@.subrange(0, i + 1).last() == d);
        value = value * 10 + (d - 0x30) as u64;
        if value > u32::MAX as u64 {
            proof {
                if all_digits(digits@) {
                    lemma_digits_value_grows(digits@, i + 1);
                }
            }
            return None;
        }
        i += 1;
    }
    assert(digits@.subrange(0, digits@.len() as int) =~= digits@);
    Some(value as u32)
}

} // verus!
