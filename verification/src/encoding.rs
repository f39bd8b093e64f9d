//! Text forms of byte strings and numbers: hexadecimal, decimal, little-endian identifiers.

use vstd::prelude::*;

verus! {

// ---------------------------------------------------------------------------
// Hexadecimal
// ---------------------------------------------------------------------------

/// The lowercase hexadecimal digit of a value below sixteen.
pub open spec fn hex_digit(v: int) -> char {
    if v < 10 {
        ('0' as int + v) as char
    } else {
        ('a' as int + v - 10) as char
    }
}

/// The hexadecimal text of a byte string: two lowercase digits per byte, high half first.
pub open spec fn hex_text(bytes: Seq<u8>) -> Seq<char> {
    Seq::new(
        2 * bytes.len(),
        |i: int|
            if i % 2 == 0 {
                hex_digit(bytes[i / 2] as int / 16)
            } else {
                hex_digit(bytes[i / 2] as int % 16)
            },
    )
}

/// The value of a hexadecimal digit of either case; `None` for any other character.
pub open spec fn hex_value(c: char) -> Option<int> {
    if '0' as int <= c as int <= '9' as int {
        Some(c as int - '0' as int)
    } else if 'a' as int <= c as int <= 'f' as int {
        Some(c as int - 'a' as int + 10)
    } else if 'A' as int <= c as int <= 'F' as int {
        Some(c as int - 'A' as int + 10)
    } else {
        None
    }
}

/// Whether a text is hexadecimal: an even number of digits and nothing else.
pub open spec fn is_hex_text(text: Seq<char>) -> bool {
    &&& text.len() % 2 == 0
    &&& forall|i: int| 0 <= i < text.len() ==> (#[trigger] hex_value(text[i])) is Some
}

/// The bytes that a hexadecimal text stands for.
pub open spec fn hex_bytes(text: Seq<char>) -> Seq<u8> {
    Seq::new(
        text.len() / 2,
        |i: int| (16 * hex_value(text[2 * i])->0 + hex_value(text[2 * i + 1])->0) as u8,
    )
}

/// The error of `hex::decode`, carried without looking inside.
#[verifier::external_type_specification]
#[verifier::external_body]
pub struct ExFromHexError(hex::FromHexError);

/// Calls `hex::encode`, which writes each byte as two lowercase hexadecimal digits.
/// A result longer than any allocation can be is left out.
#[verifier::external_body]
pub(crate) fn hex_encode(data: &[u8]) -> (text: String)
    requires
        2 * data@.len() <= isize::MAX,
    ensures
        text@ == hex_text(data@),
{
    hex::encode(data)
}

/// Calls `hex::decode`, which accepts exactly the texts made of an even number of
/// hexadecimal digits, in either case, and gives one byte for each pair of digits.
/// Which error comes back for another text is not stated: the value is opaque here.
#[verifier::external_body]
pub(crate) fn hex_decode(text: &str) -> (bytes: Result<Vec<u8>, hex::FromHexError>)
    ensures
        bytes is Ok <==> is_hex_text(text@),
        bytes matches Ok(b) ==> b@ == hex_bytes(text@),
{
    hex::decode(text)
}

/// Hexadecimal text is readable, and reading it back gives the bytes it was made from.
pub proof fn law_hex_round_trip(bytes: Seq<u8>)
    ensures
        is_hex_text(hex_text(bytes)),
        hex_bytes(hex_text(bytes)) == bytes,
{
    let text = hex_text(bytes);
    assert forall|i: int| 0 <= i < text.len() implies (#[trigger] hex_value(text[i])) is Some by {
        assert(0 <= i / 2 < bytes.len());
    }
    assert forall|i: int| 0 <= i < bytes.len() implies #[trigger] hex_bytes(text)[i] == bytes[i] by {
        assert((2 * i) / 2 == i && (2 * i) % 2 == 0);
        assert((2 * i + 1) / 2 == i && (2 * i + 1) % 2 == 1);
        assert(hex_value(text[2 * i]) == Some(bytes[i] as int / 16));
        assert(hex_value(text[2 * i + 1]) == Some(bytes[i] as int % 16));
    }
    assert(hex_bytes(text) =~= bytes);
}

/// Hexadecimal text has two digits for each byte, out of `0123456789abcdef`: the one that stands
/// at the place of the byte's high half, then the one at the place of its low half.
pub proof fn law_hex_digits(bytes: Seq<u8>, i: int)
    ensures
        hex_text(bytes).len() == 2 * bytes.len(),
        0 <= i < bytes.len() ==> {
            &&& hex_text(bytes)[2 * i] == "0123456789abcdef"@[bytes[i] as int / 16]
            &&& hex_text(bytes)[2 * i + 1] == "0123456789abcdef"@[bytes[i] as int % 16]
        },
{
    reveal_strlit("0123456789abcdef");
    assert((2 * i) / 2 == i && (2 * i) % 2 == 0);
    assert((2 * i + 1) / 2 == i && (2 * i + 1) % 2 == 1);
}

/// A text is read as hexadecimal if it has an even length and no character but
/// `0123456789abcdefABCDEF`; each pair of them, of either case, is one byte, high half first.
pub proof fn law_hex_reading(text: Seq<char>, i: int, high: int, low: int)
    ensures
        is_hex_text(text) <==> text.len() % 2 == 0 && forall|k: int|
            0 <= k < text.len() ==> "0123456789abcdefABCDEF"@.contains(#[trigger] text[k]),
        is_hex_text(text) ==> 2 * hex_bytes(text).len() == text.len(),
        is_hex_text(text) && 0 <= i < hex_bytes(text).len() && 0 <= high < 16 && 0 <= low < 16 && (
        text[2 * i] == "0123456789abcdef"@[high] || text[2 * i] == "0123456789ABCDEF"@[high]) && (
        text[2 * i + 1] == "0123456789abcdef"@[low] || text[2 * i + 1] == "0123456789ABCDEF"@[low])
            ==> hex_bytes(text)[i] == 16 * high + low,
{
    reveal_strlit("0123456789abcdefABCDEF");
    reveal_strlit("0123456789abcdef");
    reveal_strlit("0123456789ABCDEF");
    let all = "0123456789abcdefABCDEF"@;
    assert forall|c: char| #[trigger] all.contains(c) <==> hex_value(c) is Some by {
        if hex_value(c) is Some {
            let at = if c as int >= 'a' as int {
                hex_value(c)->0
            } else if c as int >= 'A' as int {
                hex_value(c)->0 + 6
            } else {
                hex_value(c)->0
            };
            assert(all[at] == c);
        }
    }
    if is_hex_text(text) {
        assert forall|k: int| 0 <= k < text.len() implies all.contains(#[trigger] text[k]) by {
            assert(hex_value(text[k]) is Some);
        }
    }
}

// ---------------------------------------------------------------------------
// Little-endian identifiers
// ---------------------------------------------------------------------------

/// The four bytes of a number, least significant first.
pub open spec fn le_bytes(n: u32) -> Seq<u8> {
    seq![
        (n % 256) as u8,
        (n / 256 % 256) as u8,
        (n / 65536 % 256) as u8,
        (n / 16777216) as u8,
    ]
}

/// The number whose four bytes, least significant first, are given.
pub open spec fn from_le_bytes(bytes: Seq<u8>) -> u32 {
    (bytes[0] + 256 * bytes[1] + 65536 * bytes[2] + 16777216 * bytes[3]) as u32
}

/// The digits of a number to the base of 256 come back by division.
proof fn lemma_digits(a: int, b: int, c: int, d: int)
    requires
        0 <= a < 256,
        0 <= b < 256,
        0 <= c < 256,
        0 <= d < 256,
    ensures
        ({
            let n = a + 256 * b + 65536 * c + 16777216 * d;
            &&& n % 256 == a
            &&& n / 256 % 256 == b
            &&& n / 65536 % 256 == c
            &&& n / 16777216 == d
        }),
{
    let n = a + 256 * b + 65536 * c + 16777216 * d;
    assert(n / 256 == b + 256 * c + 65536 * d);
    assert(n / 65536 == c + 256 * d);
}

/// Numbers and their four bytes determine each other.
pub proof fn lemma_le_bytes(n: u32, bytes: Seq<u8>)
    requires
        bytes.len() == 4,
    ensures
        from_le_bytes(le_bytes(n)) == n,
        le_bytes(from_le_bytes(bytes)) == bytes,
{
    lemma_digits(bytes[0] as int, bytes[1] as int, bytes[2] as int, bytes[3] as int);
    assert(le_bytes(from_le_bytes(bytes)) =~= bytes);
    assert(n / 256 == n / 65536 * 256 + n / 256 % 256);
    assert(n / 65536 == n / 16777216 * 256 + n / 65536 % 256);
}

/// The four bytes of a number weigh 1, 256, 65536 and 16777216, and make up the number; and four
/// bytes are read with the same weights.
pub proof fn law_le_bytes_weigh(n: u32, bytes: Seq<u8>)
    ensures
        le_bytes(n).len() == 4,
        n == le_bytes(n)[0] + 256 * le_bytes(n)[1] + 65536 * le_bytes(n)[2] + 16777216 * le_bytes(
            n,
        )[3],
        bytes.len() == 4 ==> from_le_bytes(bytes) == bytes[0] + 256 * bytes[1] + 65536 * bytes[2]
            + 16777216 * bytes[3],
{
    lemma_le_bytes(n, le_bytes(n));
    assert(n / 256 == n / 65536 * 256 + n / 256 % 256);
    assert(n / 65536 == n / 16777216 * 256 + n / 65536 % 256);
}

/// The four bytes of a number, least significant first.
pub(crate) fn le_bytes_of(n: u32) -> (bytes: Vec<u8>)
    ensures
        bytes@ == le_bytes(n),
{
    let bytes: Vec<u8> = vec![
        (n % 256) as u8,
        (n / 256 % 256) as u8,
        (n / 65536 % 256) as u8,
        (n / 16777216) as u8,
    ];
    assert(bytes@ =~= le_bytes(n));
    bytes
}

/// The number whose four bytes, least significant first, are given.
pub(crate) fn number_of(bytes: &Vec<u8>) -> (n: u32)
    requires
        bytes@.len() == 4,
    ensures
        n == from_le_bytes(bytes@),
{
    bytes[0] as u32 + 256 * (bytes[1] as u32) + 65536 * (bytes[2] as u32) + 16777216 * (
    bytes[3] as u32)
}

/// The two bytes of a message number, least significant first.
pub open spec fn nonce_bytes(nonce: u16) -> Seq<u8> {
    seq![(nonce % 256) as u8, (nonce / 256) as u8]
}

/// The two bytes of a message number weigh 1 and 256, and make up the number.
pub proof fn law_nonce_bytes_weigh(nonce: u16)
    ensures
        nonce_bytes(nonce).len() == 2,
        nonce == nonce_bytes(nonce)[0] + 256 * nonce_bytes(nonce)[1],
{
}

/// The bytes of different message numbers differ.
pub proof fn law_nonce_bytes_differ(m: u16, n: u16)
    requires
        m != n,
    ensures
        nonce_bytes(m) != nonce_bytes(n),
{
    assert(nonce_bytes(m)[0] == nonce_bytes(n)[0] ==> nonce_bytes(m)[1] != nonce_bytes(n)[1]);
}

/// The bytes of a message number.
pub(crate) fn nonce_bytes_of(nonce: u16) -> (bytes: Vec<u8>)
    ensures
        bytes@ == nonce_bytes(nonce),
{
    let bytes: Vec<u8> = vec![(nonce % 256) as u8, (nonce / 256) as u8];
    assert(bytes@ =~= nonce_bytes(nonce));
    bytes
}

// ---------------------------------------------------------------------------
// Decimal
// ---------------------------------------------------------------------------

/// The decimal text of a number, without leading zeros.
pub open spec fn decimal_text(n: nat) -> Seq<char>
    decreases n,
{
    if n < 10 {
        seq![hex_digit(n as int)]
    } else {
        decimal_text(n / 10).push(hex_digit(n as int % 10))
    }
}

/// The number that a text of decimal digits stands for.
pub open spec fn decimal_value(text: Seq<char>) -> int
    decreases text.len(),
{
    if text.len() == 0 {
        0
    } else {
        10 * decimal_value(text.drop_last()) + (text.last() as int - '0' as int)
    }
}

/// The decimal text of a number is made of the digits `0` to `9`, begins with no zero unless it
/// is that one digit, and stands for the number.
pub proof fn law_decimal_text_reads_back(n: nat)
    ensures
        decimal_value(decimal_text(n)) == n,
        decimal_text(n).len() > 0,
        decimal_text(n).len() > 1 ==> decimal_text(n)[0] != '0',
        forall|i: int|
            0 <= i < decimal_text(n).len() ==> '0' as int <= (#[trigger] decimal_text(n)[i]) as int
                <= '9' as int,
    decreases n,
{
    reveal_with_fuel(decimal_value, 2);
    if n >= 10 {
        law_decimal_text_reads_back(n / 10);
        let head = decimal_text(n / 10);
        assert(decimal_text(n).drop_last() =~= head);
        assert(decimal_text(n).last() as int - '0' as int == n % 10);
        if head.len() == 1 {
            assert(decimal_value(head.drop_last()) == 0);
            assert(decimal_value(head) == head[0] as int - '0' as int);
        }
    } else {
        assert(decimal_text(n).drop_last() =~= Seq::empty());
    }
}

fn digit_of(n: u16) -> (text: &'static str)
    requires
        n < 10,
    ensures
        text@ == seq![hex_digit(n as int)],
{
    proof {
        reveal_strlit("0");
        reveal_strlit("1");
        reveal_strlit("2");
        reveal_strlit("3");
        reveal_strlit("4");
        reveal_strlit("5");
        reveal_strlit("6");
        reveal_strlit("7");
        reveal_strlit("8");
        reveal_strlit("9");
    }
    match n {
        0 => "0",
        1 => "1",
        2 => "2",
        3 => "3",
        4 => "4",
        5 => "5",
        6 => "6",
        7 => "7",
        8 => "8",
        _ => "9",
    }
}

/// The decimal text of a number, without leading zeros.
pub(crate) fn decimal_of(n: u16) -> (text: String)
    ensures
        text@ == decimal_text(n as nat),
    decreases n,
{
    if n < 10 {
        digit_of(n).to_owned()
    } else {
        let head: String = decimal_of(n / 10);
        let text: String = head.concat(digit_of(n % 10));
        assert(text@ =~= decimal_text(n as nat));
        text
    }
}

} // verus!
