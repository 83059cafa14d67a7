use vstd::prelude::*;
use vstd::arithmetic::power2::pow2;

verus! {

/// The decimal digit character for `d` (taken below 10).
pub open spec fn digit_char(d: nat) -> char {
    (48 + d) as char
}

/// The lowercase hexadecimal digit character for `d` (taken below 16).
pub open spec fn hex_char(d: nat) -> char {
    if d < 10 {
        (48 + d) as char
    } else {
        (87 + d) as char
    }
}

/// The shortest decimal notation of `n`, most significant digit first.
pub open spec fn decimal_text(n: nat) -> Seq<char>
    decreases n,
{
    if n < 10 {
        seq![digit_char(n)]
    } else {
        decimal_text(n / 10).push(digit_char(n % 10))
    }
}

/// The 32 lowercase hexadecimal digits of `v`, most significant first.
pub open spec fn hex_digits_128(v: u128) -> Seq<char> {
    Seq::new(32, |i: int| hex_char(((v as int / pow2((124 - 4 * i) as nat) as int) % 16) as nat))
}

/// The hyphenated lowercase text of a 128-bit UUID value:
/// digit groups of 8, 4, 4, 4 and 12, joined by `-`.
pub open spec fn uuid_text(v: u128) -> Seq<char> {
    let h = hex_digits_128(v);
    h.subrange(0, 8) + seq!['-'] + h.subrange(8, 12) + seq!['-'] + h.subrange(12, 16) + seq!['-']
        + h.subrange(16, 20) + seq!['-'] + h.subrange(20, 32)
}

/// The one-character text of decimal digit `d`.
fn digit_str(d: u32) -> (text: &'static str)
    requires
        d < 10,
    ensures
        text@ == seq![digit_char(d as nat)],
{
    proof {
        reveal_strlit("0");
        reveal_strlit("1");
        reveal_strlit("2");
        reveal_strlit("3");
        reveal_strlit("4");
        reveal_strlit("5");
        reveal_strlit("6");
        reveal_strlit("7");
        reveal_strlit("8");
        reveal_strlit("9");
    }
    if d == 0 {
        "0"
    } else if d == 1 {
        "1"
    } else if d == 2 {
        "2"
    } else if d == 3 {
        "3"
    } else if d == 4 {
        "4"
    } else if d == 5 {
        "5"
    } else if d == 6 {
        "6"
    } else if d == 7 {
        "7"
    } else if d == 8 {
        "8"
    } else {
        "9"
    }
}

/// Formats `n` in decimal: the shortest notation, without sign, padding or
/// leading zeros.
pub(crate) fn decimal_string(n: u32) -> (text: String)
    ensures
        text@ == decimal_text(n as nat),
    decreases n,
{
    if n < 10 {
        digit_str(n).to_owned()
    } else {
        let mut text = decimal_string(n / 10);
        text.append(digit_str(n % 10));
        text
    }
}

/// Formats a 128-bit value as a UUID (`uuid::Uuid::from_u128` then its `Display`).
///
/// Claimed of the outside code: `from_u128` takes the value as the big-endian
/// UUID bytes, and `Display` writes the hyphenated lowercase form
/// (`format_hyphenated` in the crate's `fmt.rs`).
#[verifier::external_body]
pub(crate) fn uuid_string(v: u128) -> (text: String)
    ensures
        text@ == uuid_text(v),
{
    uuid::Uuid::from_u128(v).to_string()
}

/// Whether `v` carries the version and variant bits of a random (version 4,
/// RFC 4122 variant) UUID.
pub open spec fn is_random_uuid(v: u128) -> bool {
    &&& (v as int / pow2(76) as int) % 16 == 4
    &&& (v as int / pow2(62) as int) % 4 == 2
}

/// A fresh random UUID as its 128-bit value (`uuid::Uuid::new_v4` then
/// `as_u128`).
///
/// Claimed of the outside code: `new_v4` masks random bits and sets the
/// version nibble to 4 and the variant bits to `10` (see `v4.rs`); which value
/// comes out is chance.
#[verifier::external_body]
pub(crate) fn random_uuid() -> (v: u128)
    ensures
        is_random_uuid(v),
{
    uuid::Uuid::new_v4().as_u128()
}

} // verus!
