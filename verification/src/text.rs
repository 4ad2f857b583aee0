//! How numbers and tags are written out for people.

use uuid::Uuid;
use vstd::prelude::*;

verus! {

/// The character for a digit below sixteen: `0` to `9`, then `a` to `f`.
pub open spec fn digit_char(d: int) -> char {
    seq!['0', '1', '2', '3', '4', '5', '6', '7', '8', '9', 'a', 'b', 'c', 'd', 'e', 'f'][d]
}

/// A number in decimal: no sign, no leading zeros, `0` for zero.
pub open spec fn decimal(n: nat) -> Seq<char>
    decreases n,
{
    if n < 10 {
        seq![digit_char(n as int)]
    } else {
        decimal(n / 10).push(digit_char((n % 10) as int))
    }
}

/// `n` without its `k` lowest hexadecimal digits.
pub open spec fn drop_hex(n: nat, k: nat) -> nat
    decreases k,
{
    if k == 0 {
        n
    } else {
        drop_hex(n / 16, (k - 1) as nat)
    }
}

/// The `i`-th of the 32 hexadecimal digits of a tag, counted from the most
/// significant one.
pub open spec fn hex_digit(tag: u128, i: int) -> int {
    (drop_hex(tag as nat, (31 - i) as nat) % 16) as int
}

/// How many hyphens stand before position `p` of a hyphenated tag.
pub open spec fn hyphens_before(p: int) -> int {
    if p > 23 {
        4
    } else if p > 18 {
        3
    } else if p > 13 {
        2
    } else if p > 8 {
        1
    } else {
        0
    }
}

/// A tag in the usual form of a UUID: its 32 lower-case hexadecimal digits in
/// groups of 8, 4, 4, 4 and 12, with a hyphen between the groups.
pub open spec fn hyphenated(tag: u128) -> Seq<char> {
    Seq::new(
        36,
        |p: int|
            if p == 8 || p == 13 || p == 18 || p == 23 {
                '-'
            } else {
                digit_char(hex_digit(tag, p - hyphens_before(p)))
            },
    )
}

/// A number in decimal.
///
/// Trusted: calls `ToString::to_string` of `u64`, which writes the number in
/// decimal without sign or leading zeros.
#[verifier::external_body]
pub(crate) fn decimal_text(n: u64) -> (text: String)
    ensures
        text@ == decimal(n as nat),
{
    n.to_string()
}

/// A tag in the usual form of a UUID.
///
/// Trusted: calls `uuid::Uuid::from_u128`, which takes the bytes of the number most
/// significant first, and `ToString::to_string` of the `Uuid`, whose `Display`
/// writes those bytes as lower-case hexadecimal digits with hyphens after the
/// 8th, 12th, 16th and 20th digit.
#[verifier::external_body]
pub(crate) fn tag_text(tag: u128) -> (text: String)
    ensures
        text@ == hyphenated(tag),
{
    Uuid::from_u128(tag).to_string()
}

} // verus!
