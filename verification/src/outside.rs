//! The calls this library makes into the `uuid` and `chrono` crates. Verus
//! takes the contracts in this file on trust: each one restates what the
//! called function documents, and nothing here is proved.

use vstd::prelude::*;

verus! {

/// The error of the `uuid` crate, carried through without a look inside.
#[verifier::external_type_specification]
#[verifier::external_body]
pub struct ExUuidError(uuid::Error);

/// The sixteen lower-case hexadecimal digits, by value.
pub open spec fn hex_digits() -> Seq<char> {
    seq!['0', '1', '2', '3', '4', '5', '6', '7', '8', '9', 'a', 'b', 'c', 'd', 'e', 'f']
}

/// Sixteen to the power `n`.
pub open spec fn pow16(n: nat) -> nat
    decreases n,
{
    if n == 0 {
        1
    } else {
        16 * pow16((n - 1) as nat)
    }
}

/// The `k`-th of the 32 hexadecimal digits of `v`, most significant first.
pub open spec fn hex_digit(v: u128, k: int) -> char
    recommends
        0 <= k < 32,
{
    hex_digits()[((v as nat) / pow16((31 - k) as nat)) as int % 16]
}

/// How many hyphens stand before position `i` of the hyphenated form.
pub open spec fn hyphens_before(i: int) -> int {
    if i < 8 {
        0
    } else if i < 13 {
        1
    } else if i < 18 {
        2
    } else if i < 23 {
        3
    } else {
        4
    }
}

/// The canonical text of a UUID whose big-endian value is `v`: 36
/// characters, lower-case digits in groups of 8, 4, 4, 4 and 12 with a hyphen
/// between groups.
pub open spec fn hyphenated(v: u128) -> Seq<char> {
    Seq::new(
        36,
        |i: int|
            if i == 8 || i == 13 || i == 18 || i == 23 {
                '-'
            } else {
                hex_digit(v, i - hyphens_before(i))
            },
    )
}

/// Whether `v` carries version 7 in its version field and the RFC 9562
/// variant in its variant field.
pub open spec fn is_v7(v: u128) -> bool {
    &&& (v as nat / 0x1000_0000_0000_0000_0000) % 16 == 7
    &&& (v as nat / 0x4000_0000_0000_0000) % 4 == 2
}

/// What `uuid::Uuid::parse_str` makes of a text: the big-endian value of the
/// UUID it reads, or `None` where it reports an error.
pub uninterp spec fn uuid_parse(text: Seq<char>) -> Option<u128>;

/// `uuid::Uuid::now_v7`, read as a 128-bit big-endian value by
/// `uuid::Uuid::as_u128`. The value depends on the clock and on random bits;
/// the contract claims only the version and variant fields, which the crate
/// sets on every value it builds this way.
#[verifier::external_body]
pub(crate) fn fresh_uuid() -> (r: u128)
    ensures
        is_v7(r),
{
    uuid::Uuid::now_v7().as_u128()
}

/// `uuid::Uuid::parse_str`, with what it reads turned into its 128-bit
/// big-endian value by `uuid::Uuid::as_u128`. The contract names the outcome
/// and claims one fact of it, which the crate documents: the hyphenated form
/// that the crate itself prints is read back as the value it was printed
/// from.
#[verifier::external_body]
pub(crate) fn parse_uuid(text: &str) -> (r: Result<u128, uuid::Error>)
    ensures
        uuid_parse(text@) == r.ok(),
        forall|v: u128| text@ == hyphenated(v) ==> r.ok() == Some(v),
{
    match uuid::Uuid::parse_str(text) {
        Ok(id) => Ok(id.as_u128()),
        Err(e) => Err(e),
    }
}

/// `Display` of `uuid::Uuid`, reached through `to_string`, on the UUID that
/// `uuid::Uuid::from_u128` makes of the value: the lower-case hyphenated
/// form.
#[verifier::external_body]
pub(crate) fn uuid_text(v: u128) -> (r: String)
    ensures
        r@ == hyphenated(v),
{
    uuid::Uuid::from_u128(v).to_string()
}

/// `chrono::Utc::now`, read as whole seconds since the Unix epoch by
/// `DateTime::timestamp` and as the nanoseconds within that second by
/// `DateTime::timestamp_subsec_nanos`. Nothing is claimed of a reading of
/// the clock.
#[verifier::external_body]
pub(crate) fn utc_now() -> (r: (i64, u32)) {
    let now = chrono::Utc::now();
    (now.timestamp(), now.timestamp_subsec_nanos())
}

} // verus!
