use vstd::prelude::*;

verus! {

/// The lowercase hexadecimal digit for `d` (below sixteen).
pub open spec fn hex_char(d: int) -> char {
    if d < 10 {
        (48 + d) as char
    } else {
        (87 + d) as char
    }
}

/// The `k`-th hexadecimal digit (from the most significant, 0 to 31) of a
/// 128-bit id.
pub open spec fn nibble(id: u128, k: int) -> int {
    ((id as int) / vstd::arithmetic::power2::pow2((4 * (31 - k)) as nat) as int) % 16
}

/// Number of hyphens that come before text position `p` of a hyphenated id.
pub open spec fn hyphens_before(p: int) -> int {
    if p < 9 {
        0
    } else if p < 14 {
        1
    } else if p < 19 {
        2
    } else if p < 24 {
        3
    } else {
        4
    }
}

/// The hyphenated lowercase text of a UUID: 32 hexadecimal digits in groups
/// of 8, 4, 4, 4 and 12, separated by hyphens.
pub open spec fn hyphenated(id: u128) -> Seq<char> {
    Seq::new(
        36,
        |p: int|
            if p == 8 || p == 13 || p == 18 || p == 23 {
                '-'
            } else {
                hex_char(nibble(id, p - hyphens_before(p)))
            },
    )
}

/// What `uuid::Uuid::parse_str` yields for a text: the 128-bit value of the
/// id, or nothing when the text is not a UUID in one of the accepted forms.
pub uninterp spec fn uuid_parse_result(s: Seq<char>) -> Option<u128>;

/// Parses a UUID with `uuid::Uuid::parse_str`. The parser's grammar (simple,
/// hyphenated, braced and URN forms, either case) is not written out here:
/// the contract only names the result.
#[verifier::external_body]
pub(crate) fn parse_uuid(s: &str) -> (r: Option<u128>)
    ensures
        r == uuid_parse_result(s@),
{
    uuid::Uuid::parse_str(s).ok().map(|u| u.as_u128())
}

/// Formats an id with `uuid::Uuid`'s `Display`, which writes the hyphenated
/// lowercase form; that form parses back to the same id, as the crate's
/// documentation of `parse_str` says of every form it generates.
#[verifier::external_body]
pub(crate) fn uuid_to_string(id: u128) -> (r: String)
    ensures
        r@ == hyphenated(id),
        uuid_parse_result(r@) == Some(id),
{
    uuid::Uuid::from_u128(id).to_string()
}

} // verus!
