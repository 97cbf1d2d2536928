//! Textual form of identifiers.
use vstd::prelude::*;
use vstd::arithmetic::power::pow;

verus! {

/// The lowercase hexadecimal digit for `d < 16`.
pub open spec fn hex_digit(d: int) -> char {
    if d < 10 {
        (48 + d) as char
    } else {
        (87 + d) as char
    }
}

/// The `k`-th hexadecimal digit of `x`, counting from the most significant of 32.
pub open spec fn nibble(x: u128, k: int) -> int {
    (x as int / pow(16, (31 - k) as nat)) % 16
}

/// How many of the four group separators of a UUID come before position `i`.
pub open spec fn separators_before(i: int) -> int {
    (if i > 8 { 1int } else { 0int }) + (if i > 13 { 1int } else { 0int }) + (if i > 18 {
        1int
    } else {
        0int
    }) + (if i > 23 { 1int } else { 0int })
}

/// The hyphenated lowercase form of a UUID: 32 hexadecimal digits, most significant
/// first, in groups of 8-4-4-4-12.
pub open spec fn uuid_text(x: u128) -> Seq<char> {
    Seq::new(
        36,
        |i: int|
            if i == 8 || i == 13 || i == 18 || i == 23 {
                '-'
            } else {
                hex_digit(nibble(x, i - separators_before(i)))
            },
    )
}

/// `uuid::Uuid::from_u128(id).to_string()`: the crate reads the 128-bit value big-endian
/// and displays it hyphenated, in lowercase hexadecimal.
#[verifier::external_body]
pub fn uuid_string(id: u128) -> (s: String)
    ensures
        s@ == uuid_text(id),
{
    uuid::Uuid::from_u128(id).to_string()
}

/// What `uuid::Uuid::parse_str` reads from a text, as a 128-bit value (big-endian), if it is
/// a UUID in one of the forms the crate accepts.
pub uninterp spec fn uuid_parse(text: Seq<char>) -> Option<u128>;

/// `uuid::Uuid::parse_str(text)`, as a 128-bit value: the crate accepts the simple,
/// hyphenated, braced and URN forms in either case of hexadecimal digits; in particular the
/// hyphenated lowercase form of a value reads back as that value.
#[verifier::external_body]
pub fn parse_uuid(text: &str) -> (r: Option<u128>)
    ensures
        r == uuid_parse(text@),
        forall|x: u128| text@ == #[trigger] uuid_text(x) ==> r == Some(x),
{
    match uuid::Uuid::parse_str(text) {
        Ok(u) => Some(u.as_u128()),
        Err(_) => None,
    }
}

} // verus!
