//! Phone identifiers: their stored hash and the admin list.
use vstd::prelude::*;

use crate::ids::hex_digit;
use crate::text::{chars_eq, chars_of, split_chars, split_on, string_push, sub_vec, trim, trim_bounds};

verus! {

// ─── Admin identifiers ─────────────────────────────────────────────

/// `phone` is one of the comma-separated entries of `admins`, each entry taken without
/// surrounding whitespace.
pub open spec fn is_admin(phone: Seq<char>, admins: Seq<char>) -> bool {
    exists|i: int|
        0 <= i < split_on(admins, ',').len() && trim(#[trigger] split_on(admins, ',')[i]) == phone
}

/// Whether `phone` is listed in the comma-separated `admin_identifiers`.
pub fn is_admin_identifier(phone: &str, admin_identifiers: &str) -> (r: bool)
    ensures
        r == is_admin(phone@, admin_identifiers@),
{
    let p = chars_of(phone);
    let pieces = split_chars(&chars_of(admin_identifiers), ',');
    let ghost ps = split_on(admin_identifiers@, ',');
    let mut i: usize = 0;
    while i < pieces.len()
        invariant
            i <= pieces@.len(),
            pieces.deep_view() == ps,
            ps.len() == pieces@.len(),
            ps == split_on(admin_identifiers@, ','),
            p@ == phone@,
            forall|j: int| 0 <= j < i ==> trim(#[trigger] ps[j]) != phone@,
        decreases pieces.len() - i,
    {
        let piece = &pieces[i];
        assert(piece@ =~= ps[i as int]);
        let (a, b) = trim_bounds(piece, 0, piece.len());
        assert(piece@.subrange(0, piece@.len() as int) =~= piece@);
        let entry = sub_vec(piece, a, b);
        if chars_eq(&entry, &p) {
            assert(trim(ps[i as int]) == phone@);
            return true;
        }
        i = i + 1;
    }
    false
}

/// An empty admin list admits no phone number.
pub proof fn lemma_no_admins(phone: Seq<char>)
    requires
        phone.len() > 0,
    ensures
        !is_admin(phone, Seq::empty()),
{
    let pieces = split_on(Seq::<char>::empty(), ',');
    assert(pieces =~= seq![Seq::<char>::empty()]);
    assert(trim(Seq::<char>::empty()) =~= Seq::<char>::empty()) by {
        reveal_with_fuel(crate::text::trim_start, 1);
    }
}

/// Every listed entry, spaces around it aside, is admitted.
pub proof fn lemma_listed_is_admin(admins: Seq<char>, i: int)
    requires
        0 <= i < split_on(admins, ',').len(),
    ensures
        is_admin(trim(split_on(admins, ',')[i]), admins),
{
}

// ─── Phone hash ────────────────────────────────────────────────────

/// The SHA-256 digest of `data`.
pub uninterp spec fn sha256_digest(data: Seq<u8>) -> Seq<u8>;

/// `sha2::Sha256`: hashes `data` and gives the 32 bytes of its digest.
#[verifier::external_body]
fn sha256(data: &[u8]) -> (r: Vec<u8>)
    ensures
        r@ == sha256_digest(data@),
        r@.len() == 32,
{
    <sha2::Sha256 as sha2::Digest>::digest(data).to_vec()
}

/// The lower-case hexadecimal text of `bytes`: two digits per byte, high nibble first.
pub open spec fn lower_hex(bytes: Seq<u8>) -> Seq<char>
    decreases bytes.len(),
{
    if bytes.len() == 0 {
        Seq::empty()
    } else {
        lower_hex(bytes.drop_last()) + seq![
            hex_digit(bytes.last() as int / 16),
            hex_digit(bytes.last() as int % 16),
        ]
    }
}

/// The length of the hexadecimal text of `bytes`.
pub proof fn lemma_lower_hex_len(bytes: Seq<u8>)
    ensures
        lower_hex(bytes).len() == 2 * bytes.len(),
    decreases bytes.len(),
{
    if bytes.len() > 0 {
        lemma_lower_hex_len(bytes.drop_last());
    }
}

fn hex_digit_char(d: u8) -> (c: char)
    requires
        d < 16,
    ensures
        c == hex_digit(d as int),
{
    if d < 10 {
        (48 + d) as char
    } else {
        (87 + d) as char
    }
}

/// The stored form of a phone number: the lower-case hexadecimal SHA-256 digest of its
/// UTF-8 bytes.
pub fn hash_phone_number(phone: &str) -> (r: String)
    ensures
        r@ == lower_hex(sha256_digest(vstd::utf8::encode_utf8(phone@))),
        r@.len() == 64,
{
    let digest = sha256(phone.as_bytes());
    let mut out = String::new();
    let mut i: usize = 0;
    while i < digest.len()
        invariant
            i <= digest@.len(),
            out@ == lower_hex(digest@.take(i as int)),
        decreases digest.len() - i,
    {
        let b = digest[i];
        assert(digest@.take(i + 1).drop_last() =~= digest@.take(i as int));
        string_push(&mut out, hex_digit_char(b / 16));
        string_push(&mut out, hex_digit_char(b % 16));
        assert(out@ =~= lower_hex(digest@.take(i + 1)));
        i = i + 1;
    }
    assert(digest@.take(digest@.len() as int) =~= digest@);
    proof {
        lemma_lower_hex_len(digest@);
    }
    out
}

} // verus!
