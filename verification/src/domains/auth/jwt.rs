//! The claims of a session token.
use vstd::prelude::*;

use crate::error::Error;
use crate::ids::{parse_uuid, uuid_parse, uuid_string, uuid_text};

verus! {

/// How long a session token stays valid.
pub const TOKEN_EXPIRY_HOURS: i64 = 24;

/// The claims signed into a session token.
#[derive(Debug, Clone)]
pub struct Claims {
    pub sub: String,
    pub member_id: u128,
    pub is_admin: bool,
    pub exp: i64,
    pub iat: i64,
    pub iss: String,
    pub jti: String,
}

/// The claims of a token issued at `now` (seconds since the epoch) for a member: the
/// subject is the member's id, it expires `TOKEN_EXPIRY_HOURS` later, and `token_id`
/// tells it apart from every other token.
pub fn token_claims(member_id: u128, is_admin: bool, issuer: &str, now: i64, token_id: u128) -> (c:
    Claims)
    requires
        now + TOKEN_EXPIRY_HOURS * 3600 <= i64::MAX,
    ensures
        c.sub@ == uuid_text(member_id),
        c.member_id == member_id,
        c.is_admin == is_admin,
        c.iat == now,
        c.exp == now + TOKEN_EXPIRY_HOURS * 3600,
        c.iss@ == issuer@,
        c.jti@ == uuid_text(token_id),
{
    Claims {
        sub: uuid_string(member_id),
        member_id,
        is_admin,
        exp: now + TOKEN_EXPIRY_HOURS * 3600,
        iat: now,
        iss: String::from_str(issuer),
        jti: uuid_string(token_id),
    }
}

// ─── Signing and validating ────────────────────────────────────────

/// The fields of a token's claims as the token carries them: subject, member id (as text),
/// admin flag, expiry, issue time, issuer and token id.
pub type ClaimFields = (String, String, bool, i64, i64, String, String);

/// The fields of a token's claims as plain values.
pub type FieldsView = (Seq<char>, Seq<char>, bool, i64, i64, Seq<char>, Seq<char>);

/// The view of claim fields.
pub open spec fn fields_view(f: ClaimFields) -> FieldsView {
    (f.0@, f.1@, f.2, f.3, f.4, f.5@, f.6@)
}

/// The fields claims `c` are signed with: the member id as its hyphenated text.
pub open spec fn claim_fields(c: Claims) -> FieldsView {
    (c.sub@, uuid_text(c.member_id), c.is_admin, c.exp, c.iat, c.iss@, c.jti@)
}

/// The token that `jsonwebtoken::encode` gives for these claims, signed with HS256 under
/// `secret`.
pub uninterp spec fn signed_token(
    sub: Seq<char>,
    member_id: Seq<char>,
    is_admin: bool,
    exp: i64,
    iat: i64,
    iss: Seq<char>,
    jti: Seq<char>,
    secret: Seq<char>,
) -> Seq<char>;

/// Whether `token`'s signature checks out under `secret` as jsonwebtoken checks it: its
/// header names HS256, and its last segment is the HS256 MAC, under `secret`, of what comes
/// before the last dot.
pub uninterp spec fn hs256_verifies(token: Seq<char>, secret: Seq<char>) -> bool;

/// The claims a token carries: the segment between its last two dots, base64url-decoded and
/// read as a JSON object, with `sub`, `member_id`, `iss` and `jti` as texts, `is_admin` as a
/// boolean and `exp`, `iat` as 64-bit integers; `None` when any of them cannot be read so.
pub uninterp spec fn token_fields(token: Seq<char>) -> Option<FieldsView>;

/// `jsonwebtoken::encode` with the default header (HS256) and an HMAC key from `secret`, of the
/// claims as a JSON object. It cannot fail here: the key's family matches HS256, and a JSON
/// object always serialises. Signing is deterministic, so the token is named by its claims and
/// secret; it verifies under `secret`, and its payload reads back as the claims given.
#[verifier::external_body]
fn sign_claims(sub: &str, member_id: &str, is_admin: bool, exp: i64, iat: i64, iss: &str, jti: &str, secret: &str) -> (r: Result<String, String>)
    ensures
        r is Ok,
        r matches Ok(t) ==> t@ == signed_token(sub@, member_id@, is_admin, exp, iat, iss@, jti@, secret@),
        r matches Ok(t) ==> hs256_verifies(t@, secret@),
        r matches Ok(t) ==> token_fields(t@) == Some((sub@, member_id@, is_admin, exp, iat, iss@, jti@)),
{
    let mut m = serde_json::Map::new();
    m.insert("sub".into(), sub.into());
    m.insert("member_id".into(), member_id.into());
    m.insert("is_admin".into(), is_admin.into());
    m.insert("exp".into(), exp.into());
    m.insert("iat".into(), iat.into());
    m.insert("iss".into(), iss.into());
    m.insert("jti".into(), jti.into());
    let key = jsonwebtoken::EncodingKey::from_secret(secret.as_bytes());
    jsonwebtoken::encode(&jsonwebtoken::Header::default(), &m, &key).map_err(|e| e.to_string())
}

/// `jsonwebtoken::decode` of `token` with the default validation (HS256 signature under
/// `secret`, expiry against the clock) and the issuer set to `issuer`, then the seven claims
/// read as their JSON types. Whether a token is accepted depends on the clock; what holds of
/// every accepted token is that its signature verifies under `secret`, that the fields are
/// those its payload carries, and that they name `issuer` as the issuer (the crate checks a
/// present `iss` against the set, and a missing or non-text one is not read). Failures carry
/// the crate's message, or note that the claims do not have the expected fields.
#[verifier::external_body]
fn decode_claims(token: &str, secret: &str, issuer: &str) -> (r: Result<ClaimFields, String>)
    ensures
        r matches Ok(c) ==> hs256_verifies(token@, secret@),
        r matches Ok(c) ==> token_fields(token@) == Some(fields_view(c)),
        r matches Ok(c) ==> c.5@ == issuer@,
{
    let mut validation = jsonwebtoken::Validation::default();
    validation.set_issuer(&[issuer]);
    let key = jsonwebtoken::DecodingKey::from_secret(secret.as_bytes());
    let v = jsonwebtoken::decode::<serde_json::Value>(token, &key, &validation).map_err(|e| e.to_string())?.claims;
    let t = |k: &str| v[k].as_str().map(String::from);
    let read = || Some((t("sub")?, t("member_id")?, v["is_admin"].as_bool()?, v["exp"].as_i64()?, v["iat"].as_i64()?, t("iss")?, t("jti")?));
    read().ok_or_else(|| String::from("token claims do not have the expected fields"))
}

/// `chrono::Utc::now().timestamp()`: the current time in seconds since the Unix epoch. It
/// depends on the clock; every value lies within the dates chrono represents (years up to
/// 262142 either side of the era), well inside ten trillion seconds of the epoch.
#[verifier::external_body]
fn clock_seconds() -> (r: i64)
    ensures
        -10_000_000_000_000 < r < 10_000_000_000_000,
{
    chrono::Utc::now().timestamp()
}

/// `uuid::Uuid::new_v4().as_u128()`: a random token id. Nothing is claimed of its value.
#[verifier::external_body]
fn random_token_id() -> (r: u128) {
    uuid::Uuid::new_v4().as_u128()
}

/// The token of claims `c` under `secret`.
pub open spec fn token_of(c: Claims, secret: Seq<char>) -> Seq<char> {
    signed_token(c.sub@, uuid_text(c.member_id), c.is_admin, c.exp, c.iat, c.iss@, c.jti@, secret)
}

/// A token signed for claims `c` under `secret`: it is `token_of(c, secret)`, it verifies
/// under `secret` and its payload carries the fields of `c`.
pub open spec fn signs(t: Seq<char>, c: Claims, secret: Seq<char>) -> bool {
    &&& t == token_of(c, secret)
    &&& hs256_verifies(t, secret)
    &&& token_fields(t) == Some(claim_fields(c))
}

/// Claims `c` read from an accepted `token`: the token verifies under `secret`, and `c` holds
/// the fields its payload carries (the member id parsed from its text), naming `issuer`.
pub open spec fn accepted_claims(token: Seq<char>, secret: Seq<char>, issuer: Seq<char>, c: Claims) -> bool {
    &&& hs256_verifies(token, secret)
    &&& token_fields(token) matches Some(f) && {
        &&& c.sub@ == f.0
        &&& uuid_parse(f.1) == Some(c.member_id)
        &&& forall|x: u128| f.1 == #[trigger] uuid_text(x) ==> c.member_id == x
        &&& c.is_admin == f.2
        &&& c.exp == f.3
        &&& c.iat == f.4
        &&& c.iss@ == f.5
        &&& c.jti@ == f.6
    }
    &&& c.iss@ == issuer
}

/// Signs claims `c` with `secret`.
pub fn sign_token(c: &Claims, secret: &str) -> (r: Result<String, Error>)
    ensures
        r matches Ok(t) && signs(t@, *c, secret@),
{
    let member = uuid_string(c.member_id);
    match sign_claims(c.sub.as_str(), member.as_str(), c.is_admin, c.exp, c.iat, c.iss.as_str(), c.jti.as_str(), secret) {
        Ok(t) => Ok(t),
        Err(m) => Err(Error::Jwt(m)),
    }
}

/// Issues a session token for a member: its claims are those of `token_claims` at the current
/// time with a random token id, signed with `secret`.
pub fn create_token(member_id: u128, is_admin: bool, secret: &str, issuer: &str) -> (r: Result<String, Error>)
    ensures
        r matches Ok(t) && exists|c: Claims|
            #![trigger token_of(c, secret@)]
            {
                &&& signs(t@, c, secret@)
                &&& t@ == token_of(c, secret@)
                &&& c.sub@ == uuid_text(member_id)
                &&& c.member_id == member_id
                &&& c.is_admin == is_admin
                &&& c.exp == c.iat + TOKEN_EXPIRY_HOURS * 3600
                &&& c.iss@ == issuer@
            },
{
    let now = clock_seconds();
    let claims = token_claims(member_id, is_admin, issuer, now, random_token_id());
    sign_token(&claims, secret)
}

/// The claims a token carried, from their fields: the member id must be a UUID.
pub fn claims_from_fields(decoded: Result<ClaimFields, String>) -> (r: Result<Claims, Error>)
    ensures
        match decoded {
            Err(m) => r == Err::<Claims, Error>(Error::Jwt(m)),
            Ok(f) => match uuid_parse(f.1@) {
                Some(id) => r matches Ok(c) && c.sub == f.0 && c.member_id == id && c.is_admin
                    == f.2 && c.exp == f.3 && c.iat == f.4 && c.iss == f.5 && c.jti == f.6 && (
                forall|x: u128| f.1@ == #[trigger] uuid_text(x) ==> c.member_id == x),
                None => r matches Err(Error::Jwt(m)) && m@ == "member_id is not a UUID"@,
            },
        },
{
    match decoded {
        Err(m) => Err(Error::Jwt(m)),
        Ok((sub, member, is_admin, exp, iat, iss, jti)) => match parse_uuid(member.as_str()) {
            Some(member_id) => Ok(Claims { sub, member_id, is_admin, exp, iat, iss, jti }),
            None => Err(Error::Jwt(String::from_str("member_id is not a UUID"))),
        },
    }
}

/// The claims of a token signed with `secret` by `issuer` that has not expired; any other
/// token is refused with a token error. Whether a token has expired depends on the clock, so
/// acceptance is not promised; accepted claims are those the token carries.
pub fn validate_token(token: &str, secret: &str, issuer: &str) -> (r: Result<Claims, Error>)
    ensures
        match r {
            Ok(c) => accepted_claims(token@, secret@, issuer@, c),
            Err(e) => e is Jwt,
        },
{
    let decoded = decode_claims(token, secret, issuer);
    let r = claims_from_fields(decoded);
    r
}

// ─── Laws ──────────────────────────────────────────────────────────

/// Validating a token gives back the claims it was signed with: whatever a validation accepts
/// of a token signed for `signed` is `signed` again.
pub proof fn lemma_validated_claims_are_signed(
    token: Seq<char>,
    secret: Seq<char>,
    issuer: Seq<char>,
    signed: Claims,
    read: Claims,
)
    requires
        signs(token, signed, secret),
        accepted_claims(token, secret, issuer, read),
    ensures
        read.sub@ == signed.sub@,
        read.member_id == signed.member_id,
        read.is_admin == signed.is_admin,
        read.exp == signed.exp,
        read.iat == signed.iat,
        read.iss@ == signed.iss@,
        read.jti@ == signed.jti@,
{
    let f = claim_fields(signed);
    assert(f.1 == uuid_text(signed.member_id));
}

} // verus!
