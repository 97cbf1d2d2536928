use learning_core::domains::auth::identifier::{hash_phone_number, is_admin_identifier};
use learning_core::domains::auth::jwt::{
    claims_from_fields, create_token, token_claims, validate_token, TOKEN_EXPIRY_HOURS,
};
use learning_core::error::Error;
use uuid::Uuid;
use learning_core::domains::auth::otp::OtpService;

#[test]
fn test_hash_phone_number() {
    let hash = hash_phone_number("+15551234567");
    assert_eq!(hash.len(), 64);
    assert_eq!(hash, hash_phone_number("+15551234567"));
    assert_ne!(hash, hash_phone_number("+15559999999"));
}

#[test]
fn phone_hash_is_lowercase_hex_sha256() {
    assert_eq!(
        hash_phone_number("+15551234567"),
        "8a59780bb8cd2ba022bfa5ba2ea3b6e07af17a7d8b30c1f9b3390e36f69019e4"
    );
    assert_eq!(
        hash_phone_number(""),
        "e3b0c44298fc1c149afbf4c8996fb92427ae41e4649b934ca495991b7852b855"
    );
}

#[test]
fn test_is_admin_identifier() {
    let admins = "+15551111111, +15552222222";
    assert!(is_admin_identifier("+15551111111", admins));
    assert!(is_admin_identifier("+15552222222", admins));
    assert!(!is_admin_identifier("+15553333333", admins));
    assert!(!is_admin_identifier("+15551111111", ""));
}

#[test]
fn admin_entries_are_trimmed_and_exact() {
    assert!(is_admin_identifier("+1", "  +1  "));
    assert!(is_admin_identifier("", "a,,b"));
    assert!(!is_admin_identifier("+1", "+12"));
    assert!(is_admin_identifier("+1", "+2,\t+1\n"));
}

#[test]
fn token_claims_expire_a_day_later() {
    let c = token_claims(0x0123_4567_89ab_cdef_0123_4567_89ab_cdef, true, "ourmeadow", 1_000, 1);
    assert_eq!(c.sub, "01234567-89ab-cdef-0123-456789abcdef");
    assert_eq!(c.member_id, 0x0123_4567_89ab_cdef_0123_4567_89ab_cdef);
    assert!(c.is_admin);
    assert_eq!(c.iat, 1_000);
    assert_eq!(c.exp, 1_000 + TOKEN_EXPIRY_HOURS * 3600);
    assert_eq!(c.exp, 87_400);
    assert_eq!(c.iss, "ourmeadow");
    assert_eq!(c.jti, "00000000-0000-0000-0000-000000000001");
}

#[test]
fn only_the_enabled_test_number_skips_the_provider() {
    let on = OtpService::new("a".into(), "b".into(), "c".into(), true);
    let off = OtpService::new("a".into(), "b".into(), "c".into(), false);
    assert!(on.skips_provider("+1234567890"));
    assert!(!on.skips_provider("+1234567891"));
    assert!(!off.skips_provider("+1234567890"));
}

#[test]
fn test_create_and_validate_token() {
    let member_id = Uuid::new_v4().as_u128();
    let secret = "test-secret";
    let issuer = "ourmeadow";

    let token = create_token(member_id, false, secret, issuer).unwrap();
    let claims = validate_token(&token, secret, issuer).unwrap();

    assert_eq!(claims.member_id, member_id);
    assert!(!claims.is_admin);
    assert_eq!(claims.iss, issuer);
}

#[test]
fn test_invalid_secret_fails() {
    let member_id = Uuid::new_v4().as_u128();
    let token = create_token(member_id, false, "secret1", "ourmeadow").unwrap();
    let result = validate_token(&token, "wrong-secret", "ourmeadow");
    assert!(result.is_err());
}

#[test]
fn tokens_carry_the_claims() {
    let token = create_token(7, true, "s", "ourmeadow").unwrap();
    let c = validate_token(&token, "s", "ourmeadow").unwrap();
    assert_eq!(c.sub, "00000000-0000-0000-0000-000000000007");
    assert!(c.is_admin);
    assert_eq!(c.exp, c.iat + 86_400);
    assert!(matches!(validate_token(&token, "s", "someone-else"), Err(Error::Jwt(_))));
    assert!(matches!(validate_token("not a token", "s", "ourmeadow"), Err(Error::Jwt(_))));
}

#[test]
fn decoded_fields_need_a_uuid_member() {
    let fields = |member: &str| {
        Ok((
            "s".to_string(),
            member.to_string(),
            false,
            10,
            5,
            "i".to_string(),
            "j".to_string(),
        ))
    };
    let c = claims_from_fields(fields("00000000-0000-0000-0000-00000000002a")).unwrap();
    assert_eq!((c.member_id, c.exp, c.iat), (42, 10, 5));
    assert_eq!(
        claims_from_fields(fields("42")).unwrap_err(),
        Error::Jwt("member_id is not a UUID".to_string())
    );
    assert_eq!(
        claims_from_fields(Err("ExpiredSignature".to_string())).unwrap_err(),
        Error::Jwt("ExpiredSignature".to_string())
    );
}
