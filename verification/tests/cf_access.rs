use workspace_authz::cf_access::{base64_decode, base64_url_decode, CfAccessClaims, CfAccessError};
use workspace_authz::cf_auth::{logout, logout_scope, LogoutRequest, LogoutScope};

fn claims(name: Option<&str>, email: &str, exp: i64) -> CfAccessClaims {
    CfAccessClaims {
        sub: "user123".to_string(),
        email: email.to_string(),
        token_type: None,
        iat: 0,
        exp,
        iss: None,
        name: name.map(String::from),
        identity_nonce: None,
    }
}

#[test]
fn test_base64_url_decode() {
    // Test basic decoding
    let encoded = "SGVsbG8gV29ybGQ"; // "Hello World"
    let decoded = base64_url_decode(encoded).unwrap();
    assert_eq!(String::from_utf8(decoded).unwrap(), "Hello World");
}

#[test]
fn test_claims_display_name() {
    let claims_without_name = claims(None, "test@example.com", i64::MAX);

    // Without name, should use email prefix
    assert_eq!(claims_without_name.display_name(), "test");

    // With name, should use name
    let claims_with_name = CfAccessClaims { name: Some("John Doe".to_string()), ..claims_without_name };
    assert_eq!(claims_with_name.display_name(), "John Doe");
}

#[test]
fn test_logout_request_default() {
    let json = "{}";
    let value: serde_json::Value = serde_json::from_str(json).unwrap();
    let req = match value.get("all_sessions").and_then(|b| b.as_bool()) {
        Some(all_sessions) => LogoutRequest { all_sessions },
        None => LogoutRequest::default(),
    };
    assert!(!req.all_sessions);
}

#[test]
fn test_logout_request_all_sessions() {
    let json = r#"{"all_sessions": true}"#;
    let value: serde_json::Value = serde_json::from_str(json).unwrap();
    let req = match value.get("all_sessions").and_then(|b| b.as_bool()) {
        Some(all_sessions) => LogoutRequest { all_sessions },
        None => LogoutRequest::default(),
    };
    assert!(req.all_sessions);
}

#[test]
fn base64_spells_bytes_from_digits() {
    assert_eq!(base64_decode("").unwrap(), Vec::<u8>::new());
    assert_eq!(base64_decode("TQ==").unwrap(), vec![0x4d]);
    assert_eq!(base64_decode("TWE=").unwrap(), vec![0x4d, 0x61]);
    assert_eq!(base64_decode("TWFu").unwrap(), vec![0x4d, 0x61, 0x6e]);
    assert_eq!(base64_decode("+/+/").unwrap(), vec![0xfb, 0xff, 0xbf]);
    // A lone digit holds no whole byte.
    assert_eq!(base64_decode("T").unwrap(), Vec::<u8>::new());
    // Nothing after the first padding character is read.
    assert_eq!(base64_decode("TQ==!!!").unwrap(), vec![0x4d]);
}

#[test]
fn base64_reports_the_first_stray_character() {
    assert_eq!(base64_decode("TW!u*").unwrap_err(), "Invalid base64 character: !");
    assert_eq!(base64_decode("-_").unwrap_err(), "Invalid base64 character: -");
    match base64_url_decode("TW u") {
        Err(CfAccessError::JwtDecode(message)) => assert_eq!(message, "Invalid base64 character:  "),
        other => panic!("{:?}", other),
    }
}

#[test]
fn base64_reads_the_low_byte_of_a_character() {
    // U+0141 has the low byte 0x41, the letter A.
    assert_eq!(base64_decode("\u{141}\u{141}").unwrap(), base64_decode("AA").unwrap());
}

#[test]
fn url_safe_alphabet_is_read() {
    assert_eq!(base64_url_decode("-_-_").unwrap(), vec![0xfb, 0xff, 0xbf]);
    assert_eq!(base64_url_decode("+/+/").unwrap(), vec![0xfb, 0xff, 0xbf]);
}

#[test]
fn payload_is_the_second_of_three_parts() {
    let token = "aGVhZGVy.eyJzdWIiOiJ1In0.c2ln";
    assert_eq!(CfAccessClaims::payload_of(token).unwrap(), b"{\"sub\":\"u\"}".to_vec());
    assert!(matches!(CfAccessClaims::payload_of("a.b"), Err(CfAccessError::InvalidJwtFormat)));
    assert!(matches!(CfAccessClaims::payload_of("a.b.c.d"), Err(CfAccessError::InvalidJwtFormat)));
    assert!(matches!(CfAccessClaims::payload_of(""), Err(CfAccessError::InvalidJwtFormat)));
    assert_eq!(CfAccessClaims::payload_of("..").unwrap(), Vec::<u8>::new());
    assert!(matches!(CfAccessClaims::payload_of("a.!.c"), Err(CfAccessError::JwtDecode(_))));
}

#[test]
fn claims_run_out_after_their_expiry() {
    assert!(claims(None, "a@b", 100).validate(100).is_ok());
    assert!(matches!(claims(None, "a@b", 100).validate(101), Err(CfAccessError::JwtExpired)));
    assert_eq!(claims(None, "a@b", 100).expires_at(), 100_000_000);
    assert_eq!(claims(None, "a@b", 100).issued_at(), 0);
}

#[test]
fn display_name_of_odd_addresses() {
    assert_eq!(claims(None, "no-at-sign", 0).display_name(), "no-at-sign");
    assert_eq!(claims(None, "@example.com", 0).display_name(), "");
    assert_eq!(claims(None, "a@b@c", 0).display_name(), "a");
    assert_eq!(claims(None, "jos\u{e9}@example.com", 0).display_name(), "jos\u{e9}");
}

#[test]
fn logout_ends_one_session_or_all() {
    let one = LogoutRequest { all_sessions: false };
    let all = LogoutRequest { all_sessions: true };
    assert_eq!(logout_scope(one, 1, 2), LogoutScope::Session(2));
    assert_eq!(logout_scope(all, 1, 2), LogoutScope::AllSessionsOf(1));
    assert_eq!(logout(one, 1).message, "Successfully logged out");
    assert_eq!(logout(all, 3).message, "Logged out from 3 session(s)");
    assert_eq!(logout(all, 0).message, "Logged out from 0 session(s)");
    assert_eq!(
        logout(all, u64::MAX).message,
        "Logged out from 18446744073709551615 session(s)"
    );
    assert!(logout(all, 12).success);
}
