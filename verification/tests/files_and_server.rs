use workspace_authz::models::user::{UpsertUser, User};
use workspace_authz::models::user_session::{UserSession, DEFAULT_SESSION_DURATION};
use workspace_authz::remote::files::{
    allowed_avatar_types, avatar_prefix, extension_for, may_delete, FilesError, FilesService,
    DEFAULT_MAX_AVATAR_SIZE,
};
use workspace_authz::remote::routes::files::{
    create_avatar_upload_url, delete_avatar, get_files_config, CreateAvatarUploadRequest,
    FilesRouteError,
};
use workspace_authz::remote::routes::identity::get_identity;
use workspace_authz::remote::routes::workspace_members::RequestUser;
use workspace_authz::server::{parse_port, port_of_text};
use workspace_authz::text::{decimal_text, starts_with, text_eq, text_precedes};

const USER: u128 = 0x550e8400_e29b_41d4_a716_446655440000;
const FILE: u128 = 0x00000000_0000_4000_8000_0000000000ff;

fn service() -> FilesService {
    FilesService::new("avatars", "https://cdn.example.com//", 300, 1000)
}

#[test]
fn test_validate_avatar_type() {
    assert!(FilesService::validate_avatar_type("image/jpeg").is_ok());
    assert!(FilesService::validate_avatar_type("image/png").is_ok());
    assert!(FilesService::validate_avatar_type("image/gif").is_ok());
    assert!(FilesService::validate_avatar_type("image/webp").is_ok());
    assert!(FilesService::validate_avatar_type("application/pdf").is_err());
    assert!(FilesService::validate_avatar_type("text/plain").is_err());
}

#[test]
fn refused_type_is_told_with_the_allowed_ones() {
    match FilesService::validate_avatar_type("text/plain") {
        Err(FilesError::InvalidFileType(message)) => assert_eq!(
            message,
            "text/plain (allowed: image/jpeg, image/png, image/gif, image/webp)"
        ),
        other => panic!("{:?}", other),
    }
    assert_eq!(allowed_avatar_types(), vec!["image/jpeg", "image/png", "image/gif", "image/webp"]);
    assert_eq!(DEFAULT_MAX_AVATAR_SIZE, 5_242_880);
}

#[test]
fn file_size_is_held_to_the_limit() {
    let files = service();
    assert_eq!(files.max_file_size(), 1000);
    assert!(files.validate_file_size(1000).is_ok());
    assert!(files.validate_file_size(0).is_ok());
    assert!(matches!(files.validate_file_size(1001), Err(FilesError::FileTooLarge(1001, 1000))));
}

#[test]
fn upload_goes_to_the_folder_of_its_owner() {
    let files = service();
    let plan = files.plan_avatar_upload(USER, "image/png", Some(10), FILE).unwrap();
    assert_eq!(
        plan.object_key,
        "avatars/550e8400-e29b-41d4-a716-446655440000/00000000-0000-4000-8000-0000000000ff.png"
    );
    assert_eq!(plan.public_url, format!("https://cdn.example.com/{}", plan.object_key));
    assert!(files.plan_avatar_upload(USER, "image/jpeg", None, FILE).unwrap().object_key.ends_with(".jpg"));
    assert!(matches!(
        files.plan_avatar_upload(USER, "image/png", Some(1001), FILE),
        Err(FilesError::FileTooLarge(1001, 1000))
    ));
    // The type is judged before the size.
    assert!(matches!(
        files.plan_avatar_upload(USER, "text/plain", Some(1001), FILE),
        Err(FilesError::InvalidFileType(_))
    ));
    assert_eq!(extension_for("image/gif"), "gif");
    assert_eq!(extension_for("image/webp"), "webp");
    assert_eq!(extension_for("image/tiff"), "bin");
}

#[test]
fn addresses_and_keys_are_converted() {
    let files = service();
    assert_eq!(files.public_url, "https://cdn.example.com");
    assert_eq!(files.bucket, "avatars");
    assert_eq!(files.get_public_url("a/b.png"), "https://cdn.example.com/a/b.png");
    assert_eq!(files.extract_object_key("https://cdn.example.com/a/b.png").as_deref(), Some("a/b.png"));
    assert_eq!(files.extract_object_key("https://cdn.example.com///a").as_deref(), Some("a"));
    assert_eq!(files.extract_object_key("https://cdn.example.com").as_deref(), Some(""));
    assert_eq!(files.extract_object_key("https://other.example.com/a"), None);
    assert_eq!(FilesService::new("b", "///", 1, 1).public_url, "");
    assert_eq!(FilesService::new("b", "x/y", 1, 1).public_url, "x/y");
}

#[test]
fn only_own_avatars_may_be_deleted() {
    assert_eq!(avatar_prefix(USER), "avatars/550e8400-e29b-41d4-a716-446655440000/");
    assert!(may_delete(USER, "avatars/550e8400-e29b-41d4-a716-446655440000/x.png").is_ok());
    assert!(may_delete(USER, "avatars/550e8400-e29b-41d4-a716-446655440000/").is_ok());
    match may_delete(USER, "avatars/550e8400-e29b-41d4-a716-446655440001/x.png") {
        Err(FilesError::Delete(message)) => {
            assert_eq!(message, "Cannot delete files belonging to other users")
        }
        other => panic!("{:?}", other),
    }
    assert!(may_delete(USER, "avatars/550e8400").is_err());
    let files = service();
    assert!(delete_avatar(Some(&files), USER, "avatars/550e8400-e29b-41d4-a716-446655440000/x").is_ok());
    assert!(matches!(delete_avatar(None, USER, "x"), Err(FilesRouteError::NotConfigured)));
    assert!(matches!(
        delete_avatar(Some(&files), USER, "x"),
        Err(FilesRouteError::Files(FilesError::Delete(_)))
    ));
}

#[test]
fn file_failures_are_told_by_kind() {
    let e = FilesRouteError::NotConfigured.into_response();
    assert_eq!((e.status, e.message.as_str()), (503, "File storage service not available"));
    let e = FilesRouteError::Files(FilesError::FileTooLarge(6_000_000, 5_242_880)).into_response();
    assert_eq!(
        (e.status, e.message.as_str()),
        (413, "File size 6000000 bytes exceeds maximum 5242880 bytes")
    );
    let e = FilesRouteError::Files(FilesError::InvalidFileType("nope".to_string())).into_response();
    assert_eq!((e.status, e.message.as_str()), (400, "nope"));
    for hidden in [
        FilesError::Presign("secret".to_string()),
        FilesError::PresignConfig("secret".to_string()),
        FilesError::Delete("secret".to_string()),
        FilesError::List("secret".to_string()),
    ] {
        let e = FilesRouteError::Files(hidden).into_response();
        assert_eq!((e.status, e.message.as_str()), (500, "Internal server error"));
    }
}

#[test]
fn upload_endpoint_and_configuration() {
    let files = service();
    let payload =
        CreateAvatarUploadRequest { content_type: "image/webp".to_string(), content_length: Some(5) };
    let plan = create_avatar_upload_url(Some(&files), USER, &payload, FILE).unwrap();
    assert!(plan.object_key.ends_with("0000000000ff.webp"));
    assert!(matches!(
        create_avatar_upload_url(None, USER, &payload, FILE),
        Err(FilesRouteError::NotConfigured)
    ));
    let config = get_files_config(Some(&files));
    assert!(config.enabled);
    assert_eq!(config.max_file_size_bytes, Some(1000));
    assert_eq!(config.allowed_types, vec!["image/jpeg", "image/png", "image/gif", "image/webp"]);
    let config = get_files_config(None);
    assert!(!config.enabled);
    assert_eq!(config.max_file_size_bytes, None);
    assert_eq!(config.allowed_types.len(), 4);
}

#[test]
fn port_is_read_from_a_setting() {
    assert_eq!(parse_port("8080"), Some(8080));
    assert_eq!(parse_port("\u{1b}[32m8080\u{1b}[m"), Some(8080));
    assert_eq!(parse_port("  3000\n"), Some(3000));
    assert_eq!(parse_port("\u{1b}[1m \u{1b}[0m+443 "), Some(443));
    assert_eq!(parse_port(""), None);
    assert_eq!(parse_port("\u{1b}[32m"), None);
    assert_eq!(parse_port("80 80"), None);
    assert_eq!(parse_port("http"), None);
}

#[test]
fn port_is_a_number_of_sixteen_bits() {
    assert_eq!(port_of_text("0"), Some(0));
    assert_eq!(port_of_text("65535"), Some(65535));
    assert_eq!(port_of_text("65536"), None);
    assert_eq!(port_of_text("000065535"), Some(65535));
    assert_eq!(port_of_text("99999999999999999999"), None);
    assert_eq!(port_of_text("+"), None);
    assert_eq!(port_of_text("++1"), None);
    assert_eq!(port_of_text("-1"), None);
    assert_eq!(port_of_text("1_000"), None);
    assert_eq!(port_of_text("\u{a0}\u{3000}81\u{2003}\t"), Some(81));
    assert_eq!(port_of_text("\u{200b}81"), None);
    assert_eq!(port_of_text("８１"), None);
    for text in ["0", " 17", "+9", "65535", "65536", "x", "", "  ", "12 ", "1\n2"] {
        assert_eq!(port_of_text(text), text.trim().parse::<u16>().ok(), "{:?}", text);
    }
}

#[test]
fn texts_are_compared_by_their_bytes() {
    assert!(text_eq("", ""));
    assert!(text_eq("caf\u{e9}", "caf\u{e9}"));
    assert!(!text_eq("cafe", "caf\u{e9}"));
    assert!(!text_eq("a", "ab"));
    for (a, b) in [("", ""), ("", "a"), ("a", ""), ("a", "b"), ("b", "a"), ("ab", "a"), ("Z", "a"), ("a", "\u{e9}")] {
        assert_eq!(text_precedes(a, b), a <= b, "{:?} {:?}", a, b);
        assert_eq!(starts_with(a, b), a.starts_with(b), "{:?} {:?}", a, b);
    }
    assert_eq!(decimal_text(0), "0");
    assert_eq!(decimal_text(10), "10");
    assert_eq!(decimal_text(907), "907");
    assert_eq!(decimal_text(u64::MAX), u64::MAX.to_string());
}

#[test]
fn sessions_run_out_and_go_stale() {
    let session = UserSession::open(1, 2, Some("jwt"), None, 1_000);
    assert_eq!(session.expires_at, 1_000 + DEFAULT_SESSION_DURATION);
    assert_eq!(session.expires_at, 604_800_001_000);
    assert_eq!(session.cf_access_jwt_id.as_deref(), Some("jwt"));
    assert_eq!(UserSession::open(1, 2, None, Some(5), 1_000).expires_at, 1_005);
    assert!(!session.expired_at(session.expires_at));
    assert!(session.expired_at(session.expires_at + 1));
    let day = 86_400_000_000;
    assert!(!session.inactive_at(1_000 + day));
    assert!(session.inactive_at(1_001 + day));
    assert!(session.valid_at(1_000 + day));
    assert!(!session.valid_at(1_001 + day));
    let used = session.touched(1_001 + day);
    assert!(used.valid_at(1_001 + day));
    assert_eq!(used.expires_at, session.expires_at);
    // A stale session of old, read against the clock.
    assert!(session.is_expired());
    assert!(session.is_inactive());
    assert!(!session.is_valid());
    let lasting = UserSession {
        id: 1,
        user_id: 2,
        cf_access_jwt_id: None,
        expires_at: i64::MAX,
        created_at: 0,
        last_used_at: i64::MAX,
    };
    assert!(lasting.is_valid());
    let ancient = UserSession { last_used_at: i64::MIN, ..lasting };
    assert!(ancient.inactive_at(i64::MAX));
}

#[test]
fn users_are_announced_and_changed() {
    let data = UpsertUser {
        email: "a@example.com".to_string(),
        name: "Ann".to_string(),
        avatar_url: None,
        cf_access_id: Some("cf-1".to_string()),
    };
    let first = User::upserted(None, &data, 7, 100);
    assert_eq!((first.id, first.created_at, first.updated_at), (7, 100, 100));
    assert_eq!(first.cf_access_id.as_deref(), Some("cf-1"));
    let with_avatar = first.updated(None, Some("https://img"), 150);
    assert_eq!(with_avatar.name, "Ann");
    assert_eq!(with_avatar.avatar_url.as_deref(), Some("https://img"));
    let renamed = UpsertUser {
        email: "a@example.com".to_string(),
        name: "Anna".to_string(),
        avatar_url: None,
        cf_access_id: None,
    };
    let second = User::upserted(Some(&with_avatar), &renamed, 8, 200);
    assert_eq!((second.id, second.created_at, second.updated_at), (7, 100, 200));
    assert_eq!(second.name, "Anna");
    assert_eq!(second.avatar_url.as_deref(), Some("https://img"));
    assert_eq!(second.cf_access_id.as_deref(), Some("cf-1"));
    let changed = second.updated(Some("Anne"), None, 300);
    assert_eq!((changed.name.as_str(), changed.updated_at), ("Anne", 300));
    assert_eq!(changed.avatar_url.as_deref(), Some("https://img"));
    let shown = get_identity(
        &RequestUser { id: 7, username: Some("ann".to_string()) },
        "a@example.com",
        changed.avatar_url.clone(),
    );
    assert_eq!((shown.user_id, shown.email.as_str()), (7, "a@example.com"));
    assert_eq!(shown.username.as_deref(), Some("ann"));
    assert_eq!(shown.avatar_url.as_deref(), Some("https://img"));
}
