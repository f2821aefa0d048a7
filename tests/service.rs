use challenge_scoring::access::{
    authorize_admin, badge_tier, bearer_token, cap_callsigns, check_addressee, check_badge_image,
    check_friend_request, check_join, check_register_callsign, check_same_callsign, friend_request_target,
    historical_allowed, search_query_usable, split_pending, FriendTarget,
};
use challenge_scoring::config::{parse_i64, parse_u16, Config, ConfigError};
use challenge_scoring::error::AppError;
use challenge_scoring::json::JsonValue;
use challenge_scoring::links::{badge_image_url, friend_invite_url, invite_url};
use challenge_scoring::models::ListChallengesQuery;

fn some(s: &str) -> Option<String> {
    Some(s.to_string())
}

#[test]
fn config_defaults() {
    let c = Config::from_vars(some("postgres://x"), some("SECRET-REDACTED"), None, None, None, None).ok().unwrap();
    assert_eq!(c.database_url, "postgres://x");
    assert_eq!(c.port, 8080);
    assert_eq!(c.invite_base_url, "https://activities.carrierwave.app");
    assert_eq!(c.invite_expiry_days, 7);
    assert_eq!(c.base_url, None);
}

#[test]
fn config_reads_values() {
    let c = Config::from_vars(some("db"), some("t"), some("3000"), some("http://b"), some("http://i"), some("-2"))
        .ok()
        .unwrap();
    assert_eq!(c.port, 3000);
    assert_eq!(c.base_url.as_deref(), Some("http://b"));
    assert_eq!(c.invite_base_url, "http://i");
    assert_eq!(c.invite_expiry_days, -2);
}

#[test]
fn config_errors() {
    assert!(matches!(Config::from_vars(None, some("t"), None, None, None, None), Err(ConfigError::Missing("DATABASE_URL"))));
    assert!(matches!(Config::from_vars(some("d"), None, None, None, None, None), Err(ConfigError::Missing("ADMIN_TOKEN"))));
    assert!(matches!(
        Config::from_vars(some("d"), some("t"), some("70000"), None, None, None),
        Err(ConfigError::Invalid("PORT must be a number"))
    ));
    assert!(matches!(
        Config::from_vars(some("d"), some("t"), None, None, None, some("seven")),
        Err(ConfigError::Invalid("INVITE_EXPIRY_DAYS must be a number"))
    ));
}

#[test]
fn integer_parsing_matches_std() {
    for s in ["0", "+8080", "65535", "65536", "-1", "", "+", "12a", " 1", "0065535", "99999999999999999999999"] {
        assert_eq!(parse_u16(s), s.parse::<u16>().ok(), "{}", s);
    }
    for s in ["0", "-0", "+7", "-9223372036854775808", "9223372036854775807", "9223372036854775808", "-9223372036854775809", "-", "--1", "1_0"] {
        assert_eq!(parse_i64(s), s.parse::<i64>().ok(), "{}", s);
    }
}

#[test]
fn error_status_codes_and_messages() {
    assert_eq!(AppError::ChallengeNotFound { challenge_id: 1 }.status_code(), 404);
    assert_eq!(AppError::ChallengeNotFound { challenge_id: 1 }.code(), "CHALLENGE_NOT_FOUND");
    assert_eq!(AppError::FriendInviteUsed { token: "x".into() }.status_code(), 410);
    assert_eq!(AppError::CannotFriendSelf.status_code(), 422);
    assert_eq!(AppError::RateLimited.status_code(), 429);
    assert_eq!(AppError::InvalidToken.status_code(), 401);
    assert_eq!(AppError::Database("down".into()).code(), "INTERNAL_ERROR");
    assert_eq!(AppError::Database("down".into()).message(), "Database error");
    assert_eq!(AppError::Validation { message: "bad".into() }.message(), "Validation error: bad");
    assert_eq!(AppError::NotParticipating.message(), "Not participating in this challenge");
}

#[test]
fn bearer_and_admin() {
    assert_eq!(bearer_token("Bearer abc"), Some("abc"));
    assert_eq!(bearer_token("Basic abc"), None);
    assert_eq!(bearer_token("Bearer"), None);
    assert!(authorize_admin(Some("Bearer root"), "root").is_ok());
    assert!(matches!(authorize_admin(Some("Bearer nope"), "root"), Err(AppError::InvalidToken)));
    assert!(matches!(authorize_admin(None, "root"), Err(AppError::InvalidToken)));
    assert!(matches!(authorize_admin(Some("root"), "root"), Err(AppError::InvalidToken)));
}

#[test]
fn join_checks() {
    let cfg = JsonValue::Object(vec![("requiresToken".to_string(), JsonValue::Bool(true))]);
    assert!(matches!(check_join(false, None, true), Err(AppError::ChallengeEnded)));
    assert!(matches!(check_join(true, Some(&cfg), false), Err(AppError::InviteRequired)));
    assert!(check_join(true, Some(&cfg), true).is_ok());
    assert!(check_join(true, None, false).is_ok());
    assert!(historical_allowed(&JsonValue::Null));
    let no = JsonValue::Object(vec![("historicalQsosAllowed".to_string(), JsonValue::Bool(false))]);
    assert!(!historical_allowed(&no));
}

#[test]
fn friend_request_decisions() {
    assert!(matches!(friend_request_target(Some(5), None), Ok(FriendTarget::User(5))));
    assert!(matches!(friend_request_target(None, some("inv_x")), Ok(FriendTarget::Invite(ref t)) if t == "inv_x"));
    assert!(matches!(friend_request_target(Some(5), some("inv_x")), Err(AppError::Validation { .. })));
    assert!(matches!(friend_request_target(None, None), Err(AppError::Validation { .. })));
    assert!(matches!(check_friend_request(1, 1, false, false), Err(AppError::CannotFriendSelf)));
    assert!(matches!(check_friend_request(1, 2, true, true), Err(AppError::AlreadyFriends)));
    assert!(matches!(check_friend_request(1, 2, false, true), Err(AppError::FriendRequestExists)));
    assert!(check_friend_request(1, 2, false, false).is_ok());
    assert!(matches!(check_addressee(3, 4), Err(AppError::Forbidden)));
    assert!(check_addressee(4, 4).is_ok());
}

#[test]
fn suggestions_and_search_limits() {
    let many: Vec<String> = (0..150).map(|i| format!("K{}", i)).collect();
    let capped = cap_callsigns(&many);
    assert_eq!(capped.len(), 100);
    assert_eq!(capped[99], "K99");
    assert_eq!(cap_callsigns(&vec!["A".to_string()]).len(), 1);
    assert!(!search_query_usable("a"));
    assert!(search_query_usable("ab"));
}

#[test]
fn badge_checks() {
    assert!(check_badge_image("image/png", 10).is_ok());
    assert!(check_badge_image("image/jpeg", 1024 * 1024).is_ok());
    match check_badge_image("text/plain", 10) {
        Err(AppError::Validation { message }) => {
            assert_eq!(message, "Invalid content type 'text/plain'. Allowed: PNG, JPEG, SVG")
        }
        _ => panic!("expected a validation error"),
    }
    assert!(matches!(check_badge_image("image/svg+xml", 1024 * 1024 + 1), Err(AppError::Validation { .. })));
    assert_eq!(badge_tier(String::new()), None);
    assert_eq!(badge_tier("gold".to_string()), Some("gold".to_string()));
}

#[test]
fn links_and_listing_page() {
    assert_eq!(invite_url("https://a.b", "inv_1"), "https://a.b/join/inv_1");
    assert_eq!(friend_invite_url("https://a.b", "inv_2"), "https://a.b/invite/inv_2");
    assert_eq!(badge_image_url("b", 1), "b/v1/badges/00000000-0000-0000-0000-000000000001/image");
    assert_eq!(
        badge_image_url("", 0x67e5504410b1426f9247bb680e5fe0c8),
        "/v1/badges/67e55044-10b1-426f-9247-bb680e5fe0c8/image"
    );
    let q = ListChallengesQuery { category: None, challenge_type: None, active: None, limit: None, offset: None };
    assert_eq!(q.page(), (50, 0));
    let q = ListChallengesQuery { category: None, challenge_type: None, active: Some(true), limit: Some(500), offset: Some(3) };
    assert_eq!(q.page(), (100, 3));
}

#[test]
fn register_needs_non_blank_callsign() {
    assert!(matches!(check_register_callsign(""), Err(AppError::Validation { .. })));
    assert!(matches!(check_register_callsign(" \t\n"), Err(AppError::Validation { .. })));
    assert!(check_register_callsign(" K1ABC ").is_ok());
    assert!(matches!(check_register_callsign("\u{a0}\u{3000}\u{2009}"), Err(AppError::Validation { .. })));
    assert!(check_register_callsign("\u{200b}").is_ok());
}

#[test]
fn same_callsign_ignores_case() {
    assert!(check_same_callsign("k1abc", "K1ABC").is_ok());
    assert!(matches!(check_same_callsign("k1abc", "K1ABD"), Err(AppError::Forbidden)));
}

#[test]
fn pending_requests_split_by_addressee() {
    let (incoming, outgoing) = split_pending(&vec![5, 9, 5, 3], 5);
    assert_eq!(incoming, vec![0, 2]);
    assert_eq!(outgoing, vec![1, 3]);
    let (incoming, outgoing) = split_pending(&vec![], 5);
    assert!(incoming.is_empty() && outgoing.is_empty());
}
