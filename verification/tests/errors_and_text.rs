use nova::distributed::DiscoveryError as StoreError;
use nova::error::NovaError;
use nova::state::{NovaState, NovaStateRejection};
use nova::text::{i64_to_decimal, parse_u16, str_is_blank, trim_char, u64_to_decimal, u64_to_hex, IntErrorKind};

#[test]
fn nova_errors_classify() {
    let e = NovaError::NotFound("user".to_string());
    assert_eq!(e.status_code(), 404);
    assert_eq!(NovaError::ValidationError("v".to_string()).status_code(), 400);
    assert_eq!(NovaError::DatabaseError("d".to_string()).status_code(), 500);
    assert_eq!(NovaError::Conflict("c".to_string()).status_code(), 409);
    assert_eq!(NovaError::AuthenticationError("a".to_string()).status_code(), 401);
    assert_eq!(NovaError::AuthorizationError("a".to_string()).status_code(), 403);
    let custom = NovaError::Custom { status: 418, error: "teapot".to_string(), message: "short and stout".to_string() };
    assert_eq!(custom.status_code(), 418);
    assert_eq!(custom.message(), "short and stout");
}

#[test]
fn numbers_render() {
    assert_eq!(u64_to_decimal(0), "0");
    assert_eq!(u64_to_decimal(1234567890), "1234567890");
    assert_eq!(i64_to_decimal(-42), "-42");
    assert_eq!(i64_to_decimal(i64::MIN), "-9223372036854775808");
    assert_eq!(u64_to_hex(255, 4), "00ff");
    assert_eq!(parse_u16("65535"), Ok(65535));
    assert_eq!(parse_u16("65536"), Err(IntErrorKind::PosOverflow));
    assert_eq!(parse_u16(""), Err(IntErrorKind::Empty));
    assert_eq!(parse_u16("-1"), Err(IntErrorKind::InvalidDigit));
    assert_eq!(parse_u16("+"), Err(IntErrorKind::InvalidDigit));
}

#[test]
fn text_helpers() {
    assert!(str_is_blank(" \u{3000}\t"));
    assert!(!str_is_blank(" a "));
    assert_eq!(trim_char("//a/b//", '/'), "a/b");
}

#[test]
fn state_extraction() {
    let found = NovaState::from_extension(Some(5u8));
    assert!(matches!(found, Ok(NovaState(5))));
    let missing = NovaState::<u8>::from_extension(None);
    match missing {
        Err(r) => {
            assert_eq!(r.status_code(), 500);
            assert_eq!(r.body(), "Internal server error: application state missing");
            assert!(r.to_display_string().starts_with("Application state is not present in request extensions."));
        }
        Ok(_) => panic!("state should be missing"),
    }
    let _ = NovaStateRejection;
}

#[test]
fn store_error_carries_message() {
    let e = StoreError::new("redis down".to_string());
    assert_eq!(e.to_display_string(), "redis down");
}
