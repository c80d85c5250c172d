use firezone_headless_client::startup::{plan_startup, Startup, StartupError};
use firezone_headless_client::token::{resolve_token, token_from_file, Token, TokenError, TokenStep};

#[test]
fn env_token_wins_over_file() {
    for mode in [None, Some(0o600), Some(0o644), Some(0o777)] {
        match resolve_token(Some("abc".to_string()), mode) {
            Ok(TokenStep::Found(t)) => assert_eq!(t.expose_secret(), "abc"),
            _ => panic!("env token must win"),
        }
    }
}

#[test]
fn world_readable_file_is_refused() {
    assert!(matches!(resolve_token(None, Some(0o644)), Err(TokenError::PermissionError)));
    assert!(matches!(resolve_token(None, Some(0o640)), Err(TokenError::PermissionError)));
    assert!(matches!(resolve_token(None, Some(0o601)), Err(TokenError::PermissionError)));
}

#[test]
fn private_file_is_read() {
    assert!(matches!(resolve_token(None, Some(0o600)), Ok(TokenStep::ReadFile)));
    assert!(matches!(resolve_token(None, Some(0o100400)), Ok(TokenStep::ReadFile)));
}

#[test]
fn missing_file_is_no_token() {
    assert!(matches!(resolve_token(None, None), Ok(TokenStep::NotFound)));
}

#[test]
fn failed_read_is_no_token() {
    assert!(matches!(token_from_file(None), Ok(None)));
}

#[test]
fn file_token_is_trimmed() {
    match token_from_file(Some(b"  abc \n".to_vec())) {
        Ok(Some(t)) => assert_eq!(t.expose_secret(), "abc"),
        _ => panic!("token expected"),
    }
    match token_from_file(Some(b"\n".to_vec())) {
        Ok(Some(t)) => assert_eq!(t.expose_secret(), ""),
        _ => panic!("token expected"),
    }
}

#[test]
fn non_utf8_file_is_auth_error() {
    assert!(matches!(token_from_file(Some(vec![0xff, 0xfe])), Err(TokenError::AuthError)));
}

#[test]
fn check_mode_exits_before_connecting() {
    let r = plan_startup("wss://api.example.com".to_string(), Some(Token::new("abc".to_string())), true);
    assert!(matches!(r, Ok(Startup::CheckPassed)));
}

#[test]
fn startup_connects_with_settings() {
    match plan_startup("wss://api.example.com".to_string(), Some(Token::new("abc".to_string())), false) {
        Ok(Startup::Connect { api_url, token }) => {
            assert_eq!(api_url, "wss://api.example.com");
            assert_eq!(token.expose_secret(), "abc");
        }
        _ => panic!("connect expected"),
    }
}

#[test]
fn startup_without_token_fails() {
    assert!(matches!(plan_startup("wss://api.example.com".to_string(), None, true), Err(StartupError::ConfigError)));
}
