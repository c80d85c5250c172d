use firezone_headless_client::shared::{
    device_id_from, get_device_id, hex_lower, sha256, get_user_agent, get_websocket_path, set_ws_scheme, user_agent,
    ConnlibError, PortalUrl,
};
use firezone_headless_client::token::Token;

fn url(scheme: &str, segments: &[&str]) -> PortalUrl {
    PortalUrl {
        scheme: scheme.to_string(),
        cannot_be_a_base: false,
        path_segments: segments.iter().map(|s| s.to_string()).collect(),
        query: vec![("stale".to_string(), "1".to_string())],
    }
}

#[test]
fn ws_scheme_mapping() {
    for (from, to) in [("http", "ws"), ("ws", "ws"), ("https", "wss"), ("wss", "wss")] {
        let mut u = url(from, &[""]);
        assert_eq!(set_ws_scheme(&mut u), Ok(()));
        assert_eq!(u.scheme, to);
    }
    let mut u = url("ftp", &[""]);
    assert_eq!(set_ws_scheme(&mut u), Err(ConnlibError::UriScheme));
    assert_eq!(u, url("ftp", &[""]));
}

#[test]
fn websocket_path_and_query() {
    let token = Token::new("tok".to_string());
    let u = get_websocket_path(url("https", &[""]), &token, "client", "pk", "ext", "sfx").unwrap();
    assert_eq!(u.scheme, "wss");
    assert_eq!(u.path_segments, vec!["client".to_string(), "websocket".to_string()]);
    let q: Vec<(&str, &str)> = u.query.iter().map(|(k, v)| (k.as_str(), v.as_str())).collect();
    assert_eq!(q, vec![("token", "tok"), ("public_key", "pk"), ("external_id", "ext"), ("name_suffix", "sfx")]);

    let u = get_websocket_path(url("ws", &["api", "v1"]), &token, "gateway", "pk", "e", "s").unwrap();
    assert_eq!(u.scheme, "ws");
    assert_eq!(u.path_segments, vec!["api", "v1", "gateway", "websocket"]);
}

#[test]
fn websocket_path_errors() {
    let token = Token::new("tok".to_string());
    assert_eq!(
        get_websocket_path(url("mailto", &[]), &token, "client", "pk", "e", "s"),
        Err(ConnlibError::UriScheme)
    );
    let mut opaque = url("https", &[]);
    opaque.cannot_be_a_base = true;
    assert_eq!(get_websocket_path(opaque, &token, "client", "pk", "e", "s"), Err(ConnlibError::UriError));
}

#[test]
fn user_agent_format() {
    assert_eq!(user_agent("Ubuntu", "22.04"), "Ubuntu/22.04 connlib/0.1.0");
    let ua = get_user_agent();
    assert!(ua.ends_with(" connlib/0.1.0"));
    assert!(ua.contains('/'));
}

#[test]
fn device_id_prefers_smbios() {
    assert_eq!(device_id_from(Some("abc".to_string())), "abc");
    let random = device_id_from(None);
    assert_eq!(random.len(), 36);
    assert_ne!(random, device_id_from(None));
    assert!(!get_device_id().is_empty());
}

#[test]
fn sha256_known_values() {
    assert_eq!(sha256(String::new()), "e3b0c44298fc1c149afbf4c8996fb92427ae41e4649b934ca495991b7852b855");
    assert_eq!(sha256("abc".to_string()), "ba7816bf8f01cfea414140de5dae2223b00361a396177a9cb410ff61f20015ad");
}

#[test]
fn hex_lower_digits() {
    assert_eq!(hex_lower(&[]), "");
    assert_eq!(hex_lower(&[0x00, 0x0f, 0xa5, 0xff]), "000fa5ff");
}
