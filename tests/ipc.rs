use firezone_headless_client::dirs::{app_local_data_dir, wintun_dll_path, DirError};
use firezone_headless_client::ipc::{IpcClientMsg, ProtocolError};

fn round_trip(m: IpcClientMsg) {
    let bytes = m.encode();
    assert_eq!(IpcClientMsg::decode(&bytes), Ok(m));
}

#[test]
fn commands_round_trip() {
    round_trip(IpcClientMsg::Connect { api_url: "wss://api.example.com".to_string(), token: "abc".to_string() });
    round_trip(IpcClientMsg::Disconnect);
    round_trip(IpcClientMsg::Reconnect);
    round_trip(IpcClientMsg::SetDns(vec![]));
    round_trip(IpcClientMsg::SetDns(vec!["1.1.1.1".to_string(), "::1".to_string(), "ü".to_string()]));
}

#[test]
fn exact_encoding() {
    assert_eq!(IpcClientMsg::Disconnect.encode(), vec![1]);
    assert_eq!(IpcClientMsg::Reconnect.encode(), vec![2]);
    let m = IpcClientMsg::Connect { api_url: "a".to_string(), token: "bc".to_string() };
    assert_eq!(m.encode(), vec![0, 0, 0, 0, 1, b'a', 0, 0, 0, 2, b'b', b'c']);
    let m = IpcClientMsg::SetDns(vec!["x".to_string()]);
    assert_eq!(m.encode(), vec![3, 0, 0, 0, 1, 0, 0, 0, 1, b'x']);
}

#[test]
fn unknown_variant_is_protocol_error() {
    assert_eq!(IpcClientMsg::decode(&vec![9]), Err(ProtocolError::Malformed));
    assert_eq!(IpcClientMsg::decode(&vec![4, 0, 0]), Err(ProtocolError::Malformed));
    assert_eq!(IpcClientMsg::decode(&vec![]), Err(ProtocolError::Malformed));
}

#[test]
fn truncated_or_trailing_input_is_protocol_error() {
    assert_eq!(IpcClientMsg::decode(&vec![1, 0]), Err(ProtocolError::Malformed));
    assert_eq!(IpcClientMsg::decode(&vec![0, 0, 0, 0, 5, b'a']), Err(ProtocolError::Malformed));
    assert_eq!(IpcClientMsg::decode(&vec![3, 0, 0, 0, 2, 0, 0, 0, 1, b'x']), Err(ProtocolError::Malformed));
    assert_eq!(IpcClientMsg::decode(&vec![0, 0, 0, 0, 1, 0xff, 0, 0, 0, 0]), Err(ProtocolError::Malformed));
}

#[test]
fn wintun_path_under_bundle_dir() {
    let base = vec!["C:".to_string(), "Users".to_string(), "User".to_string(), "AppData".to_string(), "Local".to_string()];
    let mut expected = base.clone();
    expected.push("dev.firezone.client".to_string());
    assert_eq!(app_local_data_dir(Some(base.clone())), Ok(expected.clone()));
    expected.push("data".to_string());
    expected.push("wintun.dll".to_string());
    assert_eq!(wintun_dll_path(Some(base)), Ok(expected));
}

#[test]
fn missing_local_app_data_is_error() {
    assert_eq!(wintun_dll_path(None), Err(DirError::CantFindLocalAppDataFolder));
    assert_eq!(app_local_data_dir(None), Err(DirError::CantFindLocalAppDataFolder));
}

use firezone_headless_client::ipc::{IpcServerMsg, ResourceDescriptor};

fn resource(id: &str) -> ResourceDescriptor {
    ResourceDescriptor { id: id.to_string(), name: format!("{id}-name"), address: "10.0.0.0/24".to_string() }
}

#[test]
fn server_messages_round_trip() {
    for m in [
        IpcServerMsg::Ack,
        IpcServerMsg::TunnelReady,
        IpcServerMsg::OnDisconnect("boom".to_string()),
        IpcServerMsg::OnUpdateResources(vec![]),
        IpcServerMsg::OnUpdateResources(vec![resource("a"), resource("b")]),
    ] {
        let bytes = m.encode();
        assert_eq!(IpcServerMsg::decode(&bytes), Ok(m));
    }
}

#[test]
fn server_exact_encoding() {
    assert_eq!(IpcServerMsg::Ack.encode(), vec![0]);
    assert_eq!(IpcServerMsg::TunnelReady.encode(), vec![3]);
    assert_eq!(IpcServerMsg::OnDisconnect("x".to_string()).encode(), vec![1, 0, 0, 0, 1, b'x']);
    let m = IpcServerMsg::OnUpdateResources(vec![ResourceDescriptor {
        id: "i".to_string(),
        name: "n".to_string(),
        address: "a".to_string(),
    }]);
    assert_eq!(m.encode(), vec![2, 0, 0, 0, 1, 0, 0, 0, 1, b'i', 0, 0, 0, 1, b'n', 0, 0, 0, 1, b'a']);
}

#[test]
fn server_unknown_or_malformed_is_protocol_error() {
    assert_eq!(IpcServerMsg::decode(&vec![7]), Err(ProtocolError::Malformed));
    assert_eq!(IpcServerMsg::decode(&vec![0, 0]), Err(ProtocolError::Malformed));
    assert_eq!(IpcServerMsg::decode(&vec![2, 0, 0, 0, 1, 0, 0, 0, 1, b'i']), Err(ProtocolError::Malformed));
    assert_eq!(IpcServerMsg::decode(&vec![1, 0, 0, 0, 1, b'x', b'y']), Err(ProtocolError::Malformed));
}
