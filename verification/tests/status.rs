use quicksupport::config::{assemble_config, BakedSettings, DeviceConfig, FreshValues};
use quicksupport::status::{
    get_status, set_direct_listening, set_file_transfer, set_peer_connected, set_server_online,
    AppState,
};

fn config() -> DeviceConfig {
    let baked = BakedSettings {
        server: Some("example.org"),
        key: None,
        id: Some("123456789"),
        password: Some("pw"),
        socks5: None,
    };
    let fresh = FreshValues {
        id: None,
        password: None,
        salt: Some("aa".to_string()),
        keys: Some((vec![1; 64], vec![2; 32])),
        uuid: Some("x".to_string()),
    };
    assemble_config(&baked, None, fresh).config
}

#[test]
fn setters_change_their_own_part_only() {
    let mut s = AppState::new();
    assert!(!s.server_online && !s.peer_connected && !s.file_transfer_active && !s.direct_listening);
    assert!(s.peer_name.is_empty() && s.file_transfer_label.is_empty());
    set_server_online(&mut s, true);
    assert!(s.server_online && !s.peer_connected && !s.direct_listening);
    set_peer_connected(&mut s, true, Some("bob".to_string()));
    assert!(s.peer_connected && s.peer_name == "bob");
    set_file_transfer(&mut s, true, "label".to_string());
    assert!(s.file_transfer_active && s.file_transfer_label == "label" && s.peer_name == "bob");
    set_direct_listening(&mut s, true);
    assert!(s.direct_listening && s.server_online);
    set_peer_connected(&mut s, true, None);
    assert!(s.peer_connected && s.peer_name.is_empty() && s.file_transfer_label == "label");
    set_server_online(&mut s, false);
    assert!(!s.server_online && s.direct_listening);
}

#[test]
fn status_shows_state_and_configuration() {
    let mut s = AppState::new();
    set_peer_connected(&mut s, true, Some("bob".to_string()));
    set_file_transfer(&mut s, true, "up".to_string());
    let status = get_status(&s, &config(), 21118, vec!["192.168.1.7".to_string()]);
    assert!(!status.server_online && status.connected && !status.direct_listening);
    assert_eq!(status.peer_name, "bob");
    assert_eq!(status.server, "example.org");
    assert_eq!(status.id, "123456789");
    assert_eq!(status.password, "pw");
    assert!(status.file_transfer_active);
    assert_eq!(status.file_transfer_label, "up");
    assert_eq!(status.direct_port, 21118);
    assert_eq!(status.local_ips, ["192.168.1.7"]);
}
