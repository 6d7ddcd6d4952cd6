use quicksupport::host::{
    config_dir, get_version, login_ok_msg, platform_str, HostInfo, MonitorInfo, Os, CONFIG_FILE,
    FALLBACK_HOME,
};
use quicksupport::message::{Message, PeerInfo};

fn host(os: Os, monitors: Vec<MonitorInfo>) -> HostInfo {
    HostInfo {
        username: "ada".to_string(),
        hostname: "engine".to_string(),
        os,
        version: "1.0.3".to_string(),
        monitors,
    }
}

fn introduced(info: HostInfo) -> PeerInfo {
    match login_ok_msg::<u8>(info) {
        Message::LoginOk(peer) => peer,
        _ => panic!("not a greeting"),
    }
}

#[test]
fn platform_names() {
    assert_eq!(platform_str(Os::Windows), "Windows");
    assert_eq!(platform_str(Os::Linux), "Linux");
    assert_eq!(platform_str(Os::MacOs), "Mac OS");
    assert_eq!(platform_str(Os::Other), "Unknown");
}

#[test]
fn configuration_directories() {
    assert_eq!(
        config_dir(Os::MacOs),
        ["Library", "Application Support", "com.rustdesk.quicksupport"]
    );
    assert_eq!(config_dir(Os::Linux), [".config", "rustdesk-client"]);
    assert_eq!(config_dir(Os::Windows), ["AppData", "Roaming", "RustDeskClient"]);
    assert_eq!(config_dir(Os::Other), [".rustdesk-client"]);
    assert_eq!(FALLBACK_HOME, "/tmp");
    assert_eq!(CONFIG_FILE, "config.txt");
}

#[test]
fn greeting_describes_the_first_screen() {
    let screens = vec![
        MonitorInfo { width: Some(1920), height: Some(1080), name: Some("eDP-1".to_string()) },
        MonitorInfo { width: Some(800), height: Some(600), name: None },
    ];
    let peer = introduced(host(Os::Linux, screens));
    assert_eq!(peer.username, "ada");
    assert_eq!(peer.hostname, "engine");
    assert_eq!(peer.platform, "Linux");
    assert_eq!(peer.current_display, 0);
    assert!(!peer.sas_enabled);
    assert_eq!(peer.version, "1.0.3");
    assert!(peer.h264);
    assert_eq!(peer.displays.len(), 1);
    let d = &peer.displays[0];
    assert_eq!((d.x, d.y, d.width, d.height), (0, 0, 1920, 1080));
    assert_eq!(d.name, "eDP-1");
    assert!(d.online);
}

#[test]
fn greeting_without_knowledge_of_the_screen() {
    let peer = introduced(host(Os::Windows, vec![MonitorInfo { width: None, height: None, name: None }]));
    assert!(peer.sas_enabled);
    assert_eq!(peer.displays.len(), 1);
    assert_eq!((peer.displays[0].width, peer.displays[0].height), (0, 0));
    assert_eq!(peer.displays[0].name, "");
    assert!(introduced(host(Os::MacOs, Vec::new())).displays.is_empty());
}

#[test]
fn version_with_build_fingerprint() {
    assert_eq!(get_version("1.2.0", None), "1.2.0");
    assert_eq!(get_version("1.2.0", Some("")), "1.2.0");
    assert_eq!(get_version("1.2.0", Some("42.abc1234")), "1.2.0 \u{b7} build 42.abc1234");
}
