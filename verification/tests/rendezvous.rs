use quicksupport::config::{assemble_config, split_host_port, BakedSettings, DeviceConfig, FreshValues};
use quicksupport::rendezvous::{
    envelope, first_address, handle_msg, lookup_target, pick_relay, plan_relay, register, register_peer_msg,
    register_pk_msg, registration_due, relay_endpoint, relay_response_msg, relay_notice, rendezvous_endpoint,
    request_relay_msg, Entry, PkResult, RegisterAction, Registration, RelayPlan, RendezvousMessage,
    ServerMessage,
};
use quicksupport::status::AppState;

fn device(server: &'static str) -> DeviceConfig {
    let baked = BakedSettings {
        server: Some(server),
        key: Some("licence"),
        id: Some("123456789"),
        password: Some("pw"),
        socks5: None,
    };
    let fresh = FreshValues {
        id: None,
        password: None,
        salt: Some("aa".to_string()),
        keys: Some((vec![1; 64], vec![2; 32])),
        uuid: Some("00112233445566778899aabbccddeeff".to_string()),
    };
    assemble_config(&baked, None, fresh).config
}

fn peer_response(request_pk: bool) -> Option<ServerMessage> {
    Some(ServerMessage::RegisterPeerResponse { request_pk })
}

fn pk_response(result: PkResult) -> Option<ServerMessage> {
    Some(ServerMessage::RegisterPkResponse { result })
}

#[test]
fn registration_messages() {
    match register_peer_msg("1", 7) {
        RendezvousMessage::RegisterPeer { id, serial } => assert_eq!((id.as_str(), serial), ("1", 7)),
        _ => panic!("not a registration"),
    }
    match register_pk_msg("1", &[4, 5], &[6]) {
        RendezvousMessage::RegisterPk { id, device_uuid, pk } => {
            assert_eq!(id, "1");
            assert_eq!(pk, [4, 5]);
            assert_eq!(device_uuid, [6]);
        }
        _ => panic!("not a key"),
    }
}

#[test]
fn registration_without_key() {
    let config = device("h");
    let (mut reg, first) = register(&config);
    match first {
        RendezvousMessage::RegisterPeer { id, serial } => {
            assert_eq!((id.as_str(), serial), ("123456789", 0));
        }
        _ => panic!("not a registration"),
    }
    let mut state = AppState::new();
    let action = reg.step(&config, peer_response(false), &mut state);
    assert!(matches!(action, RegisterAction::Online));
    assert!(matches!(reg, Registration::Over));
    assert!(state.server_online);
}

#[test]
fn registration_without_answer() {
    let config = device("h");
    let (mut reg, _) = register(&config);
    let mut state = AppState::new();
    assert!(matches!(reg.step(&config, None, &mut state), RegisterAction::End));
    assert!(matches!(reg, Registration::Over));
    assert!(!state.server_online);
    assert!(matches!(reg.step(&config, peer_response(true), &mut state), RegisterAction::End));
}

#[test]
fn any_other_answer_registers_the_device() {
    let config = device("h");
    let (mut reg, _) = register(&config);
    let mut state = AppState::new();
    let action = reg.step(&config, Some(ServerMessage::Other), &mut state);
    assert!(matches!(action, RegisterAction::Online));
    assert!(state.server_online);
}

#[test]
fn registration_takes_at_most_two_answers() {
    let verdicts = [
        (pk_response(PkResult::Accepted), true),
        (pk_response(PkResult::Other), true),
        (pk_response(PkResult::UuidMismatch), false),
        (Some(ServerMessage::Other), false),
        (peer_response(false), false),
        (None, false),
    ];
    for (verdict, online) in verdicts {
        let config = device("h");
        let (mut reg, _) = register(&config);
        let mut state = AppState::new();
        match reg.step(&config, peer_response(true), &mut state) {
            RegisterAction::Send(RendezvousMessage::RegisterPk { id, device_uuid, pk }) => {
                assert_eq!(id, "123456789");
                assert_eq!(pk, [2; 32]);
                assert_eq!(device_uuid, config.uuid);
                assert_eq!(device_uuid.len(), 16);
            }
            _ => panic!("the key was asked for"),
        }
        assert!(!state.server_online);
        let action = reg.step(&config, verdict, &mut state);
        assert_eq!(matches!(action, RegisterAction::Online), online);
        assert_eq!(state.server_online, online);
        assert!(matches!(reg, Registration::Over));
    }
}

#[test]
fn registration_is_repeated_every_twelve_seconds() {
    assert!(!registration_due(0));
    assert!(!registration_due(11));
    assert!(registration_due(12));
    assert!(registration_due(u64::MAX));
}

#[test]
fn relay_defaults_to_the_rendezvous_host() {
    assert_eq!(pick_relay("", &device("example.org:21116")), "example.org");
    assert_eq!(pick_relay("", &device("example.org")), "example.org");
    assert_eq!(pick_relay("relay:1", &device("example.org")), "relay:1");
}

#[test]
fn connection_attempts_are_routed_to_the_relay() {
    let config = device("example.org:5");
    let plan = |msg| plan_relay(&config, msg, "fresh".to_string());
    let p = plan(ServerMessage::PunchHole { relay_server: "r".to_string(), socket_addr: vec![1, 2] })
        .unwrap();
    assert_eq!((p.relay_server.as_str(), p.uuid.as_str(), p.initiate), ("r", "fresh", true));
    assert_eq!(p.peer_addr, [1, 2]);
    let p = plan(ServerMessage::FetchLocalAddr { relay_server: String::new(), socket_addr: vec![3] })
        .unwrap();
    assert_eq!((p.relay_server.as_str(), p.uuid.as_str(), p.initiate), ("example.org", "fresh", true));
    assert_eq!(p.peer_addr, [3]);
    let request = |uuid: &str| ServerMessage::RequestRelay {
        relay_server: "r:9".to_string(),
        uuid: uuid.to_string(),
        socket_addr: vec![4],
    };
    let p = plan(request("given")).unwrap();
    assert_eq!((p.relay_server.as_str(), p.uuid.as_str(), p.initiate), ("r:9", "given", false));
    let p = plan(request("")).unwrap();
    assert_eq!((p.uuid.as_str(), p.initiate), ("fresh", false));
    assert_eq!(p.peer_addr, [4]);
    assert!(plan(ServerMessage::RegisterPeerResponse { request_pk: true }).is_none());
    assert!(plan(ServerMessage::RegisterPkResponse { result: PkResult::Accepted }).is_none());
    assert!(plan(ServerMessage::ConfigureUpdate).is_none());
    assert!(plan(ServerMessage::Other).is_none());
}

#[test]
fn connections_get_a_random_uuid() {
    let config = device("example.org");
    let punch = || ServerMessage::PunchHole { relay_server: String::new(), socket_addr: Vec::new() };
    let a = handle_msg(&config, punch()).unwrap().uuid;
    let b = handle_msg(&config, punch()).unwrap().uuid;
    assert_ne!(a, b);
    let parsed = uuid::Uuid::parse_str(&a).unwrap();
    assert_eq!(parsed.get_version_num(), 4);
    assert_eq!(parsed.to_string(), a);
    let given = ServerMessage::RequestRelay {
        relay_server: String::new(),
        uuid: "given".to_string(),
        socket_addr: Vec::new(),
    };
    assert_eq!(handle_msg(&config, given).unwrap().uuid, "given");
    assert!(handle_msg(&config, ServerMessage::Other).is_none());
}

#[test]
fn relay_messages() {
    let config = device("example.org");
    let plan = RelayPlan {
        relay_server: "r:9".to_string(),
        uuid: "u".to_string(),
        peer_addr: vec![1],
        initiate: true,
    };
    match relay_response_msg(&config, &plan, "1.0.3") {
        RendezvousMessage::RelayResponse { socket_addr, uuid, relay_server, id, version } => {
            assert_eq!(socket_addr, [1]);
            assert_eq!(uuid, "u");
            assert_eq!(relay_server, "r:9");
            assert_eq!(id, "123456789");
            assert_eq!(version, "qsp-1.0.3");
        }
        _ => panic!("not a relay response"),
    }
    match request_relay_msg(&config, "u") {
        RendezvousMessage::RequestRelay { licence_key, uuid } => {
            assert_eq!((licence_key.as_str(), uuid.as_str()), ("licence", "u"));
        }
        _ => panic!("not a relay request"),
    }
    assert_eq!(relay_endpoint(&plan), ("r".to_string(), 9));
    let bare = RelayPlan { relay_server: "r".to_string(), ..plan };
    assert_eq!(relay_endpoint(&bare), ("r".to_string(), 21117));
    assert_eq!(rendezvous_endpoint(&config), ("example.org".to_string(), 21116));
}

#[test]
fn the_server_is_told_first_where_the_device_initiates() {
    let config = device("example.org");
    let plan = |initiate| RelayPlan {
        relay_server: "r:9".to_string(),
        uuid: "u".to_string(),
        peer_addr: vec![1],
        initiate,
    };
    assert!(relay_notice(&config, &plan(false), "1").is_none());
    match relay_notice(&config, &plan(true), "1") {
        Some(RendezvousMessage::RelayResponse { uuid, version, .. }) => {
            assert_eq!((uuid.as_str(), version.as_str()), ("u", "qsp-1"));
        }
        _ => panic!("the server is to be told"),
    }
}

#[test]
fn only_the_relay_gets_an_envelope() {
    let config = device("example.org");
    assert!(envelope(&config, &Entry::Direct).is_none());
    match envelope(&config, &Entry::Relay { uuid: "u".to_string() }) {
        Some(RendezvousMessage::RequestRelay { licence_key, uuid }) => {
            assert_eq!((licence_key.as_str(), uuid.as_str()), ("licence", "u"));
        }
        _ => panic!("the relay is to be told"),
    }
}

#[test]
fn joined_host_and_port_split_again() {
    assert_eq!(lookup_target("example.org", 21116), "example.org:21116");
    for host in ["", "example.org", "a:b", "::1", "x:7"] {
        for port in [0u16, 1, 80, 65535] {
            let target = lookup_target(host, port);
            assert_eq!(split_host_port(&target, 4), (host.to_string(), port));
        }
    }
}

#[test]
fn first_resolved_address_is_used() {
    assert_eq!(first_address(vec![7, 8], "t"), Ok(7));
    assert_eq!(
        first_address(Vec::<u8>::new(), "h:1"),
        Err("no address resolved for h:1".to_string())
    );
}
