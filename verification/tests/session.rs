use quicksupport::config::{assemble_config, build_config, BakedSettings, DeviceConfig, FreshValues};
use quicksupport::file_ops::FileStep;
use quicksupport::message::{
    login_err_msg, video_frame_msg, EncodedFrame, FileAction, FileResponse, FileTransfer, Incoming,
    LoginRequest, Message, PublicKey,
};
use quicksupport::session::{
    handshake_error_text, handshake_frame, handshake_key, open_handshake, open_session,
    signed_id_msg, Event, HandshakeError, HandshakeRead, Reaction, Session, Start,
};
use quicksupport::status::{set_direct_listening, set_file_transfer, AppState};
use quicksupport::transfer::TransferJob;
use sha2::{Digest, Sha256};
use sodiumoxide::crypto::{box_, sign};

type Job = TransferJob<u8, ()>;

const BAKED: BakedSettings = BakedSettings {
    server: None,
    key: None,
    id: Some("123456789"),
    password: Some("hunter2"),
    socks5: None,
};

fn device() -> DeviceConfig {
    let fresh = FreshValues {
        id: None,
        password: None,
        salt: Some("00ff".to_string()),
        keys: Some((vec![1; 64], vec![2; 32])),
        uuid: Some("x".to_string()),
    };
    assemble_config(&BAKED, None, fresh).config
}

fn job(id: i32) -> Job {
    TransferJob {
        id,
        file_num: 0,
        is_read: true,
        done: false,
        name: String::new(),
        total_size: 0,
        finished_size: 0,
        pending: None,
        handle: (),
    }
}

fn sha256(a: &[u8], b: &[u8]) -> Vec<u8> {
    let mut all = a.to_vec();
    all.extend_from_slice(b);
    Sha256::digest(&all).to_vec()
}

fn response(challenge: &str) -> Vec<u8> {
    sha256(&sha256(b"hunter2", b"00ff"), challenge.as_bytes())
}

fn login(password: Vec<u8>, file_transfer: Option<FileTransfer>) -> Event<u8> {
    Event::Message(Incoming::LoginRequest(LoginRequest {
        my_name: "bob".to_string(),
        password,
        file_transfer,
    }))
}

struct Running {
    config: DeviceConfig,
    session: Session,
    reads: Vec<Job>,
    writes: Vec<Job>,
    state: AppState,
}

impl Running {
    fn new() -> Running {
        let config = device();
        let (session, _) = Session::with_challenge::<u8>(&config, "abc123".to_string());
        Running {
            config,
            session,
            reads: vec![job(1)],
            writes: vec![job(2)],
            state: AppState::new(),
        }
    }

    fn logged_in() -> Running {
        let mut run = Running::new();
        run.step(login(response("abc123"), None));
        assert!(run.session.logged_in);
        run
    }

    fn step(&mut self, event: Event<u8>) -> Reaction<u8, ()> {
        self.session.step(
            &self.config,
            event,
            &mut self.reads,
            &mut self.writes,
            &mut self.state,
        )
    }
}

#[test]
fn session_key_is_a_key_pair() {
    let a = open_handshake(&device());
    assert_eq!(a.id, "123456789");
    let sk = box_::SecretKey::from_slice(&a.secret_key).unwrap();
    assert_eq!(sk.public_key().as_ref(), &a.public_key[..]);
    let b = open_handshake(&device());
    assert_ne!(a.public_key, b.public_key);
}

#[test]
fn device_id_and_session_key_are_signed() {
    let config = build_config(&BAKED, None).config;
    let pk = sign::PublicKey::from_slice(&config.sign_pk).unwrap();
    for m in [&b""[..], b"id and key"] {
        match signed_id_msg::<u8>(&config, m) {
            Message::SignedId { signed } => {
                assert_eq!(signed.len(), m.len() + 64);
                assert_eq!(&signed[64..], m);
                assert_eq!(sign::verify(&signed, &pk), Ok(m.to_vec()));
            }
            _ => panic!("not a signed identity"),
        }
    }
}

#[test]
fn handshake_errors() {
    assert_eq!(handshake_frame(HandshakeRead::Frame(vec![7])).ok(), Some(vec![7]));
    let said = |read| handshake_error_text(&handshake_frame(read).err().unwrap());
    assert_eq!(said(HandshakeRead::Frame(Vec::new())), "handshake: empty frame");
    assert_eq!(said(HandshakeRead::Failed("reset".to_string())), "handshake read error: reset");
    assert_eq!(said(HandshakeRead::Closed), "handshake: peer closed before PublicKey");
    let key = PublicKey { asymmetric_value: vec![1], symmetric_value: vec![2] };
    let got = handshake_key::<u8>(Incoming::PublicKey(key)).ok().unwrap();
    assert_eq!((got.asymmetric_value, got.symmetric_value), (vec![1], vec![2]));
    for other in [Incoming::Empty, Incoming::Other, Incoming::MouseEvent(3u8)] {
        let error = handshake_key(other).err().unwrap();
        assert!(matches!(error, HandshakeError::NotPublicKey));
        assert_eq!(handshake_error_text(&error), "expected PublicKey");
    }
}

#[test]
fn a_session_poses_a_challenge() {
    let config = device();
    let (session, message) = Session::with_challenge::<u8>(&config, "abc123".to_string());
    assert_eq!((session.salt.as_str(), session.challenge.as_str()), ("00ff", "abc123"));
    assert!(!session.logged_in && !session.video_started);
    assert!(matches!(message, Message::Hash { salt, challenge } if salt == "00ff" && challenge == "abc123"));
    let (a, message) = Session::begin::<u8>(&config);
    assert_eq!((a.salt.as_str(), a.challenge.len()), ("00ff", 6));
    assert!(!a.logged_in && !a.video_started);
    assert!(matches!(message, Message::Hash { challenge, .. } if challenge == a.challenge));
    let (b, _) = Session::begin::<u8>(&config);
    let (c, _) = Session::begin::<u8>(&config);
    assert!(a.challenge != b.challenge || b.challenge != c.challenge);
}

#[test]
fn the_right_response_is_welcomed() {
    let mut run = Running::new();
    match run.step(login(response("abc123"), None)) {
        Reaction::Welcome { name, start: Start::Video } => assert_eq!(name, "bob"),
        _ => panic!("the response is right"),
    }
    assert!(run.session.logged_in && run.session.video_started);
    assert!(run.state.peer_connected);
    assert_eq!(run.state.peer_name, "bob");
}

#[test]
fn video_starts_at_most_once() {
    let mut run = Running::new();
    let mut starts = 0;
    for _ in 0..5 {
        match run.step(login(response("abc123"), None)) {
            Reaction::Welcome { start: Start::Video, .. } => starts += 1,
            Reaction::Welcome { start: Start::Nothing, .. } => {}
            _ => panic!("the response is right"),
        }
    }
    assert_eq!(starts, 1);
}

#[test]
fn a_file_transfer_session_lists_its_directory() {
    let mut run = Running::new();
    let ft = FileTransfer { dir: "/srv".to_string(), show_hidden: true };
    match run.step(login(response("abc123"), Some(ft))) {
        Reaction::Welcome { start: Start::ListDir { dir, show_hidden }, .. } => {
            assert_eq!((dir.as_str(), show_hidden), ("/srv", true));
        }
        _ => panic!("a listing was asked for"),
    }
    assert!(!run.session.video_started);
    assert!(run.state.peer_connected);
}

#[test]
fn a_refused_login_changes_nothing() {
    let mut run = Running::new();
    let wrong = [
        (Vec::new(), "Empty Password"),
        (vec![0; 32], "Wrong Password"),
        (b"hunter2".to_vec(), "Wrong Password"),
        (response("other1"), "Wrong Password"),
        (response("abc123")[..31].to_vec(), "Wrong Password"),
    ];
    for (password, text) in wrong {
        match run.step(login(password, None)) {
            Reaction::Send(Message::LoginError { error }) => assert_eq!(error, text),
            _ => panic!("the response is wrong"),
        }
        assert!(!run.session.logged_in && !run.session.video_started);
        assert!(!run.state.peer_connected && run.state.peer_name.is_empty());
        assert_eq!(run.session.challenge, "abc123");
        assert_eq!((run.reads.len(), run.writes.len()), (1, 1));
    }
}

#[test]
fn input_and_pings_pass_through() {
    let mut run = Running::logged_in();
    assert!(matches!(run.step(Event::Message(Incoming::MouseEvent(3))), Reaction::Mouse(3)));
    assert!(matches!(run.step(Event::Message(Incoming::KeyEvent(4))), Reaction::Key(4)));
    let pong = run.step(Event::Message(Incoming::TestDelay { last_delay: 55 }));
    assert!(matches!(
        pong,
        Reaction::Send(Message::TestDelay { from_client: false, last_delay: 55 })
    ));
    let late = PublicKey { asymmetric_value: Vec::new(), symmetric_value: Vec::new() };
    assert!(matches!(run.step(Event::Message(Incoming::PublicKey(late))), Reaction::Ignore));
    assert!(matches!(run.step(Event::Message(Incoming::Other)), Reaction::Ignore));
    assert!(matches!(run.step(Event::Message(Incoming::Empty)), Reaction::Ignore));
    assert!(matches!(run.step(Event::Unreadable), Reaction::Ignore));
}

#[test]
fn input_before_the_login_has_no_effect() {
    let mut run = Running::new();
    assert!(matches!(run.step(Event::Message(Incoming::MouseEvent(3))), Reaction::Ignore));
    assert!(matches!(run.step(Event::Message(Incoming::KeyEvent(4))), Reaction::Ignore));
    run.step(login(vec![0; 32], None));
    run.step(login(Vec::new(), None));
    assert!(matches!(run.step(Event::Message(Incoming::MouseEvent(3))), Reaction::Ignore));
    assert!(matches!(run.step(Event::Message(Incoming::KeyEvent(4))), Reaction::Ignore));
    let ping = run.step(Event::Message(Incoming::TestDelay { last_delay: 5 }));
    assert!(matches!(ping, Reaction::Send(Message::TestDelay { last_delay: 5, .. })));
    run.step(login(response("abc123"), None));
    assert!(matches!(run.step(Event::Message(Incoming::MouseEvent(3))), Reaction::Mouse(3)));
    run.step(login(vec![0; 32], None));
    assert!(matches!(run.step(Event::Message(Incoming::KeyEvent(4))), Reaction::Key(4)));
}

#[test]
fn file_messages_before_the_login_have_no_effect() {
    let mut run = Running::new();
    let path = || "/srv".to_string();
    let actions = [
        FileAction::ReadDir { path: path(), include_hidden: true },
        FileAction::AllFiles { id: 1, path: path(), include_hidden: true },
        FileAction::Send { id: 9, path: path(), include_hidden: true },
        FileAction::Receive { id: 9, path: path(), files: vec![1], file_num: 0 },
        FileAction::SendConfirm { id: 1, confirm: 7 },
        FileAction::Cancel { id: 1 },
        FileAction::Cancel { id: 2 },
        FileAction::RemoveDir { id: 1, path: path(), recursive: true },
        FileAction::RemoveFile { id: 1, path: path(), file_num: 0 },
        FileAction::Create { id: 1, path: path() },
        FileAction::Rename { id: 1, path: path(), new_name: path() },
        FileAction::Other,
        FileAction::Empty,
    ];
    for action in actions {
        let r = run.step(Event::Message(Incoming::FileAction(action)));
        assert!(matches!(r, Reaction::Ignore));
        assert_eq!((run.reads.len(), run.writes.len()), (1, 1));
    }
    let responses = [
        FileResponse::Block { id: 2, file_num: 0, block: 1 },
        FileResponse::Digest { id: 2, digest: 1 },
        FileResponse::Done { id: 2, file_num: 0 },
        FileResponse::Error { id: 2 },
        FileResponse::Other,
    ];
    for response in responses {
        let r = run.step(Event::Message(Incoming::FileResponse(response)));
        assert!(matches!(r, Reaction::Ignore));
        assert_eq!((run.reads.len(), run.writes.len()), (1, 1));
    }
    assert!(!run.session.logged_in);
}

#[test]
fn a_file_transfer_login_opens_the_files() {
    let mut run = Running::new();
    let ft = FileTransfer { dir: String::new(), show_hidden: false };
    run.step(login(response("abc123"), Some(ft)));
    assert!(run.session.logged_in && !run.session.video_started);
    let remove = FileAction::RemoveFile { id: 4, path: "/f".to_string(), file_num: 0 };
    let r = run.step(Event::Message(Incoming::FileAction(remove)));
    assert!(matches!(r, Reaction::File(FileStep::RemoveFile { id: 4, .. })));
}

#[test]
fn file_messages_go_to_the_jobs() {
    let mut run = Running::logged_in();
    let cancel = run.step(Event::Message(Incoming::FileAction(FileAction::Cancel { id: 1 })));
    assert!(matches!(cancel, Reaction::File(FileStep::Cancel { read: Some(_), write: None })));
    assert!(run.reads.is_empty());
    let done = FileResponse::Done { id: 2, file_num: 0 };
    let done = run.step(Event::Message(Incoming::FileResponse(done)));
    assert!(matches!(done, Reaction::File(FileStep::Finish { .. })));
    assert!(run.writes.is_empty());
}

#[test]
fn ticks_drive_the_pump_while_there_are_read_jobs() {
    let mut run = Running::new();
    assert!(matches!(run.step(Event::Tick), Reaction::Pump));
    run.reads.clear();
    assert!(matches!(run.step(Event::Tick), Reaction::Ignore));
}

#[test]
fn pictures_are_sent_one_by_one() {
    let mut run = Running::new();
    let frame = || EncodedFrame { data: vec![1, 2], key: true, pts: -5 };
    match run.step(Event::Video(Some(frame()))) {
        Reaction::Send(Message::VideoFrame { display, h264s }) => {
            assert_eq!((display, h264s.len()), (0, 1));
            assert_eq!(h264s[0].data, [1, 2]);
            assert!(h264s[0].key);
            assert_eq!(h264s[0].pts, -5);
        }
        _ => panic!("there is a picture"),
    }
    assert!(matches!(run.step(Event::Video(None)), Reaction::Ignore));
    assert!(matches!(video_frame_msg::<u8>(frame()), Message::VideoFrame { display: 0, .. }));
    assert!(matches!(login_err_msg::<u8>("x"), Message::LoginError { error } if error == "x"));
}

#[test]
fn what_ends_a_session() {
    let close = || Event::Message(Incoming::Misc { close_reason: true });
    for end in [close(), Event::ReadFailed, Event::Disconnected] {
        let mut run = Running::new();
        set_direct_listening(&mut run.state, true);
        run.step(login(response("abc123"), None));
        set_file_transfer(&mut run.state, true, "label".to_string());
        assert!(run.state.peer_connected);
        assert!(matches!(run.step(end), Reaction::Close));
        assert!(!run.state.peer_connected && run.state.peer_name.is_empty());
        assert!(!run.state.file_transfer_active && run.state.file_transfer_label.is_empty());
        assert!(run.state.direct_listening);
    }
    let mut run = Running::new();
    let other = run.step(Event::Message(Incoming::Misc { close_reason: false }));
    assert!(matches!(other, Reaction::Ignore));
}

#[test]
fn salt_and_challenge_stay_throughout_a_session() {
    let mut run = Running::new();
    let events = [
        login(Vec::new(), None),
        login(response("abc123"), None),
        Event::Tick,
        Event::Unreadable,
        Event::Message(Incoming::TestDelay { last_delay: 1 }),
        login(response("abc123"), None),
    ];
    for event in events {
        run.step(event);
        assert_eq!(run.session.salt, "00ff");
        assert_eq!(run.session.challenge, "abc123");
    }
    assert!(run.session.video_started);
}

#[test]
fn a_session_begins_without_a_transfer() {
    let mut state = AppState::new();
    set_file_transfer(&mut state, true, "label".to_string());
    set_direct_listening(&mut state, true);
    open_session(&mut state);
    assert!(!state.file_transfer_active && state.file_transfer_label.is_empty());
    assert!(state.direct_listening);
}
