use quicksupport::direct::{Listener, ListenerAction, ListenerEvent, RETRY_SECS};
use quicksupport::status::AppState;

#[test]
fn a_listener_runs_unless_switched_off() {
    assert!(Listener::start::<u8>(Some("N"), None).is_none());
    let (listener, first) = Listener::start::<u8>(None, None).unwrap();
    assert_eq!(listener.port, 21118);
    assert!(matches!(first, ListenerAction::Bind(21118)));
    let (listener, first) = Listener::start::<u8>(Some("yes"), Some(" 5000 ")).unwrap();
    assert_eq!(listener.port, 5000);
    assert!(matches!(first, ListenerAction::Bind(5000)));
}

#[test]
fn a_listener_serves_every_connection() {
    let (listener, _) = Listener::start::<u8>(None, None).unwrap();
    let mut state = AppState::new();
    let a = listener.step(ListenerEvent::<u8>::Bound, &mut state);
    assert!(matches!(a, ListenerAction::Accept));
    assert!(state.direct_listening);
    for n in 0..3u8 {
        let a = listener.step(ListenerEvent::Accepted(n), &mut state);
        assert!(matches!(a, ListenerAction::Serve(m) if m == n));
    }
}

#[test]
fn a_listener_comes_back_after_a_failure() {
    assert_eq!(RETRY_SECS, 3);
    let (listener, _) = Listener::start::<u8>(None, Some("7")).unwrap();
    let mut state = AppState::new();
    let a = listener.step(ListenerEvent::<u8>::Failed, &mut state);
    assert!(matches!(a, ListenerAction::Wait(3)));
    assert!(!state.direct_listening);
    let a = listener.step(ListenerEvent::<u8>::Waited, &mut state);
    assert!(matches!(a, ListenerAction::Bind(7)));
}
