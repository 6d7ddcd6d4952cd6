//! The session with a controller: key exchange, login, and the reaction to
//! each message and tick until it closes.

use crate::config::{ConfigView, DeviceConfig};
use crate::file_ops::{
    action_step, handle_file_action, handle_file_response, reads_after_action, response_step,
    writes_after_action, writes_after_response, FileStep,
};
use crate::login::{
    is_alnum_of_len, login_accepted, random_alnum, verify_login, CHALLENGE_CHARS,
};
use crate::message::{
    login_err_msg, video_frame_msg, EncodedFrame, Incoming, LoginRequest, Message, PublicKey,
};
use crate::outside::{
    box_keypair, box_public_key, sign_message, signed_message, BOX_KEY_BYTES, SIGNATURE_BYTES,
    SIGN_SECRET_KEY_BYTES,
};
use crate::status::{set_file_transfer, set_peer_connected, AppState, StateView};
use crate::transfer::TransferJob;
use vstd::prelude::*;
use vstd::string::StringExecFns;

verus! {

/// The device's side of a key exchange.
pub struct Handshake {
    /// The device ID and the public key of this session, to be signed.
    pub id: String,
    pub public_key: Vec<u8>,
    /// The secret key that opens the controller's reply.
    pub secret_key: Vec<u8>,
}

/// Begins a key exchange with a key pair of its own.
pub fn open_handshake(config: &DeviceConfig) -> (r: Handshake)
    ensures
        r.id@ == config@.id,
        r.public_key@ == box_public_key(r.secret_key@),
        r.public_key@.len() == BOX_KEY_BYTES,
        r.secret_key@.len() == BOX_KEY_BYTES,
{
    let (public_key, secret_key) = box_keypair();
    Handshake { id: config.id.clone(), public_key, secret_key }
}

/// The first message of a session: device ID and session key, encoded, signed
/// with the device's permanent key.
pub fn signed_id_msg<X>(config: &DeviceConfig, id_and_key: &[u8]) -> (r: Message<X>)
    requires
        config@.sign_sk.len() == SIGN_SECRET_KEY_BYTES,
        id_and_key@.len() + SIGNATURE_BYTES <= isize::MAX,
    ensures
        r matches Message::SignedId { signed } && signed@ == signed_message(
            id_and_key@,
            config@.sign_sk,
        ) && signed@.skip(64) == id_and_key@,
{
    Message::SignedId { signed: sign_message(id_and_key, &config.sign_sk) }
}

/// What was read when the controller's key was due.
pub enum HandshakeRead {
    Frame(Vec<u8>),
    Failed(String),
    Closed,
}

/// Why a key exchange came to nothing.
pub enum HandshakeError {
    EmptyFrame,
    Read(String),
    Closed,
    NotPublicKey,
}

/// The bytes of the controller's key message.
pub fn handshake_frame(read: HandshakeRead) -> (r: Result<Vec<u8>, HandshakeError>)
    ensures
        r == match read {
            HandshakeRead::Frame(bytes) => if bytes@.len() == 0 {
                Err(HandshakeError::EmptyFrame)
            } else {
                Ok(bytes)
            },
            HandshakeRead::Failed(error) => Err(HandshakeError::Read(error)),
            HandshakeRead::Closed => Err(HandshakeError::Closed),
        },
{
    match read {
        HandshakeRead::Frame(bytes) => if bytes.len() == 0 {
            Err(HandshakeError::EmptyFrame)
        } else {
            Ok(bytes)
        },
        HandshakeRead::Failed(error) => Err(HandshakeError::Read(error)),
        HandshakeRead::Closed => Err(HandshakeError::Closed),
    }
}

/// The controller's key, if that is what the message holds.
pub fn handshake_key<X>(msg: Incoming<X>) -> (r: Result<PublicKey, HandshakeError>)
    ensures
        r == match msg {
            Incoming::PublicKey(pk) => Ok(pk),
            _ => Err(HandshakeError::NotPublicKey),
        },
{
    match msg {
        Incoming::PublicKey(pk) => Ok(pk),
        _ => Err(HandshakeError::NotPublicKey),
    }
}

/// What is said of a failed key exchange.
pub open spec fn handshake_error_of(error: HandshakeError) -> Seq<char> {
    match error {
        HandshakeError::EmptyFrame => "handshake: empty frame"@,
        HandshakeError::Read(e) => "handshake read error: "@ + e@,
        HandshakeError::Closed => "handshake: peer closed before PublicKey"@,
        HandshakeError::NotPublicKey => "expected PublicKey"@,
    }
}

/// What is said of a failed key exchange.
pub fn handshake_error_text(error: &HandshakeError) -> (r: String)
    ensures
        r@ == handshake_error_of(*error),
{
    match error {
        HandshakeError::EmptyFrame => "handshake: empty frame".to_string(),
        HandshakeError::Read(e) => {
            let mut out: String = "handshake read error: ".to_string();
            out.append(e);
            out
        },
        HandshakeError::Closed => "handshake: peer closed before PublicKey".to_string(),
        HandshakeError::NotPublicKey => "expected PublicKey".to_string(),
    }
}

/// A session after the key exchange.
pub struct Session {
    pub salt: String,
    pub challenge: String,
    /// Whether the controller has logged in.
    pub logged_in: bool,
    /// Whether the session has been given the video stream.
    pub video_started: bool,
}

/// The contents of a [`Session`].
#[verifier::ext_equal]
pub struct SessionView {
    pub salt: Seq<char>,
    pub challenge: Seq<char>,
    pub logged_in: bool,
    pub video_started: bool,
}

impl View for Session {
    type V = SessionView;

    open spec fn view(&self) -> SessionView {
        SessionView {
            salt: self.salt@,
            challenge: self.challenge@,
            logged_in: self.logged_in,
            video_started: self.video_started,
        }
    }
}

/// How a session goes on once the controller has logged in.
pub enum Start {
    /// With the listing of a directory.
    ListDir { dir: String, show_hidden: bool },
    /// With the video stream.
    Video,
    /// As before.
    Nothing,
}

/// What happens to a session.
pub enum Event<X> {
    /// A message came in.
    Message(Incoming<X>),
    /// Something came in that is no message.
    Unreadable,
    /// Reading failed.
    ReadFailed,
    /// The controller is gone.
    Disconnected,
    /// The encoder has a picture, or has ended.
    Video(Option<EncodedFrame>),
    /// The pump's timer went off.
    Tick,
}

/// What a session does about it.
pub enum Reaction<X, H> {
    /// Greet the controller, and go on.
    Welcome { name: String, start: Start },
    /// Send a message.
    Send(Message<X>),
    /// Pass a mouse event on.
    Mouse(X),
    /// Pass a key event on.
    Key(X),
    /// Do file work, then refresh the transfer indicator.
    File(FileStep<X, H>),
    /// Make one pass of the pump, then refresh the transfer indicator.
    Pump,
    /// Close the session.
    Close,
    /// Nothing.
    Ignore,
}

/// How a session goes on after a login: a file-transfer session lists its
/// directory, another one gets the video stream, but only once.
pub open spec fn start_after(login: LoginRequest, video_started: bool) -> Start {
    match login.file_transfer {
        Some(ft) => Start::ListDir { dir: ft.dir, show_hidden: ft.show_hidden },
        None => if video_started {
            Start::Nothing
        } else {
            Start::Video
        },
    }
}

/// Whether an event is a login request with the right response.
pub open spec fn logs_in<X>(session: SessionView, config: ConfigView, event: Event<X>) -> bool {
    event matches Event::Message(Incoming::LoginRequest(login)) && login_accepted(
        config,
        session.salt,
        session.challenge,
        login.password@,
    )
}

/// Whether an event gives the session the video stream.
pub open spec fn starts_video<X>(
    session: SessionView,
    config: ConfigView,
    event: Event<X>,
) -> bool {
    match event {
        Event::Message(Incoming::LoginRequest(login)) => login_accepted(
            config,
            session.salt,
            session.challenge,
            login.password@,
        ) && login.file_transfer is None && !session.video_started,
        _ => false,
    }
}

/// The session after an event: only whether the controller has logged in, and
/// whether it has the video stream, changes.
pub open spec fn session_after<X>(
    session: SessionView,
    config: ConfigView,
    event: Event<X>,
) -> SessionView {
    SessionView {
        logged_in: session.logged_in || logs_in(session, config, event),
        video_started: session.video_started || starts_video(session, config, event),
        ..session
    }
}

/// Whether a message tells the controller that a login failed, and why.
pub open spec fn is_login_error<X>(msg: Message<X>, text: Seq<char>) -> bool {
    msg matches Message::LoginError { error } && error@ == text
}

/// What a controller is told when its response is refused.
pub open spec fn refusal_of(password: Seq<u8>) -> Seq<char> {
    if password.len() == 0 {
        "Empty Password"@
    } else {
        "Wrong Password"@
    }
}

/// Whether a session reacts to an event as it should. Before the login, input
/// and file messages have no effect.
pub open spec fn reacts<X, H>(
    session: SessionView,
    config: ConfigView,
    event: Event<X>,
    read_jobs: Seq<TransferJob<X, H>>,
    write_jobs: Seq<TransferJob<X, H>>,
    reaction: Reaction<X, H>,
) -> bool {
    match event {
        Event::Message(msg) => match msg {
            Incoming::LoginRequest(login) => if login_accepted(
                config,
                session.salt,
                session.challenge,
                login.password@,
            ) {
                reaction == Reaction::<X, H>::Welcome {
                    name: login.my_name,
                    start: start_after(login, session.video_started),
                }
            } else {
                reaction matches Reaction::Send(m) && is_login_error(
                    m,
                    refusal_of(login.password@),
                )
            },
            Incoming::MouseEvent(x) => reaction == if session.logged_in {
                Reaction::<X, H>::Mouse(x)
            } else {
                Reaction::<X, H>::Ignore
            },
            Incoming::KeyEvent(x) => reaction == if session.logged_in {
                Reaction::<X, H>::Key(x)
            } else {
                Reaction::<X, H>::Ignore
            },
            Incoming::TestDelay { last_delay } => reaction == Reaction::<X, H>::Send(
                Message::TestDelay { from_client: false, last_delay },
            ),
            Incoming::Misc { close_reason } => reaction == if close_reason {
                Reaction::<X, H>::Close
            } else {
                Reaction::<X, H>::Ignore
            },
            Incoming::FileAction(action) => reaction == if session.logged_in {
                Reaction::File(action_step(action, read_jobs, write_jobs))
            } else {
                Reaction::<X, H>::Ignore
            },
            Incoming::FileResponse(response) => reaction == if session.logged_in {
                Reaction::File(response_step(response, write_jobs))
            } else {
                Reaction::<X, H>::Ignore
            },
            Incoming::PublicKey(_) | Incoming::Other | Incoming::Empty => reaction == Reaction::<
                X,
                H,
            >::Ignore,
        },
        Event::Unreadable => reaction == Reaction::<X, H>::Ignore,
        Event::ReadFailed | Event::Disconnected => reaction == Reaction::<X, H>::Close,
        Event::Video(Some(frame)) => reaction matches Reaction::Send(
            Message::VideoFrame { display, h264s },
        ) && display == 0 && h264s@ == seq![frame],
        Event::Video(None) => reaction == Reaction::<X, H>::Ignore,
        Event::Tick => reaction == if read_jobs.len() > 0 {
            Reaction::<X, H>::Pump
        } else {
            Reaction::<X, H>::Ignore
        },
    }
}

/// The read jobs after an event: only a cancellation takes one away, and only
/// after the login.
pub open spec fn read_jobs_after<X, H>(
    session: SessionView,
    event: Event<X>,
    read_jobs: Seq<TransferJob<X, H>>,
) -> Seq<TransferJob<X, H>> {
    match event {
        Event::Message(Incoming::FileAction(action)) => if session.logged_in {
            reads_after_action(action, read_jobs)
        } else {
            read_jobs
        },
        _ => read_jobs,
    }
}

/// The write jobs after an event: a cancellation, a `Done` and an `Error` take
/// one away, and only after the login.
pub open spec fn write_jobs_after<X, H>(
    session: SessionView,
    event: Event<X>,
    write_jobs: Seq<TransferJob<X, H>>,
) -> Seq<TransferJob<X, H>> {
    match event {
        Event::Message(Incoming::FileAction(action)) => if session.logged_in {
            writes_after_action(action, write_jobs)
        } else {
            write_jobs
        },
        Event::Message(Incoming::FileResponse(response)) => if session.logged_in {
            writes_after_response(response, write_jobs)
        } else {
            write_jobs
        },
        _ => write_jobs,
    }
}

/// The application's state when a session is over: nobody is connected, and no
/// transfer is running.
pub open spec fn closed(state: StateView) -> StateView {
    StateView {
        peer_connected: false,
        peer_name: Seq::empty(),
        file_transfer_active: false,
        file_transfer_label: Seq::empty(),
        ..state
    }
}

/// The application's state after an event: it shows a controller that has
/// logged in, and forgets one whose session is over.
pub open spec fn state_after<X>(
    state: StateView,
    session: SessionView,
    config: ConfigView,
    event: Event<X>,
) -> StateView {
    match event {
        Event::Message(Incoming::LoginRequest(login)) => if login_accepted(
            config,
            session.salt,
            session.challenge,
            login.password@,
        ) {
            StateView { peer_connected: true, peer_name: login.my_name@, ..state }
        } else {
            state
        },
        Event::Message(Incoming::Misc { close_reason: true }) => closed(state),
        Event::ReadFailed | Event::Disconnected => closed(state),
        _ => state,
    }
}

impl Session {
    /// A session with a given challenge, and the message that poses it. The
    /// salt is the permanent one of the device.
    pub fn with_challenge<X>(config: &DeviceConfig, challenge: String) -> (r: (
        Session,
        Message<X>,
    ))
        ensures
            r.0@ == (SessionView {
                salt: config@.password_salt,
                challenge: challenge@,
                logged_in: false,
                video_started: false,
            }),
            r.1 matches Message::Hash { salt, challenge: c } && salt@ == config@.password_salt && c@
                == challenge@,
    {
        let salt: String = config.password_salt.clone();
        let session = Session {
            salt: salt.clone(),
            challenge: challenge.clone(),
            logged_in: false,
            video_started: false,
        };
        (session, Message::Hash { salt, challenge })
    }

    /// A session with a fresh challenge, and the message that poses it.
    pub fn begin<X>(config: &DeviceConfig) -> (r: (Session, Message<X>))
        ensures
            r.0@.salt == config@.password_salt,
            is_alnum_of_len(r.0@.challenge, CHALLENGE_CHARS as nat),
            !r.0@.logged_in,
            !r.0@.video_started,
            r.1 matches Message::Hash { salt, challenge } && salt@ == r.0@.salt && challenge@
                == r.0@.challenge,
    {
        let challenge: String = random_alnum(CHALLENGE_CHARS);
        Session::with_challenge(config, challenge)
    }

    /// Reacts to a login request.
    fn on_login<X, H>(
        &mut self,
        config: &DeviceConfig,
        login: LoginRequest,
        state: &mut AppState,
    ) -> (r: Reaction<X, H>)
        ensures
            ({
                let event = Event::<X>::Message(Incoming::LoginRequest(login));
                &&& final(self)@ == session_after(old(self)@, config@, event)
                &&& reacts(old(self)@, config@, event, Seq::empty(), Seq::empty(), r)
                &&& final(state)@ == state_after(old(state)@, old(self)@, config@, event)
            }),
            login.password@.len() != 32 ==> (r matches Reaction::Send(m) && is_login_error(
                m,
                refusal_of(login.password@),
            )),
    {
        if verify_login(config, &self.salt, &self.challenge, &login.password) {
            self.logged_in = true;
            let start: Start = match login.file_transfer {
                Some(ft) => Start::ListDir { dir: ft.dir, show_hidden: ft.show_hidden },
                None => if self.video_started {
                    Start::Nothing
                } else {
                    self.video_started = true;
                    Start::Video
                },
            };
            set_peer_connected(state, true, Some(login.my_name.clone()));
            Reaction::Welcome { name: login.my_name, start }
        } else if login.password.len() == 0 {
            Reaction::Send(login_err_msg("Empty Password"))
        } else {
            Reaction::Send(login_err_msg("Wrong Password"))
        }
    }

    /// Reacts to an event. Input and file messages count after the login only.
    pub fn step<X, H>(
        &mut self,
        config: &DeviceConfig,
        event: Event<X>,
        read_jobs: &mut Vec<TransferJob<X, H>>,
        write_jobs: &mut Vec<TransferJob<X, H>>,
        state: &mut AppState,
    ) -> (r: Reaction<X, H>)
        ensures
            final(self)@ == session_after(old(self)@, config@, event),
            final(state)@ == state_after(old(state)@, old(self)@, config@, event),
            reacts(old(self)@, config@, event, old(read_jobs)@, old(write_jobs)@, r),
            event matches Event::Message(Incoming::LoginRequest(login)) ==> (login.password@.len()
                != 32 ==> (r matches Reaction::Send(m) && is_login_error(
                m,
                refusal_of(login.password@),
            ))),
            event matches Event::Video(Some(frame)) ==> (r matches Reaction::Send(
                Message::VideoFrame { display, h264s },
            ) && display == 0 && h264s@ == seq![frame]),
            event matches Event::Message(Incoming::MouseEvent(x)) ==> r == if old(self).logged_in {
                Reaction::<X, H>::Mouse(x)
            } else {
                Reaction::<X, H>::Ignore
            },
            event matches Event::Message(Incoming::KeyEvent(x)) ==> r == if old(self).logged_in {
                Reaction::<X, H>::Key(x)
            } else {
                Reaction::<X, H>::Ignore
            },
            event matches Event::Message(Incoming::TestDelay { last_delay }) ==> r == Reaction::<
                X,
                H,
            >::Send(Message::TestDelay { from_client: false, last_delay }),
            final(read_jobs)@ == read_jobs_after(old(self)@, event, old(read_jobs)@),
            final(write_jobs)@ == write_jobs_after(old(self)@, event, old(write_jobs)@),
    {
        match event {
            Event::Message(msg) => match msg {
                Incoming::LoginRequest(login) => self.on_login(config, login, state),
                Incoming::MouseEvent(x) => if self.logged_in {
                    Reaction::Mouse(x)
                } else {
                    Reaction::Ignore
                },
                Incoming::KeyEvent(x) => if self.logged_in {
                    Reaction::Key(x)
                } else {
                    Reaction::Ignore
                },
                Incoming::TestDelay { last_delay } => Reaction::Send(
                    Message::TestDelay { from_client: false, last_delay },
                ),
                Incoming::Misc { close_reason } => if close_reason {
                    close_session(state);
                    Reaction::Close
                } else {
                    Reaction::Ignore
                },
                Incoming::FileAction(action) => if self.logged_in {
                    Reaction::File(handle_file_action(action, read_jobs, write_jobs))
                } else {
                    Reaction::Ignore
                },
                Incoming::FileResponse(response) => if self.logged_in {
                    Reaction::File(handle_file_response(response, write_jobs))
                } else {
                    Reaction::Ignore
                },
                Incoming::PublicKey(_) | Incoming::Other | Incoming::Empty => Reaction::Ignore,
            },
            Event::Unreadable => Reaction::Ignore,
            Event::ReadFailed => {
                close_session(state);
                Reaction::Close
            },
            Event::Disconnected => {
                close_session(state);
                Reaction::Close
            },
            Event::Video(Some(frame)) => Reaction::Send(video_frame_msg(frame)),
            Event::Video(None) => Reaction::Ignore,
            Event::Tick => if read_jobs.len() > 0 {
                Reaction::Pump
            } else {
                Reaction::Ignore
            },
        }
    }
}

/// Notes that a session begins: no transfer is running.
pub fn open_session(state: &mut AppState)
    ensures
        final(state)@ == (StateView {
            file_transfer_active: false,
            file_transfer_label: Seq::empty(),
            ..old(state)@
        }),
{
    set_file_transfer(state, false, String::new());
}

/// Notes that a session is over.
fn close_session(state: &mut AppState)
    ensures
        final(state)@ == closed(old(state)@),
{
    set_peer_connected(state, false, None);
    set_file_transfer(state, false, String::new());
}

/// The number of events at which a session is given the video stream.
pub open spec fn video_starts<X>(
    session: SessionView,
    config: ConfigView,
    events: Seq<Event<X>>,
) -> nat
    decreases events.len(),
{
    if events.len() == 0 {
        0
    } else {
        let now: nat = if starts_video(session, config, events[0]) {
            1
        } else {
            0
        };
        now + video_starts(
            session_after(session, config, events[0]),
            config,
            events.drop_first(),
        )
    }
}

/// However often a controller logs in, a session is given the video stream at
/// most once.
pub proof fn law_video_starts_at_most_once<X>(
    session: SessionView,
    config: ConfigView,
    events: Seq<Event<X>>,
)
    ensures
        video_starts(session, config, events) <= 1,
        session.video_started ==> video_starts(session, config, events) == 0,
    decreases events.len(),
{
    if events.len() > 0 {
        law_video_starts_at_most_once(
            session_after(session, config, events[0]),
            config,
            events.drop_first(),
        );
    }
}

} // verus!
