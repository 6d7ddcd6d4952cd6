//! Signalling with the rendezvous server: registration of the device, and the
//! routing of incoming connection attempts to the relay server.

use crate::config::{
    host_port_of, split_host_port, ConfigView, DeviceConfig, RELAY_PORT, RENDEZVOUS_PORT,
};
use crate::encoding::is_uuid_v4;
use crate::outside::uuid_v4;
use crate::status::{set_server_online, AppState, StateView};
use crate::text::{
    decimal, decimal_string, is_digit, lemma_decimal, lemma_last_index_is, without_plus,
};
use vstd::prelude::*;
use vstd::string::StringExecFns;

verus! {

/// Seconds between two registrations.
pub const REG_INTERVAL_SECS: u64 = 12;

/// A message to the rendezvous or relay server.
pub enum RendezvousMessage {
    RegisterPeer { id: String, serial: i32 },
    RegisterPk { id: String, device_uuid: Vec<u8>, pk: Vec<u8> },
    RelayResponse {
        socket_addr: Vec<u8>,
        uuid: String,
        relay_server: String,
        id: String,
        version: String,
    },
    RequestRelay { licence_key: String, uuid: String },
}

/// The server's verdict on a registered key.
#[derive(PartialEq, Eq, Structural, Clone, Copy)]
pub enum PkResult {
    Accepted,
    UuidMismatch,
    Other,
}

/// A message from the rendezvous server.
pub enum ServerMessage {
    RegisterPeerResponse { request_pk: bool },
    RegisterPkResponse { result: PkResult },
    /// A controller tries a direct connection.
    PunchHole { relay_server: String, socket_addr: Vec<u8> },
    /// A controller wants the relay.
    RequestRelay { relay_server: String, uuid: String, socket_addr: Vec<u8> },
    /// A controller looks for the device in its own network.
    FetchLocalAddr { relay_server: String, socket_addr: Vec<u8> },
    ConfigureUpdate,
    Other,
}

/// The registration of the device by its ID.
pub fn register_peer_msg(id: &str, serial: i32) -> (r: RendezvousMessage)
    ensures
        r matches RendezvousMessage::RegisterPeer { id: i, serial: s } && i@ == id@ && s == serial,
{
    RendezvousMessage::RegisterPeer { id: id.to_string(), serial }
}

/// The registration of the device's public key.
pub fn register_pk_msg(id: &str, pk: &[u8], uuid: &[u8]) -> (r: RendezvousMessage)
    ensures
        r matches RendezvousMessage::RegisterPk { id: i, device_uuid: u, pk: p } && i@ == id@ && u@
            == uuid@ && p@ == pk@,
{
    RendezvousMessage::RegisterPk {
        id: id.to_string(),
        device_uuid: vstd::slice::slice_to_vec(uuid),
        pk: vstd::slice::slice_to_vec(pk),
    }
}

/// Where a registration stands.
pub enum Registration {
    /// The device announced itself and waits for an answer.
    AwaitPeer,
    /// The server asked for the key; the device sent it and waits.
    AwaitPk,
    /// The registration is over.
    Over,
}

/// What a registration wants done next.
pub enum RegisterAction {
    /// Send a message and wait for the answer.
    Send(RendezvousMessage),
    /// Nothing: the server knows the device.
    Online,
    /// Nothing: the device is not registered by this.
    End,
}

/// Begins a registration.
pub fn register(config: &DeviceConfig) -> (r: (Registration, RendezvousMessage))
    ensures
        r.0 is AwaitPeer,
        r.1 matches RendezvousMessage::RegisterPeer { id, serial } && id@ == config@.id && serial
            == 0,
{
    (Registration::AwaitPeer, register_peer_msg(&config.id, 0))
}

/// Whether a message registers the device's key.
pub open spec fn registers_key(msg: RendezvousMessage, config: ConfigView) -> bool {
    msg matches RendezvousMessage::RegisterPk { id, device_uuid, pk } && id@ == config.id
        && device_uuid@ == config.uuid && pk@ == config.sign_pk
}

/// Whether a registration goes on with an answer, or with none in time, as it
/// should.
///
/// Without an answer to the announcement the device is not registered. If the
/// server asks for the key, the key is sent; any other answer means that the
/// device is registered. The verdict on the key registers the device unless it
/// is a mismatch of the UUID, after which the next registration tries again.
pub open spec fn registration_step(
    at: Registration,
    config: ConfigView,
    answer: Option<ServerMessage>,
    next: Registration,
    action: RegisterAction,
) -> bool {
    match at {
        Registration::AwaitPeer => match answer {
            Some(ServerMessage::RegisterPeerResponse { request_pk: true }) => {
                &&& next is AwaitPk
                &&& action matches RegisterAction::Send(m)
                &&& registers_key(m, config)
            },
            Some(_) => next is Over && action is Online,
            None => next is Over && action is End,
        },
        Registration::AwaitPk => next is Over && match answer {
            Some(ServerMessage::RegisterPkResponse { result }) => if result
                == PkResult::UuidMismatch {
                action is End
            } else {
                action is Online
            },
            _ => action is End,
        },
        Registration::Over => next is Over && action is End,
    }
}

impl Registration {
    /// Goes on with the server's answer, or with none when it did not come in
    /// time or could not be read. A device that the server knows is shown as
    /// online.
    pub fn step(
        &mut self,
        config: &DeviceConfig,
        answer: Option<ServerMessage>,
        state: &mut AppState,
    ) -> (r: RegisterAction)
        ensures
            registration_step(*old(self), config@, answer, *final(self), r),
            final(state)@ == (StateView {
                server_online: old(state)@.server_online || r is Online,
                ..old(state)@
            }),
    {
        match self {
            Registration::AwaitPeer => match answer {
                Some(ServerMessage::RegisterPeerResponse { request_pk: true }) => {
                    *self = Registration::AwaitPk;
                    RegisterAction::Send(
                        register_pk_msg(&config.id, &config.sign_pk, &config.uuid),
                    )
                },
                Some(_) => {
                    *self = Registration::Over;
                    set_server_online(state, true);
                    RegisterAction::Online
                },
                None => {
                    *self = Registration::Over;
                    RegisterAction::End
                },
            },
            Registration::AwaitPk => {
                *self = Registration::Over;
                match answer {
                    Some(ServerMessage::RegisterPkResponse { result }) => match result {
                        PkResult::UuidMismatch => RegisterAction::End,
                        _ => {
                            set_server_online(state, true);
                            RegisterAction::Online
                        },
                    },
                    _ => RegisterAction::End,
                }
            },
            Registration::Over => RegisterAction::End,
        }
    }
}

/// Whether it is time to register again.
pub fn registration_due(secs_since_last: u64) -> (r: bool)
    ensures
        r == (secs_since_last >= REG_INTERVAL_SECS),
{
    secs_since_last >= REG_INTERVAL_SECS
}

/// The relay server: the one that the message names, else the host of the
/// rendezvous server.
pub open spec fn relay_of(field: Seq<char>, config: ConfigView) -> Seq<char> {
    if field.len() > 0 {
        field
    } else {
        host_port_of(config.server, RENDEZVOUS_PORT).0
    }
}

/// The relay server: the one that the message names, else the host of the
/// rendezvous server.
pub fn pick_relay(field: &str, config: &DeviceConfig) -> (r: String)
    ensures
        r@ == relay_of(field@, config@),
{
    if !field.is_empty() {
        return field.to_string();
    }
    let (h, _) = split_host_port(&config.server, RENDEZVOUS_PORT);
    h
}

/// A relay connection to be made.
pub struct RelayPlan {
    pub relay_server: String,
    pub uuid: String,
    /// The controller's address, as the server encoded it.
    pub peer_addr: Vec<u8>,
    /// Whether the server is told first that the device accepts.
    pub initiate: bool,
}

/// Whether a message from the server asks for a relay connection.
pub open spec fn asks_for_relay(msg: ServerMessage) -> bool {
    msg is PunchHole || msg is RequestRelay || msg is FetchLocalAddr
}

/// Whether the connection that a message asks for needs a new UUID.
pub open spec fn needs_uuid(msg: ServerMessage) -> bool {
    match msg {
        ServerMessage::PunchHole { .. } | ServerMessage::FetchLocalAddr { .. } => true,
        ServerMessage::RequestRelay { uuid, .. } => uuid@.len() == 0,
        _ => false,
    }
}

/// Whether a plan answers a message that asks for a relay connection, with
/// `fresh` as the new UUID if one is needed.
pub open spec fn answers(
    plan: RelayPlan,
    msg: ServerMessage,
    config: ConfigView,
    fresh: Seq<char>,
) -> bool {
    match msg {
        ServerMessage::PunchHole { relay_server, socket_addr }
        | ServerMessage::FetchLocalAddr { relay_server, socket_addr } => {
            &&& plan.relay_server@ == relay_of(relay_server@, config)
            &&& plan.uuid@ == fresh
            &&& plan.peer_addr@ == socket_addr@
            &&& plan.initiate
        },
        ServerMessage::RequestRelay { relay_server, uuid, socket_addr } => {
            &&& plan.relay_server@ == relay_of(relay_server@, config)
            &&& plan.uuid@ == if uuid@.len() == 0 {
                fresh
            } else {
                uuid@
            }
            &&& plan.peer_addr@ == socket_addr@
            &&& !plan.initiate
        },
        _ => false,
    }
}

/// The relay connection that a message from the server asks for, if it asks
/// for one, with a given UUID where a new one is needed.
pub fn plan_relay(config: &DeviceConfig, msg: ServerMessage, fresh: String) -> (r: Option<
    RelayPlan,
>)
    ensures
        match r {
            Some(plan) => answers(plan, msg, config@, fresh@),
            None => !asks_for_relay(msg),
        },
{
    match msg {
        ServerMessage::PunchHole { relay_server, socket_addr } => Some(
            RelayPlan {
                relay_server: pick_relay(&relay_server, config),
                uuid: fresh,
                peer_addr: socket_addr,
                initiate: true,
            },
        ),
        ServerMessage::RequestRelay { relay_server, uuid, socket_addr } => Some(
            RelayPlan {
                relay_server: pick_relay(&relay_server, config),
                uuid: if uuid.as_str().is_empty() {
                    fresh
                } else {
                    uuid
                },
                peer_addr: socket_addr,
                initiate: false,
            },
        ),
        ServerMessage::FetchLocalAddr { relay_server, socket_addr } => Some(
            RelayPlan {
                relay_server: pick_relay(&relay_server, config),
                uuid: fresh,
                peer_addr: socket_addr,
                initiate: true,
            },
        ),
        _ => None,
    }
}

fn uuid_wanted(msg: &ServerMessage) -> (r: bool)
    ensures
        r == needs_uuid(*msg),
{
    match msg {
        ServerMessage::PunchHole { .. } => true,
        ServerMessage::FetchLocalAddr { .. } => true,
        ServerMessage::RequestRelay { uuid, .. } => uuid.as_str().is_empty(),
        _ => false,
    }
}

/// Reacts to a message from the server. Every connection attempt is routed to
/// the relay, direct ones and those from the same network too; anything else is
/// ignored.
pub fn handle_msg(config: &DeviceConfig, msg: ServerMessage) -> (r: Option<RelayPlan>)
    ensures
        match r {
            Some(plan) => exists|fresh: Seq<char>| #[trigger]
                answers(plan, msg, config@, fresh) && (needs_uuid(msg) ==> is_uuid_v4(fresh)),
            None => !asks_for_relay(msg),
        },
{
    let fresh: String = if uuid_wanted(&msg) {
        uuid_v4()
    } else {
        String::new()
    };
    plan_relay(config, msg, fresh)
}

/// The message that tells the rendezvous server of an accepted connection. The
/// server only passes the device's key on to the controller if the version is
/// not empty, which the prefix makes sure of.
pub fn relay_response_msg(config: &DeviceConfig, plan: &RelayPlan, version: &str) -> (r:
    RendezvousMessage)
    ensures
        r matches RendezvousMessage::RelayResponse {
            socket_addr,
            uuid,
            relay_server,
            id,
            version: v,
        } && socket_addr@ == plan.peer_addr@ && uuid@ == plan.uuid@ && relay_server@
            == plan.relay_server@ && id@ == config@.id && v@ == "qsp-"@ + version@ && v@.len() > 0,
{
    let mut v: String = "qsp-".to_string();
    v.append(version);
    proof {
        reveal_strlit("qsp-");
    }
    RendezvousMessage::RelayResponse {
        socket_addr: plan.peer_addr.clone(),
        uuid: plan.uuid.clone(),
        relay_server: plan.relay_server.clone(),
        id: config.id.clone(),
        version: v,
    }
}

/// The message that the rendezvous server is sent before a relay connection is
/// made, if it is to be told first.
pub fn relay_notice(config: &DeviceConfig, plan: &RelayPlan, version: &str) -> (r: Option<
    RendezvousMessage,
>)
    ensures
        r is Some <==> plan.initiate,
        r matches Some(m) ==> (m matches RendezvousMessage::RelayResponse {
            socket_addr,
            uuid,
            relay_server,
            id,
            version: v,
        } && socket_addr@ == plan.peer_addr@ && uuid@ == plan.uuid@ && relay_server@
            == plan.relay_server@ && id@ == config@.id && v@ == "qsp-"@ + version@ && v@.len() > 0),
{
    if plan.initiate {
        Some(relay_response_msg(config, plan, version))
    } else {
        None
    }
}

/// How a controller reached the device.
pub enum Entry {
    /// Over the relay server, on a connection with this UUID.
    Relay { uuid: String },
    /// By dialling the device itself.
    Direct,
}

/// What is sent on a new connection before the session begins: the relay server
/// has to be told which connection this is, a controller that dialled itself
/// nothing. What follows is the same for both.
pub fn envelope(config: &DeviceConfig, entry: &Entry) -> (r: Option<RendezvousMessage>)
    ensures
        match *entry {
            Entry::Relay { uuid } => r matches Some(RendezvousMessage::RequestRelay {
                licence_key,
                uuid: u,
            }) && licence_key@ == config@.licence_key && u@ == uuid@,
            Entry::Direct => r is None,
        },
{
    match entry {
        Entry::Relay { uuid } => Some(request_relay_msg(config, uuid)),
        Entry::Direct => None,
    }
}

/// The first message on a relay connection.
pub fn request_relay_msg(config: &DeviceConfig, uuid: &str) -> (r: RendezvousMessage)
    ensures
        r matches RendezvousMessage::RequestRelay { licence_key, uuid: u } && licence_key@
            == config@.licence_key && u@ == uuid@,
{
    RendezvousMessage::RequestRelay {
        licence_key: config.licence_key.clone(),
        uuid: uuid.to_string(),
    }
}

/// Host and port of the rendezvous server.
pub fn rendezvous_endpoint(config: &DeviceConfig) -> (r: (String, u16))
    ensures
        (r.0@, r.1) == host_port_of(config@.server, RENDEZVOUS_PORT),
{
    split_host_port(&config.server, RENDEZVOUS_PORT)
}

/// Host and port of the relay server of a plan.
pub fn relay_endpoint(plan: &RelayPlan) -> (r: (String, u16))
    ensures
        (r.0@, r.1) == host_port_of(plan.relay_server@, RELAY_PORT),
{
    split_host_port(&plan.relay_server, RELAY_PORT)
}

/// `host:port`, as the system resolver takes it.
pub open spec fn lookup_target_of(host: Seq<char>, port: u16) -> Seq<char> {
    host + ":"@ + decimal(port as nat)
}

/// `host:port`, as the system resolver takes it.
pub fn lookup_target(host: &str, port: u16) -> (r: String)
    ensures
        r@ == lookup_target_of(host@, port),
{
    let mut out: String = host.to_string();
    out.append(":");
    out.append(&decimal_string(port as u64));
    out
}

/// The address to use of those that the resolver found for `target`: the first,
/// or what is said when there is none.
pub fn first_address<A>(addrs: Vec<A>, target: &str) -> (r: Result<A, String>)
    ensures
        match r {
            Ok(addr) => addrs@.len() > 0 && addr == addrs@[0],
            Err(text) => addrs@.len() == 0 && text@ == "no address resolved for "@ + target@,
        },
{
    let mut addrs: Vec<A> = addrs;
    if addrs.len() > 0 {
        Ok(addrs.remove(0))
    } else {
        let mut text: String = "no address resolved for ".to_string();
        text.append(target);
        Err(text)
    }
}

/// A host and a port, joined for the resolver, are read as that host and port
/// again, whatever the default port is.
pub proof fn law_joined_host_and_port_split_again(
    host: Seq<char>,
    port: u16,
    default_port: u16,
)
    ensures
        host_port_of(lookup_target_of(host, port), default_port) == (host, port),
{
    reveal_strlit(":");
    let digits = decimal(port as nat);
    lemma_decimal(port as nat);
    let text = lookup_target_of(host, port);
    let n = host.len() as int;
    assert(text[n] == ':');
    assert forall|j: int| n < j < text.len() implies text[j] != ':' by {
        assert(text[j] == digits[j - n - 1]);
        assert(is_digit(digits[j - n - 1]));
    }
    lemma_last_index_is(text, ':', n);
    assert(text.take(n) == host);
    assert(text.skip(n + 1) == digits);
    assert(is_digit(digits[0]));
    assert(without_plus(digits) == digits);
}

/// A text without a colon is a host alone, with the default port.
pub proof fn law_bare_host_has_the_default_port(host: Seq<char>, default_port: u16)
    requires
        !host.contains(':'),
    ensures
        host_port_of(host, default_port) == (host, default_port),
{
    assert forall|j: int| -1 < j < host.len() implies host[j] != ':' by {
        assert(host.contains(host[j]));
    }
    lemma_last_index_is(host, ':', -1);
}

/// Without a relay server of its own a message is routed to the host of the
/// rendezvous server, whether the configuration names that with a port or bare.
pub proof fn law_relay_defaults_to_the_rendezvous_host(
    config: ConfigView,
    host: Seq<char>,
    port: u16,
)
    requires
        config.server == lookup_target_of(host, port) || (config.server == host && !host.contains(
            ':',
        )),
    ensures
        relay_of(Seq::empty(), config) == host,
{
    law_joined_host_and_port_split_again(host, port, RENDEZVOUS_PORT);
    if !host.contains(':') {
        law_bare_host_has_the_default_port(host, RENDEZVOUS_PORT);
    }
}

/// A registration takes at most two answers, and the key is sent at most once.
pub proof fn law_registration_takes_two_answers(
    config: ConfigView,
    first: Option<ServerMessage>,
    then: Registration,
    action: RegisterAction,
    second: Option<ServerMessage>,
    last: Registration,
    last_action: RegisterAction,
)
    requires
        registration_step(Registration::AwaitPeer, config, first, then, action),
        registration_step(then, config, second, last, last_action),
    ensures
        last is Over,
        last_action !is Send,
        action is Send <==> first == Some(
            ServerMessage::RegisterPeerResponse { request_pk: true },
        ),
        action is Online ==> last_action is End,
{
}

/// For each of the three messages that ask for a relay connection: the relay
/// server is the one that the message names, or the host of the rendezvous server
/// if it names none. The controller's address is handed on as it came. The server
/// is told first unless the controller itself asked for the relay. The UUID is the
/// one that the controller gave, else the new one.
pub proof fn law_relay_plan(
    plan: RelayPlan,
    msg: ServerMessage,
    config: ConfigView,
    fresh: Seq<char>,
)
    ensures
        answers(plan, msg, config, fresh) ==> match msg {
            ServerMessage::PunchHole { relay_server, socket_addr } => {
                &&& relay_server@.len() > 0 ==> plan.relay_server@ == relay_server@
                &&& relay_server@.len() == 0 ==> plan.relay_server@ == host_port_of(
                    config.server,
                    21116,
                ).0
                &&& plan.peer_addr@ == socket_addr@
                &&& plan.uuid@ == fresh
                &&& plan.initiate
            },
            ServerMessage::FetchLocalAddr { relay_server, socket_addr } => {
                &&& relay_server@.len() > 0 ==> plan.relay_server@ == relay_server@
                &&& relay_server@.len() == 0 ==> plan.relay_server@ == host_port_of(
                    config.server,
                    21116,
                ).0
                &&& plan.peer_addr@ == socket_addr@
                &&& plan.uuid@ == fresh
                &&& plan.initiate
            },
            ServerMessage::RequestRelay { relay_server, uuid, socket_addr } => {
                &&& relay_server@.len() > 0 ==> plan.relay_server@ == relay_server@
                &&& relay_server@.len() == 0 ==> plan.relay_server@ == host_port_of(
                    config.server,
                    21116,
                ).0
                &&& plan.peer_addr@ == socket_addr@
                &&& uuid@.len() > 0 ==> plan.uuid@ == uuid@
                &&& uuid@.len() == 0 ==> plan.uuid@ == fresh
                &&& !plan.initiate
            },
            _ => false,
        },
{
}

/// Which messages of the server ask for a relay connection, and which of them
/// bring no UUID along.
pub proof fn law_relay_requests(msg: ServerMessage)
    ensures
        asks_for_relay(msg) <==> match msg {
            ServerMessage::PunchHole { .. } => true,
            ServerMessage::RequestRelay { .. } => true,
            ServerMessage::FetchLocalAddr { .. } => true,
            ServerMessage::RegisterPeerResponse { .. } => false,
            ServerMessage::RegisterPkResponse { .. } => false,
            ServerMessage::ConfigureUpdate => false,
            ServerMessage::Other => false,
        },
        needs_uuid(msg) <==> match msg {
            ServerMessage::PunchHole { .. } => true,
            ServerMessage::FetchLocalAddr { .. } => true,
            ServerMessage::RequestRelay { uuid, .. } => uuid@.len() == 0,
            _ => false,
        },
{
}

/// A relay server that is named is used; otherwise the host of the rendezvous
/// server, without its port.
pub proof fn law_named_relay_is_used(field: Seq<char>, config: ConfigView)
    ensures
        field.len() > 0 ==> relay_of(field, config) == field,
        field.len() == 0 ==> relay_of(field, config) == host_port_of(config.server, 21116).0,
{
}

/// A host and a port are joined by a colon, the port in decimal notation.
pub proof fn law_lookup_target(host: Seq<char>, port: u16)
    ensures
        lookup_target_of(host, port) == host + seq![':'] + decimal(port as nat),
{
    reveal_strlit(":");
    assert(":"@ == seq![':']);
}

/// How a registration goes on after the announcement. A server that asks for the
/// key is sent the device's ID, UUID and public key; any other answer puts the
/// device online; without an answer nothing follows.
pub proof fn law_registration_after_the_announcement(
    config: ConfigView,
    answer: Option<ServerMessage>,
    next: Registration,
    action: RegisterAction,
)
    requires
        registration_step(Registration::AwaitPeer, config, answer, next, action),
    ensures
        match answer {
            None => next is Over && action is End,
            Some(ServerMessage::RegisterPeerResponse { request_pk }) => if request_pk {
                &&& next is AwaitPk
                &&& action matches RegisterAction::Send(
                    RendezvousMessage::RegisterPk { id, device_uuid, pk },
                )
                &&& id@ == config.id
                &&& device_uuid@ == config.uuid
                &&& pk@ == config.sign_pk
            } else {
                next is Over && action is Online
            },
            Some(_) => next is Over && action is Online,
        },
{
}

/// How a registration ends after the key was sent: the device is online exactly
/// if there is a verdict other than a mismatch of the UUID.
pub proof fn law_registration_after_the_key(
    config: ConfigView,
    answer: Option<ServerMessage>,
    next: Registration,
    action: RegisterAction,
)
    requires
        registration_step(Registration::AwaitPk, config, answer, next, action),
    ensures
        next is Over,
        action is Online || action is End,
        action is Online <==> {
            ||| answer == Some(
                ServerMessage::RegisterPkResponse { result: PkResult::Accepted },
            )
            ||| answer == Some(ServerMessage::RegisterPkResponse { result: PkResult::Other })
        },
{
}

/// A registration that is over stays over, whatever still comes in.
pub proof fn law_registration_stays_over(
    config: ConfigView,
    answer: Option<ServerMessage>,
    next: Registration,
    action: RegisterAction,
)
    requires
        registration_step(Registration::Over, config, answer, next, action),
    ensures
        next is Over && action is End,
{
}

} // verus!
