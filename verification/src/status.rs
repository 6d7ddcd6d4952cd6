//! The state of the application that its window shows.

use crate::config::DeviceConfig;
use vstd::prelude::*;

verus! {

/// What is known of the connections at a moment.
pub struct AppState {
    pub server_online: bool,
    pub peer_connected: bool,
    pub peer_name: String,
    pub file_transfer_active: bool,
    pub file_transfer_label: String,
    pub direct_listening: bool,
}

/// The contents of an [`AppState`].
#[verifier::ext_equal]
pub struct StateView {
    pub server_online: bool,
    pub peer_connected: bool,
    pub peer_name: Seq<char>,
    pub file_transfer_active: bool,
    pub file_transfer_label: Seq<char>,
    pub direct_listening: bool,
}

impl View for AppState {
    type V = StateView;

    open spec fn view(&self) -> StateView {
        StateView {
            server_online: self.server_online,
            peer_connected: self.peer_connected,
            peer_name: self.peer_name@,
            file_transfer_active: self.file_transfer_active,
            file_transfer_label: self.file_transfer_label@,
            direct_listening: self.direct_listening,
        }
    }
}

impl AppState {
    /// Nothing is online, connected, running or listening.
    pub fn new() -> (r: AppState)
        ensures
            r@ == (StateView {
                server_online: false,
                peer_connected: false,
                peer_name: Seq::empty(),
                file_transfer_active: false,
                file_transfer_label: Seq::empty(),
                direct_listening: false,
            }),
    {
        AppState {
            server_online: false,
            peer_connected: false,
            peer_name: String::new(),
            file_transfer_active: false,
            file_transfer_label: String::new(),
            direct_listening: false,
        }
    }
}

/// Notes whether the rendezvous server knows the device.
pub fn set_server_online(state: &mut AppState, online: bool)
    ensures
        final(state)@ == (StateView { server_online: online, ..old(state)@ }),
{
    state.server_online = online;
}

/// Notes whether a controller is connected, and its name.
pub fn set_peer_connected(state: &mut AppState, connected: bool, name: Option<String>)
    ensures
        final(state)@ == (StateView {
            peer_connected: connected,
            peer_name: match name {
                Some(n) => n@,
                None => Seq::empty(),
            },
            ..old(state)@
        }),
{
    state.peer_connected = connected;
    state.peer_name = match name {
        Some(n) => n,
        None => String::new(),
    };
}

/// Notes whether a file transfer is running, and its progress line.
pub fn set_file_transfer(state: &mut AppState, active: bool, label: String)
    ensures
        final(state)@ == (StateView {
            file_transfer_active: active,
            file_transfer_label: label@,
            ..old(state)@
        }),
{
    state.file_transfer_active = active;
    state.file_transfer_label = label;
}

/// Notes whether the direct-IP listener is listening.
pub fn set_direct_listening(state: &mut AppState, listening: bool)
    ensures
        final(state)@ == (StateView { direct_listening: listening, ..old(state)@ }),
{
    state.direct_listening = listening;
}

/// What the window shows.
pub struct ConnectionStatus {
    pub server_online: bool,
    pub connected: bool,
    pub peer_name: String,
    pub server: String,
    pub id: String,
    pub password: String,
    pub file_transfer_active: bool,
    pub file_transfer_label: String,
    /// Port of the direct-IP listener.
    pub direct_port: u16,
    pub direct_listening: bool,
    /// Local IPv4 addresses, the most likely reachable first.
    pub local_ips: Vec<String>,
}

/// Puts together what the window shows.
pub fn get_status(
    state: &AppState,
    config: &DeviceConfig,
    direct_port: u16,
    local_ips: Vec<String>,
) -> (r: ConnectionStatus)
    ensures
        r.server_online == state@.server_online,
        r.connected == state@.peer_connected,
        r.peer_name@ == state@.peer_name,
        r.server@ == config@.server,
        r.id@ == config@.id,
        r.password@ == config@.password,
        r.file_transfer_active == state@.file_transfer_active,
        r.file_transfer_label@ == state@.file_transfer_label,
        r.direct_port == direct_port,
        r.direct_listening == state@.direct_listening,
        r.local_ips == local_ips,
{
    ConnectionStatus {
        server_online: state.server_online,
        connected: state.peer_connected,
        peer_name: state.peer_name.clone(),
        server: config.server.clone(),
        id: config.id.clone(),
        password: config.password.clone(),
        file_transfer_active: state.file_transfer_active,
        file_transfer_label: state.file_transfer_label.clone(),
        direct_port,
        direct_listening: state.direct_listening,
        local_ips,
    }
}

/// The view of the state is its fields.
pub proof fn law_state_view(state: AppState)
    ensures
        state@.server_online == state.server_online,
        state@.peer_connected == state.peer_connected,
        state@.peer_name == state.peer_name@,
        state@.file_transfer_active == state.file_transfer_active,
        state@.file_transfer_label == state.file_transfer_label@,
        state@.direct_listening == state.direct_listening,
{
}

} // verus!
