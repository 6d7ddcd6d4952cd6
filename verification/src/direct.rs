//! The direct-IP listener: it accepts controllers that dial the device itself,
//! and comes back after every failure.

use crate::config::{direct_enabled, direct_port, direct_port_of, switches_direct_on, text_of};
use crate::status::{set_direct_listening, AppState, StateView};
use vstd::prelude::*;

verus! {

/// Seconds to wait after a failure before the next attempt.
pub const RETRY_SECS: u64 = 3;

/// What happened to the listener. `S` is an accepted connection.
pub enum ListenerEvent<S> {
    /// The port is bound.
    Bound,
    /// A controller connected.
    Accepted(S),
    /// Binding or accepting failed.
    Failed,
    /// The wait is over.
    Waited,
}

/// What the listener does next.
pub enum ListenerAction<S> {
    /// Bind a port on all addresses.
    Bind(u16),
    /// Accept the next connection.
    Accept,
    /// Serve a connection in a task of its own, and accept the next one.
    Serve(S),
    /// Let go of the port and wait for so many seconds.
    Wait(u64),
}

/// A listener for direct connections.
pub struct Listener {
    pub port: u16,
}

/// What a listener does about an event.
pub open spec fn listener_action<S>(port: u16, event: ListenerEvent<S>) -> ListenerAction<S> {
    match event {
        ListenerEvent::Bound => ListenerAction::Accept,
        ListenerEvent::Accepted(s) => ListenerAction::Serve(s),
        ListenerEvent::Failed => ListenerAction::Wait(RETRY_SECS),
        ListenerEvent::Waited => ListenerAction::Bind(port),
    }
}

impl Listener {
    /// The listener, given the baked switch and port, and what it does first.
    /// There is none when direct access is switched off.
    pub fn start<S>(switch: Option<&str>, port: Option<&str>) -> (r: Option<
        (Listener, ListenerAction<S>),
    >)
        ensures
            r is Some <==> switches_direct_on(text_of(switch)),
            r matches Some((listener, action)) ==> listener.port == direct_port_of(text_of(port))
                && action == ListenerAction::<S>::Bind(direct_port_of(text_of(port))),
    {
        if direct_enabled(switch) {
            let port: u16 = direct_port(port);
            Some((Listener { port }, ListenerAction::Bind(port)))
        } else {
            None
        }
    }

    /// Reacts to an event. The application is shown as listening once the port
    /// is bound.
    pub fn step<S>(&self, event: ListenerEvent<S>, state: &mut AppState) -> (r: ListenerAction<S>)
        ensures
            r == listener_action(self.port, event),
            final(state)@ == (StateView {
                direct_listening: old(state)@.direct_listening || event is Bound,
                ..old(state)@
            }),
    {
        match event {
            ListenerEvent::Bound => {
                set_direct_listening(state, true);
                ListenerAction::Accept
            },
            ListenerEvent::Accepted(s) => ListenerAction::Serve(s),
            ListenerEvent::Failed => ListenerAction::Wait(RETRY_SECS),
            ListenerEvent::Waited => ListenerAction::Bind(self.port),
        }
    }
}

/// What a listener does about each event: a bound port is listened on, every
/// connection is served, a failure is followed by three seconds of waiting, and a
/// wait by another attempt on the same port.
pub proof fn law_listener<S>(port: u16, event: ListenerEvent<S>)
    ensures
        match (event, listener_action(port, event)) {
            (ListenerEvent::Bound, ListenerAction::Accept) => true,
            (ListenerEvent::Accepted(s), ListenerAction::Serve(t)) => t == s,
            (ListenerEvent::Failed, ListenerAction::Wait(secs)) => secs == 3,
            (ListenerEvent::Waited, ListenerAction::Bind(p)) => p == port,
            _ => false,
        },
{
}

} // verus!
