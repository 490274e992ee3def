//! The broker-link state machine behind the aggregator's message
//! stream.
//!
//! The link is driven as an infinite producer of application messages:
//! the caller performs one blocking link operation per state (connect,
//! receive, reconnect), hands the outcome in as an event, and gets
//! back the message to feed the app, if any, and the next link state.

use vstd::prelude::*;
use crate::app::AppMessage;
use crate::app::AppState;
use crate::error::MqttClientError;
use crate::messages::MqttMessage;

verus! {

/// Connection state of the broker link.
#[derive(Clone, Copy, Debug, PartialEq, Eq, Structural)]
pub enum ConnState {
    /// Initial connection.
    Connecting,
    /// Spinning over received messages.
    Connected,
    /// Attempting to reconnect after a first connection.
    Reconnecting,
}

/// The outcome of one blocking link operation.
#[derive(Clone, Debug, PartialEq, Eq)]
pub enum LinkEvent {
    /// The initial connection attempt succeeded.
    ConnectOk,
    /// The initial connection attempt failed.
    ConnectFailed,
    /// A message arrived from the broker.
    RecvOk(MqttMessage),
    /// Receiving failed.
    RecvErr(MqttClientError),
    /// The reconnection attempt succeeded.
    ReconnectOk,
    /// The reconnection attempt failed.
    ReconnectFailed,
}

/// What one link event does: the message for the app, if any, and the
/// next link state.
///
/// A broken receive (a transport error or an explicit disconnect)
/// reports the app disconnected and moves to reconnecting; a
/// serialization failure only drops the offending message; a
/// successful reconnect reports the app connected again.  An event
/// that cannot arise in a state is ignored.
pub open spec fn spec_subscription_step(state: ConnState, event: LinkEvent) -> (
    Option<AppMessage>,
    ConnState,
) {
    match state {
        ConnState::Connecting => match event {
            LinkEvent::ConnectOk => (
                Some(AppMessage::StateChange(AppState::Connected)),
                ConnState::Connected,
            ),
            _ => (None, ConnState::Connecting),
        },
        ConnState::Connected => match event {
            LinkEvent::RecvOk(m) => match m {
                MqttMessage::Connection(c) => (
                    Some(AppMessage::ConnectNode(c)),
                    ConnState::Connected,
                ),
                MqttMessage::Disconnection(d) => (
                    Some(AppMessage::DisconnectNode(d)),
                    ConnState::Connected,
                ),
                MqttMessage::Detection(d) => (
                    Some(AppMessage::Detection(d)),
                    ConnState::Connected,
                ),
                _ => (None, ConnState::Connected),
            },
            LinkEvent::RecvErr(e) => match e {
                MqttClientError::SerializationErr(_) => (None, ConnState::Connected),
                _ => (
                    Some(AppMessage::StateChange(AppState::Connecting)),
                    ConnState::Reconnecting,
                ),
            },
            _ => (None, ConnState::Connected),
        },
        ConnState::Reconnecting => match event {
            LinkEvent::ReconnectOk => (
                Some(AppMessage::StateChange(AppState::Connected)),
                ConnState::Connected,
            ),
            _ => (None, ConnState::Reconnecting),
        },
    }
}

/// Advances the broker-link state machine by one event.
pub fn subscription_step(state: &ConnState, event: LinkEvent) -> (r: (
    Option<AppMessage>,
    ConnState,
))
    ensures
        r == spec_subscription_step(*state, event),
{
    match state {
        ConnState::Connecting => match event {
            LinkEvent::ConnectOk => (
                Some(AppMessage::StateChange(AppState::Connected)),
                ConnState::Connected,
            ),
            _ => (None, ConnState::Connecting),
        },
        ConnState::Connected => match event {
            LinkEvent::RecvOk(m) => match m {
                MqttMessage::Connection(c) => (
                    Some(AppMessage::ConnectNode(c)),
                    ConnState::Connected,
                ),
                MqttMessage::Disconnection(d) => (
                    Some(AppMessage::DisconnectNode(d)),
                    ConnState::Connected,
                ),
                MqttMessage::Detection(d) => (
                    Some(AppMessage::Detection(d)),
                    ConnState::Connected,
                ),
                _ => (None, ConnState::Connected),
            },
            LinkEvent::RecvErr(e) => match e {
                MqttClientError::SerializationErr(_) => (None, ConnState::Connected),
                _ => (
                    Some(AppMessage::StateChange(AppState::Connecting)),
                    ConnState::Reconnecting,
                ),
            },
            _ => (None, ConnState::Connected),
        },
        ConnState::Reconnecting => match event {
            LinkEvent::ReconnectOk => (
                Some(AppMessage::StateChange(AppState::Connected)),
                ConnState::Connected,
            ),
            _ => (None, ConnState::Reconnecting),
        },
    }
}

/// Reconnection law: a broken receive reports the app disconnected
/// and moves the link to reconnecting; the next successful reconnect
/// reports it connected again; and feeding the app those two reports
/// loses no lap state, no lap history, and no roster entry.
pub proof fn lemma_reconnection_preserves_laps(
    app0: crate::app::App,
    app1: crate::app::App,
    app2: crate::app::App,
    e: MqttClientError,
    eff1: Option<crate::app::SideEffect>,
    eff2: Option<crate::app::SideEffect>,
)
    requires
        !(e is SerializationErr),
        crate::app::update_rel(
            app0,
            AppMessage::StateChange(AppState::Connecting),
            app1,
            eff1,
        ),
        crate::app::update_rel(
            app1,
            AppMessage::StateChange(AppState::Connected),
            app2,
            eff2,
        ),
    ensures
        spec_subscription_step(ConnState::Connected, LinkEvent::RecvErr(e)) == (
            Some(AppMessage::StateChange(AppState::Connecting)),
            ConnState::Reconnecting,
        ),
        spec_subscription_step(ConnState::Reconnecting, LinkEvent::ReconnectOk) == (
            Some(AppMessage::StateChange(AppState::Connected)),
            ConnState::Connected,
        ),
        app2.state is Connected,
        app2.lap == app0.lap,
        app2.last_lap == app0.last_lap,
        app2.last_last_lap == app0.last_last_lap,
        app2.connected_nodes@ == app0.connected_nodes@,
{
}

} // verus!
