//! Sensor node message handling.

use vstd::prelude::*;
use crate::error::ConversionError;
use crate::error::MqttClientError;
use crate::messages::MqttMessage;
use crate::sensor::DistanceSensor;
use crate::sensor::SensorError;
use crate::trigger::ApplicationContext;

verus! {

/// Errors of the sensor node's control loop.
#[derive(Clone, Copy, Debug, PartialEq, Eq, Structural)]
pub enum NodeError {
    /// The broker link failed.
    MqttClientErr(MqttClientError),
    /// A message arrived on a topic the node never subscribes to.
    WrongSub,
    /// A message could not be encoded or decoded.
    SerializationError(ConversionError),
    /// The sensor failed.
    SensorErr(SensorError),
}

/// Phase of the sensor node's control loop: which blocking operation
/// the node performs next.
#[derive(Clone, Copy, Debug, PartialEq, Eq, Structural)]
pub enum NodePhase {
    /// The broker link is down: keep retrying the reconnect, then
    /// re-announce the connection.
    Reconnecting,
    /// Publish the periodic connection heartbeat, which lets
    /// late-joining aggregators discover the node.
    Heartbeating,
    /// Await the first of: an inbound broker message, a debounced
    /// trigger from the sensor, or the heartbeat timeout.
    Waiting,
    /// Publish the detection for the trigger that was just emitted.
    Publishing,
}

/// The outcome of the blocking operation a phase asked for.
#[derive(Clone, Debug, PartialEq, Eq)]
pub enum NodeEvent {
    /// The reconnect attempt (with its re-announcement) succeeded.
    ReconnectOk,
    /// The reconnect attempt failed.
    ReconnectFailed,
    /// The heartbeat publish succeeded.
    HeartbeatOk,
    /// The heartbeat publish failed.
    HeartbeatFailed,
    /// A message arrived from the broker.
    Inbound(MqttMessage),
    /// Receiving from the broker failed.
    InboundFailed,
    /// The sensor emitted a debounced trigger at this distance in mm.
    Triggered(u32),
    /// The sensor erred while reading.
    TriggerReadFailed,
    /// Nothing happened within the heartbeat window.
    TimedOut,
    /// The detection publish succeeded.
    PublishOk,
    /// The detection publish failed.
    PublishFailed,
}

/// Work the node must perform beyond moving to the next phase.
#[derive(Clone, Copy, Debug, PartialEq, Eq, Structural)]
pub enum NodeAction {
    /// Re-run the zero routine on the sensor.
    RunZero,
    /// Publish a detection for this distance, stamped now.
    PublishDetection(u32),
}

/// What one event does to the node's control loop: the work to
/// perform, if any, and the next phase.
///
/// Failures of the broker link (a heartbeat, receive or publish that
/// fails) send the loop back to reconnecting; a zero command re-runs
/// the zero routine; a message on any other topic is a protocol
/// violation and is ignored at the node, as is a sensor read error;
/// the timeout forces a heartbeat even when nothing happens.  An
/// event that cannot arise in a phase is ignored.
pub open spec fn spec_node_step(phase: NodePhase, event: NodeEvent) -> (
    Option<NodeAction>,
    NodePhase,
) {
    match phase {
        NodePhase::Reconnecting => match event {
            NodeEvent::ReconnectOk => (None::<NodeAction>, NodePhase::Heartbeating),
            _ => (None::<NodeAction>, NodePhase::Reconnecting),
        },
        NodePhase::Heartbeating => match event {
            NodeEvent::HeartbeatOk => (None::<NodeAction>, NodePhase::Waiting),
            NodeEvent::HeartbeatFailed => (None::<NodeAction>, NodePhase::Reconnecting),
            _ => (None::<NodeAction>, NodePhase::Heartbeating),
        },
        NodePhase::Waiting => match event {
            NodeEvent::Inbound(m) => match m {
                MqttMessage::Zero => (Some(NodeAction::RunZero), NodePhase::Heartbeating),
                _ => (None::<NodeAction>, NodePhase::Heartbeating),
            },
            NodeEvent::InboundFailed => (None::<NodeAction>, NodePhase::Reconnecting),
            NodeEvent::Triggered(d) => (
                Some(NodeAction::PublishDetection(d)),
                NodePhase::Publishing,
            ),
            NodeEvent::TriggerReadFailed => (None::<NodeAction>, NodePhase::Heartbeating),
            NodeEvent::TimedOut => (None::<NodeAction>, NodePhase::Heartbeating),
            _ => (None::<NodeAction>, NodePhase::Waiting),
        },
        NodePhase::Publishing => match event {
            NodeEvent::PublishOk => (None::<NodeAction>, NodePhase::Heartbeating),
            NodeEvent::PublishFailed => (None::<NodeAction>, NodePhase::Reconnecting),
            _ => (None::<NodeAction>, NodePhase::Publishing),
        },
    }
}

/// Advances the sensor node's control loop by one event.
pub fn node_step(phase: &NodePhase, event: NodeEvent) -> (r: (Option<NodeAction>, NodePhase))
    ensures
        r == spec_node_step(*phase, event),
{
    match phase {
        NodePhase::Reconnecting => match event {
            NodeEvent::ReconnectOk => (None, NodePhase::Heartbeating),
            _ => (None, NodePhase::Reconnecting),
        },
        NodePhase::Heartbeating => match event {
            NodeEvent::HeartbeatOk => (None, NodePhase::Waiting),
            NodeEvent::HeartbeatFailed => (None, NodePhase::Reconnecting),
            _ => (None, NodePhase::Heartbeating),
        },
        NodePhase::Waiting => match event {
            NodeEvent::Inbound(m) => match m {
                MqttMessage::Zero => (Some(NodeAction::RunZero), NodePhase::Heartbeating),
                _ => (None, NodePhase::Heartbeating),
            },
            NodeEvent::InboundFailed => (None, NodePhase::Reconnecting),
            NodeEvent::Triggered(d) => (
                Some(NodeAction::PublishDetection(d)),
                NodePhase::Publishing,
            ),
            NodeEvent::TriggerReadFailed => (None, NodePhase::Heartbeating),
            NodeEvent::TimedOut => (None, NodePhase::Heartbeating),
            _ => (None, NodePhase::Waiting),
        },
        NodePhase::Publishing => match event {
            NodeEvent::PublishOk => (None, NodePhase::Heartbeating),
            NodeEvent::PublishFailed => (None, NodePhase::Reconnecting),
            _ => (None, NodePhase::Publishing),
        },
    }
}

/// Handles an incoming broker message on a sensor node.
///
/// The node subscribes to the zero command alone: a zero re-runs the
/// zero routine on the sensor; any other variant is a protocol error
/// and changes nothing.
pub fn handle_mqtt_msg<T: DistanceSensor>(msg: &MqttMessage, ctx: &mut ApplicationContext<T>) -> (r:
    Result<(), NodeError>)
    ensures
        final(ctx).threshold == old(ctx).threshold,
        final(ctx).last_detection_ms == old(ctx).last_detection_ms,
        !(msg is Zero) ==> r == Err::<(), NodeError>(NodeError::WrongSub) && final(ctx).zero == old(
            ctx,
        ).zero,
        msg is Zero && r is Err ==> (r matches Err(NodeError::SensorErr(_)) && final(ctx).zero
            == old(ctx).zero),
{
    match msg {
        MqttMessage::Zero => {
            match ctx.zero() {
                Ok(_) => Ok(()),
                Err(e) => Err(NodeError::SensorErr(e)),
            }
        },
        _ => Err(NodeError::WrongSub),
    }
}

} // verus!
