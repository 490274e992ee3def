//! Aggregator state and update rules.
//!
//! The aggregator keeps the roster of connected sensor nodes, the lap
//! being timed, and the two previous laps.  Messages from the broker
//! link and from the UI drive a single update function; the one side
//! effect it may ask for (publishing a zero command) is performed
//! outside and answered back as another message.

use vstd::prelude::*;
use std::collections::BTreeSet;
use crate::error::MqttClientError;
use crate::messages::ConnectionMessage;
use crate::messages::DetectionMessage;
use crate::messages::DisconnectionMessage;
use crate::splits::SplitState;
use crate::splits::Splits;
use crate::splits::sorted_strict;
use crate::splits::spec_gen_sectors;
use crate::splits::spec_handle_trigger;
use crate::splits::spec_step;

verus! {

/// App connection state.
#[derive(Clone, Copy, Debug, PartialEq, Eq, Structural)]
pub enum AppState {
    /// Connecting to the broker.
    Connecting,
    /// Connected to the broker.
    Connected,
}

impl AppState {
    pub fn is_connecting(&self) -> (r: bool)
        ensures
            r == (self is Connecting),
    {
        matches!(self, AppState::Connecting)
    }

    pub fn is_connected(&self) -> (r: bool)
        ensures
            r == (self is Connected),
    {
        matches!(self, AppState::Connected)
    }
}

/// Messages passed from external sources to be acted upon by the app.
#[derive(Clone, Copy, Debug, PartialEq, Eq, Structural)]
pub enum AppMessage {
    /// Transition the system state.
    StateChange(AppState),
    /// Sensor node connected.
    ConnectNode(ConnectionMessage),
    /// Sensor node disconnected.
    DisconnectNode(DisconnectionMessage),
    /// Vehicle detection.
    Detection(DetectionMessage),
    /// Zero button was pressed.
    SendZero,
    /// Zero op completed.
    ZeroAck,
    /// Does nothing.
    Nop,
}

/// An action the caller must perform on the app's behalf.
#[derive(Clone, Copy, Debug, PartialEq, Eq, Structural)]
pub enum SideEffect {
    /// Publish a zero command to all sensors.
    PublishZero,
}

/// Application state implementation.
pub struct App {
    /// Current connection state of the app.
    pub state: AppState,
    /// Connected sensor node ids.
    pub connected_nodes: BTreeSet<u16>,
    /// Current lap we are timing.
    pub lap: Splits,
    /// Last lap.
    pub last_lap: Option<Splits>,
    /// Two laps ago.  Not displayed, but used for diffs.
    pub last_last_lap: Option<Splits>,
}

/// A fresh lap over `roster` that was already fed the detection `d`
/// which completed the previous lap: the finishing gate of one lap is
/// also the starting gate of its successor.
pub open spec fn fresh_lap_rel(roster: Set<u16>, d: DetectionMessage, lap: Splits) -> bool {
    let stepped = spec_handle_trigger(
        lap.nodes@,
        spec_gen_sectors(lap.nodes@),
        SplitState::NotStarted,
        0,
        d,
    );
    &&& sorted_strict(lap.nodes@)
    &&& lap.nodes@.to_set() == roster
    &&& lap.sectors@ == stepped.0
    &&& lap.state == stepped.1
    &&& lap.current_sector as int == stepped.2
}

/// How a detection changes the laps: the current lap steps; when that
/// completes it, the finished lap is archived, the previous one slides
/// back, and a fresh lap over the current roster takes over, seeded
/// with the same detection.
pub open spec fn detection_rel(pre: App, d: DetectionMessage, post: App) -> bool {
    let stepped = spec_step(pre.lap, d);
    if stepped.1 is Completed {
        &&& post.last_last_lap == pre.last_lap
        &&& (post.last_lap matches Some(l) && l.nodes@ == pre.lap.nodes@ && l.sectors@ == stepped.0
            && l.state == stepped.1 && l.current_sector as int == stepped.2)
        &&& fresh_lap_rel(pre.connected_nodes@, d, post.lap)
    } else {
        &&& post.last_last_lap == pre.last_last_lap
        &&& post.last_lap == pre.last_lap
        &&& post.lap.nodes@ == pre.lap.nodes@
        &&& post.lap.sectors@ == stepped.0
        &&& post.lap.state == stepped.1
        &&& post.lap.current_sector as int == stepped.2
    }
}

/// How the roster-membership messages change the current lap: while it
/// has not started its node set follows the roster and its sectors are
/// regenerated; once started it is frozen.
pub open spec fn lap_membership_rel(pre: Splits, post: Splits, nodes: Set<u16>) -> bool {
    if pre.state is NotStarted {
        &&& sorted_strict(post.nodes@)
        &&& post.nodes@.to_set() == nodes
        &&& post.sectors@ == spec_gen_sectors(post.nodes@)
        &&& post.state is NotStarted
    } else {
        post == pre
    }
}

/// The full update relation: what one message does to the app state,
/// and which side effect it asks for.
pub open spec fn update_rel(pre: App, msg: AppMessage, post: App, eff: Option<SideEffect>) -> bool {
    match msg {
        AppMessage::StateChange(s) => {
            &&& post.state == s
            &&& post.connected_nodes@ == pre.connected_nodes@
            &&& post.lap == pre.lap
            &&& post.last_lap == pre.last_lap
            &&& post.last_last_lap == pre.last_last_lap
            &&& eff is None
        },
        AppMessage::ConnectNode(c) => {
            &&& post.state == pre.state
            &&& post.connected_nodes@ == pre.connected_nodes@.insert(c.node_id)
            &&& lap_membership_rel(
                pre.lap,
                post.lap,
                pre.lap.nodes@.to_set().insert(c.node_id),
            )
            &&& post.last_lap == pre.last_lap
            &&& post.last_last_lap == pre.last_last_lap
            &&& eff is None
        },
        AppMessage::DisconnectNode(dc) => {
            &&& post.state == pre.state
            &&& post.connected_nodes@ == pre.connected_nodes@.remove(dc.node_id)
            &&& lap_membership_rel(
                pre.lap,
                post.lap,
                pre.lap.nodes@.to_set().remove(dc.node_id),
            )
            &&& post.last_lap == pre.last_lap
            &&& post.last_last_lap == pre.last_last_lap
            &&& eff is None
        },
        AppMessage::Detection(d) => {
            &&& post.state == pre.state
            &&& post.connected_nodes@ == pre.connected_nodes@
            &&& detection_rel(pre, d, post)
            &&& eff is None
        },
        AppMessage::SendZero => {
            &&& post.state == pre.state
            &&& post.connected_nodes@ == pre.connected_nodes@
            &&& post.lap == pre.lap
            &&& post.last_lap == pre.last_lap
            &&& post.last_last_lap == pre.last_last_lap
            &&& eff == (if pre.state is Connected {
                Some(SideEffect::PublishZero)
            } else {
                None::<SideEffect>
            })
        },
        _ => {
            &&& post.state == pre.state
            &&& post.connected_nodes@ == pre.connected_nodes@
            &&& post.lap == pre.lap
            &&& post.last_lap == pre.last_lap
            &&& post.last_last_lap == pre.last_last_lap
            &&& eff is None
        },
    }
}

/// The message the outcome of the published zero command feeds back
/// into the app: success is acknowledged; a failed publish means the
/// broker link is gone, so the app transitions back to connecting.
pub fn zero_publish_outcome(outcome: &Result<(), MqttClientError>) -> (m: AppMessage)
    ensures
        m == (if outcome is Ok {
            AppMessage::ZeroAck
        } else {
            AppMessage::StateChange(AppState::Connecting)
        }),
{
    match outcome {
        Ok(_) => AppMessage::ZeroAck,
        Err(_) => AppMessage::StateChange(AppState::Connecting),
    }
}

impl App {
    /// Internal consistency: every lap held is well formed.
    pub open spec fn wf(self) -> bool {
        &&& self.lap.wf()
        &&& (self.last_lap matches Some(l) ==> l.wf())
        &&& (self.last_last_lap matches Some(l) ==> l.wf())
    }

    /// Creates a new application: disconnected, with an empty roster
    /// and an empty, unstarted lap.
    pub fn new() -> (r: App)
        ensures
            r.wf(),
            r.state is Connecting,
            r.connected_nodes@ == Set::<u16>::empty(),
            r.lap.nodes@ == Seq::<u16>::empty(),
            r.lap.state is NotStarted,
            r.last_lap is None,
            r.last_last_lap is None,
    {
        let connected_nodes: BTreeSet<u16> = BTreeSet::new();
        let lap = Splits::new(BTreeSet::new());
        proof {
            assert(lap.nodes@.to_set() =~= Set::<u16>::empty());
            assert(lap.nodes@ =~= Seq::<u16>::empty());
        }
        App {
            state: AppState::Connecting,
            connected_nodes,
            lap,
            last_lap: None,
            last_last_lap: None,
        }
    }

    /// Performs one update step from an application message.
    ///
    /// Connection and disconnection maintain the roster and, while the
    /// lap has not started, its node set.  A detection drives the lap;
    /// completing it archives the lap and starts the next one from the
    /// same detection.  A zero request asks the caller to publish the
    /// zero command when connected.  State changes arrive from the
    /// broker link and touch nothing but the connection state.
    pub fn update(&mut self, message: AppMessage) -> (eff: Option<SideEffect>)
        requires
            old(self).wf(),
        ensures
            final(self).wf(),
            update_rel(*old(self), message, *final(self), eff),
    {
        match message {
            AppMessage::StateChange(s) => {
                self.state = s;
            },
            AppMessage::ConnectNode(c) => {
                self.connected_nodes.insert(c.node_id);
                self.lap.connect_node(c.node_id);
            },
            AppMessage::DisconnectNode(dc) => {
                self.connected_nodes.remove(&dc.node_id);
                self.lap.disconnect_node(dc.node_id);
            },
            AppMessage::Detection(d) => {
                let resulting = self.lap.handle_node_trigger(d);
                if resulting.is_completed() {
                    let mut fresh = Splits::new(self.connected_nodes.clone());
                    fresh.handle_node_trigger(d);
                    core::mem::swap(&mut self.lap, &mut fresh);
                    // `fresh` now holds the completed lap; slide the
                    // archive back one slot and store it
                    let mut archived: Option<Splits> = Some(fresh);
                    core::mem::swap(&mut self.last_last_lap, &mut self.last_lap);
                    core::mem::swap(&mut self.last_lap, &mut archived);
                }
            },
            AppMessage::SendZero => {
                if self.state.is_connected() {
                    return Some(SideEffect::PublishZero);
                }
            },
            AppMessage::ZeroAck => {},
            AppMessage::Nop => {},
        }
        None
    }
}

} // verus!
