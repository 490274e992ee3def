use timebay::app::zero_publish_outcome;
use timebay::app::App;
use timebay::app::AppMessage;
use timebay::app::AppState;
use timebay::app::SideEffect;
use timebay::error::ConversionError;
use timebay::error::MqttClientError;
use timebay::messages::ConnectionMessage;
use timebay::messages::DetectionMessage;
use timebay::messages::DisconnectionMessage;
use timebay::messages::MqttMessage;
use timebay::mqttsub::subscription_step;
use timebay::mqttsub::ConnState;
use timebay::mqttsub::LinkEvent;
use timebay::node::handle_mqtt_msg;
use timebay::node::node_step;
use timebay::node::NodeAction;
use timebay::node::NodeError;
use timebay::node::NodeEvent;
use timebay::node::NodePhase;
use timebay::sensor::MockDistanceReader;
use timebay::splits::SplitState;
use timebay::trigger::ApplicationContext;
use timebay::timing::TimeSpan;
use timebay::timing::TimeStamp;

#[test]
fn aggregator_tracks_roster_and_laps() {
    let mut app = App::new();
    assert!(app.state.is_connecting());

    app.update(AppMessage::StateChange(AppState::Connected));
    assert!(app.state.is_connected());

    app.update(AppMessage::ConnectNode(ConnectionMessage::new(1)));
    app.update(AppMessage::ConnectNode(ConnectionMessage::new(2)));
    // a heartbeat re-send changes nothing
    app.update(AppMessage::ConnectNode(ConnectionMessage::new(2)));
    assert_eq!(app.lap.nodes, vec![1, 2]);

    app.update(AppMessage::DisconnectNode(DisconnectionMessage::new(2)));
    assert_eq!(app.lap.nodes, vec![1]);

    // run a whole lap over the single remaining gate
    app.update(AppMessage::Detection(DetectionMessage::new(1, 10, 5, 0)));
    assert_eq!(app.lap.state, SplitState::Running(TimeStamp::new(5, 0)));

    app.update(AppMessage::Detection(DetectionMessage::new(1, 10, 9, 0)));
    // the finished lap is archived and the same detection started the
    // next one
    let last = app.last_lap.as_ref().unwrap();
    assert_eq!(
        last.state,
        SplitState::Completed(TimeStamp::new(5, 0), TimeStamp::new(9, 0))
    );
    assert_eq!(last.get_total_time(), Some(TimeSpan::from_secs(4)));
    assert_eq!(app.lap.state, SplitState::Running(TimeStamp::new(9, 0)));

    // a second completed lap slides the archive back
    app.update(AppMessage::Detection(DetectionMessage::new(1, 10, 12, 0)));
    assert_eq!(
        app.last_last_lap.as_ref().unwrap().state,
        SplitState::Completed(TimeStamp::new(5, 0), TimeStamp::new(9, 0))
    );
    assert_eq!(
        app.last_lap.as_ref().unwrap().state,
        SplitState::Completed(TimeStamp::new(9, 0), TimeStamp::new(12, 0))
    );
}

#[test]
fn membership_is_frozen_while_running() {
    let mut app = App::new();
    app.update(AppMessage::ConnectNode(ConnectionMessage::new(1)));
    app.update(AppMessage::ConnectNode(ConnectionMessage::new(2)));
    app.update(AppMessage::Detection(DetectionMessage::new(1, 10, 5, 0)));
    assert!(app.lap.state.is_running());

    // the roster keeps tracking, the running lap does not
    app.update(AppMessage::ConnectNode(ConnectionMessage::new(3)));
    assert_eq!(app.lap.nodes, vec![1, 2]);

    // completing the lap starts the next one over the full roster
    app.update(AppMessage::Detection(DetectionMessage::new(2, 10, 6, 0)));
    app.update(AppMessage::Detection(DetectionMessage::new(1, 10, 7, 0)));
    assert_eq!(app.lap.nodes, vec![1, 2, 3]);
}

#[test]
fn zero_is_published_only_when_connected() {
    let mut app = App::new();
    assert_eq!(app.update(AppMessage::SendZero), None);

    app.update(AppMessage::StateChange(AppState::Connected));
    assert_eq!(
        app.update(AppMessage::SendZero),
        Some(SideEffect::PublishZero)
    );

    assert_eq!(app.update(AppMessage::ZeroAck), None);
    assert_eq!(app.update(AppMessage::Nop), None);
}

#[test]
fn link_dispatches_received_messages() {
    let (m, s) = subscription_step(&ConnState::Connecting, LinkEvent::ConnectOk);
    assert_eq!(m, Some(AppMessage::StateChange(AppState::Connected)));
    assert_eq!(s, ConnState::Connected);

    let (m, s) = subscription_step(
        &ConnState::Connected,
        LinkEvent::RecvOk(MqttMessage::Connection(ConnectionMessage::new(3))),
    );
    assert_eq!(m, Some(AppMessage::ConnectNode(ConnectionMessage::new(3))));
    assert_eq!(s, ConnState::Connected);

    let (m, s) = subscription_step(
        &ConnState::Connected,
        LinkEvent::RecvOk(MqttMessage::Detection(DetectionMessage::new(3, 9, 1, 2))),
    );
    assert_eq!(
        m,
        Some(AppMessage::Detection(DetectionMessage::new(3, 9, 1, 2)))
    );
    assert_eq!(s, ConnState::Connected);

    // a zero or an unknown message is not the aggregator's business
    let (m, s) = subscription_step(&ConnState::Connected, LinkEvent::RecvOk(MqttMessage::Zero));
    assert_eq!(m, None);
    assert_eq!(s, ConnState::Connected);

    // a serialization failure only drops the message
    let (m, s) = subscription_step(
        &ConnState::Connected,
        LinkEvent::RecvErr(MqttClientError::SerializationErr(
            ConversionError::MalformedPayload,
        )),
    );
    assert_eq!(m, None);
    assert_eq!(s, ConnState::Connected);
}

#[test]
fn reconnect_loses_no_lap_state() {
    let mut app = App::new();
    app.update(AppMessage::StateChange(AppState::Connected));
    app.update(AppMessage::ConnectNode(ConnectionMessage::new(1)));
    app.update(AppMessage::ConnectNode(ConnectionMessage::new(2)));
    app.update(AppMessage::Detection(DetectionMessage::new(1, 10, 5, 0)));
    let lap_before = app.lap.clone();

    // the broker drops the link mid-lap
    let (m1, s1) = subscription_step(
        &ConnState::Connected,
        LinkEvent::RecvErr(MqttClientError::ExplicitDisconnect),
    );
    assert_eq!(m1, Some(AppMessage::StateChange(AppState::Connecting)));
    assert_eq!(s1, ConnState::Reconnecting);
    app.update(m1.unwrap());
    assert!(app.state.is_connecting());

    // a failed attempt keeps trying
    let (m2, s2) = subscription_step(&s1, LinkEvent::ReconnectFailed);
    assert_eq!(m2, None);
    assert_eq!(s2, ConnState::Reconnecting);

    // the next success transitions back to connected
    let (m3, s3) = subscription_step(&s2, LinkEvent::ReconnectOk);
    assert_eq!(m3, Some(AppMessage::StateChange(AppState::Connected)));
    assert_eq!(s3, ConnState::Connected);
    app.update(m3.unwrap());
    assert!(app.state.is_connected());

    // the in-flight lap survived untouched
    assert_eq!(app.lap.nodes, lap_before.nodes);
    assert_eq!(app.lap.sectors, lap_before.sectors);
    assert_eq!(app.lap.state, lap_before.state);
    assert_eq!(app.lap.current_sector, lap_before.current_sector);
}

#[test]
fn zero_outcome_feeds_back_as_a_message() {
    assert_eq!(zero_publish_outcome(&Ok(())), AppMessage::ZeroAck);
    assert_eq!(
        zero_publish_outcome(&Err(MqttClientError::ConnectionErr)),
        AppMessage::StateChange(AppState::Connecting)
    );

    // a failed publish sends the whole app back to connecting, and
    // touches nothing else
    let mut app = App::new();
    app.update(AppMessage::StateChange(AppState::Connected));
    app.update(AppMessage::ConnectNode(ConnectionMessage::new(7)));
    app.update(zero_publish_outcome(&Err(MqttClientError::ConnectionErr)));
    assert!(app.state.is_connecting());
    assert_eq!(app.lap.nodes, vec![7]);
}

#[test]
fn node_loop_policy() {
    // a healthy pass: heartbeat, wait, trigger, publish, heartbeat again
    let (a, p) = node_step(&NodePhase::Heartbeating, NodeEvent::HeartbeatOk);
    assert_eq!(a, None);
    assert_eq!(p, NodePhase::Waiting);
    let (a, p) = node_step(&p, NodeEvent::Triggered(1200));
    assert_eq!(a, Some(NodeAction::PublishDetection(1200)));
    assert_eq!(p, NodePhase::Publishing);
    let (a, p) = node_step(&p, NodeEvent::PublishOk);
    assert_eq!(a, None);
    assert_eq!(p, NodePhase::Heartbeating);

    // a zero command re-runs the zero routine; any other topic is a
    // protocol violation the node ignores
    let (a, p) = node_step(&NodePhase::Waiting, NodeEvent::Inbound(MqttMessage::Zero));
    assert_eq!(a, Some(NodeAction::RunZero));
    assert_eq!(p, NodePhase::Heartbeating);
    let (a, p) = node_step(
        &NodePhase::Waiting,
        NodeEvent::Inbound(MqttMessage::Detection(DetectionMessage::new(1, 2, 3, 4))),
    );
    assert_eq!(a, None);
    assert_eq!(p, NodePhase::Heartbeating);

    // the idle timeout forces a heartbeat; a sensor read error is
    // logged and the loop goes on
    assert_eq!(
        node_step(&NodePhase::Waiting, NodeEvent::TimedOut),
        (None, NodePhase::Heartbeating)
    );
    assert_eq!(
        node_step(&NodePhase::Waiting, NodeEvent::TriggerReadFailed),
        (None, NodePhase::Heartbeating)
    );

    // every broker failure sends the loop back to reconnecting, and
    // reconnecting retries until it succeeds
    assert_eq!(
        node_step(&NodePhase::Heartbeating, NodeEvent::HeartbeatFailed),
        (None, NodePhase::Reconnecting)
    );
    assert_eq!(
        node_step(&NodePhase::Waiting, NodeEvent::InboundFailed),
        (None, NodePhase::Reconnecting)
    );
    assert_eq!(
        node_step(&NodePhase::Publishing, NodeEvent::PublishFailed),
        (None, NodePhase::Reconnecting)
    );
    assert_eq!(
        node_step(&NodePhase::Reconnecting, NodeEvent::ReconnectFailed),
        (None, NodePhase::Reconnecting)
    );
    assert_eq!(
        node_step(&NodePhase::Reconnecting, NodeEvent::ReconnectOk),
        (None, NodePhase::Heartbeating)
    );
}

#[test]
fn node_rejects_unexpected_topics() {
    let sensor = MockDistanceReader::new(42, 1);
    let mut ctx = ApplicationContext::new(sensor, 10_000, 200);

    assert_eq!(
        handle_mqtt_msg(
            &MqttMessage::Connection(ConnectionMessage::new(1)),
            &mut ctx
        ),
        Err(NodeError::WrongSub)
    );
    assert_eq!(ctx.zero, 10_000);

    // the zero command re-runs the zero routine
    assert_eq!(handle_mqtt_msg(&MqttMessage::Zero, &mut ctx), Ok(()));
    assert_eq!(ctx.zero, 42);
}
