use sonify_health::remote::{
    classify_remote_message, handling_failure_reason, metric_plan, metric_target, session_step,
    Connector, ConnectorAction, ConnectorEvent, Frame, MetricPlan, RemoteMessage, SessionStep,
};
use sonify_health::sources::ConnectionStatus;

#[test]
fn connector_backs_off_and_resets() {
    let mut c = Connector::new();
    let s = c.step(true, true, ConnectorEvent::Started);
    assert_eq!(s.status, Some(ConnectionStatus::Connecting));
    assert_eq!(s.action, ConnectorAction::Connect);
    let s = c.step(true, true, ConnectorEvent::ConnectFailed { error: "refused".to_string() });
    assert_eq!(
        s.status,
        Some(ConnectionStatus::Disconnected { error: Some("refused".to_string()) })
    );
    assert_eq!(s.action, ConnectorAction::Sleep { millis: 1_000 });
    c.step(true, true, ConnectorEvent::Slept);
    let s = c.step(true, true, ConnectorEvent::ConnectFailed { error: "x".to_string() });
    assert_eq!(s.action, ConnectorAction::Sleep { millis: 2_000 });
    let s = c.step(true, true, ConnectorEvent::Connected);
    assert_eq!(s.status, Some(ConnectionStatus::Connected));
    assert_eq!(s.action, ConnectorAction::RunSession);
    let s = c.step(true, true, ConnectorEvent::SessionEnded { reason: "remote closed".to_string() });
    assert_eq!(s.action, ConnectorAction::Sleep { millis: 1_000 });
}

#[test]
fn connector_stops_when_source_gone() {
    let mut c = Connector::new();
    let s = c.step(true, false, ConnectorEvent::Started);
    assert_eq!(s.status, None);
    assert_eq!(s.action, ConnectorAction::Stop);
    let s = c.step(false, true, ConnectorEvent::SessionEnded { reason: "shutdown".to_string() });
    assert_eq!(s.action, ConnectorAction::Stop);
}

#[test]
fn backoff_is_capped_at_a_minute() {
    let mut c = Connector::new();
    let mut last = 0;
    for _ in 0..10 {
        if let ConnectorAction::Sleep { millis } =
            c.step(true, true, ConnectorEvent::ConnectFailed { error: String::new() }).action
        {
            last = millis;
        }
    }
    assert_eq!(last, 60_000);
}

#[test]
fn session_reasons() {
    assert_eq!(session_step(true, true, None), SessionStep::Disconnect { reason: "stream ended".to_string() });
    assert_eq!(session_step(false, true, Some(Frame::Text)), SessionStep::Disconnect { reason: "shutdown".to_string() });
    assert_eq!(
        session_step(true, false, Some(Frame::Text)),
        SessionStep::Disconnect { reason: "source removed".to_string() }
    );
    assert_eq!(session_step(true, true, Some(Frame::Text)), SessionStep::HandleText);
    assert_eq!(session_step(true, true, Some(Frame::Other)), SessionStep::Continue);
    assert_eq!(
        session_step(true, true, Some(Frame::Close)),
        SessionStep::Disconnect { reason: "remote closed".to_string() }
    );
    assert_eq!(
        session_step(true, true, Some(Frame::ReadError { error: "reset".to_string() })),
        SessionStep::Disconnect { reason: "read error: reset".to_string() }
    );
    assert_eq!(handling_failure_reason("bad"), "message-handling error: bad");
}

#[test]
fn remote_messages_are_classified() {
    assert_eq!(classify_remote_message(Some("state")), Ok(RemoteMessage::StateSnapshot));
    assert_eq!(classify_remote_message(Some("metric_changed")), Ok(RemoteMessage::MetricChanged));
    assert_eq!(classify_remote_message(Some("notes_changed")), Ok(RemoteMessage::RequestFreshState));
    assert_eq!(classify_remote_message(None), Err("message missing `type` field".to_string()));
}

#[test]
fn apply_metric_changed_ignores_out_of_range() {
    assert_eq!(metric_target(1, 0), Some(0));
    assert_eq!(metric_target(0, 0), None);
    assert_eq!(metric_target(1, 99), None);
    assert_eq!(metric_plan(1, 1), MetricPlan::UpdateInPlace);
    assert_eq!(metric_plan(1, 2), MetricPlan::Rebuild);
}

#[test]
fn apply_metric_changed_updates_existing_entry() {
    assert_eq!(metric_target(1, 0), Some(0));
}

#[test]
fn snapshot_replace_preserves_shared_handles_when_shape_matches() {
    assert_eq!(metric_plan(1, 1), MetricPlan::UpdateInPlace);
    assert_eq!(metric_plan(0, 1), MetricPlan::Rebuild);
}
