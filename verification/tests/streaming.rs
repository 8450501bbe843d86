use notedeck::error::NoteDeckError;
use notedeck::streaming::{
    after_send_failure, connect_frame_text, disconnect_frame_text, route_frame, session_step,
    status_event, wait_event, ConnectPlan, SessionAction, SessionEvent, StreamDispatch,
    StreamStatusEvent, StreamingManager, Subscription, SubscriptionKind, SupervisorAction,
    SupervisorEvent, SupervisorState, WsCommand, WsExitReason, KEEPALIVE_SECS, MAX_BACKOFF_SECS,
};
use notedeck::timeline::TimelineType;
use serde_json::Value;

fn json(text: &str) -> Value {
    serde_json::from_str(text).unwrap()
}

fn home() -> TimelineType {
    TimelineType::new("home".to_string())
}

fn connected(account: &str, host: &str) -> StreamingManager {
    let mut m = StreamingManager::new();
    m.register_connection(account, host);
    m
}

fn subscribe(channel: &str, id: &str) -> WsCommand {
    WsCommand::Subscribe { channel: channel.to_string(), id: id.to_string() }
}

#[test]
fn reconnect_replay_scenario() {
    let mut m = StreamingManager::new();
    assert_eq!(
        m.connect("A", "h.example", "tok1"),
        ConnectPlan::Open { url: "wss://h.example/streaming?i=tok1".to_string() }
    );
    let status = m.register_connection("A", "h.example");
    assert_eq!(
        status,
        StreamStatusEvent { account_id: "A".to_string(), state: "connected".to_string() }
    );
    assert_eq!(
        m.subscribe_timeline_with_id("A", &home(), "S1"),
        Ok(subscribe("homeTimeline", "S1"))
    );

    // the socket closes: the supervisor waits one second and reconnects
    let state = SupervisorState::start();
    let (state, action) = state.step(SupervisorEvent::SessionEnded(WsExitReason::Disconnected));
    assert_eq!(action, SupervisorAction::AnnounceAndWait { secs: 1 });
    let (state, action) = state.step(SupervisorEvent::BackoffElapsed);
    assert_eq!(action, SupervisorAction::Reconnect);
    let (state, action) = state.step(SupervisorEvent::Reconnected);
    assert_eq!(action, SupervisorAction::AnnounceAndRun);
    assert_eq!(state, SupervisorState::Running);

    // the new session replays exactly one frame
    let replay = m.replay("A");
    assert_eq!(replay, vec![subscribe("homeTimeline", "S1")]);
    let frames: Vec<Value> = replay
        .into_iter()
        .map(|cmd| match session_step(SessionEvent::Command(cmd)) {
            SessionAction::SendText { text } => json(&text),
            other => panic!("{:?}", other),
        })
        .collect();
    assert_eq!(
        frames,
        vec![json(r#"{"type":"connect","body":{"channel":"homeTimeline","id":"S1"}}"#)]
    );
}

#[test]
fn connect_is_idempotent() {
    let mut m = connected("A", "h.example");
    assert_eq!(m.connect("A", "other.example", "tok"), ConnectPlan::AlreadyConnected);
    m.register_connection("A", "other.example");
    assert_eq!(m.get_host("A"), Ok("h.example".to_string()));
    assert!(m.is_connected("A"));
    assert!(!m.is_connected("B"));
}

#[test]
fn subscribing_needs_a_connection() {
    let mut m = StreamingManager::new();
    assert_eq!(
        m.subscribe_timeline_with_id("A", &home(), "S1"),
        Err(NoteDeckError::NoConnection("A".to_string()))
    );
    assert_eq!(
        m.subscribe_main_with_id("A", "S2"),
        Err(NoteDeckError::NoConnection("A".to_string()))
    );
    assert_eq!(m.subscribe_main("A"), Err(NoteDeckError::NoConnection("A".to_string())));
    assert_eq!(m.unsubscribe("A", "S1"), Err(NoteDeckError::NoConnection("A".to_string())));
    assert_eq!(m.get_host("A"), Err(NoteDeckError::NoConnection("A".to_string())));
    assert!(m.replay("A").is_empty());
}

#[test]
fn unknown_timeline_is_refused_before_the_connection_is_looked_up() {
    let mut m = StreamingManager::new();
    let bogus = TimelineType::new("bogus".to_string());
    assert_eq!(
        m.subscribe_timeline_with_id("A", &bogus, "S1"),
        Err(NoteDeckError::InvalidInput("Unknown timeline type: bogus".to_string()))
    );
    let mut m = connected("A", "h.example");
    assert_eq!(
        m.subscribe_timeline("A", &bogus),
        Err(NoteDeckError::InvalidInput("Unknown timeline type: bogus".to_string()))
    );
    assert!(m.replay("A").is_empty());
}

#[test]
fn channels_of_the_four_timelines() {
    let mut m = connected("A", "h.example");
    for (name, channel) in [
        ("home", "homeTimeline"),
        ("local", "localTimeline"),
        ("social", "hybridTimeline"),
        ("global", "globalTimeline"),
    ] {
        let t = TimelineType::new(name.to_string());
        assert_eq!(m.subscribe_timeline_with_id("A", &t, name), Ok(subscribe(channel, name)));
    }
    assert_eq!(m.subscribe_main_with_id("A", "m"), Ok(subscribe("main", "m")));
    assert_eq!(
        m.replay("A"),
        vec![
            subscribe("homeTimeline", "home"),
            subscribe("localTimeline", "local"),
            subscribe("hybridTimeline", "social"),
            subscribe("globalTimeline", "global"),
            subscribe("main", "m"),
        ]
    );
}

#[test]
fn fresh_subscription_ids_differ() {
    let mut m = connected("A", "h.example");
    let (first, cmd) = m.subscribe_timeline("A", &home()).unwrap();
    assert_eq!(cmd, subscribe("homeTimeline", &first));
    let (second, cmd) = m.subscribe_main("A").unwrap();
    assert_eq!(cmd, subscribe("main", &second));
    assert_ne!(first, second);
    assert_eq!(first.len(), 36);
    assert_eq!(m.replay("A").len(), 2);
}

#[test]
fn unsubscribe_removes_the_subscription() {
    let mut m = connected("A", "h.example");
    m.subscribe_timeline_with_id("A", &home(), "S1").unwrap();
    m.subscribe_main_with_id("A", "S2").unwrap();
    assert_eq!(m.unsubscribe("A", "S1"), Ok(WsCommand::Unsubscribe { id: "S1".to_string() }));
    assert_eq!(m.replay("A"), vec![subscribe("main", "S2")]);
    // an id that is not subscribed is passed on all the same
    assert_eq!(m.unsubscribe("A", "zzz"), Ok(WsCommand::Unsubscribe { id: "zzz".to_string() }));
    assert_eq!(m.replay("A"), vec![subscribe("main", "S2")]);
}

#[test]
fn subscribing_under_a_used_id_replaces_the_subscription() {
    let mut m = connected("A", "h.example");
    m.subscribe_timeline_with_id("A", &home(), "S1").unwrap();
    m.subscribe_main_with_id("A", "S2").unwrap();
    m.subscribe_main_with_id("A", "S1").unwrap();
    assert_eq!(m.replay("A"), vec![subscribe("main", "S2"), subscribe("main", "S1")]);
}

#[test]
fn disconnect_drops_the_subscriptions_of_the_account_only() {
    let mut m = connected("A", "a.example");
    m.register_connection("B", "b.example");
    m.subscribe_timeline_with_id("A", &home(), "S1").unwrap();
    m.subscribe_main_with_id("B", "S2").unwrap();
    m.subscribe_main_with_id("A", "S3").unwrap();
    let (had, status) = m.disconnect("A");
    assert!(had);
    assert_eq!(
        status,
        StreamStatusEvent { account_id: "A".to_string(), state: "disconnected".to_string() }
    );
    assert!(!m.is_connected("A"));
    assert!(m.is_connected("B"));
    assert!(m.replay("A").is_empty());
    assert_eq!(m.replay("B"), vec![subscribe("main", "S2")]);
    assert_eq!(m.dispatch(&json(r#"{"type":"channel","body":{"id":"S1","type":"note","body":{}}}"#)), StreamDispatch::Ignore);

    let (had, status) = m.disconnect("A");
    assert!(!had);
    assert_eq!(status.state, "disconnected");
}

fn two_subscriptions() -> StreamingManager {
    let mut m = connected("A", "h.example");
    m.subscribe_timeline_with_id("A", &home(), "T").unwrap();
    m.subscribe_main_with_id("A", "M").unwrap();
    m
}

#[test]
fn timeline_note_is_dispatched_with_the_host() {
    let m = two_subscriptions();
    let frame = r#"{"type":"channel","body":{"id":"T","type":"note","body":{"id":"n1","text":"hi"}}}"#;
    let d = m.handle_ws_message(frame);
    assert_eq!(
        d,
        StreamDispatch::Note {
            subscription_id: "T".to_string(),
            host: "h.example".to_string(),
            body: json(r#"{"id":"n1","text":"hi"}"#),
        }
    );
    assert_eq!(d.event_name(), Some("stream-note"));
}

#[test]
fn note_update_is_dispatched_with_its_parts() {
    let m = two_subscriptions();
    let frame = r#"{"type":"channel","body":{"id":"T","type":"noteUpdated","body":{"id":"n1","type":"reacted","body":{"reaction":"👍"}}}}"#;
    let d = m.handle_ws_message(frame);
    assert_eq!(
        d,
        StreamDispatch::NoteUpdated {
            subscription_id: "T".to_string(),
            note_id: "n1".to_string(),
            update_type: "reacted".to_string(),
            body: json(r#"{"reaction":"👍"}"#),
        }
    );
    assert_eq!(d.event_name(), Some("stream-note-updated"));
}

#[test]
fn note_update_without_parts_has_empty_parts() {
    let m = two_subscriptions();
    let frame = r#"{"type":"channel","body":{"id":"T","type":"noteUpdated","body":{"id":7}}}"#;
    assert_eq!(
        m.handle_ws_message(frame),
        StreamDispatch::NoteUpdated {
            subscription_id: "T".to_string(),
            note_id: String::new(),
            update_type: String::new(),
            body: Value::Null,
        }
    );
}

#[test]
fn notification_and_other_main_events() {
    let m = two_subscriptions();
    let d = m.handle_ws_message(
        r#"{"type":"channel","body":{"id":"M","type":"notification","body":{"id":"x"}}}"#,
    );
    assert_eq!(
        d,
        StreamDispatch::Notification {
            subscription_id: "M".to_string(),
            host: "h.example".to_string(),
            body: json(r#"{"id":"x"}"#),
        }
    );
    assert_eq!(d.event_name(), Some("stream-notification"));
    let d = m.handle_ws_message(
        r#"{"type":"channel","body":{"id":"M","type":"unreadNotification","body":[1,2]}}"#,
    );
    assert_eq!(
        d,
        StreamDispatch::MainEvent {
            subscription_id: "M".to_string(),
            event_type: "unreadNotification".to_string(),
            body: json("[1,2]"),
        }
    );
    assert_eq!(d.event_name(), Some("stream-main-event"));
    // on the main channel a note is an event like any other
    let d = m.handle_ws_message(r#"{"type":"channel","body":{"id":"M","type":"note","body":null}}"#);
    assert_eq!(
        d,
        StreamDispatch::MainEvent {
            subscription_id: "M".to_string(),
            event_type: "note".to_string(),
            body: Value::Null,
        }
    );
}

#[test]
fn frames_that_ask_for_nothing() {
    let m = two_subscriptions();
    for frame in [
        "not json",
        "",
        "[]",
        "null",
        r#"{"type":"connected","body":{"id":"T","type":"note","body":{}}}"#,
        r#"{"type":7,"body":{"id":"T","type":"note","body":{}}}"#,
        r#"{"body":{"id":"T","type":"note","body":{}}}"#,
        r#"{"type":"channel"}"#,
        r#"{"type":"channel","body":"x"}"#,
        r#"{"type":"channel","body":{"type":"note","body":{}}}"#,
        r#"{"type":"channel","body":{"id":1,"type":"note","body":{}}}"#,
        r#"{"type":"channel","body":{"id":"T","body":{}}}"#,
        r#"{"type":"channel","body":{"id":"T","type":"note"}}"#,
        r#"{"type":"channel","body":{"id":"unknown","type":"note","body":{}}}"#,
        r#"{"type":"channel","body":{"id":"T","type":"mention","body":{}}}"#,
        r#"{"type":"channel","body":{"id":"T","type":"notification","body":{}}}"#,
    ] {
        let d = m.handle_ws_message(frame);
        assert_eq!(d, StreamDispatch::Ignore, "{}", frame);
        assert_eq!(d.event_name(), None);
    }
}

#[test]
fn routing_by_kind_of_subscription() {
    let sub = Subscription {
        id: "S".to_string(),
        account_id: "A".to_string(),
        host: "h.example".to_string(),
        kind: SubscriptionKind::Timeline,
        channel: "homeTimeline".to_string(),
    };
    assert_eq!(route_frame(&sub, "other", &json("{}")), StreamDispatch::Ignore);
    assert_eq!(sub.duplicate(), sub);
    let main = Subscription { kind: SubscriptionKind::Main, ..sub.duplicate() };
    assert_eq!(
        route_frame(&main, "other", &json("1")),
        StreamDispatch::MainEvent {
            subscription_id: "S".to_string(),
            event_type: "other".to_string(),
            body: json("1"),
        }
    );
}

#[test]
fn frame_texts_are_the_protocol_frames() {
    assert_eq!(
        json(&connect_frame_text("homeTimeline", "S1")),
        json(r#"{"type":"connect","body":{"channel":"homeTimeline","id":"S1"}}"#)
    );
    assert_eq!(
        json(&disconnect_frame_text("S1")),
        json(r#"{"type":"disconnect","body":{"id":"S1"}}"#)
    );
    assert_eq!(
        json(&connect_frame_text("a\"b", "x\\y")),
        json(r#"{"type":"connect","body":{"channel":"a\"b","id":"x\\y"}}"#)
    );
}

#[test]
fn session_steps() {
    assert_eq!(
        session_step(SessionEvent::Text("hello".to_string())),
        SessionAction::Handle { text: "hello".to_string() }
    );
    assert_eq!(
        session_step(SessionEvent::Ping(vec![1, 2, 3])),
        SessionAction::SendPong { payload: vec![1, 2, 3] }
    );
    assert_eq!(session_step(SessionEvent::Closed), SessionAction::ExitDisconnected);
    assert_eq!(session_step(SessionEvent::OtherFrame), SessionAction::Continue);
    assert_eq!(session_step(SessionEvent::KeepaliveDue), SessionAction::SendPing);
    assert_eq!(session_step(SessionEvent::CommandsClosed), SessionAction::CloseAndExit);
    assert_eq!(
        session_step(SessionEvent::Command(WsCommand::Shutdown)),
        SessionAction::CloseAndExit
    );
    match session_step(SessionEvent::Command(WsCommand::Unsubscribe { id: "S".to_string() })) {
        SessionAction::SendText { text } => {
            assert_eq!(json(&text), json(r#"{"type":"disconnect","body":{"id":"S"}}"#))
        }
        other => panic!("{:?}", other),
    }
    assert_eq!(KEEPALIVE_SECS, 30);
}

#[test]
fn failed_sends() {
    assert_eq!(
        after_send_failure(&SessionAction::SendPong { payload: vec![] }),
        Some(WsExitReason::Disconnected)
    );
    assert_eq!(after_send_failure(&SessionAction::SendPing), Some(WsExitReason::Disconnected));
    assert_eq!(after_send_failure(&SessionAction::SendText { text: "{}".to_string() }), None);
    assert_eq!(after_send_failure(&SessionAction::Continue), None);
}

#[test]
fn backoff_doubles_up_to_thirty_seconds_and_resets() {
    let mut state = SupervisorState::start();
    let (s, _) = state.step(SupervisorEvent::SessionEnded(WsExitReason::Disconnected));
    state = s;
    let mut waits = vec![];
    for _ in 0..8 {
        let (s, a) = state.step(SupervisorEvent::BackoffElapsed);
        assert_eq!(a, SupervisorAction::Reconnect);
        let (s, a) = s.step(SupervisorEvent::ReconnectFailed);
        match a {
            SupervisorAction::AnnounceAndWait { secs } => waits.push(secs),
            other => panic!("{:?}", other),
        }
        state = s;
    }
    assert_eq!(waits, vec![2, 4, 8, 16, 30, 30, 30, 30]);
    assert_eq!(MAX_BACKOFF_SECS, 30);
    let (s, _) = state.step(SupervisorEvent::BackoffElapsed);
    let (s, a) = s.step(SupervisorEvent::Reconnected);
    assert_eq!((s, a), (SupervisorState::Running, SupervisorAction::AnnounceAndRun));
    let (s, a) = s.step(SupervisorEvent::SessionEnded(WsExitReason::Disconnected));
    assert_eq!(s, SupervisorState::Waiting { backoff_secs: 1 });
    assert_eq!(a, SupervisorAction::AnnounceAndWait { secs: 1 });
}

#[test]
fn supervisor_stops_on_shutdown() {
    let (s, a) =
        SupervisorState::Running.step(SupervisorEvent::SessionEnded(WsExitReason::Shutdown));
    assert_eq!((s, a), (SupervisorState::Stopped, SupervisorAction::Stop));
    let waiting = SupervisorState::Waiting { backoff_secs: 4 };
    assert_eq!(
        waiting.step(SupervisorEvent::ShutdownRequested),
        (SupervisorState::Stopped, SupervisorAction::Stop)
    );
    assert_eq!(
        waiting.step(SupervisorEvent::SubscriptionCommand),
        (waiting, SupervisorAction::Nothing)
    );
    assert_eq!(
        SupervisorState::Stopped.step(SupervisorEvent::Reconnected),
        (SupervisorState::Stopped, SupervisorAction::Nothing)
    );
    assert_eq!(
        SupervisorState::Running.step(SupervisorEvent::BackoffElapsed),
        (SupervisorState::Running, SupervisorAction::Nothing)
    );
}

#[test]
fn commands_that_arrive_during_the_wait() {
    assert_eq!(wait_event(Some(&WsCommand::Shutdown)), SupervisorEvent::ShutdownRequested);
    assert_eq!(wait_event(None), SupervisorEvent::ShutdownRequested);
    assert_eq!(wait_event(Some(&subscribe("main", "S"))), SupervisorEvent::SubscriptionCommand);
    assert_eq!(
        wait_event(Some(&WsCommand::Unsubscribe { id: "S".to_string() })),
        SupervisorEvent::SubscriptionCommand
    );
}

#[test]
fn status_events() {
    assert_eq!(
        status_event("A", "reconnecting"),
        StreamStatusEvent { account_id: "A".to_string(), state: "reconnecting".to_string() }
    );
}
