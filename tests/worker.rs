use webhook_worker::machine::{
    backoff_delay_ms, received, Worker, WorkerAction, WorkerEvent, WorkerState, MAX_RETRIES,
};
use webhook_worker::message::{EncodeError, Payload, WorkerMessage};
use webhook_worker::shutdown::{shutdown_outcome, ShutdownError};

fn data(url: &str, body: &str) -> WorkerMessage {
    let value: serde_json::Value = serde_json::from_str(body).unwrap();
    WorkerMessage::Data(Payload::new(url.to_string(), value))
}

fn post_count(actions: &[WorkerAction]) -> usize {
    actions.iter().filter(|a| matches!(a, WorkerAction::Post { .. })).count()
}

#[test]
fn single_message_then_shutdown() {
    let mut w = Worker::new();
    let mut actions = Vec::new();
    let a = w.step(received(Some(data("http://x/hook", r#"{"text":"a"}"#))));
    assert_eq!(
        a,
        WorkerAction::Post {
            url: "http://x/hook".to_string(),
            body: r#"{"text":"a"}"#.to_string(),
            attempt: 0
        }
    );
    actions.push(a);
    actions.push(w.step(WorkerEvent::Responded));
    assert_eq!(actions[1], WorkerAction::Receive);
    actions.push(w.step(received(Some(WorkerMessage::Shutdown))));
    assert_eq!(actions[2], WorkerAction::Exit);
    assert_eq!(post_count(&actions), 1);
    assert!(w.is_terminated());
    assert_eq!(shutdown_outcome(true, true), Ok(()));
}

#[test]
fn unreachable_endpoint_is_dropped_after_all_attempts() {
    let mut w = Worker::new();
    let mut posts = 1usize;
    let mut sleeps = Vec::new();
    let first = w.step(received(Some(data("http://unreachable/", r#"{"n":1}"#))));
    assert!(matches!(first, WorkerAction::Post { attempt: 0, .. }));
    let mut last = first;
    for _ in 0..MAX_RETRIES {
        match w.step(WorkerEvent::TransportFailed) {
            WorkerAction::Sleep { ms } => sleeps.push(ms),
            other => panic!("expected a sleep, got {:?}", other),
        }
        last = w.step(WorkerEvent::Slept);
        if matches!(last, WorkerAction::Post { .. }) {
            posts += 1;
        }
    }
    assert_eq!(posts, 10);
    assert_eq!(
        last,
        WorkerAction::ReportDropped { url: "http://unreachable/".to_string() }
    );
    assert_eq!(
        sleeps,
        vec![100, 200, 400, 800, 1600, 3200, 6400, 12800, 25600, 51200]
    );
    assert_eq!(sleeps.iter().sum::<u64>(), 102300);
    assert_eq!(w.state(), &WorkerState::Running);
}

#[test]
fn answer_on_third_attempt_makes_three_attempts() {
    let mut w = Worker::new();
    let mut actions = vec![w.step(received(Some(data("http://x/hook", "[1,2]"))))];
    for _ in 0..2 {
        actions.push(w.step(WorkerEvent::TransportFailed));
        actions.push(w.step(WorkerEvent::Slept));
    }
    actions.push(w.step(WorkerEvent::Responded));
    assert_eq!(post_count(&actions), 3);
    assert!(matches!(actions[4], WorkerAction::Post { attempt: 2, .. }));
    assert_eq!(actions.last(), Some(&WorkerAction::Receive));
    assert_eq!(w.state(), &WorkerState::Running);
}

#[test]
fn error_status_counts_as_delivered() {
    let mut w = Worker::new();
    w.step(received(Some(data("http://x/hook", "{}"))));
    assert_eq!(w.step(WorkerEvent::Responded), WorkerAction::Receive);
    assert_eq!(w.state(), &WorkerState::Running);
}

#[test]
fn messages_before_shutdown_are_attempted_in_order() {
    let mut w = Worker::new();
    let mut posted = Vec::new();
    for url in ["http://a/", "http://b/"] {
        match w.step(received(Some(data(url, "1")))) {
            WorkerAction::Post { url, .. } => posted.push(url),
            other => panic!("expected a post, got {:?}", other),
        }
        assert_eq!(w.step(WorkerEvent::Responded), WorkerAction::Receive);
    }
    assert_eq!(w.step(received(Some(WorkerMessage::Shutdown))), WorkerAction::Exit);
    assert_eq!(w.step(received(Some(data("http://c/", "1")))), WorkerAction::Exit);
    assert_eq!(posted, vec!["http://a/".to_string(), "http://b/".to_string()]);
}

#[test]
fn stopped_worker_answers_everything_with_exit() {
    let mut w = Worker::new();
    assert_eq!(w.step(received(Some(WorkerMessage::Shutdown))), WorkerAction::Exit);
    assert_eq!(w.step(WorkerEvent::Responded), WorkerAction::Exit);
    assert_eq!(w.step(WorkerEvent::TransportFailed), WorkerAction::Exit);
    assert_eq!(w.step(received(Some(data("http://x/", "2")))), WorkerAction::Exit);
    assert_eq!(w.step(received(None)), WorkerAction::Exit);
    assert!(w.is_terminated());
}

#[test]
fn closed_queue_stops_the_worker() {
    let mut w = Worker::new();
    assert_eq!(received(None), WorkerEvent::Closed);
    assert_eq!(w.step(received(None)), WorkerAction::Exit);
    assert!(w.is_terminated());
}

#[test]
fn wire_body_parses_back_to_the_payload() {
    let body = r#"{"text":"a","embeds":[{"title":"t","n":3,"ok":true,"none":null}]}"#;
    let expected: serde_json::Value = serde_json::from_str(body).unwrap();
    match received(Some(data("https://h/api/webhooks/1/tok", body))) {
        WorkerEvent::Data { url, wire } => {
            assert_eq!(url, "https://h/api/webhooks/1/tok");
            let wire = wire.unwrap();
            let parsed: serde_json::Value = serde_json::from_str(&wire).unwrap();
            assert_eq!(parsed, expected);
        }
        other => panic!("expected a data event, got {:?}", other),
    }
}

#[test]
fn wire_body_is_json_text_not_the_value_debug_form() {
    let p = Payload::new("http://x/".to_string(), serde_json::Value::String("q\"".to_string()));
    assert_eq!(p.wire_body(), Ok("\"q\\\"\"".to_string()));
    assert_eq!(p.webhook_url(), "http://x/");
    assert_eq!(p.body(), &serde_json::Value::String("q\"".to_string()));
}

#[test]
fn encoding_failure_aborts() {
    let mut w = Worker::new();
    let e = WorkerEvent::Data { url: "http://x/".to_string(), wire: Err(EncodeError) };
    assert_eq!(w.step(e), WorkerAction::Abort);
    assert!(w.is_terminated());
}

#[test]
fn backoff_delays() {
    assert_eq!(backoff_delay_ms(0), 100);
    assert_eq!(backoff_delay_ms(1), 200);
    assert_eq!(backoff_delay_ms(9), 51200);
}

#[test]
fn unexpected_events_repeat_the_pending_action() {
    let mut w = Worker::new();
    assert_eq!(w.step(WorkerEvent::Slept), WorkerAction::Receive);
    w.step(received(Some(data("http://x/", "3"))));
    assert!(matches!(w.step(WorkerEvent::Slept), WorkerAction::Post { attempt: 0, .. }));
    assert_eq!(w.step(WorkerEvent::TransportFailed), WorkerAction::Sleep { ms: 100 });
    assert_eq!(w.step(WorkerEvent::Responded), WorkerAction::Sleep { ms: 100 });
    assert!(matches!(w.step(WorkerEvent::Slept), WorkerAction::Post { attempt: 1, .. }));
}

#[test]
fn shutdown_errors_are_reported() {
    assert_eq!(shutdown_outcome(false, true), Err(ShutdownError::WorkerGone));
    assert_eq!(shutdown_outcome(false, false), Err(ShutdownError::WorkerGone));
    assert_eq!(shutdown_outcome(true, false), Err(ShutdownError::WorkerFailed));
}

#[test]
fn every_attempt_posts_the_json_text_of_the_body() {
    let body = r#"{"text":"retry me","n":[1,2,3]}"#;
    let expected: serde_json::Value = serde_json::from_str(body).unwrap();
    let mut w = Worker::new();
    let mut bodies = Vec::new();
    let mut a = w.step(received(Some(data("http://x/hook", body))));
    for _ in 0..3 {
        match a {
            WorkerAction::Post { url, body, .. } => {
                assert_eq!(url, "http://x/hook");
                bodies.push(body);
            }
            other => panic!("expected a post, got {:?}", other),
        }
        w.step(WorkerEvent::TransportFailed);
        a = w.step(WorkerEvent::Slept);
    }
    assert_eq!(bodies.len(), 3);
    for b in &bodies {
        assert_eq!(b, &bodies[0]);
        let parsed: serde_json::Value = serde_json::from_str(b).unwrap();
        assert_eq!(parsed, expected);
    }
}
