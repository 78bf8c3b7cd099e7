use dmnote_editor_engine::preview_broker::PreviewBroker;

fn session(n: u32) -> String {
    format!("{n:08x}-0000-4000-8000-000000000000")
}

fn sorted(mut labels: Vec<String>) -> Vec<String> {
    labels.sort();
    labels
}

#[test]
fn windows_register_with_increasing_numbers_and_hear_each_other() {
    let mut broker = PreviewBroker::new();
    let a = broker.subscribe("main").unwrap();
    assert_eq!(a.generation, 1);
    assert_eq!(a.recipients, vec!["main".to_string()]);
    assert!(a.cancellations.is_empty());
    let b = broker.subscribe("overlay").unwrap();
    assert_eq!(b.generation, 2);
    assert_eq!(sorted(b.recipients), vec!["main".to_string(), "overlay".to_string()]);
    let to = broker.publish_after_admission("main", &session(1), 1).unwrap();
    assert_eq!(to, vec!["overlay".to_string()]);
}

#[test]
fn publications_follow_ownership_and_sequence_rules() {
    let mut broker = PreviewBroker::new();
    assert_eq!(
        broker.publish_after_admission("main", &session(1), 1).unwrap_err(),
        "preview publisher is not subscribed"
    );
    broker.subscribe("main").unwrap();
    broker.subscribe("overlay").unwrap();
    broker.publish_after_admission("main", &session(1), 5).unwrap();
    assert_eq!(
        broker.publish_after_admission("main", &session(1), 5).unwrap_err(),
        "preview sequence must increase monotonically"
    );
    assert!(broker.publish_after_admission("main", &session(1), 6).is_ok());
    assert_eq!(
        broker.publish_after_admission("overlay", &session(1), 7).unwrap_err(),
        "preview session is owned by another window"
    );
    let again = broker.subscribe("main").unwrap();
    assert_eq!(again.generation, 3);
    assert_eq!(again.cancellations.len(), 1);
    assert_eq!(again.cancellations[0].session_id, session(1));
    assert_eq!(again.cancellations[0].seq, 7);
    assert_eq!(again.cancellations[0].source_label, "main");
    assert_eq!(
        broker.publish_after_admission("main", &session(1), 8).unwrap_err(),
        "preview session has already ended"
    );
}

#[test]
fn cancelling_ends_a_session_for_good() {
    let mut broker = PreviewBroker::new();
    broker.subscribe("main").unwrap();
    broker.subscribe("overlay").unwrap();
    assert_eq!(broker.cancel("main", "not-a-uuid").unwrap_err(), "preview sessionId must be a UUID");
    assert_eq!(broker.cancel("ghost", &session(2)).unwrap_err(), "preview canceller is not subscribed");
    broker.publish_after_admission("main", &session(2), 3).unwrap();
    assert_eq!(
        broker.cancel("overlay", &session(2)).unwrap_err(),
        "preview session is owned by another window"
    );
    let (to, notice) = broker.cancel("main", &session(2)).unwrap();
    assert_eq!(to, vec!["overlay".to_string()]);
    assert_eq!(notice.seq, 4);
    assert!(broker.has_ended(&session(2)));
    assert_eq!(broker.cancel("main", &session(2)).unwrap_err(), "preview session has already ended");
    let (to, notice) = broker.cancel("overlay", &session(3)).unwrap();
    assert_eq!(to, vec!["main".to_string()]);
    assert_eq!(notice.seq, 1);
    assert_eq!(notice.source_label, "overlay");
}

#[test]
fn committed_sessions_finish_once() {
    let mut broker = PreviewBroker::new();
    broker.subscribe("main").unwrap();
    broker.subscribe("overlay").unwrap();
    broker.publish_after_admission("main", &session(4), 1).unwrap();
    assert_eq!(broker.finish_committed_session("main", "nope", true).unwrap().0, false);
    assert_eq!(
        broker.finish_committed_session("overlay", &session(4), true).unwrap_err(),
        "preview session is owned by another window"
    );
    let (done, to, notice) = broker.finish_committed_session("main", &session(4), true).unwrap();
    assert!(done);
    assert_eq!(to, vec!["overlay".to_string()]);
    assert_eq!(notice.unwrap().seq, 2);
    let (done, to, notice) = broker.finish_committed_session("main", &session(4), true).unwrap();
    assert!(!done && to.is_empty() && notice.is_none());
    let (done, to, notice) = broker.finish_committed_session("main", &session(5), false).unwrap();
    assert!(done && to.is_empty() && notice.is_none());
    assert!(broker.has_ended(&session(5)));
}

#[test]
fn removing_a_window_or_cancelling_all_ends_sessions() {
    let mut broker = PreviewBroker::new();
    broker.subscribe("main").unwrap();
    broker.subscribe("overlay").unwrap();
    broker.publish_after_admission("main", &session(6), 1).unwrap();
    broker.publish_after_admission("overlay", &session(7), 1).unwrap();
    broker.publish_after_admission("overlay", &session(8), 1).unwrap();
    let (to, cancelled) = broker.remove_label("overlay");
    assert_eq!(to, vec!["main".to_string()]);
    assert_eq!(cancelled.len(), 2);
    assert_eq!(
        broker.publish_after_admission("overlay", &session(9), 1).unwrap_err(),
        "preview publisher is not subscribed"
    );
    let (to, cancelled) = broker.cancel_all();
    assert_eq!(to, vec!["main".to_string()]);
    assert_eq!(cancelled.len(), 1);
    assert_eq!(cancelled[0].session_id, session(6));
    assert!(broker.cancel_all().1.is_empty());
}

#[test]
fn open_sessions_and_ended_sessions_are_bounded() {
    let mut broker = PreviewBroker::new();
    broker.subscribe("main").unwrap();
    for n in 0..1024 {
        broker.publish_after_admission("main", &session(n), 1).unwrap();
    }
    assert_eq!(
        broker.publish_after_admission("main", &session(5000), 1).unwrap_err(),
        "active preview session count exceeds 1024"
    );
    assert_eq!(broker.cancel_all().1.len(), 1024);
    assert!(broker.has_ended(&session(0)));
    broker.cancel("main", &session(5000)).unwrap();
    assert!(!broker.has_ended(&session(0)));
    assert!(broker.has_ended(&session(1)));
    assert!(broker.publish_after_admission("main", &session(0), 2).is_ok());
}
