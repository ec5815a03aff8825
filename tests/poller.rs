use adsync::{idle_pause, Drain, Popped, BATCH_SIZE, IDLE_SLEEP_MS, QUEUE_KEY};

#[test]
fn drain_stops_when_queue_is_empty() {
    let mut d = Drain::new(BATCH_SIZE);
    let mut feed = vec![Popped::Message("a".into()), Popped::Message("b".into()), Popped::Exhausted].into_iter();
    while d.wants_more() {
        d.offer(feed.next().unwrap());
    }
    assert_eq!(d.finish(), vec!["a".to_string(), "b".to_string()]);
}

#[test]
fn drain_stops_at_batch_size() {
    let mut d = Drain::new(3);
    let mut n = 0;
    while d.wants_more() {
        d.offer(Popped::Message(format!("m{n}")));
        n += 1;
    }
    assert_eq!(n, 3);
    assert_eq!(d.finish().len(), 3);
}

#[test]
fn queue_error_ends_the_cycle_without_failing() {
    let mut d = Drain::new(10);
    d.offer(Popped::Message("x".into()));
    d.offer(Popped::Failed);
    assert!(!d.wants_more());
    assert_eq!(d.finish(), vec!["x".to_string()]);
}

#[test]
fn empty_cycle_pauses_one_second() {
    assert_eq!(idle_pause(0), Some(IDLE_SLEEP_MS));
    assert_eq!(IDLE_SLEEP_MS, 1000);
    assert_eq!(idle_pause(1), None);
    assert_eq!(BATCH_SIZE, 1000);
    assert_eq!(QUEUE_KEY, "rule_message_thread_rule_verify");
}
