use simse::dispatch::{Dispatcher, NotifyError, Notification, Received, QUEUE_CAPACITY};

fn note(title: &str) -> Notification {
    Notification { title: title.to_string(), body: "body".to_string() }
}

#[test]
fn send_before_spawn_always_fails() {
    let mut d = Dispatcher::new();
    for i in 0..5 {
        assert_eq!(d.send_notification(note(&format!("n{}", i))), Err(NotifyError::NotifierNotSpawned));
    }
    assert_eq!(d.len(), 0);
    assert!(!d.is_spawned());
}

#[test]
fn second_spawn_fails_and_first_stays() {
    let mut d = Dispatcher::new();
    assert_eq!(d.spawn_notifier(None), Ok(()));
    assert_eq!(d.send_notification(note("a")), Ok(()));
    assert_eq!(d.spawn_notifier(None), Err(NotifyError::AlreadySpawned));
    assert_eq!(d.len(), 1);
    assert_eq!(d.send_notification(note("b")), Ok(()));
    assert_eq!(d.next_notification(), Received::Notification(note("a")));
    assert_eq!(d.next_notification(), Received::Notification(note("b")));
}

#[test]
fn full_queue_times_out_until_drained() {
    let mut d = Dispatcher::new();
    d.spawn_notifier(None).unwrap();
    assert_eq!(QUEUE_CAPACITY, 16);
    for i in 0..16 {
        assert_eq!(d.send_notification(note(&format!("n{}", i))), Ok(()));
    }
    assert_eq!(d.send_notification(note("late")), Err(NotifyError::Timeout));
    assert_eq!(d.next_notification(), Received::Notification(note("n0")));
    assert_eq!(d.send_notification(note("late")), Ok(()));
    assert_eq!(d.len(), 16);
}

#[test]
fn notifications_come_out_in_order_then_closed() {
    let mut d = Dispatcher::new();
    assert_eq!(d.next_notification(), Received::Closed);
    d.spawn_notifier(None).unwrap();
    assert_eq!(d.next_notification(), Received::Empty);
    d.send_notification(note("x")).unwrap();
    d.send_notification(note("y")).unwrap();
    d.close();
    assert_eq!(d.send_notification(note("z")), Err(NotifyError::QueueClosed));
    assert_eq!(d.next_notification(), Received::Notification(note("x")));
    assert_eq!(d.next_notification(), Received::Notification(note("y")));
    assert_eq!(d.next_notification(), Received::Closed);
}
