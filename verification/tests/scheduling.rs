//! Notifications: how a request becomes one, and the queue of those scheduled for later.
use noti::notification::{
    hints_are_readable, Category, HintField, HintValue, Notification, NotificationAction, ScheduledNotification, Timeout,
    Urgency,
};
use noti::scheduler::{local_naive, parse_time, read_schedule, ScheduleForm, Scheduler};

fn notification(id: u32, body: &str) -> Notification {
    Notification::from_request(
        0,
        id,
        "app".to_string(),
        String::new(),
        "summary".to_string(),
        body.to_string(),
        &[],
        &Vec::new(),
        -1,
        0,
    )
}

fn scheduled(id: u32, time: &str) -> ScheduledNotification {
    ScheduledNotification { id, time: time.to_string(), data: notification(id, "") }
}

#[test]
fn requests_become_notifications() {
    let hints = vec![
        ("urgency".to_string(), HintValue::U8(2)),
        ("category".to_string(), HintValue::Str("email.arrived".to_string())),
        ("x".to_string(), HintValue::I32(10)),
        ("y".to_string(), HintValue::I32(20)),
        ("transient".to_string(), HintValue::Bool(true)),
    ];
    let n = Notification::from_request(
        7,
        42,
        "mail".to_string(),
        "mail-icon".to_string(),
        "New mail".to_string(),
        "<b>hello</b>".to_string(),
        &["open", "Open", "dismiss", "Dismiss"],
        &hints,
        5000,
        123,
    );
    assert_eq!(n.id, 7);
    assert_eq!(n.app_name, "mail");
    assert_eq!(n.expire_timeout, Timeout::Millis(5000));
    assert_eq!(n.hints.urgency, Urgency::Critical);
    assert_eq!(n.hints.category, Category::from_name("email.arrived"));
    assert_eq!(n.hints.transient, Some(true));
    assert_eq!(n.hints.coordinates.map(|c| (c.x, c.y)), Some((10, 20)));
    assert_eq!(
        n.actions,
        vec![
            NotificationAction { action_key: "open".to_string(), localized_string: "Open".to_string() },
            NotificationAction { action_key: "dismiss".to_string(), localized_string: "Dismiss".to_string() },
        ]
    );
    assert!(!n.is_read);
    assert_eq!(n.created_at, 123);
    let fresh = notification(9, "text");
    assert_eq!(fresh.id, 9);
    assert_eq!(fresh.expire_timeout, Timeout::Configurable);
    assert_eq!(fresh.hints.urgency, Urgency::Normal);
}

#[test]
fn expire_timeouts() {
    assert_eq!(Timeout::from_expire_timeout(0), Timeout::Never);
    assert_eq!(Timeout::from_expire_timeout(-1), Timeout::Configurable);
    assert_eq!(Timeout::from_expire_timeout(250), Timeout::Millis(250));
}

#[test]
fn urgencies() {
    assert_eq!(Urgency::from_level(0), Urgency::Low);
    assert_eq!(Urgency::from_level(2), Urgency::Critical);
    assert_eq!(Urgency::Critical.level(), 2);
    assert_eq!(Urgency::from_name("low"), Urgency::Low);
    assert_eq!(Urgency::from_hint(&HintValue::U8(1)), Some(Urgency::Normal));
    assert_eq!(Urgency::from_hint(&HintValue::Bool(true)), None);
}

#[test]
fn schedule_strings_are_read_in_order() {
    assert_eq!(read_schedule("5 min"), ScheduleForm::After((300, 0)));
    assert_eq!(read_schedule("2025-01-01 10:30"), ScheduleForm::LocalDateTime((1_735_727_400, 0)));
    assert_eq!(read_schedule("18:45"), ScheduleForm::TimeOfDay((67_500, 0)));
    assert_eq!(read_schedule("06:45 PM"), ScheduleForm::TimeOfDay((67_500, 0)));
    assert_eq!(read_schedule("2025-01-01T00:00:00Z"), ScheduleForm::Instant((1_735_689_600, 0)));
    assert_eq!(read_schedule("whenever"), ScheduleForm::Unreadable);
    assert_eq!(read_schedule("18446744073709551615s 1000ms"), ScheduleForm::Unreadable);
    assert_eq!(parse_time("2025-01-01T00:00:00Z"), Some((1_735_689_600, 0)));
    assert_eq!(parse_time("2025-01-01T02:00:00+02:00"), Some((1_735_689_600, 0)));
    assert_eq!(parse_time("whenever"), None);
    assert!(parse_time("1h").is_some());
}

#[test]
fn queue_hands_out_due_notifications_earliest_first() {
    let mut s = Scheduler::new();
    s.add_at(scheduled(1, "later"), Some((200, 0)));
    s.add_at(scheduled(2, "sooner"), Some((100, 0)));
    s.add_at(scheduled(3, "never"), None);
    s.add_at(scheduled(4, "also later"), Some((200, 0)));
    assert_eq!(s.len(), 3);
    let due = s.pop_due_at((150, 0));
    assert_eq!(due.len(), 1);
    assert_eq!(due[0].id, 2);
    assert_eq!(due[0].time, "1970-01-01T00:01:40+00:00");
    assert_eq!(s.len(), 2);
    assert!(s.pop_due_at((199, 999_999_999)).is_empty());
    let due: Vec<u32> = s.pop_due_at((200, 0)).into_iter().map(|n| n.id).collect();
    assert_eq!(due, vec![1, 4]);
    assert_eq!(s.len(), 0);
}

#[test]
fn schedule_strings_decide_when() {
    let mut s = Scheduler::new();
    s.add(scheduled(1, "2025-01-01T00:00:00Z"));
    s.add(scheduled(2, "whenever"));
    s.add(scheduled(3, "1h"));
    s.add(scheduled(4, "18446744073709551615s 1000ms"));
    assert_eq!(s.len(), 2);
    let due = s.pop_due_notifications();
    assert_eq!(due.len(), 1);
    assert_eq!(due[0].id, 1);
    assert_eq!(due[0].time, "2025-01-01T00:00:00+00:00");
    assert_eq!(s.len(), 1);
}

#[test]
fn image_hints_with_pixels_that_are_not_bytes_cannot_be_read() {
    let header = vec![
        HintField::I32(1),
        HintField::I32(1),
        HintField::I32(3),
        HintField::Bool(false),
        HintField::I32(8),
        HintField::I32(3),
    ];
    let mut good = header.clone();
    good.push(HintField::Bytes(vec![1, 2, 3]));
    let mut bad = header.clone();
    bad.push(HintField::OtherArray);
    assert!(hints_are_readable(&vec![("image-data".to_string(), HintValue::Structure(good))]));
    assert!(!hints_are_readable(&vec![("icon_data".to_string(), HintValue::Structure(bad.clone()))]));
    assert!(hints_are_readable(&vec![("other".to_string(), HintValue::Structure(bad))]));
    assert!(hints_are_readable(&Vec::new()));
}

#[test]
fn local_forms_name_a_local_date_and_time() {
    assert_eq!(local_naive(ScheduleForm::LocalDateTime((1_735_727_400, 5)), 0), Some((1_735_727_400, 5)));
    assert_eq!(local_naive(ScheduleForm::TimeOfDay((67_500, 0)), 864_000), Some((931_500, 0)));
    assert_eq!(local_naive(ScheduleForm::TimeOfDay((10, 0)), i64::MAX), None);
    assert_eq!(local_naive(ScheduleForm::Instant((1, 0)), 0), None);
    if let Some(at) = parse_time("2025-01-01 10:30") {
        assert!(at.0 > 1_735_727_400 - 86_400 && at.0 < 1_735_727_400 + 86_400);
        assert_eq!(at.1, 0);
    }
}
