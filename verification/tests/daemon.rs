//! The decisions of the daemon: actions, signals, configuration reloads, idle tracking and
//! the identifiers that the server hands out.
use noti::actions::{debug_signal, Action, ClosingReason, Signal};
use noti::config::watcher::{
    config_path, needs_events, watch_outcome, ConfigDestination, ConfigPath, ConfigState,
    WatchStep,
};
use noti::daemon::{
    dispatch_action, plan_poll, react_to_config, ConfigReaction, Dispatch, IdleEvent, IdleState,
    IdleTracker, PollPlan,
};
use noti::server::{
    capabilities, close_last_notification, close_notification, server_information,
    NotificationIds,
};

#[test]
fn closing_reasons_have_the_codes_of_the_specification() {
    assert_eq!(u32::from(ClosingReason::Expired), 1);
    assert_eq!(u32::from(ClosingReason::DismissedByUser), 2);
    assert_eq!(u32::from(ClosingReason::CallCloseNotification), 3);
    assert_eq!(u32::from(ClosingReason::Undefined), 4);
}

#[test]
fn signals_print_as_the_daemon_logs_them() {
    let invoked = Signal::ActionInvoked { notification_id: 12, action_key: "open".to_string() };
    assert_eq!(invoked.describe(), "notification_id: 12, action_key: open");
    assert_eq!(debug_signal(&invoked), "Action 'open' was invoked for notification id 12");
    let closed =
        Signal::NotificationClosed { notification_id: 3, reason: ClosingReason::DismissedByUser };
    assert_eq!(closed.describe(), "notification_id: 3, action_key: DismissedByUser");
    assert_eq!(
        debug_signal(&closed),
        "Notification with id 3 closed by DismissedByUser reason"
    );
    let zero = Signal::NotificationClosed { notification_id: 0, reason: ClosingReason::Expired };
    assert_eq!(zero.describe(), "notification_id: 0, action_key: Expired");
}

#[test]
fn signals_of_close_calls_are_not_forwarded() {
    let by_call = Signal::NotificationClosed {
        notification_id: 1,
        reason: ClosingReason::CallCloseNotification,
    };
    assert!(!by_call.is_forwarded());
    let expired = Signal::NotificationClosed { notification_id: 1, reason: ClosingReason::Expired };
    assert!(expired.is_forwarded());
    let invoked = Signal::ActionInvoked { notification_id: 1, action_key: "k".to_string() };
    assert!(invoked.is_forwarded());
}

#[test]
fn actions_become_what_the_backend_does() {
    assert!(matches!(dispatch_action(Action::Close(Some(4))), Dispatch::Close(4)));
    assert!(matches!(dispatch_action(Action::Close(None)), Dispatch::Ignore));
    assert!(matches!(dispatch_action(Action::CloseAll), Dispatch::Ignore));
}

#[test]
fn a_missing_file_reloads_once() {
    let first = react_to_config(ConfigState::NotFound, false);
    assert_eq!(first, ConfigReaction { reload: true, partially_default: true });
    let second = react_to_config(ConfigState::NotFound, first.partially_default);
    assert_eq!(second, ConfigReaction { reload: false, partially_default: true });
    let update = react_to_config(ConfigState::Updated, second.partially_default);
    assert_eq!(update, ConfigReaction { reload: true, partially_default: false });
    let nothing = react_to_config(ConfigState::NothingChanged, true);
    assert_eq!(nothing, ConfigReaction { reload: false, partially_default: true });
}

#[test]
fn polls_while_away_and_after() {
    assert_eq!(
        plan_poll(true, true),
        PollPlan { reset_idle: false, reset_timeouts: false, handle_windows: false }
    );
    assert_eq!(
        plan_poll(false, true),
        PollPlan { reset_idle: true, reset_timeouts: true, handle_windows: true }
    );
    assert_eq!(
        plan_poll(false, false),
        PollPlan { reset_idle: false, reset_timeouts: false, handle_windows: true }
    );
}

#[test]
fn idle_tracker_remembers_that_the_user_was_away() {
    let mut idle = IdleTracker::new(300_000);
    assert!(idle.watching);
    idle.on_event(IdleEvent::Idled);
    assert!(idle.is_idled());
    idle.on_event(IdleEvent::Resumed);
    assert!(!idle.is_idled());
    assert!(idle.was_idled());
    assert_eq!(idle.idle_state, Some(IdleState::Resumed));
    idle.reset_idle_state();
    assert!(!idle.was_idled());
    let rewatch = idle.recreate(0);
    assert!(rewatch.destroy && !rewatch.create);
    assert!(!idle.watching);
    assert_eq!(idle.idle_state, None);
    let none = IdleTracker::new(0);
    assert!(!none.watching);
}

#[test]
fn identifiers_count_up_unless_replaced() {
    let mut ids = NotificationIds::new();
    assert_eq!(ids.assign(0), 1);
    assert_eq!(ids.assign(0), 2);
    assert_eq!(ids.assign(9), 9);
    assert_eq!(ids.next, 3);
    assert_eq!(ids.closed_signal_id(0), 3);
    assert_eq!(ids.closed_signal_id(5), 5);
    let mut last = NotificationIds { next: u32::MAX };
    assert_eq!(last.assign(0), u32::MAX);
    assert_eq!(last.next, 0);
}

#[test]
fn close_requests() {
    let request = close_notification(8);
    assert_eq!((request.signal_id, request.signal_reason), (8, 3));
    assert!(matches!(request.action, Action::Close(Some(8))));
    let last = close_last_notification();
    assert_eq!((last.signal_id, last.signal_reason), (0, 3));
    assert!(matches!(last.action, Action::Close(None)));
}

#[test]
fn capabilities_and_information() {
    let caps = capabilities();
    assert_eq!(caps.len(), 10);
    assert_eq!(caps[0], "action-icons");
    assert_eq!(caps[9], "sound");
    let info = server_information("vendor".to_string(), "1.0".to_string());
    assert_eq!(info, ("noti".to_string(), "vendor".to_string(), "1.0".to_string(), "1.2".to_string()));
}

#[test]
fn states_of_the_configuration_file() {
    assert_eq!(ConfigState::NotFound.more_prioritized(ConfigState::Updated), ConfigState::NotFound);
    assert_eq!(ConfigState::NothingChanged.more_prioritized(ConfigState::Updated), ConfigState::Updated);
    assert_eq!(
        ConfigState::fold(&[ConfigState::Updated, ConfigState::NothingChanged, ConfigState::NotFound]),
        ConfigState::NotFound
    );
    assert_eq!(ConfigState::fold(&[]), ConfigState::NothingChanged);
    assert_eq!(ConfigState::from_event(true, true, false), ConfigState::Updated);
    assert_eq!(ConfigState::from_event(false, false, true), ConfigState::NotFound);
    assert_eq!(ConfigState::from_event(false, false, false), ConfigState::NothingChanged);
}

#[test]
fn outcome_of_a_check() {
    assert_eq!(watch_outcome(None, Some(ConfigDestination::Xdg), ConfigState::Updated), (ConfigState::NotFound, WatchStep::Unwatch));
    assert!(needs_events(Some(ConfigDestination::Xdg), Some(ConfigDestination::Xdg)));
    assert!(!needs_events(Some(ConfigDestination::Home), Some(ConfigDestination::Xdg)));
    assert_eq!(watch_outcome(Some(ConfigDestination::Home), Some(ConfigDestination::Xdg), ConfigState::NothingChanged), (ConfigState::Updated, WatchStep::Rewatch));
    assert_eq!(watch_outcome(Some(ConfigDestination::Xdg), Some(ConfigDestination::Xdg), ConfigState::NotFound), (ConfigState::Updated, WatchStep::Rewatch));
    assert_eq!(watch_outcome(Some(ConfigDestination::Xdg), Some(ConfigDestination::Xdg), ConfigState::NothingChanged), (ConfigState::NothingChanged, WatchStep::Keep));
}

#[test]
fn places_of_the_configuration_file() {
    let user = ConfigPath::new_user_config(Some("/tmp/my.toml")).unwrap();
    assert_eq!(user.path_buf, "/tmp/my.toml");
    let xdg = ConfigPath::new_xdg(Some("/home/u/.config".to_string())).unwrap();
    assert_eq!(xdg.path_buf, "/home/u/.config/noti/config.toml");
    let home = ConfigPath::new_home(Some("/home/u".to_string())).unwrap();
    assert_eq!(home.path_buf, "/home/u/.config/noti/config.toml");
    assert!(ConfigPath::new_home(None).is_none());
    let paths = vec![user, xdg, home];
    assert_eq!(config_path(&paths, Some(ConfigDestination::Xdg)), Some("/home/u/.config/noti/config.toml"));
    assert_eq!(config_path(&paths, None), None);
}
