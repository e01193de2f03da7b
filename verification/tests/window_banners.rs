//! The banners of the window: adding, replacing, closing and taking out banners, and the
//! queue of notifications around them.
use noti::actions::{ClosingReason, Signal};
use noti::banner_stack::{BannerEvent, BannerStack};
use noti::banners::BannerPhase;
use noti::config::display::{Timeout, TomlDisplayConfig};
use noti::config::general::TomlGeneralConfig;
use noti::config::{Config, TomlConfig};
use noti::manager::WindowManager;
use noti::notification::Notification;

fn notification(id: u32, summary: &str, created_at: u64) -> Notification {
    Notification::from_request(
        0,
        id,
        "app".to_string(),
        String::new(),
        summary.to_string(),
        String::new(),
        &[],
        &Vec::new(),
        -1,
        created_at,
    )
}

fn config(limit: u8, timeout: u16) -> Config {
    let mut toml = TomlConfig::new();
    let mut general = TomlGeneralConfig::new();
    general.limit = Some(limit);
    toml.general = Some(general);
    let mut display = TomlDisplayConfig::new();
    display.timeout = Some(Timeout::new(timeout));
    toml.display = Some(display);
    Config::from_toml(toml)
}

fn summaries(stack: &BannerStack) -> Vec<String> {
    stack.banners().iter().map(|b| b.notification.summary.clone()).collect()
}

#[test]
fn banners_are_sorted_and_replaced_in_place() {
    let config = config(0, 0);
    let mut stack = BannerStack::new();
    assert!(stack.is_empty());
    stack.extend_from(vec![notification(1, "one", 5), notification(2, "two", 3)], &config, 0);
    assert_eq!(stack.ids(), vec![2, 1]);
    assert_eq!(stack.width(), 300);
    assert_eq!(stack.total_height(), 300);
    assert_eq!(stack.total_height_with_gap(10), 310);
    stack.extend_from(vec![notification(1, "one again", 5)], &config, 0);
    assert_eq!(stack.len(), 2);
    assert_eq!(summaries(&stack), vec!["two", "one again"]);
    assert_eq!(stack.get(1).unwrap().notification.summary, "one again");
    assert!(stack.get(3).is_none());
}

#[test]
fn waiting_notifications_replace_shown_ones() {
    let config = config(0, 0);
    let mut stack = BannerStack::new();
    stack.extend_from(vec![notification(1, "one", 1)], &config, 0);
    let mut waiting = vec![notification(3, "three", 3), notification(1, "new one", 1)];
    stack.replace_by_keys(&mut waiting, &config, 50);
    assert_eq!(waiting.len(), 1);
    assert_eq!(waiting[0].id, 3);
    let banner = stack.get(1).unwrap();
    assert_eq!(banner.notification.summary, "new one");
    assert_eq!(banner.shown_at, 50);
}

#[test]
fn closed_banners_are_taken_out_once_hidden() {
    let config = config(0, 0);
    let mut stack = BannerStack::new();
    stack.extend_from(vec![notification(1, "one", 1), notification(2, "two", 2)], &config, 0);
    assert!(stack.handle(1, BannerEvent::Close(ClosingReason::DismissedByUser)));
    assert!(!stack.handle(7, BannerEvent::Hover));
    assert!(stack.remove_closed().is_empty());
    stack.handle(1, BannerEvent::Hidden);
    let removed = stack.remove_closed();
    assert_eq!(removed.len(), 1);
    assert_eq!(removed[0].0.id, 1);
    assert_eq!(removed[0].1, ClosingReason::DismissedByUser);
    assert_eq!(stack.ids(), vec![2]);
}

#[test]
fn banners_expire_after_their_timeout() {
    let config = config(0, 1000);
    let mut stack = BannerStack::new();
    stack.extend_from(vec![notification(1, "one", 1)], &config, 0);
    stack.handle(1, BannerEvent::Visible(100));
    stack.handle_all(BannerEvent::Tick(1099));
    assert_eq!(stack.get(1).unwrap().status.phase, BannerPhase::Shown);
    stack.handle_all(BannerEvent::Tick(1100));
    let status = stack.get(1).unwrap().status;
    assert_eq!(status.phase, BannerPhase::Closing);
    assert!(!status.visible);
    stack.handle(1, BannerEvent::Hidden);
    stack.handle_all(BannerEvent::Tick(1200));
    let removed = stack.remove_closed();
    assert_eq!(removed.len(), 1);
    assert_eq!(removed[0].1, ClosingReason::Expired);
}

#[test]
fn reset_timeouts_restart_the_count() {
    let config = config(0, 1000);
    let mut stack = BannerStack::new();
    stack.extend_from(vec![notification(1, "one", 1)], &config, 0);
    stack.handle(1, BannerEvent::Visible(0));
    stack.handle_all(BannerEvent::ResetTimeout(900));
    stack.handle_all(BannerEvent::Tick(1500));
    assert_eq!(stack.get(1).unwrap().status.phase, BannerPhase::Shown);
    let new_config = config_with_size(5);
    stack.configure(&new_config);
    let banner = stack.get(1).unwrap();
    assert_eq!(banner.status.timeout, 5);
}

fn config_with_size(timeout: u16) -> Config {
    let mut toml = TomlConfig::new();
    let mut general = TomlGeneralConfig::new();
    general.width = Some(200);
    general.height = Some(80);
    toml.general = Some(general);
    let mut display = TomlDisplayConfig::new();
    display.timeout = Some(Timeout::new(timeout));
    toml.display = Some(display);
    Config::from_toml(toml)
}

#[test]
fn settings_resize_banners() {
    let mut stack = BannerStack::new();
    stack.extend_from(vec![notification(1, "one", 1), notification(2, "two", 2)], &config(0, 0), 0);
    stack.configure(&config_with_size(0));
    assert_eq!(stack.width(), 200);
    assert_eq!(stack.total_height_with_gap(5), 165);
}

#[test]
fn the_queue_fills_the_window_up_to_the_limit() {
    let config = config(2, 0);
    let mut manager = WindowManager::new();
    assert!(!manager.wants_banners(2));
    manager.create_notification(Box::new(notification(1, "one", 1)));
    manager.create_notification(Box::new(notification(2, "two", 2)));
    manager.create_notification(Box::new(notification(3, "three", 3)));
    manager.process_notification_queue(&config, 0);
    assert_eq!(manager.queue.pending.len(), 3);
    assert!(manager.wants_banners(2));
    manager.open_window();
    manager.process_notification_queue(&config, 0);
    assert_eq!(manager.banners.as_ref().unwrap().ids(), vec![1, 2]);
    assert_eq!(manager.queue.pending.len(), 1);
    assert!(!manager.wants_banners(2));

    manager.create_notification(Box::new(notification(1, "one again", 1)));
    manager.process_notification_queue(&config, 10);
    let stack = manager.banners.as_ref().unwrap();
    assert_eq!(stack.ids(), vec![1, 2]);
    assert_eq!(stack.get(1).unwrap().notification.summary, "one again");
    assert_eq!(manager.queue.pending.len(), 1);
    assert_eq!(manager.queue.pending[0].id, 3);
}

#[test]
fn closing_requests_reach_the_queue_and_the_banners() {
    let config = config(2, 0);
    let mut manager = WindowManager::new();
    for id in 1..=3 {
        manager.create_notification(Box::new(notification(id, "n", id as u64)));
    }
    manager.open_window();
    manager.process_notification_queue(&config, 0);
    manager.close_notification(3);
    manager.close_notification(2);
    manager.handle_close_notifications();
    assert!(manager.queue.pending.is_empty());
    assert!(manager.queue.close_requests.is_empty());
    let stack = manager.banners.as_mut().unwrap();
    assert!(stack.get(2).unwrap().is_closed());
    assert!(!stack.get(1).unwrap().is_closed());
    stack.handle(2, BannerEvent::Hidden);
    manager.remove_closed(&config, 5);
    assert_eq!(manager.banners.as_ref().unwrap().ids(), vec![1]);
    assert_eq!(
        manager.pop_signal(),
        Some(Signal::NotificationClosed { notification_id: 2, reason: ClosingReason::CallCloseNotification })
    );
    assert_eq!(manager.pop_signal(), None);
    assert!(!manager.close_window_if_empty());
    manager.handle_all(BannerEvent::Close(ClosingReason::Expired));
    manager.handle_all(BannerEvent::Hidden);
    manager.remove_closed(&config, 6);
    assert!(manager.close_window_if_empty());
    assert!(manager.banners.is_none());
}

#[test]
fn requests_wait_without_a_window() {
    let mut manager = WindowManager::new();
    manager.create_notification(Box::new(notification(1, "one", 1)));
    manager.close_notification(1);
    manager.close_notification(9);
    manager.handle_close_notifications();
    assert!(manager.queue.pending.is_empty());
    assert_eq!(manager.queue.close_requests, vec![1, 9]);
    manager.reset_timeouts(3);
    assert!(manager.banners.is_none());
}

#[test]
fn the_window_opens_when_notifications_wait() {
    let config = config(1, 0);
    let mut manager = WindowManager::new();
    assert!(!manager.show_window(&config, 0));
    assert!(manager.banners.is_none());
    manager.create_notification(Box::new(notification(1, "one", 1)));
    manager.create_notification(Box::new(notification(2, "two", 2)));
    assert!(manager.show_window(&config, 0));
    assert_eq!(manager.banners.as_ref().unwrap().ids(), vec![1]);
    assert!(!manager.show_window(&config, 0));
    assert_eq!(manager.queue.pending.len(), 1);
}
