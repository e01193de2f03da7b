//! Banners: closing them, their timeouts, the queue of notifications and the stack size.
use noti::actions::ClosingReason;
use noti::banners::{
    can_show_more, closed_signals, effective_limit, stack_width, total_height_with_gap,
    BannerPhase, BannerStatus, CloseStatus,
};

#[test]
fn close_status() {
    let mut status = CloseStatus::NotClosed;
    assert!(!status.is_closed());
    status.close_with(ClosingReason::DismissedByUser);
    status.close_with(ClosingReason::Expired);
    assert!(status.is_closed());
    assert_eq!(status.into_reason(), Some(ClosingReason::Expired));
    assert_eq!(CloseStatus::NotClosed.into_reason(), None);
}

#[test]
fn banner_hides_when_its_timeout_is_over() {
    let mut banner = BannerStatus::new(1000);
    banner.tick(5000);
    assert_eq!(banner.phase, BannerPhase::NotShown);
    banner.on_visible();
    banner.tick(999);
    assert_eq!(banner.phase, BannerPhase::Shown);
    banner.tick(1000);
    assert_eq!(banner.phase, BannerPhase::Closing);
    assert!(!banner.visible);
    banner.on_hidden();
    banner.tick(0);
    assert_eq!(banner.close_status, CloseStatus::Closed(ClosingReason::Expired));
    assert!(banner.is_removable());
}

#[test]
fn banner_without_timeout_stays() {
    let mut banner = BannerStatus::new(0);
    banner.on_visible();
    banner.tick(u128::MAX);
    assert_eq!(banner.phase, BannerPhase::Shown);
    assert!(banner.visible);
}

#[test]
fn limits_of_banners() {
    assert_eq!(effective_limit(0), usize::MAX);
    assert_eq!(effective_limit(3), 3);
    assert!(can_show_more(None, 3, 1));
    assert!(!can_show_more(None, 3, 0));
    assert!(!can_show_more(Some(3), 3, 2));
    assert!(can_show_more(Some(100), 0, 2));
}

#[test]
fn size_of_the_stack() {
    assert_eq!(stack_width(&[100, 300, 200]), 300);
    assert_eq!(stack_width(&[]), 0);
    assert_eq!(total_height_with_gap(&[50, 60, 70], 10), 200);
    assert_eq!(total_height_with_gap(&[50], 10), 50);
    assert_eq!(total_height_with_gap(&[], 10), 0);
}

#[test]
fn signals_of_closed_banners() {
    let signals = closed_signals(&[(4, ClosingReason::Expired), (7, ClosingReason::DismissedByUser)]);
    assert_eq!(signals.len(), 2);
    assert_eq!(
        signals[1],
        noti::actions::Signal::NotificationClosed {
            notification_id: 7,
            reason: ClosingReason::DismissedByUser
        }
    );
}
