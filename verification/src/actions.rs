//! What the notification server asks the daemon to do, and the signals that the daemon
//! sends back to the clients, as the freedesktop notification specification names them.
use vstd::prelude::*;

use crate::notification::{Notification, ScheduledNotification};
use crate::unicode::{append_str, decimal, push_decimal};

verus! {

/// An action to perform on notifications.
#[derive(Debug)]
pub enum Action {
    /// Shows a new notification.
    Show(Box<Notification>),
    /// Shows a notification at a later time.
    Schedule(ScheduledNotification),
    /// Closes the notification of that identifier; without one the request is ignored.
    Close(Option<u32>),
    /// Closes all the notifications that are shown.
    CloseAll,
}

/// Why a notification was closed.
#[derive(Debug, Clone, Copy, PartialEq, Eq, Structural)]
pub enum ClosingReason {
    /// Its timeout was reached.
    Expired,
    /// The user dismissed it.
    DismissedByUser,
    /// A client called `CloseNotification`.
    CallCloseNotification,
    /// The reason is unknown.
    Undefined,
}

/// The code that the specification gives to each reason: 1 to 4.
pub open spec fn reason_code(reason: ClosingReason) -> u32 {
    match reason {
        ClosingReason::Expired => 1,
        ClosingReason::DismissedByUser => 2,
        ClosingReason::CallCloseNotification => 3,
        ClosingReason::Undefined => 4,
    }
}

impl From<ClosingReason> for u32 {
    fn from(value: ClosingReason) -> (r: u32)
        ensures
            r == reason_code(value),
    {
        match value {
            ClosingReason::Expired => 1,
            ClosingReason::DismissedByUser => 2,
            ClosingReason::CallCloseNotification => 3,
            ClosingReason::Undefined => 4,
        }
    }
}

impl vstd::std_specs::convert::FromSpecImpl<ClosingReason> for u32 {
    open spec fn obeys_from_spec() -> bool {
        true
    }

    open spec fn from_spec(v: ClosingReason) -> u32 {
        reason_code(v)
    }
}

/// The name of a reason as it is printed.
pub open spec fn reason_name(reason: ClosingReason) -> Seq<char> {
    match reason {
        ClosingReason::Expired => "Expired"@,
        ClosingReason::DismissedByUser => "DismissedByUser"@,
        ClosingReason::CallCloseNotification => "CallCloseNotification"@,
        ClosingReason::Undefined => "Undefined"@,
    }
}

impl ClosingReason {
    /// The name of the reason, as it is printed.
    pub fn describe(&self) -> (r: String)
        ensures
            r@ == reason_name(*self),
    {
        let mut r = String::new();
        append_str(
            &mut r,
            match self {
                ClosingReason::Expired => "Expired",
                ClosingReason::DismissedByUser => "DismissedByUser",
                ClosingReason::CallCloseNotification => "CallCloseNotification",
                ClosingReason::Undefined => "Undefined",
            },
        );
        r
    }
}

/// A signal sent from the notification server back to the clients.
#[derive(Debug, PartialEq, Eq)]
pub enum Signal {
    /// The user invoked an action of a notification.
    ActionInvoked { notification_id: u32, action_key: String },
    /// A notification was closed.
    NotificationClosed { notification_id: u32, reason: ClosingReason },
}

/// How a signal is printed.
pub open spec fn signal_text(signal: Signal) -> Seq<char> {
    match signal {
        Signal::ActionInvoked { notification_id, action_key } => "notification_id: "@ + decimal(
            notification_id as nat,
        ) + ", action_key: "@ + action_key@,
        Signal::NotificationClosed { notification_id, reason } => "notification_id: "@ + decimal(
            notification_id as nat,
        ) + ", action_key: "@ + reason_name(reason),
    }
}

/// The line that the daemon logs when it sends a signal.
pub open spec fn signal_log_line(signal: Signal) -> Seq<char> {
    match signal {
        Signal::ActionInvoked { notification_id, action_key } => "Action '"@ + action_key@
            + "' was invoked for notification id "@ + decimal(notification_id as nat),
        Signal::NotificationClosed { notification_id, reason } => "Notification with id "@
            + decimal(notification_id as nat) + " closed by "@ + reason_name(reason) + " reason"@,
    }
}

impl Signal {
    /// The signal as it is printed.
    pub fn describe(&self) -> (r: String)
        ensures
            r@ == signal_text(*self),
    {
        let mut r = String::new();
        match self {
            Signal::ActionInvoked { notification_id, action_key } => {
                append_str(&mut r, "notification_id: ");
                push_decimal(&mut r, *notification_id as u64);
                append_str(&mut r, ", action_key: ");
                append_str(&mut r, action_key.as_str());
            },
            Signal::NotificationClosed { notification_id, reason } => {
                append_str(&mut r, "notification_id: ");
                push_decimal(&mut r, *notification_id as u64);
                append_str(&mut r, ", action_key: ");
                let name = reason.describe();
                append_str(&mut r, name.as_str());
            },
        }
        r
    }

    /// Whether the daemon sends the signal on to the clients: a notification closed by a
    /// call to `CloseNotification` is not, as the server has already announced it.
    pub fn is_forwarded(&self) -> (r: bool)
        ensures
            r == !(*self matches Signal::NotificationClosed {
                reason: ClosingReason::CallCloseNotification,
                ..
            }),
    {
        match self {
            Signal::NotificationClosed { reason: ClosingReason::CallCloseNotification, .. } => false,
            _ => true,
        }
    }
}

/// The line that the daemon logs when it sends `signal`.
pub fn debug_signal(signal: &Signal) -> (r: String)
    ensures
        r@ == signal_log_line(*signal),
{
    let mut r = String::new();
    match signal {
        Signal::ActionInvoked { notification_id, action_key } => {
            append_str(&mut r, "Action '");
            append_str(&mut r, action_key.as_str());
            append_str(&mut r, "' was invoked for notification id ");
            push_decimal(&mut r, *notification_id as u64);
        },
        Signal::NotificationClosed { notification_id, reason } => {
            append_str(&mut r, "Notification with id ");
            push_decimal(&mut r, *notification_id as u64);
            append_str(&mut r, " closed by ");
            let name = reason.describe();
            append_str(&mut r, name.as_str());
            append_str(&mut r, " reason");
        },
    }
    r
}

} // verus!
