//! The decisions of the D-Bus notification server: the identifiers it hands out, what a
//! request becomes, and what it announces.
use vstd::prelude::*;

use crate::actions::{reason_code, Action, ClosingReason};
use crate::markup::{parse_spec, spec_graphemes};
use crate::notification::{
    actions_spec, assigned_id, hints_readable, hints_spec, HintMap, Notification, Timeout,
};

verus! {

/// The identifiers that the server hands out: the next free one, starting at 1.
#[derive(Debug, Clone, Copy, PartialEq, Eq, Structural)]
pub struct NotificationIds {
    pub next: u32,
}

/// The identifier after `n`, wrapping around past the largest one.
pub open spec fn following_id(n: u32) -> u32 {
    if n == u32::MAX {
        0
    } else {
        (n + 1) as u32
    }
}

impl NotificationIds {
    /// The first identifier is 1.
    pub fn new() -> (r: NotificationIds)
        ensures
            r.next == 1,
    {
        NotificationIds { next: 1 }
    }

    /// The identifier of a request: the one it replaces, else the next free one, which is
    /// then used up.
    pub fn assign(&mut self, replaces_id: u32) -> (r: u32)
        ensures
            r == assigned_id(replaces_id, old(self).next),
            final(self).next == (if replaces_id == 0 {
                following_id(old(self).next)
            } else {
                old(self).next
            }),
    {
        if replaces_id == 0 {
            let id = self.next;
            self.next = if self.next == u32::MAX {
                0
            } else {
                self.next + 1
            };
            id
        } else {
            replaces_id
        }
    }

    /// The identifier announced for a closed notification: an unknown one (0) stands for
    /// the next free identifier.
    pub fn closed_signal_id(&self, notification_id: u32) -> (r: u32)
        ensures
            r == (if notification_id == 0 {
                self.next
            } else {
                notification_id
            }),
    {
        if notification_id == 0 {
            self.next
        } else {
            notification_id
        }
    }
}

/// The `NotificationClosed` signal that the server sends itself, and the action it passes on.
#[derive(Debug)]
pub struct CloseRequest {
    pub signal_id: u32,
    pub signal_reason: u32,
    pub action: Action,
}

/// A `Notify` request: the notification is built from it and shown; its identifier is
/// returned to the client.
pub fn notify(
    ids: &mut NotificationIds,
    app_name: String,
    replaces_id: u32,
    app_icon: String,
    summary: String,
    body: String,
    actions: &[&str],
    hints: &HintMap,
    expire_timeout: i32,
    created_at: u64,
) -> (r: (u32, Action))
    requires
        actions@.len() < 2 || actions@.len() % 2 == 0,
        expire_timeout >= -1,
        4 * body@.len() <= usize::MAX,
        hints_readable(hints@),
    ensures
        r.0 == assigned_id(replaces_id, old(ids).next),
        final(ids).next == (if replaces_id == 0 {
            following_id(old(ids).next)
        } else {
            old(ids).next
        }),
        r.1 matches Action::Show(n) && n.id == r.0 && n.app_name == app_name && n.app_icon
            == app_icon && n.summary == summary && n.body@ == parse_spec(spec_graphemes(body@))
            && n.hints@ == hints_spec(hints@) && n.actions@.map_values(
            |a: crate::notification::NotificationAction| (a.action_key@, a.localized_string@),
        ) == actions_spec(actions@.map_values(|s: &str| s@)) && !n.is_read && n.created_at
            == created_at && (expire_timeout == 0 ==> n.expire_timeout == Timeout::Never) && (
        expire_timeout == -1 ==> n.expire_timeout == Timeout::Configurable) && (expire_timeout
            > 0 ==> n.expire_timeout == Timeout::Millis(expire_timeout as u32)),
{
    let next = ids.next;
    let id = ids.assign(replaces_id);
    let notification = Notification::from_request(
        replaces_id,
        next,
        app_name,
        app_icon,
        summary,
        body,
        actions,
        hints,
        expire_timeout,
        created_at,
    );
    (id, Action::Show(Box::new(notification)))
}

/// A `CloseNotification` request: the server announces the notification closed by the call
/// and asks the daemon to close it.
pub fn close_notification(id: u32) -> (r: CloseRequest)
    ensures
        r.signal_id == id,
        r.signal_reason == reason_code(ClosingReason::CallCloseNotification),
        r.action == Action::Close(Some(id)),
{
    CloseRequest {
        signal_id: id,
        signal_reason: ClosingReason::CallCloseNotification.into(),
        action: Action::Close(Some(id)),
    }
}

/// A request to close the last notification: announced with the identifier 0, and passed on
/// without an identifier.
pub fn close_last_notification() -> (r: CloseRequest)
    ensures
        r.signal_id == 0,
        r.signal_reason == reason_code(ClosingReason::CallCloseNotification),
        r.action == Action::Close(None),
{
    CloseRequest {
        signal_id: 0,
        signal_reason: ClosingReason::CallCloseNotification.into(),
        action: Action::Close(None),
    }
}

/// The capabilities that the server announces.
pub open spec fn capability_names() -> Seq<Seq<char>> {
    seq![
        "action-icons"@,
        "actions"@,
        "body"@,
        "body-hyperlinks"@,
        "body-images"@,
        "body-markup"@,
        "icon-multi"@,
        "icon-static"@,
        "persistence"@,
        "sound"@,
    ]
}

/// The capabilities of the server, in the order it announces them.
pub fn capabilities() -> (r: Vec<String>)
    ensures
        r@.map_values(|s: String| s@) == capability_names(),
{
    let r = vec![
        "action-icons".to_owned(),
        "actions".to_owned(),
        "body".to_owned(),
        "body-hyperlinks".to_owned(),
        "body-images".to_owned(),
        "body-markup".to_owned(),
        "icon-multi".to_owned(),
        "icon-static".to_owned(),
        "persistence".to_owned(),
        "sound".to_owned(),
    ];
    assert(r@.map_values(|s: String| s@) =~= capability_names());
    r
}

/// The information that the server gives about itself: its name, vendor and version, and
/// the version of the specification it follows, 1.2.
pub fn server_information(vendor: String, version: String) -> (r: (String, String, String, String))
    ensures
        r.0@ == "noti"@,
        r.1 == vendor,
        r.2 == version,
        r.3@ == "1.2"@,
{
    ("noti".to_owned(), vendor, version, "1.2".to_owned())
}

} // verus!

verus! {

/// Two notifications that replace none get different identifiers, one after the other.
pub proof fn law_new_ids_differ(ids: NotificationIds)
    ensures
        assigned_id(0, ids.next) != assigned_id(0, following_id(ids.next)),
{
}

} // verus!
