//! The life of notification banners: the queue of notifications waiting to be shown, the
//! limit on banners shown at once, the phases of a banner until it is closed, and the size of
//! the stack of banners.
use vstd::prelude::*;

use crate::actions::{ClosingReason, Signal};
use crate::config::display::DisplayConfig;
use crate::notification::Notification;

verus! {

// ---------------------------------------------------------------------------
// Closing a banner
// ---------------------------------------------------------------------------

/// Whether a banner was closed, and why.
#[derive(Debug, Clone, Copy, PartialEq, Eq, Structural)]
pub enum CloseStatus {
    NotClosed,
    Closed(ClosingReason),
}

impl CloseStatus {
    pub fn is_closed(&self) -> (r: bool)
        ensures
            r == (*self is Closed),
    {
        match self {
            CloseStatus::Closed(_) => true,
            CloseStatus::NotClosed => false,
        }
    }

    /// Closes the banner; a later reason replaces an earlier one.
    pub fn close_with(&mut self, closing_reason: ClosingReason)
        ensures
            *final(self) == CloseStatus::Closed(closing_reason),
    {
        *self = CloseStatus::Closed(closing_reason);
    }

    /// The reason the banner was closed for, where it was.
    pub fn into_reason(self) -> (r: Option<ClosingReason>)
        ensures
            r == (match self {
                CloseStatus::NotClosed => None,
                CloseStatus::Closed(reason) => Some(reason),
            }),
    {
        match self {
            CloseStatus::NotClosed => None,
            CloseStatus::Closed(reason) => Some(reason),
        }
    }
}

/// Where a banner is in its life.
#[derive(Debug, Clone, Copy, PartialEq, Eq, Structural)]
pub enum BannerPhase {
    /// Not yet shown.
    NotShown,
    /// Shown, since the time its timeout counts from.
    Shown,
    /// Being hidden.
    Closing,
    /// Hidden: the banner is done.
    Closed,
}

/// The state of a banner that its timeout acts on.
#[derive(Debug, Clone, Copy, PartialEq, Eq, Structural)]
pub struct BannerStatus {
    pub phase: BannerPhase,
    /// Whether the banner is to be visible.
    pub visible: bool,
    /// The timeout in milliseconds; 0 never expires.
    pub timeout: u128,
    pub close_status: CloseStatus,
}

/// One tick of a banner shown for `elapsed` milliseconds: a shown banner whose timeout is
/// over starts to hide; a hidden one is closed as expired.
pub open spec fn spec_tick(s: BannerStatus, elapsed: u128) -> BannerStatus {
    match s.phase {
        BannerPhase::Shown => if s.timeout != 0 && elapsed >= s.timeout && s.visible {
            BannerStatus { visible: false, phase: BannerPhase::Closing, ..s }
        } else {
            s
        },
        BannerPhase::Closed => BannerStatus {
            close_status: CloseStatus::Closed(ClosingReason::Expired),
            ..s
        },
        _ => s,
    }
}

impl BannerStatus {
    /// A banner about to be shown, with its timeout.
    pub fn new(timeout: u128) -> (r: BannerStatus)
        ensures
            r == (BannerStatus {
                phase: BannerPhase::NotShown,
                visible: true,
                timeout,
                close_status: CloseStatus::NotClosed,
            }),
    {
        BannerStatus {
            phase: BannerPhase::NotShown,
            visible: true,
            timeout,
            close_status: CloseStatus::NotClosed,
        }
    }

    /// One tick (see [`spec_tick`]).
    pub fn tick(&mut self, elapsed: u128)
        ensures
            *final(self) == spec_tick(*old(self), elapsed),
    {
        match self.phase {
            BannerPhase::Shown => {
                if self.timeout != 0 && elapsed >= self.timeout && self.visible {
                    self.visible = false;
                    self.phase = BannerPhase::Closing;
                }
            },
            BannerPhase::Closed => {
                self.close_status.close_with(ClosingReason::Expired);
            },
            _ => {},
        }
    }

    /// The banner became visible: it is shown.
    pub fn on_visible(&mut self)
        ensures
            *final(self) == (BannerStatus { phase: BannerPhase::Shown, ..*old(self) }),
    {
        self.phase = BannerPhase::Shown;
    }

    /// The banner became hidden: it is done.
    pub fn on_hidden(&mut self)
        ensures
            *final(self) == (BannerStatus { phase: BannerPhase::Closed, ..*old(self) }),
    {
        self.phase = BannerPhase::Closed;
    }

    /// The pointer is over the banner: it stays visible.
    pub fn on_hover(&mut self)
        ensures
            *final(self) == (BannerStatus { visible: true, ..*old(self) }),
    {
        self.visible = true;
    }

    /// Whether the banner is to be removed: closed and done hiding.
    pub fn is_removable(&self) -> (r: bool)
        ensures
            r == (self.close_status is Closed && self.phase == BannerPhase::Closed),
    {
        self.close_status.is_closed() && match self.phase {
            BannerPhase::Closed => true,
            _ => false,
        }
    }
}

/// The timeout of a notification's banner: that of the display settings of its application
/// for its urgency.
pub fn banner_timeout(display: &DisplayConfig, notification: &Notification) -> (r: u128)
    ensures
        r == crate::config::display::timeout_for(display.timeout, notification.hints.urgency),
{
    display.timeout.by_urgency(&notification.hints.urgency) as u128
}

// ---------------------------------------------------------------------------
// The queue of notifications
// ---------------------------------------------------------------------------

/// The number of banners that may be shown at once: a limit of 0 is no limit.
pub open spec fn spec_effective_limit(limit: u8) -> usize {
    if limit == 0 {
        usize::MAX
    } else {
        limit as usize
    }
}

pub fn effective_limit(limit: u8) -> (r: usize)
    ensures
        r == spec_effective_limit(limit),
{
    if limit == 0 {
        usize::MAX
    } else {
        limit as usize
    }
}

/// Whether the window is to show more banners: notifications wait, and there is no window
/// yet or it shows fewer banners than the limit.
pub fn can_show_more(shown: Option<usize>, limit: u8, waiting: usize) -> (r: bool)
    ensures
        r == (waiting > 0 && match shown {
            None => true,
            Some(n) => n < spec_effective_limit(limit),
        }),
{
    let below = match shown {
        None => true,
        Some(n) => n < effective_limit(limit),
    };
    below && waiting > 0
}

/// The notifications waiting to be shown, and the identifiers of those asked to close.
#[derive(Debug)]
pub struct NotificationQueue {
    pub pending: Vec<Notification>,
    pub close_requests: Vec<u32>,
}

/// The notifications whose identifier is (or is not) among `ids`, in order.
pub open spec fn with_ids(ns: Seq<Notification>, ids: Seq<u32>, inside: bool) -> Seq<Notification>
    decreases ns.len(),
{
    if ns.len() == 0 {
        Seq::empty()
    } else {
        let rest = with_ids(ns.drop_last(), ids, inside);
        if ids.contains(ns.last().id) == inside {
            rest.push(ns.last())
        } else {
            rest
        }
    }
}

fn contains_id(ids: &[u32], id: u32) -> (r: bool)
    ensures
        r == ids@.contains(id),
{
    let mut i: usize = 0;
    while i < ids.len()
        invariant
            i <= ids@.len(),
            forall|j: int| 0 <= j < i ==> ids@[j] != id,
        decreases ids@.len() - i,
    {
        if ids[i] == id {
            assert(ids@[i as int] == id);
            return true;
        }
        i = i + 1;
    }
    false
}

/// Splits `ns` into the notifications whose identifier is among `ids` and the others, each
/// in order.
pub(crate) fn partition_by_ids(ns: Vec<Notification>, ids: &[u32]) -> (r: (Vec<Notification>, Vec<Notification>))
    ensures
        r.0@ == with_ids(ns@, ids@, true),
        r.1@ == with_ids(ns@, ids@, false),
{
    let ghost all = ns@;
    assert(all.len() == ns.len());
    let mut rest = ns;
    let mut inside: Vec<Notification> = Vec::new();
    let mut outside: Vec<Notification> = Vec::new();
    let mut k: usize = 0;
    while rest.len() > 0
        invariant
            all.len() <= usize::MAX,
            k + rest@.len() == all.len(),
            rest@ == all.subrange(k as int, all.len() as int),
            inside@ == with_ids(all.subrange(0, k as int), ids@, true),
            outside@ == with_ids(all.subrange(0, k as int), ids@, false),
        decreases rest@.len(),
    {
        let n = rest.remove(0);
        assert(n == all[k as int]);
        assert(all.subrange(0, k + 1).drop_last() =~= all.subrange(0, k as int));
        if contains_id(ids, n.id) {
            inside.push(n);
        } else {
            outside.push(n);
        }
        k = k + 1;
        assert(rest@ =~= all.subrange(k as int, all.len() as int));
    }
    assert(all.subrange(0, k as int) =~= all);
    (inside, outside)
}

impl NotificationQueue {
    pub fn new() -> (r: NotificationQueue)
        ensures
            r.pending@ == Seq::<Notification>::empty(),
            r.close_requests@ == Seq::<u32>::empty(),
    {
        NotificationQueue { pending: Vec::new(), close_requests: Vec::new() }
    }

    /// A notification to show, at the end of the queue.
    pub fn create_notification(&mut self, notification: Box<Notification>)
        ensures
            final(self).pending@ == old(self).pending@.push(*notification),
            final(self).close_requests == old(self).close_requests,
    {
        self.pending.push(*notification);
    }

    /// A notification to close, once the queue is handled.
    pub fn close_notification(&mut self, id: u32)
        ensures
            final(self).close_requests@ == old(self).close_requests@.push(id),
            final(self).pending == old(self).pending,
    {
        self.close_requests.push(id);
    }

    /// Takes out the notifications that replace banners shown (those whose identifier is
    /// among `shown`), in order; the others keep waiting.
    pub fn take_replacements(&mut self, shown: &[u32]) -> (r: Vec<Notification>)
        ensures
            r@ == with_ids(old(self).pending@, shown@, true),
            final(self).pending@ == with_ids(old(self).pending@, shown@, false),
            final(self).close_requests == old(self).close_requests,
    {
        let mut pending: Vec<Notification> = Vec::new();
        std::mem::swap(&mut pending, &mut self.pending);
        let (replacing, waiting) = partition_by_ids(pending, shown);
        self.pending = waiting;
        replacing
    }

    /// Takes out the notifications to show as new banners: as many from the front as the
    /// limit leaves room for beside the `shown` banners.
    pub fn take_to_display(&mut self, shown: usize, limit: u8) -> (r: Vec<Notification>)
        ensures
            ({
                let room = if shown <= spec_effective_limit(limit) {
                    spec_effective_limit(limit) - shown
                } else {
                    0
                };
                let n = if room < old(self).pending@.len() {
                    room as int
                } else {
                    old(self).pending@.len() as int
                };
                &&& r@ == old(self).pending@.subrange(0, n)
                &&& final(self).pending@ == old(self).pending@.subrange(
                    n,
                    old(self).pending@.len() as int,
                )
            }),
            final(self).close_requests == old(self).close_requests,
    {
        let limit = effective_limit(limit);
        let room = if shown <= limit {
            limit - shown
        } else {
            0
        };
        let n = if room < self.pending.len() {
            room
        } else {
            self.pending.len()
        };
        let ghost all = self.pending@;
        let mut taken: Vec<Notification> = Vec::new();
        let mut k: usize = 0;
        while k < n
            invariant
                n <= all.len(),
                k <= n,
                taken@ == all.subrange(0, k as int),
                self.pending@ == all.subrange(k as int, all.len() as int),
                self.close_requests == old(self).close_requests,
            decreases n - k,
        {
            let item = self.pending.remove(0);
            taken.push(item);
            k = k + 1;
            assert(taken@ =~= all.subrange(0, k as int));
            assert(self.pending@ =~= all.subrange(k as int, all.len() as int));
        }
        taken
    }

    /// Drops the waiting notifications asked to close, and takes out the requests for the
    /// window to close its banners (where there is a window; else they are kept).
    pub fn handle_close_requests(&mut self, has_window: bool) -> (r: Vec<u32>)
        ensures
            final(self).pending@ == with_ids(old(self).pending@, old(self).close_requests@, false),
            has_window ==> r@ == old(self).close_requests@ && final(self).close_requests@
                == Seq::<u32>::empty(),
            !has_window ==> r@ == Seq::<u32>::empty() && final(self).close_requests
                == old(self).close_requests,
    {
        let mut pending: Vec<Notification> = Vec::new();
        std::mem::swap(&mut pending, &mut self.pending);
        let (_, waiting) = partition_by_ids(pending, self.close_requests.as_slice());
        self.pending = waiting;
        if has_window {
            let mut requests: Vec<u32> = Vec::new();
            std::mem::swap(&mut requests, &mut self.close_requests);
            requests
        } else {
            Vec::new()
        }
    }
}

/// The signals that banners removed as closed send: one per banner, with its reason.
pub fn closed_signals(closed: &[(u32, ClosingReason)]) -> (r: Vec<Signal>)
    ensures
        r@.len() == closed@.len(),
        forall|i: int|
            0 <= i < closed@.len() ==> r@[i] == (Signal::NotificationClosed {
                notification_id: (#[trigger] closed@[i]).0,
                reason: closed@[i].1,
            }),
{
    let mut r: Vec<Signal> = Vec::new();
    let mut i: usize = 0;
    while i < closed.len()
        invariant
            i <= closed@.len(),
            r@.len() == i,
            forall|j: int|
                0 <= j < i ==> r@[j] == (Signal::NotificationClosed {
                    notification_id: (#[trigger] closed@[j]).0,
                    reason: closed@[j].1,
                }),
        decreases closed@.len() - i,
    {
        r.push(Signal::NotificationClosed { notification_id: closed[i].0, reason: closed[i].1 });
        i = i + 1;
    }
    r
}

// ---------------------------------------------------------------------------
// The stack of banners
// ---------------------------------------------------------------------------

/// The largest of some lengths, 0 for none.
pub open spec fn max_of(s: Seq<usize>) -> nat
    decreases s.len(),
{
    if s.len() == 0 {
        0
    } else if max_of(s.drop_last()) >= s.last() {
        max_of(s.drop_last())
    } else {
        s.last() as nat
    }
}

/// The sum of some lengths.
pub open spec fn sum_of(s: Seq<usize>) -> nat
    decreases s.len(),
{
    if s.len() == 0 {
        0
    } else {
        sum_of(s.drop_last()) + s.last() as nat
    }
}

/// The width of a stack of banners: that of the widest.
pub fn stack_width(widths: &[usize]) -> (r: usize)
    ensures
        r == max_of(widths@),
{
    let mut r: usize = 0;
    let mut i: usize = 0;
    while i < widths.len()
        invariant
            i <= widths@.len(),
            r == max_of(widths@.subrange(0, i as int)),
        decreases widths@.len() - i,
    {
        assert(widths@.subrange(0, i + 1).drop_last() =~= widths@.subrange(0, i as int));
        if widths[i] > r {
            r = widths[i];
        }
        i = i + 1;
    }
    assert(widths@.subrange(0, widths@.len() as int) =~= widths@);
    r
}

/// The height of a stack of banners: their heights and a gap between each two.
pub fn total_height_with_gap(heights: &[usize], gap: usize) -> (r: usize)
    requires
        sum_of(heights@) + (if heights@.len() > 0 {
            (heights@.len() - 1) * gap
        } else {
            0
        }) <= usize::MAX,
    ensures
        r == sum_of(heights@) + (if heights@.len() > 0 {
            (heights@.len() - 1) * gap
        } else {
            0
        }),
{
    let mut total: usize = 0;
    let mut i: usize = 0;
    while i < heights.len()
        invariant
            i <= heights@.len(),
            total == sum_of(heights@.subrange(0, i as int)),
            sum_of(heights@) <= usize::MAX,
        decreases heights@.len() - i,
    {
        assert(heights@.subrange(0, i + 1).drop_last() =~= heights@.subrange(0, i as int));
        proof {
            lemma_sum_prefix(heights@, i as int + 1);
        }
        total = total + heights[i];
        i = i + 1;
    }
    assert(heights@.subrange(0, heights@.len() as int) =~= heights@);
    if heights.len() == 0 {
        total
    } else {
        let gaps = heights.len() - 1;
        assert(gaps * gap <= usize::MAX) by (nonlinear_arith)
            requires
                total + gaps * gap <= usize::MAX,
                gaps >= 0,
                gap >= 0,
        ;
        total + gaps * gap
    }
}

/// The sum of a prefix is at most the whole sum.
proof fn lemma_sum_prefix(s: Seq<usize>, n: int)
    requires
        0 <= n <= s.len(),
    ensures
        sum_of(s.subrange(0, n)) <= sum_of(s),
    decreases s.len() - n,
{
    if n < s.len() {
        assert(s.subrange(0, n + 1).drop_last() =~= s.subrange(0, n));
        lemma_sum_prefix(s, n + 1);
    } else {
        assert(s.subrange(0, n) =~= s);
    }
}

// ---------------------------------------------------------------------------
// The image of a banner
// ---------------------------------------------------------------------------

/// Where the image of a banner comes from.
#[derive(Debug, PartialEq, Eq)]
pub enum ImageSource {
    /// The raw image that the notification carries.
    ImageData,
    /// The image file that the notification names.
    ImagePath(String),
    /// The icon of the application, looked up in the icon theme at the given sizes.
    Icon { name: String, theme: String, sizes: Vec<u16> },
    /// No image.
    Unknown,
}

/// The raw image first, else the image file, else the application's icon where it names one.
pub fn image_source(notification: &Notification, display: &DisplayConfig) -> (r: ImageSource)
    ensures
        notification.hints.image_data is Some ==> r == ImageSource::ImageData,
        notification.hints.image_data is None && notification.hints.image_path is Some ==> (
        r matches ImageSource::ImagePath(p) && Some(p) == notification.hints.image_path),
        notification.hints.image_data is None && notification.hints.image_path is None
            && notification.app_icon@.len() > 0 ==> (r matches ImageSource::Icon {
            name,
            theme,
            sizes,
        } && name == notification.app_icon && theme == display.icons.theme && sizes@
            == display.icons.size@),
        notification.hints.image_data is None && notification.hints.image_path is None
            && notification.app_icon@.len() == 0 ==> r == ImageSource::Unknown,
{
    if notification.hints.image_data.is_some() {
        ImageSource::ImageData
    } else {
        match &notification.hints.image_path {
            Some(p) => ImageSource::ImagePath(p.clone()),
            None => {
                if notification.app_icon.as_str().is_empty() {
                    ImageSource::Unknown
                } else {
                    let sizes = display.icons.size.clone();
                    proof {
                        assert(sizes@ =~= display.icons.size@);
                    }
                    ImageSource::Icon {
                        name: notification.app_icon.clone(),
                        theme: display.icons.theme.clone(),
                        sizes,
                    }
                }
            },
        }
    }
}

} // verus!

verus! {

/// A banner without a timeout never starts to hide by itself, however long it is shown; one
/// with a timeout starts to hide once it is over, and only then.
pub proof fn law_banner_timeout(s: BannerStatus, elapsed: u128)
    ensures
        s.phase == BannerPhase::Shown && s.timeout == 0 ==> spec_tick(s, elapsed) == s,
        s.phase == BannerPhase::Shown && s.visible && s.timeout != 0 ==> (spec_tick(
            s,
            elapsed,
        ).phase == BannerPhase::Closing <==> elapsed >= s.timeout),
        s.phase == BannerPhase::Closed ==> spec_tick(s, elapsed).close_status == CloseStatus::Closed(
            ClosingReason::Expired,
        ),
{
}

} // verus!
