//! The banners of the daemon as a whole: the queue of notifications waiting to be shown,
//! the banners of the window while there is one, and the signals that closed banners send.
use vstd::prelude::*;

use crate::actions::{ClosingReason, Signal};
use crate::banner_stack::{
    drained, extended, keys, kept, names, refreshed, stably_sorted, Banner, BannerEvent,
    BannerStack, banner_after, moved_by, lemma_refreshed_len, lemma_extended_len, lemma_refreshed_shows,
    lemma_extended_keeps, lemma_moved_keeps_entry,
};
use crate::banners::{can_show_more, spec_effective_limit, with_ids, NotificationQueue};
use crate::config::Config;
use crate::notification::Notification;

verus! {

/// How many waiting notifications join `shown` banners: as many as the limit leaves room
/// for, and no more than wait.
pub open spec fn joining(shown: nat, limit: u8, waiting: nat) -> int {
    let room: int = if shown <= spec_effective_limit(limit) {
        spec_effective_limit(limit) - shown
    } else {
        0
    };
    if room < waiting {
        room
    } else {
        waiting as int
    }
}

/// Whether the queue and the banners `(pending1, entries1)` are what handling the queue
/// makes of `(pending0, entries0)`: the waiting notifications of identifiers that have a
/// banner are shown in it, whatever the limit; then as many of the others as the limit
/// leaves room for get new banners, from the front of the queue; the banners are sorted
/// after each step.
pub open spec fn queue_processed(
    pending0: Seq<Notification>,
    entries0: Seq<(u32, Banner)>,
    pending1: Seq<Notification>,
    entries1: Seq<(u32, Banner)>,
    config: Config,
    now: u128,
) -> bool {
    let waiting = with_ids(pending0, keys(entries0), false);
    let n = joining(entries0.len(), config.general.limit, waiting.len());
    &&& pending1 == waiting.subrange(n, waiting.len() as int)
    &&& exists|mid: Seq<(u32, Banner)>|
        #[trigger] stably_sorted(
            mid,
            refreshed(entries0, with_ids(pending0, keys(entries0), true), now),
            config.general.sorting,
        ) && stably_sorted(entries1, extended(mid, waiting.subrange(0, n), config, now), config.general.sorting)
}

/// The signal that a banner taken out as closed sends.
pub open spec fn closed_signal(closed: (Notification, ClosingReason)) -> Signal {
    Signal::NotificationClosed { notification_id: closed.0.id, reason: closed.1 }
}

/// The daemon's banners: the notifications waiting, the banners of the window while there
/// is one, and the signals not sent yet (the last is sent first).
#[derive(Debug)]
pub struct WindowManager {
    pub queue: NotificationQueue,
    pub banners: Option<BannerStack>,
    pub signals: Vec<Signal>,
}

impl WindowManager {
    pub fn new() -> (r: WindowManager)
        ensures
            r.queue.pending@ == Seq::<Notification>::empty(),
            r.queue.close_requests@ == Seq::<u32>::empty(),
            r.banners is None,
            r.signals@ == Seq::<Signal>::empty(),
    {
        WindowManager { queue: NotificationQueue::new(), banners: None, signals: Vec::new() }
    }

    /// A notification to show: it waits at the end of the queue.
    pub fn create_notification(&mut self, notification: Box<Notification>)
        ensures
            final(self).queue.pending@ == old(self).queue.pending@.push(*notification),
            final(self).queue.close_requests == old(self).queue.close_requests,
            final(self).banners == old(self).banners,
            final(self).signals == old(self).signals,
    {
        self.queue.create_notification(notification);
    }

    /// A notification to close, once the requests are handled.
    pub fn close_notification(&mut self, id: u32)
        ensures
            final(self).queue.close_requests@ == old(self).queue.close_requests@.push(id),
            final(self).queue.pending == old(self).queue.pending,
            final(self).banners == old(self).banners,
            final(self).signals == old(self).signals,
    {
        self.queue.close_notification(id);
    }

    /// Whether banners are to be added: notifications wait, and there is no window or it
    /// shows fewer banners than the limit.
    pub fn wants_banners(&self, limit: u8) -> (r: bool)
        ensures
            r == (self.queue.pending@.len() > 0 && match self.banners {
                None => true,
                Some(b) => b.entries().len() < spec_effective_limit(limit),
            }),
    {
        let shown = match &self.banners {
            None => None,
            Some(b) => Some(b.len()),
        };
        can_show_more(shown, limit, self.queue.pending.len())
    }

    /// The window opened: it shows no banner yet. An open window stays as it is.
    pub fn open_window(&mut self)
        ensures
            final(self).banners is Some,
            old(self).banners is None ==> final(self).banners->0.entries() == Seq::<
                (u32, Banner),
            >::empty(),
            old(self).banners is Some ==> final(self).banners == old(self).banners,
            final(self).queue == old(self).queue,
            final(self).signals == old(self).signals,
    {
        if self.banners.is_none() {
            self.banners = Some(BannerStack::new());
        }
    }

    /// Closes the window where it shows no banner; tells whether it did.
    pub fn close_window_if_empty(&mut self) -> (r: bool)
        ensures
            r == (old(self).banners matches Some(b) && b.entries().len() == 0),
            r ==> final(self).banners is None,
            !r ==> final(self).banners == old(self).banners,
            final(self).queue == old(self).queue,
            final(self).signals == old(self).signals,
    {
        let empty = match &self.banners {
            Some(b) => b.is_empty(),
            None => false,
        };
        if empty {
            self.banners = None;
        }
        empty
    }

    /// Where banners are to be added (see [`WindowManager::wants_banners`]), opens the
    /// window if there is none and handles the queue (see [`queue_processed`]); tells whether
    /// it did. Otherwise nothing changes.
    pub fn show_window(&mut self, config: &Config, now: u128) -> (r: bool)
        ensures
            r == (old(self).queue.pending@.len() > 0 && match old(self).banners {
                None => true,
                Some(b) => b.entries().len() < spec_effective_limit(config.general.limit),
            }),
            r ==> final(self).banners is Some && queue_processed(
                old(self).queue.pending@,
                match old(self).banners {
                    Some(b) => b.entries(),
                    None => Seq::<(u32, Banner)>::empty(),
                },
                final(self).queue.pending@,
                final(self).banners->0.entries(),
                *config,
                now,
            ),
            !r ==> final(self).banners == old(self).banners && final(self).queue == old(self).queue,
            final(self).queue.close_requests == old(self).queue.close_requests,
            final(self).signals == old(self).signals,
    {
        if self.wants_banners(config.general.limit) {
            self.open_window();
            self.process_notification_queue(config, now);
            true
        } else {
            false
        }
    }

    /// Handles the queue where there is a window (see [`queue_processed`]); without a
    /// window nothing changes.
    pub fn process_notification_queue(&mut self, config: &Config, now: u128)
        ensures
            old(self).banners is None ==> final(self).banners is None && final(self).queue
                == old(self).queue,
            old(self).banners is Some ==> final(self).banners is Some && queue_processed(
                old(self).queue.pending@,
                old(self).banners->0.entries(),
                final(self).queue.pending@,
                final(self).banners->0.entries(),
                *config,
                now,
            ),
            final(self).queue.close_requests == old(self).queue.close_requests,
            final(self).signals == old(self).signals,
    {
        let mut slot: Option<BannerStack> = None;
        std::mem::swap(&mut slot, &mut self.banners);
        match slot {
            None => {},
            Some(mut stack) => {
                let ghost b0 = stack.entries();
                let ghost p0 = self.queue.pending@;
                stack.replace_by_keys(&mut self.queue.pending, config, now);
                let ghost mid = stack.entries();
                proof {
                    lemma_refreshed_len(b0, with_ids(p0, keys(b0), true), now);
                    let p = choose|p: Seq<int>| #[trigger] moved_by(
                        mid,
                        refreshed(b0, with_ids(p0, keys(b0), true), now),
                        p,
                    ) && forall|i: int, j: int|
                        0 <= i < j < mid.len() && crate::config::sorting::sorting_order(
                            config.general.sorting,
                            mid[i].1.notification,
                            mid[j].1.notification,
                        ) == std::cmp::Ordering::Equal ==> p[i] < p[j];
                }
                let shown = stack.len();
                let taken = self.queue.take_to_display(shown, config.general.limit);
                stack.extend_from(taken, config, now);
                self.banners = Some(stack);
            },
        }
    }

    /// Handles the requests to close notifications: the waiting notifications asked to close
    /// are dropped; where there is a window, its banners of those notifications are closed
    /// as the client asked and the requests are done, else they are kept.
    pub fn handle_close_notifications(&mut self)
        ensures
            final(self).queue.pending@ == with_ids(
                old(self).queue.pending@,
                old(self).queue.close_requests@,
                false,
            ),
            old(self).banners is None ==> final(self).banners is None && final(self).queue.close_requests
                == old(self).queue.close_requests,
            old(self).banners is Some ==> final(self).queue.close_requests@ == Seq::<u32>::empty()
                && final(self).banners is Some && ({
                let e0 = old(self).banners->0.entries();
                let e1 = final(self).banners->0.entries();
                &&& e1.len() == e0.len()
                &&& forall|i: int|
                    0 <= i < e0.len() ==> (#[trigger] e1[i]) == if names(
                        old(self).queue.close_requests@,
                        e0[i].0,
                    ) {
                        (
                            e0[i].0,
                            banner_after(e0[i].1, BannerEvent::Close(ClosingReason::CallCloseNotification)),
                        )
                    } else {
                        e0[i]
                    }
            }),
            final(self).signals == old(self).signals,
    {
        let has_window = self.banners.is_some();
        let ids = self.queue.handle_close_requests(has_window);
        let mut slot: Option<BannerStack> = None;
        std::mem::swap(&mut slot, &mut self.banners);
        match slot {
            None => {},
            Some(mut stack) => {
                stack.close_by_ids(ids.as_slice());
                self.banners = Some(stack);
            },
        }
    }

    /// Takes out the banners closed and done hiding, where there is a window: each sends
    /// its signal, in order, and the queue is handled again (see [`queue_processed`]) where
    /// any was taken out.
    pub fn remove_closed(&mut self, config: &Config, now: u128)
        ensures
            old(self).banners is None ==> final(self).banners is None && final(self).queue
                == old(self).queue && final(self).signals == old(self).signals,
            old(self).banners is Some ==> final(self).banners is Some && ({
                let e0 = old(self).banners->0.entries();
                let closed = drained(e0);
                &&& final(self).signals@ == old(self).signals@ + closed.map_values(
                    |c: (Notification, ClosingReason)| closed_signal(c),
                )
                &&& closed.len() == 0 ==> final(self).banners->0.entries() == kept(e0)
                    && final(self).queue == old(self).queue
                &&& closed.len() > 0 ==> queue_processed(
                    old(self).queue.pending@,
                    kept(e0),
                    final(self).queue.pending@,
                    final(self).banners->0.entries(),
                    *config,
                    now,
                )
            }),
            final(self).queue.close_requests == old(self).queue.close_requests,
    {
        let mut slot: Option<BannerStack> = None;
        std::mem::swap(&mut slot, &mut self.banners);
        match slot {
            None => {},
            Some(mut stack) => {
                let closed = stack.remove_closed();
                let ghost sent = self.signals@;
                let n = closed.len();
                let mut i: usize = 0;
                while i < n
                    invariant
                        n == closed@.len(),
                        i <= n,
                        self.queue == old(self).queue,
                        self.banners is None,
                        self.signals@ == sent + closed@.subrange(0, i as int).map_values(
                            |c: (Notification, ClosingReason)| closed_signal(c),
                        ),
                    decreases n - i,
                {
                    let id = closed[i].0.id;
                    let reason = closed[i].1;
                    self.signals.push(Signal::NotificationClosed { notification_id: id, reason });
                    i = i + 1;
                    assert(closed@.subrange(0, i as int).map_values(
                        |c: (Notification, ClosingReason)| closed_signal(c),
                    ) =~= closed@.subrange(0, i - 1).map_values(
                        |c: (Notification, ClosingReason)| closed_signal(c),
                    ).push(closed_signal(closed@[i - 1])));
                }
                assert(closed@.subrange(0, n as int) =~= closed@);
                self.banners = Some(stack);
                if n > 0 {
                    self.process_notification_queue(config, now);
                }
            },
        }
    }

    /// The next signal to send: the last one stored.
    pub fn pop_signal(&mut self) -> (r: Option<Signal>)
        ensures
            old(self).signals@.len() == 0 ==> r is None && final(self).signals@ == old(self).signals@,
            old(self).signals@.len() > 0 ==> r == Some(old(self).signals@.last())
                && final(self).signals@ == old(self).signals@.drop_last(),
            final(self).queue == old(self).queue,
            final(self).banners == old(self).banners,
    {
        self.signals.pop()
    }

    /// Every banner of the window, where there is one, acts on an event (such as a tick of
    /// the clock or a reset of the timeouts; see [`banner_after`]).
    pub fn handle_all(&mut self, event: BannerEvent)
        ensures
            old(self).banners is None ==> final(self).banners is None,
            old(self).banners is Some ==> final(self).banners is Some && ({
                let e0 = old(self).banners->0.entries();
                let e1 = final(self).banners->0.entries();
                &&& e1.len() == e0.len()
                &&& forall|i: int| 0 <= i < e0.len() ==> (#[trigger] e1[i]) == (e0[i].0, banner_after(e0[i].1, event))
            }),
            final(self).queue == old(self).queue,
            final(self).signals == old(self).signals,
    {
        let mut slot: Option<BannerStack> = None;
        std::mem::swap(&mut slot, &mut self.banners);
        match slot {
            None => {},
            Some(mut stack) => {
                stack.handle_all(event);
                self.banners = Some(stack);
            },
        }
    }

    /// Resets the timeouts of all banners to `now`.
    pub fn reset_timeouts(&mut self, now: u128)
        ensures
            old(self).banners is None ==> final(self).banners is None,
            old(self).banners is Some ==> final(self).banners is Some && ({
                let e0 = old(self).banners->0.entries();
                let e1 = final(self).banners->0.entries();
                &&& e1.len() == e0.len()
                &&& forall|i: int|
                    0 <= i < e0.len() ==> (#[trigger] e1[i]) == (
                        e0[i].0,
                        banner_after(e0[i].1, BannerEvent::ResetTimeout(now)),
                    )
            }),
            final(self).queue == old(self).queue,
            final(self).signals == old(self).signals,
    {
        self.handle_all(BannerEvent::ResetTimeout(now));
    }
}

/// The notifications kept out of a set of identifiers have identifiers outside it.
proof fn lemma_outside_ids(ns: Seq<Notification>, ids: Seq<u32>)
    ensures
        forall|i: int|
            0 <= i < with_ids(ns, ids, false).len() ==> !ids.contains(
                (#[trigger] with_ids(ns, ids, false)[i]).id,
            ),
    decreases ns.len(),
{
    if ns.len() > 0 {
        lemma_outside_ids(ns.drop_last(), ids);
        let prev = with_ids(ns.drop_last(), ids, false);
        assert forall|i: int|
            0 <= i < with_ids(ns, ids, false).len() implies !ids.contains(
                (#[trigger] with_ids(ns, ids, false)[i]).id,
            ) by {
            if i < prev.len() {
                assert(with_ids(ns, ids, false)[i] == prev[i]);
            }
        }
    }
}

/// Handling the queue never makes the window show more banners than the limit allows; where
/// it showed more already, no banner is added.
pub proof fn law_banner_limit(
    p0: Seq<Notification>,
    e0: Seq<(u32, Banner)>,
    p1: Seq<Notification>,
    e1: Seq<(u32, Banner)>,
    config: Config,
    now: u128,
)
    requires
        queue_processed(p0, e0, p1, e1, config, now),
    ensures
        e0.len() <= spec_effective_limit(config.general.limit) ==> e1.len() <= spec_effective_limit(
            config.general.limit,
        ),
        e0.len() > spec_effective_limit(config.general.limit) ==> e1.len() == e0.len(),
{
    let sorting = config.general.sorting;
    let waiting = with_ids(p0, keys(e0), false);
    let n = joining(e0.len(), config.general.limit, waiting.len());
    let r = refreshed(e0, with_ids(p0, keys(e0), true), now);
    let mid = choose|mid: Seq<(u32, Banner)>|
        #[trigger] stably_sorted(mid, r, sorting) && stably_sorted(
            e1,
            extended(mid, waiting.subrange(0, n), config, now),
            sorting,
        );
    lemma_refreshed_len(e0, with_ids(p0, keys(e0), true), now);
    let p = choose|p: Seq<int>| #[trigger] moved_by(mid, r, p) && forall|i: int, j: int|
        0 <= i < j < mid.len() && crate::config::sorting::sorting_order(
            sorting,
            mid[i].1.notification,
            mid[j].1.notification,
        ) == std::cmp::Ordering::Equal ==> p[i] < p[j];
    let x = extended(mid, waiting.subrange(0, n), config, now);
    let q = choose|q: Seq<int>| #[trigger] moved_by(e1, x, q) && forall|i: int, j: int|
        0 <= i < j < e1.len() && crate::config::sorting::sorting_order(
            sorting,
            e1[i].1.notification,
            e1[j].1.notification,
        ) == std::cmp::Ordering::Equal ==> q[i] < q[j];
    lemma_extended_len(mid, waiting.subrange(0, n), config, now);
}

/// Handling the queue takes out every waiting notification whose identifier has a banner,
/// whatever the limit: none is left waiting.
pub proof fn law_replacements_leave_queue(
    p0: Seq<Notification>,
    e0: Seq<(u32, Banner)>,
    p1: Seq<Notification>,
    e1: Seq<(u32, Banner)>,
    config: Config,
    now: u128,
)
    requires
        queue_processed(p0, e0, p1, e1, config, now),
    ensures
        forall|i: int| 0 <= i < p1.len() ==> !keys(e0).contains((#[trigger] p1[i]).id),
{
    let waiting = with_ids(p0, keys(e0), false);
    let n = joining(e0.len(), config.general.limit, waiting.len());
    lemma_outside_ids(p0, keys(e0));
    assert forall|i: int| 0 <= i < p1.len() implies !keys(e0).contains((#[trigger] p1[i]).id) by {
        assert(p1[i] == waiting[i + n]);
    }
}

/// A notification whose identifier is among `ids`, and that no later one with its
/// identifier follows, is among those taken out for `ids`, and none taken after it has its
/// identifier.
proof fn lemma_inside_ids_last(ns: Seq<Notification>, ids: Seq<u32>, j: int)
    requires
        0 <= j < ns.len(),
        ids.contains(ns[j].id),
        forall|k: int| j < k < ns.len() ==> (#[trigger] ns[k]).id != ns[j].id,
    ensures
        exists|t: int|
            0 <= t < with_ids(ns, ids, true).len() && #[trigger] with_ids(ns, ids, true)[t] == ns[j]
                && forall|u: int|
                t < u < with_ids(ns, ids, true).len() ==> (#[trigger] with_ids(ns, ids, true)[u]).id
                    != ns[j].id,
    decreases ns.len(),
{
    let d = ns.drop_last();
    let prev = with_ids(d, ids, true);
    let w = with_ids(ns, ids, true);
    let last = ns.last();
    if j == ns.len() - 1 {
        assert(w == prev.push(last));
        assert(w[prev.len() as int] == ns[j]);
    } else {
        assert forall|k: int| j < k < d.len() implies (#[trigger] d[k]).id != d[j].id by {
            assert(d[k] == ns[k]);
        }
        assert(d[j] == ns[j]);
        lemma_inside_ids_last(d, ids, j);
        let t = choose|t: int|
            0 <= t < prev.len() && #[trigger] prev[t] == ns[j] && forall|u: int|
                t < u < prev.len() ==> (#[trigger] prev[u]).id != ns[j].id;
        assert(ns[ns.len() - 1].id != ns[j].id);
        assert(w[t] == prev[t]);
        assert forall|u: int| t < u < w.len() implies (#[trigger] w[u]).id != ns[j].id by {
            if u < prev.len() {
                assert(w[u] == prev[u]);
            }
        }
    }
}

/// Handling the queue shows every waiting notification whose identifier has a banner in
/// that banner, whatever the limit, unless a later waiting notification replaces it.
pub proof fn law_replacement_shown(
    p0: Seq<Notification>,
    e0: Seq<(u32, Banner)>,
    p1: Seq<Notification>,
    e1: Seq<(u32, Banner)>,
    config: Config,
    now: u128,
    j: int,
)
    requires
        queue_processed(p0, e0, p1, e1, config, now),
        0 <= j < p0.len(),
        keys(e0).contains(p0[j].id),
        forall|k: int| j < k < p0.len() ==> (#[trigger] p0[k]).id != p0[j].id,
    ensures
        exists|i: int| 0 <= i < e1.len() && (#[trigger] e1[i]).0 == p0[j].id && e1[i].1.notification == p0[j],
{
    let sorting = config.general.sorting;
    let ids = keys(e0);
    let id = p0[j].id;
    let taken = with_ids(p0, ids, true);
    let waiting = with_ids(p0, ids, false);
    let n = joining(e0.len(), config.general.limit, waiting.len());
    let r = refreshed(e0, taken, now);

    lemma_inside_ids_last(p0, ids, j);
    let t = choose|t: int|
        0 <= t < taken.len() && #[trigger] taken[t] == p0[j] && forall|u: int|
            t < u < taken.len() ==> (#[trigger] taken[u]).id != p0[j].id;
    let k0 = choose|k: int| 0 <= k < ids.len() && ids[k] == id;
    assert(e0[k0].0 == id);
    crate::banner_stack::lemma_position_found(e0, id, k0);
    lemma_refreshed_shows(e0, taken, now, t);
    let i1 = choose|i: int| 0 <= i < r.len() && (#[trigger] r[i]).0 == id && r[i].1.notification == p0[j];

    let mid = choose|mid: Seq<(u32, Banner)>|
        #[trigger] stably_sorted(mid, r, sorting) && stably_sorted(
            e1,
            extended(mid, waiting.subrange(0, n), config, now),
            sorting,
        );
    let p = choose|p: Seq<int>| #[trigger] moved_by(mid, r, p) && forall|a: int, b: int|
        0 <= a < b < mid.len() && crate::config::sorting::sorting_order(
            sorting,
            mid[a].1.notification,
            mid[b].1.notification,
        ) == std::cmp::Ordering::Equal ==> p[a] < p[b];
    lemma_moved_keeps_entry(mid, r, p, i1);
    let i2 = choose|i: int| 0 <= i < mid.len() && #[trigger] mid[i] == r[i1];

    let tw = waiting.subrange(0, n);
    lemma_outside_ids(p0, ids);
    assert forall|k: int| 0 <= k < tw.len() implies (#[trigger] tw[k]).id != mid[i2].0 by {
        assert(tw[k] == waiting[k]);
        assert(!ids.contains(waiting[k].id));
        assert(ids[k0] == id);
    }
    lemma_extended_keeps(mid, tw, config, now, i2);
    let x = extended(mid, tw, config, now);
    let q = choose|q: Seq<int>| #[trigger] moved_by(e1, x, q) && forall|a: int, b: int|
        0 <= a < b < e1.len() && crate::config::sorting::sorting_order(
            sorting,
            e1[a].1.notification,
            e1[b].1.notification,
        ) == std::cmp::Ordering::Equal ==> q[a] < q[b];
    lemma_moved_keeps_entry(e1, x, q, i2);
}

} // verus!
