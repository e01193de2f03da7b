//! The banners of the window: one per notification, kept in an insertion-ordered map keyed
//! by notification identifier, in the order the sorting setting gives.
use vstd::prelude::*;

use indexmap::IndexMap;

use crate::actions::ClosingReason;
use crate::banners::{
    banner_timeout, max_of, stack_width, sum_of, total_height_with_gap, BannerPhase, BannerStatus,
    CloseStatus,
};
use crate::banners::{partition_by_ids, with_ids};
use crate::config::sorting::{sorting_order, Sorting};
use crate::config::Config;
use crate::notification::Notification;
use std::cmp::Ordering;

verus! {

// ---------------------------------------------------------------------------
// The map of banners, as indexmap gives it
// ---------------------------------------------------------------------------

#[verifier::external_type_specification]
#[verifier::external_body]
#[verifier::reject_recursive_types(K)]
#[verifier::reject_recursive_types(V)]
#[verifier::reject_recursive_types(S)]
pub struct ExIndexMap<K, V, S>(IndexMap<K, V, S>);

/// The entries of a map of banners, in its order.
pub uninterp spec fn banner_entries(m: IndexMap<u32, Banner>) -> Seq<(u32, Banner)>;

/// An empty map (`IndexMap::new`).
#[verifier::external_body]
fn map_new() -> (r: IndexMap<u32, Banner>)
    ensures
        banner_entries(r) == Seq::<(u32, Banner)>::empty(),
{
    IndexMap::new()
}

/// The number of entries (`IndexMap::len`).
#[verifier::external_body]
fn map_len(m: &IndexMap<u32, Banner>) -> (r: usize)
    ensures
        r == banner_entries(*m).len(),
{
    m.len()
}

/// The position of the entry of a key, where there is one (`IndexMap::get_index_of`).
#[verifier::external_body]
fn map_index_of(m: &IndexMap<u32, Banner>, key: u32) -> (r: Option<usize>)
    ensures
        match r {
            Some(i) => i < banner_entries(*m).len() && banner_entries(*m)[i as int].0 == key,
            None => forall|i: int|
                0 <= i < banner_entries(*m).len() ==> (#[trigger] banner_entries(*m)[i]).0 != key,
        },
{
    m.get_index_of(&key)
}

/// The value at a position (indexing by `usize`, which panics out of bounds).
#[verifier::external_body]
fn map_value_at(m: &IndexMap<u32, Banner>, i: usize) -> (r: &Banner)
    requires
        i < banner_entries(*m).len(),
    ensures
        *r == banner_entries(*m)[i as int].1,
{
    &m[i]
}

/// Inserts an entry (`IndexMap::insert`): the value of a key already there is replaced in
/// its place and the old value returned; a new key goes last.
#[verifier::external_body]
fn map_insert(m: &mut IndexMap<u32, Banner>, key: u32, value: Banner) -> (r: Option<Banner>)
    ensures
        forall|i: int|
            0 <= i < banner_entries(*old(m)).len() && (#[trigger] banner_entries(*old(m))[i]).0
                == key ==> r == Some(banner_entries(*old(m))[i].1) && banner_entries(*final(m))
                == banner_entries(*old(m)).update(i, (key, value)),
        (forall|i: int|
            0 <= i < banner_entries(*old(m)).len() ==> (#[trigger] banner_entries(*old(m))[i]).0
                != key) ==> r is None && banner_entries(*final(m)) == banner_entries(*old(m)).push(
            (key, value),
        ),
{
    m.insert(key, value)
}

/// Removes the entry at a position, shifting those after it
/// (`IndexMap::shift_remove_index`); nothing out of bounds.
#[verifier::external_body]
fn map_remove_at(m: &mut IndexMap<u32, Banner>, i: usize) -> (r: Option<(u32, Banner)>)
    ensures
        i < banner_entries(*old(m)).len() ==> r == Some(banner_entries(*old(m))[i as int])
            && banner_entries(*final(m)) == banner_entries(*old(m)).remove(i as int),
        i >= banner_entries(*old(m)).len() ==> r is None && banner_entries(*final(m))
            == banner_entries(*old(m)),
{
    m.shift_remove_index(i)
}

/// Inserts an entry at a position, shifting those from it on (`IndexMap::shift_insert`),
/// which panics past the end. What it does with a key already there (it moves that entry)
/// is not stated.
#[verifier::external_body]
fn map_insert_at(m: &mut IndexMap<u32, Banner>, index: usize, key: u32, value: Banner) -> (r: Option<Banner>)
    requires
        index <= banner_entries(*old(m)).len(),
        forall|i: int|
            0 <= i < banner_entries(*old(m)).len() && (#[trigger] banner_entries(*old(m))[i]).0
                == key ==> index < banner_entries(*old(m)).len(),
    ensures
        (forall|i: int|
            0 <= i < banner_entries(*old(m)).len() ==> (#[trigger] banner_entries(*old(m))[i]).0
                != key) ==> r is None && banner_entries(*final(m)) == banner_entries(
            *old(m),
        ).insert(index as int, (key, value)),
{
    m.shift_insert(index, key, value)
}

/// Whether `after` holds the entries of `before` as `p` moves them: position `i` of `after`
/// holds the entry at `p[i]` of `before`, no two positions hold the same one, and every entry
/// of `before` is held.
pub open spec fn moved_by(after: Seq<(u32, Banner)>, before: Seq<(u32, Banner)>, p: Seq<int>) -> bool {
    &&& p.len() == after.len()
    &&& after.len() == before.len()
    &&& forall|i: int| 0 <= i < p.len() ==> 0 <= #[trigger] p[i] < before.len() && after[i] == before[p[i]]
    &&& forall|i: int, j: int| 0 <= i < j < p.len() ==> p[i] != p[j]
    &&& forall|r: int| 0 <= r < before.len() ==> #[trigger] takes(p, r)
}

/// Whether some position takes the entry at `r`.
pub open spec fn takes(p: Seq<int>, r: int) -> bool {
    exists|i: int| 0 <= i < p.len() && p[i] == r
}

/// Whether `after` is `before` sorted stably by a sorting of the notifications: the entries
/// are moved, each comes no later than it should, and entries that compare equal keep their
/// order.
pub open spec fn stably_sorted(after: Seq<(u32, Banner)>, before: Seq<(u32, Banner)>, sorting: Sorting) -> bool {
    &&& forall|i: int, j: int|
        0 <= i < j < after.len() ==> sorting_order(sorting, after[i].1.notification, after[j].1.notification)
            != Ordering::Greater
    &&& exists|p: Seq<int>|
        #[trigger] moved_by(after, before, p) && forall|i: int, j: int|
            0 <= i < j < after.len() && sorting_order(sorting, after[i].1.notification, after[j].1.notification)
                == Ordering::Equal ==> p[i] < p[j]
}

/// Sorts the entries by their notifications (`IndexMap::sort_by`, a stable sort, with
/// [`Sorting::compare`] on the notifications).
#[verifier::external_body]
fn map_sort(m: &mut IndexMap<u32, Banner>, sorting: &Sorting)
    ensures
        stably_sorted(banner_entries(*final(m)), banner_entries(*old(m)), *sorting),
{
    m.sort_by(|_, a, _, b| sorting.compare(&a.notification, &b.notification))
}

// ---------------------------------------------------------------------------
// A banner
// ---------------------------------------------------------------------------

/// A notification on screen: the notification, the state its timeout acts on, when it was
/// shown (or its timeout last reset), in milliseconds of the caller's clock, and its size.
#[derive(Debug)]
pub struct Banner {
    pub notification: Notification,
    pub status: BannerStatus,
    pub shown_at: u128,
    pub width: usize,
    pub height: usize,
}

/// The banner that [`Banner::new`] makes.
pub open spec fn new_banner(notification: Notification, config: Config, now: u128) -> Banner {
    Banner {
        notification,
        status: BannerStatus {
            phase: BannerPhase::NotShown,
            visible: true,
            timeout: crate::config::display::timeout_for(
                config.app_display(notification.app_name@).timeout,
                notification.hints.urgency,
            ) as u128,
            close_status: CloseStatus::NotClosed,
        },
        shown_at: now,
        width: config.general.width as usize,
        height: config.general.height as usize,
    }
}

/// What can happen to a banner.
#[derive(Debug, Clone, Copy, PartialEq, Eq, Structural)]
pub enum BannerEvent {
    /// The clock reads the given time.
    Tick(u128),
    /// The timeout restarts at the given time.
    ResetTimeout(u128),
    /// The banner is closed for a reason.
    Close(ClosingReason),
    /// The banner became visible at the given time.
    Visible(u128),
    /// The banner became hidden.
    Hidden,
    /// The pointer is over the banner.
    Hover,
}

/// The time since `since` at `now`; a clock behind `since` counts as no time.
pub open spec fn elapsed(since: u128, now: u128) -> u128 {
    if now >= since {
        (now - since) as u128
    } else {
        0
    }
}

/// A banner after an event: a tick acts on the time since the banner was shown (see
/// [`crate::banners::spec_tick`]); a reset or the banner becoming visible restarts that time;
/// closing records the reason, a later one replacing an earlier one; becoming hidden makes
/// the banner done; the pointer over it keeps it visible.
pub open spec fn banner_after(b: Banner, event: BannerEvent) -> Banner {
    match event {
        BannerEvent::Tick(now) => Banner {
            status: crate::banners::spec_tick(b.status, elapsed(b.shown_at, now)),
            ..b
        },
        BannerEvent::ResetTimeout(now) => Banner { shown_at: now, ..b },
        BannerEvent::Close(reason) => Banner {
            status: BannerStatus { close_status: CloseStatus::Closed(reason), ..b.status },
            ..b
        },
        BannerEvent::Visible(now) => Banner {
            status: BannerStatus { phase: BannerPhase::Shown, ..b.status },
            shown_at: now,
            ..b
        },
        BannerEvent::Hidden => Banner {
            status: BannerStatus { phase: BannerPhase::Closed, ..b.status },
            ..b
        },
        BannerEvent::Hover => Banner { status: BannerStatus { visible: true, ..b.status }, ..b },
    }
}

/// A banner with new settings: the timeout of its application's display settings for its
/// urgency, and the banner size of the general settings.
pub open spec fn configured_banner(b: Banner, config: Config) -> Banner {
    Banner {
        status: BannerStatus {
            timeout: crate::config::display::timeout_for(
                config.app_display(b.notification.app_name@).timeout,
                b.notification.hints.urgency,
            ) as u128,
            ..b.status
        },
        width: config.general.width as usize,
        height: config.general.height as usize,
        ..b
    }
}

/// Whether a banner is to leave the stack: closed and done hiding.
pub open spec fn removable(b: Banner) -> bool {
    b.status.close_status is Closed && b.status.phase == BannerPhase::Closed
}

impl Banner {
    /// The banner of a notification, created at `now`: not shown yet, with the timeout of
    /// its application's display settings for its urgency, laid out at exactly the banner
    /// size of the general settings (see [`new_banner`]).
    pub fn new(notification: Notification, config: &Config, now: u128) -> (r: Banner)
        ensures
            r == new_banner(notification, *config, now),
    {
        let timeout = banner_timeout(config.display_by_app(notification.app_name.as_str()), &notification);
        Banner {
            notification,
            status: BannerStatus::new(timeout),
            shown_at: now,
            width: config.general.width as usize,
            height: config.general.height as usize,
        }
    }

    /// Closes the banner for a reason; a later reason replaces an earlier one.
    pub fn close(&mut self, closing_reason: ClosingReason)
        ensures
            *final(self) == banner_after(*old(self), BannerEvent::Close(closing_reason)),
    {
        self.status.close_status.close_with(closing_reason);
    }

    pub fn is_closed(&self) -> (r: bool)
        ensures
            r == (self.status.close_status is Closed),
    {
        self.status.close_status.is_closed()
    }

    /// Whether the banner is done hiding.
    pub fn is_finished(&self) -> (r: bool)
        ensures
            r == (self.status.phase == BannerPhase::Closed),
    {
        match self.status.phase {
            BannerPhase::Closed => true,
            _ => false,
        }
    }

    /// Restarts the timeout at `now`.
    pub fn reset_timeout(&mut self, now: u128)
        ensures
            *final(self) == banner_after(*old(self), BannerEvent::ResetTimeout(now)),
    {
        self.shown_at = now;
    }

    /// Shows another notification in the banner, and restarts its timeout at `now`.
    pub fn update_data(&mut self, notification: Notification, now: u128)
        ensures
            *final(self) == (Banner { notification, shown_at: now, ..*old(self) }),
    {
        self.notification = notification;
        self.reset_timeout(now);
    }

    /// Applies new settings (see [`configured_banner`]).
    pub fn update_config(&mut self, config: &Config)
        ensures
            *final(self) == configured_banner(*old(self), *config),
    {
        let timeout = banner_timeout(
            config.display_by_app(self.notification.app_name.as_str()),
            &self.notification,
        );
        self.status.timeout = timeout;
        self.width = config.general.width as usize;
        self.height = config.general.height as usize;
    }

    /// Acts on an event (see [`banner_after`]).
    pub fn handle(&mut self, event: BannerEvent)
        ensures
            *final(self) == banner_after(*old(self), event),
    {
        match event {
            BannerEvent::Tick(now) => {
                let since = if now >= self.shown_at {
                    now - self.shown_at
                } else {
                    0
                };
                self.status.tick(since);
            },
            BannerEvent::ResetTimeout(now) => self.reset_timeout(now),
            BannerEvent::Close(reason) => self.close(reason),
            BannerEvent::Visible(now) => {
                self.status.on_visible();
                self.shown_at = now;
            },
            BannerEvent::Hidden => self.status.on_hidden(),
            BannerEvent::Hover => self.status.on_hover(),
        }
    }
}

// ---------------------------------------------------------------------------
// The stack
// ---------------------------------------------------------------------------

/// Whether no key occurs twice.
pub open spec fn keys_distinct(s: Seq<(u32, Banner)>) -> bool {
    forall|i: int, j: int| 0 <= i < j < s.len() ==> s[i].0 != s[j].0
}

/// Whether each banner is keyed by the identifier of its notification.
pub open spec fn keyed_by_id(s: Seq<(u32, Banner)>) -> bool {
    forall|i: int| 0 <= i < s.len() ==> (#[trigger] s[i]).0 == s[i].1.notification.id
}

/// The widths of the banners.
pub open spec fn widths(s: Seq<(u32, Banner)>) -> Seq<usize> {
    s.map_values(|e: (u32, Banner)| e.1.width)
}

/// The heights of the banners.
pub open spec fn heights(s: Seq<(u32, Banner)>) -> Seq<usize> {
    s.map_values(|e: (u32, Banner)| e.1.height)
}

/// The room that banners of some heights take, with a gap between each two.
pub open spec fn height_with_gap(hs: Seq<usize>, gap: usize) -> int {
    sum_of(hs) + (if hs.len() > 0 {
        (hs.len() - 1) * gap
    } else {
        0
    })
}

/// The banners of a window, keyed by notification identifier, in the order they are shown.
#[derive(Debug)]
pub struct BannerStack {
    banners: IndexMap<u32, Banner>,
}

impl BannerStack {
    /// The banners with their keys, in order.
    pub closed spec fn entries(&self) -> Seq<(u32, Banner)> {
        banner_entries(self.banners)
    }

    #[verifier::type_invariant]
    closed spec fn inv(self) -> bool {
        keys_distinct(banner_entries(self.banners)) && keyed_by_id(banner_entries(self.banners))
    }

    pub fn new() -> (r: BannerStack)
        ensures
            r.entries() == Seq::<(u32, Banner)>::empty(),
    {
        BannerStack { banners: map_new() }
    }

    pub fn len(&self) -> (r: usize)
        ensures
            r == self.entries().len(),
    {
        map_len(&self.banners)
    }

    pub fn is_empty(&self) -> (r: bool)
        ensures
            r == (self.entries().len() == 0),
    {
        map_len(&self.banners) == 0
    }

    /// The banner of a notification, where there is one.
    pub fn get(&self, id: u32) -> (r: Option<&Banner>)
        ensures
            match r {
                Some(b) => exists|i: int|
                    0 <= i < self.entries().len() && (#[trigger] self.entries()[i]).0 == id
                        && *b == self.entries()[i].1,
                None => forall|i: int|
                    0 <= i < self.entries().len() ==> (#[trigger] self.entries()[i]).0 != id,
            },
    {
        match map_index_of(&self.banners, id) {
            Some(i) => {
                let b = map_value_at(&self.banners, i);
                assert(self.entries()[i as int].0 == id);
                Some(b)
            },
            None => None,
        }
    }

    /// The banners, in order.
    pub fn banners(&self) -> (r: Vec<&Banner>)
        ensures
            r@.len() == self.entries().len(),
            forall|i: int| 0 <= i < r@.len() ==> *r@[i] == (#[trigger] self.entries()[i]).1,
    {
        let n = map_len(&self.banners);
        let mut r: Vec<&Banner> = Vec::new();
        let mut i: usize = 0;
        while i < n
            invariant
                n == self.entries().len(),
                i <= n,
                r@.len() == i,
                forall|j: int| 0 <= j < i ==> *r@[j] == (#[trigger] self.entries()[j]).1,
            decreases n - i,
        {
            r.push(map_value_at(&self.banners, i));
            i = i + 1;
        }
        r
    }

    /// The widths of the banners, in order.
    fn collect_widths(&self) -> (r: Vec<usize>)
        ensures
            r@ == widths(self.entries()),
    {
        let n = map_len(&self.banners);
        let mut r: Vec<usize> = Vec::new();
        let mut i: usize = 0;
        while i < n
            invariant
                n == self.entries().len(),
                i <= n,
                r@ == widths(self.entries()).subrange(0, i as int),
            decreases n - i,
        {
            r.push(map_value_at(&self.banners, i).width);
            i = i + 1;
            assert(r@ =~= widths(self.entries()).subrange(0, i as int));
        }
        assert(widths(self.entries()).subrange(0, n as int) =~= widths(self.entries()));
        r
    }

    /// The heights of the banners, in order.
    fn collect_heights(&self) -> (r: Vec<usize>)
        ensures
            r@ == heights(self.entries()),
    {
        let n = map_len(&self.banners);
        let mut r: Vec<usize> = Vec::new();
        let mut i: usize = 0;
        while i < n
            invariant
                n == self.entries().len(),
                i <= n,
                r@ == heights(self.entries()).subrange(0, i as int),
            decreases n - i,
        {
            r.push(map_value_at(&self.banners, i).height);
            i = i + 1;
            assert(r@ =~= heights(self.entries()).subrange(0, i as int));
        }
        assert(heights(self.entries()).subrange(0, n as int) =~= heights(self.entries()));
        r
    }

    /// The width of the stack: that of the widest banner, 0 without banners.
    pub fn width(&self) -> (r: usize)
        ensures
            r == max_of(widths(self.entries())),
    {
        let ws = self.collect_widths();
        stack_width(ws.as_slice())
    }

    /// The sum of the banner heights.
    pub fn total_height(&self) -> (r: usize)
        requires
            sum_of(heights(self.entries())) <= usize::MAX,
        ensures
            r == sum_of(heights(self.entries())),
    {
        let hs = self.collect_heights();
        total_height_with_gap(hs.as_slice(), 0)
    }

    /// The sum of the banner heights with a gap between each two.
    pub fn total_height_with_gap(&self, gap: usize) -> (r: usize)
        requires
            height_with_gap(heights(self.entries()), gap) <= usize::MAX,
        ensures
            r == height_with_gap(heights(self.entries()), gap),
    {
        let hs = self.collect_heights();
        total_height_with_gap(hs.as_slice(), gap)
    }
}

proof fn lemma_remove_insert(q: Seq<(u32, Banner)>, i: int, e: (u32, Banner))
    requires
        0 <= i < q.len(),
    ensures
        q.remove(i).insert(i, e) == q.update(i, e),
{
    assert(q.remove(i).insert(i, e) =~= q.update(i, e));
}

/// Without the entry at `i`, its key is not in the map any more.
proof fn lemma_key_gone(q: Seq<(u32, Banner)>, i: int)
    requires
        0 <= i < q.len(),
        keys_distinct(q),
    ensures
        forall|j: int| 0 <= j < q.remove(i).len() ==> (#[trigger] q.remove(i)[j]).0 != q[i].0,
{
    assert forall|j: int| 0 <= j < q.remove(i).len() implies (#[trigger] q.remove(i)[j]).0 != q[i].0 by {
        if j < i {
            assert(q.remove(i)[j] == q[j]);
        } else {
            assert(q.remove(i)[j] == q[j + 1]);
        }
    }
}

/// Replacing an entry by one with the same key and a banner of the same notification
/// keeps the keys distinct and each banner under its notification's identifier.
proof fn lemma_update_keeps(q: Seq<(u32, Banner)>, i: int, e: (u32, Banner))
    requires
        0 <= i < q.len(),
        keys_distinct(q),
        keyed_by_id(q),
        e.0 == q[i].0,
        e.1.notification.id == e.0,
    ensures
        keys_distinct(q.update(i, e)),
        keyed_by_id(q.update(i, e)),
{
    let u = q.update(i, e);
    assert forall|a: int, b: int| 0 <= a < b < u.len() implies u[a].0 != u[b].0 by {
        assert(u[a].0 == q[a].0);
        assert(u[b].0 == q[b].0);
    }
    assert forall|a: int| 0 <= a < u.len() implies (#[trigger] u[a]).0 == u[a].1.notification.id by {
        if a != i {
            assert(u[a] == q[a]);
        }
    }
}

/// The banner at `i` acts on an event, in place.
fn handle_at(m: &mut IndexMap<u32, Banner>, i: usize, event: BannerEvent)
    requires
        i < banner_entries(*old(m)).len(),
        keys_distinct(banner_entries(*old(m))),
    ensures
        banner_entries(*final(m)) == banner_entries(*old(m)).update(
            i as int,
            (banner_entries(*old(m))[i as int].0, banner_after(banner_entries(*old(m))[i as int].1, event)),
        ),
{
    let ghost q = banner_entries(*m);
    proof {
        lemma_key_gone(q, i as int);
    }
    let (k, mut b) = map_remove_at(m, i).unwrap();
    b.handle(event);
    let ghost e = (k, b);
    map_insert_at(m, i, k, b);
    proof {
        lemma_remove_insert(q, i as int, e);
    }
}

/// The banners of the entries, those closed and done hiding taken out, in order.
pub open spec fn kept(s: Seq<(u32, Banner)>) -> Seq<(u32, Banner)>
    decreases s.len(),
{
    if s.len() == 0 {
        s
    } else if removable(s.last().1) {
        kept(s.drop_last())
    } else {
        kept(s.drop_last()).push(s.last())
    }
}

proof fn lemma_kept_len(s: Seq<(u32, Banner)>)
    ensures
        kept(s).len() <= s.len(),
    decreases s.len(),
{
    if s.len() > 0 {
        lemma_kept_len(s.drop_last());
    }
}

/// The reason a closed banner was closed for.
pub open spec fn close_reason(b: Banner) -> ClosingReason {
    b.status.close_status->0
}

/// The notifications of the banners closed and done hiding, with the reasons they were
/// closed for, in order.
pub open spec fn drained(s: Seq<(u32, Banner)>) -> Seq<(Notification, ClosingReason)>
    decreases s.len(),
{
    if s.len() == 0 {
        Seq::empty()
    } else if removable(s.last().1) {
        drained(s.drop_last()).push((s.last().1.notification, close_reason(s.last().1)))
    } else {
        drained(s.drop_last())
    }
}

/// Whether `ids` names the key of an entry.
pub open spec fn names(ids: Seq<u32>, key: u32) -> bool {
    exists|k: int| 0 <= k < ids.len() && ids[k] == key
}

/// Taking an entry out keeps the keys distinct and each banner under its notification's
/// identifier.
proof fn lemma_remove_keeps(q: Seq<(u32, Banner)>, i: int)
    requires
        0 <= i < q.len(),
        keys_distinct(q),
        keyed_by_id(q),
    ensures
        keys_distinct(q.remove(i)),
        keyed_by_id(q.remove(i)),
{
    let r = q.remove(i);
    assert forall|a: int, b: int| 0 <= a < b < r.len() implies r[a].0 != r[b].0 by {
        let qa = if a < i { a } else { a + 1 };
        let qb = if b < i { b } else { b + 1 };
        assert(r[a] == q[qa]);
        assert(r[b] == q[qb]);
    }
    assert forall|a: int| 0 <= a < r.len() implies (#[trigger] r[a]).0 == r[a].1.notification.id by {
        let qa = if a < i { a } else { a + 1 };
        assert(r[a] == q[qa]);
    }
}

impl BannerStack {
    /// The banner of a notification acts on an event (see [`banner_after`]); `false` where
    /// there is no such banner.
    pub fn handle(&mut self, id: u32, event: BannerEvent) -> (r: bool)
        ensures
            r == exists|i: int| 0 <= i < old(self).entries().len() && (#[trigger] old(self).entries()[i]).0 == id,
            final(self).entries().len() == old(self).entries().len(),
            forall|i: int|
                0 <= i < old(self).entries().len() ==> (#[trigger] final(self).entries()[i]) == if old(
                    self,
                ).entries()[i].0 == id {
                    (id, banner_after(old(self).entries()[i].1, event))
                } else {
                    old(self).entries()[i]
                },
    {
        proof {
            use_type_invariant(&*self);
        }
        let ghost q = banner_entries(self.banners);
        match map_index_of(&self.banners, id) {
            None => false,
            Some(i) => {
                let mut m = map_new();
                std::mem::swap(&mut m, &mut self.banners);
                handle_at(&mut m, i, event);
                proof {
                    lemma_update_keeps(q, i as int, (q[i as int].0, banner_after(q[i as int].1, event)));
                    assert forall|j: int| 0 <= j < q.len() && q[j].0 == id implies j == i by {
                        if j != i {
                            assert(q[j].0 != q[i as int].0);
                        }
                    }
                }
                self.banners = m;
                assert(q[i as int].0 == id);
                true
            },
        }
    }

    /// Every banner acts on an event (see [`banner_after`]).
    pub fn handle_all(&mut self, event: BannerEvent)
        ensures
            final(self).entries().len() == old(self).entries().len(),
            forall|i: int|
                0 <= i < old(self).entries().len() ==> (#[trigger] final(self).entries()[i]) == (
                old(self).entries()[i].0,
                banner_after(old(self).entries()[i].1, event),
            ),
    {
        proof {
            use_type_invariant(&*self);
        }
        let ghost q = banner_entries(self.banners);
        let mut m = map_new();
        std::mem::swap(&mut m, &mut self.banners);
        let n = map_len(&m);
        let mut i: usize = 0;
        while i < n
            invariant
                n == q.len(),
                i <= n,
                keys_distinct(q),
                keyed_by_id(q),
                banner_entries(m).len() == n,
                forall|j: int| 0 <= j < i ==> (#[trigger] banner_entries(m)[j]) == (q[j].0, banner_after(q[j].1, event)),
                forall|j: int| i <= j < n ==> (#[trigger] banner_entries(m)[j]) == q[j],
                keys_distinct(banner_entries(m)),
                keyed_by_id(banner_entries(m)),
            decreases n - i,
        {
            let ghost before = banner_entries(m);
            handle_at(&mut m, i, event);
            proof {
                lemma_update_keeps(before, i as int, (before[i as int].0, banner_after(before[i as int].1, event)));
            }
            i = i + 1;
        }
        self.banners = m;
    }

    /// Closes the banners of the notifications named, as the client asked
    /// (`CallCloseNotification`); identifiers without a banner are passed over.
    pub fn close_by_ids(&mut self, ids: &[u32])
        ensures
            final(self).entries().len() == old(self).entries().len(),
            forall|i: int|
                0 <= i < old(self).entries().len() ==> (#[trigger] final(self).entries()[i]) == if names(
                    ids@,
                    old(self).entries()[i].0,
                ) {
                    (
                        old(self).entries()[i].0,
                        banner_after(
                            old(self).entries()[i].1,
                            BannerEvent::Close(ClosingReason::CallCloseNotification),
                        ),
                    )
                } else {
                    old(self).entries()[i]
                },
    {
        let ghost q = self.entries();
        let ev = BannerEvent::Close(ClosingReason::CallCloseNotification);
        let mut k: usize = 0;
        while k < ids.len()
            invariant
                k <= ids@.len(),
                ev == BannerEvent::Close(ClosingReason::CallCloseNotification),
                self.entries().len() == q.len(),
                forall|i: int|
                    0 <= i < q.len() ==> (#[trigger] self.entries()[i]) == if names(
                        ids@.subrange(0, k as int),
                        q[i].0,
                    ) {
                        (q[i].0, banner_after(q[i].1, ev))
                    } else {
                        q[i]
                    },
            decreases ids@.len() - k,
        {
            let ghost before = self.entries();
            let id = ids[k];
            self.handle(id, ev);
            proof {
                assert forall|i: int| 0 <= i < q.len() implies (#[trigger] self.entries()[i]) == if names(
                    ids@.subrange(0, k + 1),
                    q[i].0,
                ) {
                    (q[i].0, banner_after(q[i].1, ev))
                } else {
                    q[i]
                } by {
                    let prev = ids@.subrange(0, k as int);
                    let next = ids@.subrange(0, k + 1);
                    assert(next[k as int] == id);
                    if names(prev, q[i].0) {
                        let w = choose|w: int| 0 <= w < prev.len() && prev[w] == q[i].0;
                        assert(next[w] == prev[w]);
                    }
                    if names(next, q[i].0) && !names(prev, q[i].0) {
                        let w = choose|w: int| 0 <= w < next.len() && next[w] == q[i].0;
                        if w < k {
                            assert(prev[w] == next[w]);
                        }
                    }
                }
            }
            k = k + 1;
        }
        assert(ids@.subrange(0, ids@.len() as int) =~= ids@);
    }

    /// Takes out the banners closed and done hiding: their notifications, with the reasons
    /// they were closed for, in order; the other banners stay, in order.
    pub fn remove_closed(&mut self) -> (r: Vec<(Notification, ClosingReason)>)
        ensures
            final(self).entries() == kept(old(self).entries()),
            r@ == drained(old(self).entries()),
    {
        proof {
            use_type_invariant(&*self);
        }
        let ghost q = banner_entries(self.banners);
        let mut m = map_new();
        std::mem::swap(&mut m, &mut self.banners);
        let n = map_len(&m);
        let mut out: Vec<(Notification, ClosingReason)> = Vec::new();
        let mut i: usize = 0;
        let mut p: usize = 0;
        while p < n
            invariant
                n == q.len(),
                p <= n,
                keys_distinct(banner_entries(m)),
                keyed_by_id(banner_entries(m)),
                banner_entries(m) == kept(q.subrange(0, p as int)) + q.subrange(p as int, n as int),
                i == kept(q.subrange(0, p as int)).len(),
                out@ == drained(q.subrange(0, p as int)),
            decreases n - p,
        {
            let ghost m0 = banner_entries(m);
            let ghost pre = q.subrange(0, p as int);
            let ghost next = q.subrange(0, p + 1);
            proof {
                assert(next.drop_last() =~= pre);
                assert(next.last() == q[p as int]);
                assert(m0[i as int] == q[p as int]);
            }
            proof {
                lemma_kept_len(pre);
            }
            let b = map_value_at(&m, i);
            if b.is_closed() && b.is_finished() {
                proof {
                    lemma_remove_keeps(m0, i as int);
                }
                let (_, banner) = map_remove_at(&mut m, i).unwrap();
                let Banner { notification, status, .. } = banner;
                let reason = status.close_status.into_reason().unwrap();
                out.push((notification, reason));
                proof {
                    assert(banner_entries(m) =~= kept(next) + q.subrange(p + 1, n as int));
                }
            } else {
                i = i + 1;
                proof {
                    assert(kept(next) == kept(pre).push(q[p as int]));
                    assert(banner_entries(m) =~= kept(next) + q.subrange(p + 1, n as int));
                }
            }
            p = p + 1;
        }
        proof {
            assert(q.subrange(0, n as int) =~= q);
            assert(q.subrange(n as int, n as int) =~= Seq::<(u32, Banner)>::empty());
            assert(banner_entries(m) =~= kept(q));
        }
        self.banners = m;
        out
    }
}

/// The position of the entry of a key: the last one with it, -1 where there is none.
pub open spec fn position(s: Seq<(u32, Banner)>, key: u32) -> int
    decreases s.len(),
{
    if s.len() == 0 {
        -1
    } else if s.last().0 == key {
        s.len() - 1
    } else {
        position(s.drop_last(), key)
    }
}

proof fn lemma_position(s: Seq<(u32, Banner)>, key: u32)
    ensures
        -1 <= position(s, key) < s.len(),
        position(s, key) >= 0 ==> s[position(s, key)].0 == key,
        position(s, key) == -1 <==> forall|i: int| 0 <= i < s.len() ==> (#[trigger] s[i]).0 != key,
        keys_distinct(s) ==> forall|i: int| 0 <= i < s.len() && (#[trigger] s[i]).0 == key ==> i == position(s, key),
    decreases s.len(),
{
    if s.len() > 0 {
        let d = s.drop_last();
        let n = s.len() - 1;
        lemma_position(d, key);
        assert forall|i: int| 0 <= i < n implies (#[trigger] d[i]) == s[i] by {}
        if s.last().0 == key {
            assert(s[n].0 == key);
            if keys_distinct(s) {
                assert forall|i: int| 0 <= i < s.len() && (#[trigger] s[i]).0 == key implies i == n by {
                    if i < n {
                        assert(s[i].0 != s[n].0);
                    }
                }
            }
        } else {
            assert(s[n].0 != key);
            if position(d, key) == -1 {
                assert forall|i: int| 0 <= i < s.len() implies (#[trigger] s[i]).0 != key by {
                    if i < n {
                        assert(d[i] == s[i]);
                    }
                }
            } else {
                assert(d[position(d, key)] == s[position(d, key)]);
            }
            if keys_distinct(s) {
                assert(keys_distinct(d)) by {
                    assert forall|a: int, b: int| 0 <= a < b < d.len() implies d[a].0 != d[b].0 by {
                        assert(d[a] == s[a]);
                        assert(d[b] == s[b]);
                    }
                }
                assert forall|i: int| 0 <= i < s.len() && (#[trigger] s[i]).0 == key implies i == position(s, key) by {
                    assert(i < n);
                    assert(d[i] == s[i]);
                }
            }
        }
    }
}

/// The entries with a banner put under a key: it replaces the banner of that key in its
/// place, or comes last.
pub open spec fn put(s: Seq<(u32, Banner)>, key: u32, b: Banner) -> Seq<(u32, Banner)> {
    if position(s, key) >= 0 {
        s.update(position(s, key), (key, b))
    } else {
        s.push((key, b))
    }
}

/// The entries with a banner made at `now` put for each notification in turn.
pub open spec fn extended(s: Seq<(u32, Banner)>, ns: Seq<Notification>, config: Config, now: u128) -> Seq<(u32, Banner)>
    decreases ns.len(),
{
    if ns.len() == 0 {
        s
    } else {
        let prev = extended(s, ns.drop_last(), config, now);
        put(prev, ns.last().id, new_banner(ns.last(), config, now))
    }
}

/// The entries with each notification in turn shown in the banner of its identifier, whose
/// timeout restarts at `now`; a notification without a banner changes nothing.
pub open spec fn refreshed(s: Seq<(u32, Banner)>, ns: Seq<Notification>, now: u128) -> Seq<(u32, Banner)>
    decreases ns.len(),
{
    if ns.len() == 0 {
        s
    } else {
        let prev = refreshed(s, ns.drop_last(), now);
        let i = position(prev, ns.last().id);
        if i >= 0 {
            prev.update(i, (prev[i].0, Banner { notification: ns.last(), shown_at: now, ..prev[i].1 }))
        } else {
            prev
        }
    }
}

/// Adding banners for some notifications adds at most one banner per notification.
pub(crate) proof fn lemma_extended_len(s: Seq<(u32, Banner)>, ns: Seq<Notification>, config: Config, now: u128)
    ensures
        s.len() <= extended(s, ns, config, now).len() <= s.len() + ns.len(),
    decreases ns.len(),
{
    if ns.len() > 0 {
        lemma_extended_len(s, ns.drop_last(), config, now);
        lemma_position(extended(s, ns.drop_last(), config, now), ns.last().id);
    }
}

/// Refreshing banners keeps their number.
pub(crate) proof fn lemma_refreshed_len(s: Seq<(u32, Banner)>, ns: Seq<Notification>, now: u128)
    ensures
        refreshed(s, ns, now).len() == s.len(),
    decreases ns.len(),
{
    if ns.len() > 0 {
        lemma_refreshed_len(s, ns.drop_last(), now);
        lemma_position(refreshed(s, ns.drop_last(), now), ns.last().id);
    }
}

/// The keys of the entries.
pub open spec fn keys(s: Seq<(u32, Banner)>) -> Seq<u32> {
    s.map_values(|e: (u32, Banner)| e.0)
}

/// Moving the entries keeps the keys distinct and each banner under its notification's
/// identifier.
proof fn lemma_moved_keeps(after: Seq<(u32, Banner)>, before: Seq<(u32, Banner)>, p: Seq<int>)
    requires
        moved_by(after, before, p),
        keys_distinct(before),
        keyed_by_id(before),
    ensures
        keys_distinct(after),
        keyed_by_id(after),
{
    assert forall|i: int, j: int| 0 <= i < j < after.len() implies after[i].0 != after[j].0 by {
        assert(after[i] == before[p[i]]);
        assert(after[j] == before[p[j]]);
        assert(p[i] != p[j]);
        if p[i] < p[j] {
        } else {
        }
    }
    assert forall|i: int| 0 <= i < after.len() implies (#[trigger] after[i]).0 == after[i].1.notification.id by {
        assert(after[i] == before[p[i]]);
    }
}

/// Adding a banner under its notification's identifier keeps the keys distinct and each
/// banner under its notification's identifier.
proof fn lemma_put_keeps(s: Seq<(u32, Banner)>, b: Banner)
    requires
        keys_distinct(s),
        keyed_by_id(s),
    ensures
        keys_distinct(put(s, b.notification.id, b)),
        keyed_by_id(put(s, b.notification.id, b)),
{
    let k = b.notification.id;
    lemma_position(s, k);
    if position(s, k) >= 0 {
        lemma_update_keeps(s, position(s, k), (k, b));
    } else {
        let r = s.push((k, b));
        assert forall|i: int, j: int| 0 <= i < j < r.len() implies r[i].0 != r[j].0 by {
            if j == s.len() {
                assert(r[i] == s[i]);
            } else {
                assert(r[i] == s[i]);
                assert(r[j] == s[j]);
            }
        }
        assert forall|i: int| 0 <= i < r.len() implies (#[trigger] r[i]).0 == r[i].1.notification.id by {
            if i < s.len() {
                assert(r[i] == s[i]);
            }
        }
    }
}

impl BannerStack {
    /// The identifiers of the notifications shown, in order.
    pub fn ids(&self) -> (r: Vec<u32>)
        ensures
            r@ == keys(self.entries()),
    {
        let n = map_len(&self.banners);
        let mut r: Vec<u32> = Vec::new();
        let mut i: usize = 0;
        while i < n
            invariant
                n == self.entries().len(),
                i <= n,
                r@ == keys(self.entries()).subrange(0, i as int),
            decreases n - i,
        {
            let b = map_value_at(&self.banners, i);
            proof {
                use_type_invariant(&*self);
            }
            r.push(b.notification.id);
            i = i + 1;
            assert(r@ =~= keys(self.entries()).subrange(0, i as int));
        }
        assert(keys(self.entries()).subrange(0, n as int) =~= keys(self.entries()));
        r
    }

    /// Sorts the banners by the sorting setting.
    fn sort_by_config(&mut self, sorting: &Sorting)
        ensures
            stably_sorted(final(self).entries(), old(self).entries(), *sorting),
    {
        proof {
            use_type_invariant(&*self);
        }
        let ghost q = banner_entries(self.banners);
        let mut m = map_new();
        std::mem::swap(&mut m, &mut self.banners);
        map_sort(&mut m, sorting);
        proof {
            let p = choose|p: Seq<int>| #[trigger] moved_by(banner_entries(m), q, p) && forall|i: int, j: int|
                0 <= i < j < banner_entries(m).len() && sorting_order(*sorting, banner_entries(m)[i].1.notification, banner_entries(m)[j].1.notification)
                    == Ordering::Equal ==> p[i] < p[j];
            lemma_moved_keeps(banner_entries(m), q, p);
        }
        self.banners = m;
    }

    /// Adds a banner made at `now` for each notification, in order: one whose identifier has
    /// a banner already replaces it in its place, any other comes last; then the banners are
    /// sorted by the sorting setting.
    pub fn extend_from(&mut self, notifications: Vec<Notification>, config: &Config, now: u128)
        ensures
            stably_sorted(
                final(self).entries(),
                extended(old(self).entries(), notifications@, *config, now),
                config.general.sorting,
            ),
    {
        proof {
            use_type_invariant(&*self);
        }
        let ghost q = banner_entries(self.banners);
        let ghost all = notifications@;
        let mut m = map_new();
        std::mem::swap(&mut m, &mut self.banners);
        assert(all.len() == notifications.len());
        let mut rest = notifications;
        let mut k: usize = 0;
        while rest.len() > 0
            invariant
                all.len() <= usize::MAX,
                k + rest@.len() == all.len(),
                rest@ == all.subrange(k as int, all.len() as int),
                banner_entries(m) == extended(q, all.subrange(0, k as int), *config, now),
                keys_distinct(banner_entries(m)),
                keyed_by_id(banner_entries(m)),
            decreases rest@.len(),
        {
            let n = rest.remove(0);
            assert(n == all[k as int]);
            assert(all.subrange(0, k + 1).drop_last() =~= all.subrange(0, k as int));
            let ghost before = banner_entries(m);
            let id = n.id;
            let b = Banner::new(n, config, now);
            proof {
                lemma_position(before, id);
                lemma_put_keeps(before, b);
            }
            map_insert(&mut m, id, b);
            k = k + 1;
            assert(rest@ =~= all.subrange(k as int, all.len() as int));
        }
        assert(all.subrange(0, k as int) =~= all);
        self.banners = m;
        self.sort_by_config(&config.general.sorting);
    }

    /// Takes out of `notifications` those whose identifier has a banner, in order, and shows
    /// each in that banner, whose timeout restarts at `now`; the others stay, in order. Then
    /// the banners are sorted by the sorting setting.
    pub fn replace_by_keys(&mut self, notifications: &mut Vec<Notification>, config: &Config, now: u128)
        ensures
            final(notifications)@ == with_ids(old(notifications)@, keys(old(self).entries()), false),
            stably_sorted(
                final(self).entries(),
                refreshed(old(self).entries(), with_ids(old(notifications)@, keys(old(self).entries()), true), now),
                config.general.sorting,
            ),
    {
        let ids = self.ids();
        let mut pending: Vec<Notification> = Vec::new();
        std::mem::swap(&mut pending, notifications);
        let (taken, left) = partition_by_ids(pending, ids.as_slice());
        *notifications = left;
        proof {
            use_type_invariant(&*self);
        }
        let ghost q = banner_entries(self.banners);
        let ghost all = taken@;
        let mut m = map_new();
        std::mem::swap(&mut m, &mut self.banners);
        assert(all.len() == taken.len());
        let mut rest = taken;
        let mut k: usize = 0;
        while rest.len() > 0
            invariant
                all.len() <= usize::MAX,
                k + rest@.len() == all.len(),
                rest@ == all.subrange(k as int, all.len() as int),
                banner_entries(m) == refreshed(q, all.subrange(0, k as int), now),
                keys_distinct(banner_entries(m)),
                keyed_by_id(banner_entries(m)),
            decreases rest@.len(),
        {
            let n = rest.remove(0);
            assert(n == all[k as int]);
            assert(all.subrange(0, k + 1).drop_last() =~= all.subrange(0, k as int));
            let ghost before = banner_entries(m);
            proof {
                lemma_position(before, n.id);
            }
            match map_index_of(&m, n.id) {
                Some(i) => {
                    proof {
                        lemma_key_gone(before, i as int);
                    }
                    let (key, mut b) = map_remove_at(&mut m, i).unwrap();
                    b.update_data(n, now);
                    let ghost e = (key, b);
                    map_insert_at(&mut m, i, key, b);
                    proof {
                        lemma_remove_insert(before, i as int, e);
                        lemma_update_keeps(before, i as int, e);
                    }
                },
                None => {},
            }
            k = k + 1;
            assert(rest@ =~= all.subrange(k as int, all.len() as int));
        }
        assert(all.subrange(0, k as int) =~= all);
        self.banners = m;
        self.sort_by_config(&config.general.sorting);
    }

    /// Applies new settings to every banner (see [`configured_banner`]), then sorts the
    /// banners by the sorting setting.
    pub fn configure(&mut self, config: &Config)
        ensures
            stably_sorted(
                final(self).entries(),
                old(self).entries().map_values(|e: (u32, Banner)| (e.0, configured_banner(e.1, *config))),
                config.general.sorting,
            ),
    {
        proof {
            use_type_invariant(&*self);
        }
        let ghost q = banner_entries(self.banners);
        let ghost target = q.map_values(|e: (u32, Banner)| (e.0, configured_banner(e.1, *config)));
        let mut m = map_new();
        std::mem::swap(&mut m, &mut self.banners);
        let n = map_len(&m);
        let mut i: usize = 0;
        while i < n
            invariant
                n == q.len(),
                i <= n,
                target == q.map_values(|e: (u32, Banner)| (e.0, configured_banner(e.1, *config))),
                banner_entries(m).len() == n,
                forall|j: int| 0 <= j < i ==> (#[trigger] banner_entries(m)[j]) == target[j],
                forall|j: int| i <= j < n ==> (#[trigger] banner_entries(m)[j]) == q[j],
                keys_distinct(banner_entries(m)),
                keyed_by_id(banner_entries(m)),
            decreases n - i,
        {
            let ghost before = banner_entries(m);
            proof {
                lemma_key_gone(before, i as int);
            }
            let (key, mut b) = map_remove_at(&mut m, i).unwrap();
            b.update_config(config);
            let ghost e = (key, b);
            map_insert_at(&mut m, i, key, b);
            proof {
                lemma_remove_insert(before, i as int, e);
                lemma_update_keeps(before, i as int, e);
            }
            i = i + 1;
        }
        assert(banner_entries(m) =~= target);
        self.banners = m;
        self.sort_by_config(&config.general.sorting);
    }
}

/// Taking out the closed banners leaves none that is closed and done hiding, and every banner
/// either stays or has its notification handed out.
pub proof fn law_remove_closed_leaves_none(s: Seq<(u32, Banner)>)
    ensures
        forall|i: int| 0 <= i < kept(s).len() ==> !removable(#[trigger] kept(s)[i].1),
        kept(s).len() + drained(s).len() == s.len(),
    decreases s.len(),
{
    if s.len() > 0 {
        law_remove_closed_leaves_none(s.drop_last());
        let k = kept(s.drop_last());
        if !removable(s.last().1) {
            assert forall|i: int| 0 <= i < kept(s).len() implies !removable(#[trigger] kept(s)[i].1) by {
                if i < k.len() {
                    assert(kept(s)[i] == k[i]);
                }
            }
        }
    }
}

/// After banners are added for some notifications, each notification that no later one
/// replaces is shown in a fresh banner under its identifier.
pub proof fn law_extend_shows_each(s: Seq<(u32, Banner)>, ns: Seq<Notification>, config: Config, now: u128, j: int)
    requires
        0 <= j < ns.len(),
        forall|k: int| j < k < ns.len() ==> (#[trigger] ns[k]).id != ns[j].id,
    ensures
        exists|i: int|
            0 <= i < extended(s, ns, config, now).len() && #[trigger] extended(s, ns, config, now)[i]
                == (ns[j].id, new_banner(ns[j], config, now)),
    decreases ns.len(),
{
    let prev = extended(s, ns.drop_last(), config, now);
    let last = ns.last();
    let e = extended(s, ns, config, now);
    lemma_position(prev, last.id);
    if j == ns.len() - 1 {
        if position(prev, last.id) >= 0 {
            assert(e[position(prev, last.id)] == (last.id, new_banner(last, config, now)));
        } else {
            assert(e[prev.len() as int] == (last.id, new_banner(last, config, now)));
        }
    } else {
        assert forall|k: int| j < k < ns.drop_last().len() implies (#[trigger] ns.drop_last()[k]).id != ns.drop_last()[j].id by {
            assert(ns.drop_last()[k] == ns[k]);
        }
        law_extend_shows_each(s, ns.drop_last(), config, now, j);
        assert(ns.drop_last()[j] == ns[j]);
        let i = choose|i: int| 0 <= i < prev.len() && #[trigger] prev[i] == (ns[j].id, new_banner(ns[j], config, now));
        assert(ns[ns.len() - 1].id != ns[j].id);
        if position(prev, last.id) >= 0 {
            assert(i != position(prev, last.id));
            assert(e[i] == prev[i]);
        } else {
            assert(e[i] == prev[i]);
        }
    }
}

/// A key that an entry has has a position.
pub(crate) proof fn lemma_position_found(s: Seq<(u32, Banner)>, key: u32, k: int)
    requires
        0 <= k < s.len(),
        s[k].0 == key,
    ensures
        position(s, key) >= 0,
{
    lemma_position(s, key);
}

/// Where two sequences of entries have the same keys, a key has the same position in both.
proof fn lemma_same_keys_position(x: Seq<(u32, Banner)>, y: Seq<(u32, Banner)>, key: u32)
    requires
        x.len() == y.len(),
        forall|i: int| 0 <= i < x.len() ==> (#[trigger] x[i]).0 == y[i].0,
    ensures
        position(x, key) == position(y, key),
    decreases x.len(),
{
    if x.len() > 0 {
        let n = x.len() - 1;
        assert(x.last().0 == y.last().0) by {
            assert(x[n].0 == y[n].0);
        }
        assert forall|i: int| 0 <= i < x.drop_last().len() implies (#[trigger] x.drop_last()[i]).0
            == y.drop_last()[i].0 by {
            assert(x[i].0 == y[i].0);
        }
        lemma_same_keys_position(x.drop_last(), y.drop_last(), key);
    }
}

/// Refreshing banners keeps their keys in place.
pub(crate) proof fn lemma_refreshed_keys(s: Seq<(u32, Banner)>, ns: Seq<Notification>, now: u128)
    ensures
        refreshed(s, ns, now).len() == s.len(),
        forall|i: int| 0 <= i < s.len() ==> (#[trigger] refreshed(s, ns, now)[i]).0 == s[i].0,
    decreases ns.len(),
{
    if ns.len() > 0 {
        lemma_refreshed_keys(s, ns.drop_last(), now);
        let prev = refreshed(s, ns.drop_last(), now);
        lemma_position(prev, ns.last().id);
        let r = refreshed(s, ns, now);
        assert forall|i: int| 0 <= i < s.len() implies (#[trigger] r[i]).0 == s[i].0 by {
            assert(prev[i].0 == s[i].0);
        }
    }
}

/// After banners are refreshed with some notifications, each notification whose identifier
/// has a banner, and that no later one replaces, is shown in that banner.
pub(crate) proof fn lemma_refreshed_shows(s: Seq<(u32, Banner)>, ns: Seq<Notification>, now: u128, j: int)
    requires
        0 <= j < ns.len(),
        forall|k: int| j < k < ns.len() ==> (#[trigger] ns[k]).id != ns[j].id,
        position(s, ns[j].id) >= 0,
    ensures
        exists|i: int|
            0 <= i < refreshed(s, ns, now).len() && (#[trigger] refreshed(s, ns, now)[i]).0 == ns[j].id
                && refreshed(s, ns, now)[i].1.notification == ns[j],
    decreases ns.len(),
{
    let d = ns.drop_last();
    let prev = refreshed(s, d, now);
    let last = ns.last();
    let r = refreshed(s, ns, now);
    lemma_refreshed_keys(s, d, now);
    lemma_position(prev, last.id);
    if j == ns.len() - 1 {
        lemma_same_keys_position(prev, s, last.id);
        let i = position(prev, last.id);
        lemma_position(s, last.id);
        assert(r[i].0 == last.id);
        assert(r[i].1.notification == last);
    } else {
        assert forall|k: int| j < k < d.len() implies (#[trigger] d[k]).id != d[j].id by {
            assert(d[k] == ns[k]);
        }
        assert(d[j] == ns[j]);
        lemma_refreshed_shows(s, d, now, j);
        let i = choose|i: int|
            0 <= i < prev.len() && (#[trigger] prev[i]).0 == ns[j].id && prev[i].1.notification == ns[j];
        assert(ns[ns.len() - 1].id != ns[j].id);
        if position(prev, last.id) >= 0 {
            assert(position(prev, last.id) != i);
        }
        assert(r[i] == prev[i]);
    }
}

/// Adding banners for notifications whose identifiers differ from the key of an entry leaves
/// that entry in its place.
pub(crate) proof fn lemma_extended_keeps(s: Seq<(u32, Banner)>, ns: Seq<Notification>, config: Config, now: u128, i0: int)
    requires
        0 <= i0 < s.len(),
        forall|k: int| 0 <= k < ns.len() ==> (#[trigger] ns[k]).id != s[i0].0,
    ensures
        i0 < extended(s, ns, config, now).len(),
        extended(s, ns, config, now)[i0] == s[i0],
    decreases ns.len(),
{
    if ns.len() > 0 {
        let d = ns.drop_last();
        assert forall|k: int| 0 <= k < d.len() implies (#[trigger] d[k]).id != s[i0].0 by {
            assert(d[k] == ns[k]);
        }
        lemma_extended_keeps(s, d, config, now, i0);
        let prev = extended(s, d, config, now);
        lemma_position(prev, ns.last().id);
        assert(ns[ns.len() - 1].id != s[i0].0);
        if position(prev, ns.last().id) >= 0 {
            assert(position(prev, ns.last().id) != i0);
        }
    }
}

/// Moving entries loses none: each entry of `before` is somewhere in `after`.
pub(crate) proof fn lemma_moved_keeps_entry(after: Seq<(u32, Banner)>, before: Seq<(u32, Banner)>, p: Seq<int>, r: int)
    requires
        moved_by(after, before, p),
        0 <= r < before.len(),
    ensures
        exists|i: int| 0 <= i < after.len() && #[trigger] after[i] == before[r],
{
    assert(takes(p, r));
    let i = choose|i: int| 0 <= i < p.len() && p[i] == r;
    assert(after[i] == before[p[i]]);
}

} // verus!
