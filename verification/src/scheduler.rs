//! Notifications scheduled for later: when a schedule string says they are due, and the
//! queue that hands them out, earliest first, once they are due.
//!
//! Instants are seconds and nanoseconds since the Unix epoch, in UTC; they are ordered as
//! pairs, seconds first.
use vstd::prelude::*;

use crate::config::general::{duration_of, read_duration};
use crate::notification::ScheduledNotification;

verus! {

// ---------------------------------------------------------------------------
// Time, as chrono gives it
// ---------------------------------------------------------------------------

/// The current instant, from `chrono::Utc::now`. Nothing is claimed of it.
#[verifier::external_body]
fn utc_now() -> (r: (i64, u32)) {
    let now = chrono::Utc::now();
    (now.timestamp(), now.timestamp_subsec_nanos())
}

/// What `DateTime::checked_add_signed` gives for an instant and a duration (after
/// `TimeDelta::from_std`); `None` where either is out of chrono's range.
pub uninterp spec fn spec_add_duration(at: (i64, u32), d: (u64, u32)) -> Option<(i64, u32)>;

/// The instant a duration after `at`, computed by chrono (`DateTime::from_timestamp`,
/// `TimeDelta::from_std` and `DateTime::checked_add_signed`); claims only that the result is
/// the one named `spec_add_duration`. `Duration::new` panics where the nanoseconds carry
/// into seconds past `u64::MAX`, so it is only handed nanoseconds under a second.
#[verifier::external_body]
fn add_duration(at: (i64, u32), d: (u64, u32)) -> (r: Option<(i64, u32)>)
    requires
        d.1 < 1_000_000_000,
    ensures
        r == spec_add_duration(at, d),
{
    let start = chrono::DateTime::from_timestamp(at.0, at.1)?;
    let delta = chrono::TimeDelta::from_std(std::time::Duration::new(d.0, d.1)).ok()?;
    let end = start.checked_add_signed(delta)?;
    Some((end.timestamp(), end.timestamp_subsec_nanos()))
}

/// What `NaiveDateTime::parse_from_str` reads from a text in a format, as the seconds and
/// nanoseconds it would be at in UTC.
pub uninterp spec fn spec_parse_naive_datetime(s: Seq<char>, format: Seq<char>) -> Option<(i64, u32)>;

/// Reads a date and time of day with `NaiveDateTime::parse_from_str`; claims only that the
/// result is the one named `spec_parse_naive_datetime`.
#[verifier::external_body]
fn parse_naive_datetime(s: &str, format: &str) -> (r: Option<(i64, u32)>)
    ensures
        r == spec_parse_naive_datetime(s@, format@),
{
    let parsed = chrono::NaiveDateTime::parse_from_str(s, format).ok()?.and_utc();
    Some((parsed.timestamp(), parsed.timestamp_subsec_nanos()))
}

/// What `NaiveTime::parse_from_str` reads from a text in a format: the seconds since
/// midnight and the nanoseconds.
pub uninterp spec fn spec_parse_naive_time(s: Seq<char>, format: Seq<char>) -> Option<(u32, u32)>;

/// Reads a time of day with `NaiveTime::parse_from_str`; claims only that the result is the
/// one named `spec_parse_naive_time`.
#[verifier::external_body]
fn parse_naive_time(s: &str, format: &str) -> (r: Option<(u32, u32)>)
    ensures
        r == spec_parse_naive_time(s@, format@),
{
    let parsed = chrono::NaiveTime::parse_from_str(s, format).ok()?;
    Some((chrono::Timelike::num_seconds_from_midnight(&parsed), chrono::Timelike::nanosecond(&parsed)))
}

/// The midnight that starts today's local date (`Local::now().date_naive()`), as seconds
/// as if it were in UTC. Which day it is depends on the clock; what is claimed is that it is
/// a midnight: a date at the start of its day is a whole number of days from the epoch.
#[verifier::external_body]
fn local_today() -> (r: i64)
    ensures
        r % 86_400 == 0,
{
    chrono::Local::now().date_naive().and_time(chrono::NaiveTime::MIN).and_utc().timestamp()
}

/// Whether an instant is a local date and time moved by an offset from UTC: whole seconds
/// less than a day either way, the nanoseconds unchanged.
pub open spec fn within_a_day(at: (i64, u32), naive: (i64, u32)) -> bool {
    naive.0 - 86_400 < at.0 < naive.0 + 86_400 && at.1 == naive.1
}

/// The UTC instant of a local date and time (`Local::from_local_datetime`, then `single`);
/// `None` where the local time is ambiguous or does not exist. Which offset applies depends
/// on the machine's time zone; what is claimed is what holds of every offset: chrono keeps
/// an offset as whole seconds strictly within a day either way (`FixedOffset::east_opt`),
/// and moving by it keeps the nanoseconds.
#[verifier::external_body]
fn local_to_utc(naive: (i64, u32)) -> (r: Option<(i64, u32)>)
    ensures
        r matches Some(at) ==> within_a_day(at, naive),
{
    let local = chrono::DateTime::from_timestamp(naive.0, naive.1)?.naive_utc();
    let utc = chrono::TimeZone::from_local_datetime(&chrono::Local, &local).single()?;
    Some((utc.timestamp(), utc.timestamp_subsec_nanos()))
}

/// What `str::parse::<DateTime<Utc>>` reads from a text.
pub uninterp spec fn spec_parse_utc(s: Seq<char>) -> Option<(i64, u32)>;

/// Reads an instant written with its offset (such as RFC 3339) with
/// `str::parse::<DateTime<Utc>>`; claims only that the result is the one named
/// `spec_parse_utc`.
#[verifier::external_body]
fn parse_utc(s: &str) -> (r: Option<(i64, u32)>)
    ensures
        r == spec_parse_utc(s@),
{
    let parsed = s.parse::<chrono::DateTime<chrono::Utc>>().ok()?;
    Some((parsed.timestamp(), parsed.timestamp_subsec_nanos()))
}

/// What `DateTime::to_rfc3339` writes for an instant; `None` where chrono has no such instant.
pub uninterp spec fn spec_rfc3339(at: (i64, u32)) -> Option<Seq<char>>;

/// Writes an instant in RFC 3339 with chrono; claims only that the result is the one named
/// `spec_rfc3339`.
#[verifier::external_body]
fn format_rfc3339(at: (i64, u32)) -> (r: Option<String>)
    ensures
        match r {
            Some(s) => spec_rfc3339(at) == Some(s@),
            None => spec_rfc3339(at) is None,
        },
{
    chrono::DateTime::from_timestamp(at.0, at.1).map(|t| t.to_rfc3339())
}

// ---------------------------------------------------------------------------
// When a notification is due
// ---------------------------------------------------------------------------

/// The date-and-time formats a schedule may be written in, tried in this order.
pub open spec fn datetime_formats() -> Seq<Seq<char>> {
    seq![
        "%Y.%m.%d %H:%M"@,
        "%Y-%m-%d %H:%M"@,
        "%d.%m.%Y %H:%M"@,
        "%d-%m-%Y %H:%M"@,
        "%d.%m.%Y %I:%M %p"@,
        "%d-%m-%Y %I:%M %p"@,
        "%Y.%m.%d %I:%M %p"@,
        "%Y-%m-%d %I:%M %p"@,
    ]
}

/// The time-of-day formats a schedule may be written in, tried in this order.
pub open spec fn time_formats() -> Seq<Seq<char>> {
    seq!["%H:%M"@, "%I:%M %p"@]
}

fn datetime_format(i: usize) -> (r: &'static str)
    requires
        i < 8,
    ensures
        r@ == datetime_formats()[i as int],
{
    match i {
        0 => "%Y.%m.%d %H:%M",
        1 => "%Y-%m-%d %H:%M",
        2 => "%d.%m.%Y %H:%M",
        3 => "%d-%m-%Y %H:%M",
        4 => "%d.%m.%Y %I:%M %p",
        5 => "%d-%m-%Y %I:%M %p",
        6 => "%Y.%m.%d %I:%M %p",
        _ => "%Y-%m-%d %I:%M %p",
    }
}

fn time_format(i: usize) -> (r: &'static str)
    requires
        i < 2,
    ensures
        r@ == time_formats()[i as int],
{
    match i {
        0 => "%H:%M",
        _ => "%I:%M %p",
    }
}

/// The first date and time that one of the formats from the `i`-th on reads from a text.
pub open spec fn first_datetime(s: Seq<char>, i: int) -> Option<(i64, u32)>
    decreases 8 - i,
{
    if i < 0 || i >= 8 {
        None
    } else {
        match spec_parse_naive_datetime(s, datetime_formats()[i]) {
            Some(n) => Some(n),
            None => first_datetime(s, i + 1),
        }
    }
}

/// The first time of day that one of the formats from the `i`-th on reads from a text.
pub open spec fn first_time(s: Seq<char>, i: int) -> Option<(u32, u32)>
    decreases 2 - i,
{
    if i < 0 || i >= 2 {
        None
    } else {
        match spec_parse_naive_time(s, time_formats()[i]) {
            Some(t) => Some(t),
            None => first_time(s, i + 1),
        }
    }
}

/// How a schedule string is written.
#[derive(Debug, Clone, Copy, PartialEq, Eq)]
pub enum ScheduleForm {
    /// A duration from now, in seconds and nanoseconds.
    After((u64, u32)),
    /// A local date and time, as seconds and nanoseconds as if it were in UTC.
    LocalDateTime((i64, u32)),
    /// A local time of day, as seconds since midnight and nanoseconds.
    TimeOfDay((u32, u32)),
    /// An instant written with its offset.
    Instant((i64, u32)),
    /// None of these.
    Unreadable,
}

/// The form of a schedule string: the first of a duration (see [`duration_of`]), a date and time in one of
/// [`datetime_formats`], a time of day in one of [`time_formats`] and an instant with its
/// offset that reads it.
pub open spec fn schedule_form(s: Seq<char>) -> ScheduleForm {
    match duration_of(s) {
        Some(d) => ScheduleForm::After(d),
        None => match first_datetime(s, 0) {
            Some(n) => ScheduleForm::LocalDateTime(n),
            None => match first_time(s, 0) {
                Some(t) => ScheduleForm::TimeOfDay(t),
                None => match spec_parse_utc(s) {
                    Some(at) => ScheduleForm::Instant(at),
                    None => ScheduleForm::Unreadable,
                },
            },
        },
    }
}

/// Reads how a schedule string is written (see [`schedule_form`]).
pub fn read_schedule(time: &str) -> (r: ScheduleForm)
    ensures
        r == schedule_form(time@),
        r matches ScheduleForm::After(d) ==> d.1 < 1_000_000_000,
{
    if let Some(d) = read_duration(time) {
        return ScheduleForm::After(d);
    }
    let mut i: usize = 0;
    while i < 8
        invariant
            i <= 8,
            duration_of(time@) is None,
            first_datetime(time@, 0) == first_datetime(time@, i as int),
        decreases 8 - i,
    {
        if let Some(naive) = parse_naive_datetime(time, datetime_format(i)) {
            return ScheduleForm::LocalDateTime(naive);
        }
        i = i + 1;
    }
    let mut k: usize = 0;
    while k < 2
        invariant
            k <= 2,
            duration_of(time@) is None,
            first_datetime(time@, 0) is None,
            first_time(time@, 0) == first_time(time@, k as int),
        decreases 2 - k,
    {
        if let Some(t) = parse_naive_time(time, time_format(k)) {
            return ScheduleForm::TimeOfDay(t);
        }
        k = k + 1;
    }
    match parse_utc(time) {
        Some(at) => ScheduleForm::Instant(at),
        None => ScheduleForm::Unreadable,
    }
}

/// The local date and time that a local form of a schedule string names: the date and time
/// written, or the time of day on the day that starts at `today` (nothing where that passes
/// the largest instant); nothing for the other forms.
pub open spec fn local_naive_of(form: ScheduleForm, today: i64) -> Option<(i64, u32)> {
    match form {
        ScheduleForm::LocalDateTime(n) => Some(n),
        ScheduleForm::TimeOfDay(t) => if today + t.0 <= i64::MAX {
            Some(((today + t.0) as i64, t.1))
        } else {
            None
        },
        _ => None,
    }
}

/// The local date and time that a local form names (see [`local_naive_of`]).
pub fn local_naive(form: ScheduleForm, today: i64) -> (r: Option<(i64, u32)>)
    ensures
        r == local_naive_of(form, today),
{
    match form {
        ScheduleForm::LocalDateTime(n) => Some(n),
        ScheduleForm::TimeOfDay((secs, nanos)) => {
            if today > i64::MAX - secs as i64 {
                None
            } else {
                Some((today + secs as i64, nanos))
            }
        },
        _ => None,
    }
}

/// When a schedule string says a notification is due (see [`schedule_form`]): a duration
/// after the current instant; a local date and time, or a local time of day today, in UTC;
/// or the instant written. What the first two give depends on the clock and the time zone:
/// a local time that the time zone makes ambiguous or skips, and an instant out of chrono's
/// range, give nothing, as does a string that none of the forms reads; a local time that is
/// converted moves by less than a day.
pub fn parse_time(time: &str) -> (r: Option<(i64, u32)>)
    ensures
        schedule_form(time@) is Unreadable ==> r is None,
        schedule_form(time@) matches ScheduleForm::Instant(at) ==> r == Some(at),
        schedule_form(time@) matches ScheduleForm::After(d) ==> exists|now: (i64, u32)|
            r == spec_add_duration(now, d),
        schedule_form(time@) is LocalDateTime || schedule_form(time@) is TimeOfDay ==> exists|
            today: i64,
        |
            today % 86_400 == 0 && match #[trigger] local_naive_of(schedule_form(time@), today) {
                None => r is None,
                Some(n) => r matches Some(at) ==> within_a_day(at, n),
            },
{
    let form = read_schedule(time);
    match form {
        ScheduleForm::After(d) => {
            let now = utc_now();
            add_duration(now, d)
        },
        ScheduleForm::LocalDateTime(_) => match local_naive(form, 0) {
            Some(naive) => local_to_utc(naive),
            None => None,
        },
        ScheduleForm::TimeOfDay(_) => {
            let today = local_today();
            match local_naive(form, today) {
                Some(naive) => local_to_utc(naive),
                None => None,
            }
        },
        ScheduleForm::Instant(at) => Some(at),
        ScheduleForm::Unreadable => None,
    }
}

// ---------------------------------------------------------------------------
// The queue
// ---------------------------------------------------------------------------

/// Whether instant `a` is not after `b`.
pub open spec fn not_after(a: (i64, u32), b: (i64, u32)) -> bool {
    a.0 < b.0 || (a.0 == b.0 && a.1 <= b.1)
}

fn instant_not_after(a: (i64, u32), b: (i64, u32)) -> (r: bool)
    ensures
        r == not_after(a, b),
{
    a.0 < b.0 || (a.0 == b.0 && a.1 <= b.1)
}

/// Whether the entries are in order of their instants.
pub open spec fn sorted(q: Seq<((i64, u32), ScheduledNotification)>) -> bool {
    forall|i: int, j: int| 0 <= i < j < q.len() ==> not_after(q[i].0, q[j].0)
}

/// The number of leading entries due at `now`.
pub open spec fn due_count(q: Seq<((i64, u32), ScheduledNotification)>, now: (i64, u32)) -> int
    decreases q.len(),
{
    if q.len() == 0 {
        0
    } else if not_after(q[0].0, now) {
        1 + due_count(q.drop_first(), now)
    } else {
        0
    }
}

/// Where an entry due at `at` goes: after every entry due not after it.
pub open spec fn insert_pos(q: Seq<((i64, u32), ScheduledNotification)>, at: (i64, u32)) -> int
    decreases q.len(),
{
    if q.len() == 0 {
        0
    } else if not_after(q[0].0, at) {
        1 + insert_pos(q.drop_first(), at)
    } else {
        0
    }
}

proof fn lemma_insert_pos(q: Seq<((i64, u32), ScheduledNotification)>, at: (i64, u32))
    ensures
        0 <= insert_pos(q, at) <= q.len(),
        forall|i: int| 0 <= i < insert_pos(q, at) ==> not_after(#[trigger] q[i].0, at),
        insert_pos(q, at) < q.len() ==> !not_after(q[insert_pos(q, at)].0, at),
    decreases q.len(),
{
    if q.len() > 0 && not_after(q[0].0, at) {
        lemma_insert_pos(q.drop_first(), at);
        assert forall|i: int| 1 <= i < insert_pos(q, at) implies not_after(#[trigger] q[i].0, at) by {
            assert(q.drop_first()[i - 1] == q[i]);
        }
    }
}

/// Whether `after` is the queue `before` with `n` scheduled at `at`: it goes after every
/// entry due not after `at`, with its schedule string replaced by the instant in RFC 3339
/// (kept where chrono has no such instant).
pub open spec fn added_at(
    before: Seq<((i64, u32), ScheduledNotification)>,
    after: Seq<((i64, u32), ScheduledNotification)>,
    n: ScheduledNotification,
    at: (i64, u32),
) -> bool {
    let p = insert_pos(before, at);
    &&& after.len() == before.len() + 1
    &&& after.subrange(0, p) == before.subrange(0, p)
    &&& after.subrange(p + 1, after.len() as int) == before.subrange(p, before.len() as int)
    &&& after[p].0 == at
    &&& after[p].1.id == n.id
    &&& after[p].1.data == n.data
    &&& after[p].1.time@ == match spec_rfc3339(at) {
        Some(s) => s,
        None => n.time@,
    }
}

/// The notifications waiting for their time, earliest first.
#[derive(Debug)]
pub struct Scheduler {
    queue: Vec<((i64, u32), ScheduledNotification)>,
}

impl Scheduler {
    /// The entries of the queue, in order.
    pub closed spec fn entries(&self) -> Seq<((i64, u32), ScheduledNotification)> {
        self.queue@
    }

    #[verifier::type_invariant]
    closed spec fn inv(self) -> bool {
        sorted(self.queue@)
    }

    pub fn new() -> (r: Scheduler)
        ensures
            r.entries() == Seq::<((i64, u32), ScheduledNotification)>::empty(),
            sorted(r.entries()),
    {
        Scheduler { queue: Vec::new() }
    }

    pub fn len(&self) -> (r: usize)
        ensures
            r == self.entries().len(),
    {
        self.queue.len()
    }

    /// Schedules a notification for the instant its schedule string names (see
    /// [`parse_time`]); one whose string names none is dropped. A duration counts from the
    /// current instant, whatever the clock gives; whatever the clock and the time zone give,
    /// the queue is unchanged or has the notification added at some instant.
    pub fn add(&mut self, notification: ScheduledNotification)
        ensures
            sorted(final(self).entries()),
            schedule_form(notification.time@) is Unreadable ==> final(self).entries() == old(
                self,
            ).entries(),
            schedule_form(notification.time@) matches ScheduleForm::Instant(at) ==> added_at(
                old(self).entries(),
                final(self).entries(),
                notification,
                at,
            ),
            schedule_form(notification.time@) matches ScheduleForm::After(d) ==> exists|
                now: (i64, u32),
            |
                match #[trigger] spec_add_duration(now, d) {
                    Some(at) => added_at(old(self).entries(), final(self).entries(), notification, at),
                    None => final(self).entries() == old(self).entries(),
                },
            schedule_form(notification.time@) is LocalDateTime || schedule_form(
                notification.time@,
            ) is TimeOfDay ==> exists|today: i64|
                today % 86_400 == 0 && match #[trigger] local_naive_of(
                    schedule_form(notification.time@),
                    today,
                ) {
                    None => final(self).entries() == old(self).entries(),
                    Some(n) => final(self).entries() == old(self).entries() || exists|at: (i64, u32)|
                        within_a_day(at, n) && added_at(
                            old(self).entries(),
                            final(self).entries(),
                            notification,
                            at,
                        ),
                },
            final(self).entries() == old(self).entries() || exists|at: (i64, u32)|
                added_at(old(self).entries(), final(self).entries(), notification, at),
    {
        let ghost form = schedule_form(notification.time@);
        let due = parse_time(notification.time.as_str());
        let ghost n = notification;
        self.add_at(notification, due);
        proof {
            if let ScheduleForm::After(d) = form {
                let now = choose|now: (i64, u32)| due == spec_add_duration(now, d);
                assert(match spec_add_duration(now, d) {
                    Some(at) => added_at(old(self).entries(), self.entries(), n, at),
                    None => self.entries() == old(self).entries(),
                });
            }
            if form is LocalDateTime || form is TimeOfDay {
                let today = choose|today: i64|
                    today % 86_400 == 0 && match #[trigger] local_naive_of(form, today) {
                        None => due is None,
                        Some(m) => due matches Some(at) ==> within_a_day(at, m),
                    };
                assert(match local_naive_of(form, today) {
                    None => self.entries() == old(self).entries(),
                    Some(m) => self.entries() == old(self).entries() || exists|at: (i64, u32)|
                        within_a_day(at, m) && added_at(old(self).entries(), self.entries(), n, at),
                });
            }
        }
    }

    /// Schedules a notification for `due` where there is one: it goes after every entry due
    /// not after it, with its schedule string replaced by the instant in RFC 3339 (kept where
    /// chrono has no such instant). Without an instant the queue is unchanged.
    pub fn add_at(&mut self, notification: ScheduledNotification, due: Option<(i64, u32)>)
        ensures
            sorted(final(self).entries()),
            due is None ==> final(self).entries() == old(self).entries(),
            due matches Some(at) ==> added_at(old(self).entries(), final(self).entries(), notification, at),
    {
        proof {
            use_type_invariant(&*self);
        }
        let at = match due {
            None => {
                return;
            },
            Some(at) => at,
        };
        let time = match format_rfc3339(at) {
            Some(s) => s,
            None => notification.time,
        };
        let entry = (at, ScheduledNotification { id: notification.id, time, data: notification.data });
        let ghost q = self.queue@;
        proof {
            lemma_insert_pos(q, at);
        }
        let mut p: usize = 0;
        while p < self.queue.len() && instant_not_after(self.queue[p].0, at)
            invariant
                self.queue@ == q,
                p <= q.len(),
                p <= insert_pos(q, at),
                0 <= insert_pos(q, at) <= q.len(),
                forall|i: int| 0 <= i < insert_pos(q, at) ==> not_after(#[trigger] q[i].0, at),
                insert_pos(q, at) < q.len() ==> !not_after(q[insert_pos(q, at)].0, at),
            decreases q.len() - p,
        {
            p = p + 1;
        }
        assert(p == insert_pos(q, at));
        let mut queue: Vec<((i64, u32), ScheduledNotification)> = Vec::new();
        std::mem::swap(&mut queue, &mut self.queue);
        queue.insert(p, entry);
        assert(queue@ == q.insert(p as int, entry));
        assert(sorted(queue@)) by {
            assert forall|i: int, j: int| 0 <= i < j < queue@.len() implies not_after(
                queue@[i].0,
                queue@[j].0,
            ) by {
                if j < p {
                } else if j == p {
                } else if i < p {
                    assert(not_after(q[i].0, at));
                    if p < q.len() {
                        assert(!not_after(q[p as int].0, at));
                        assert(not_after(q[p as int].0, q[j - 1].0) || p == j - 1);
                    }
                } else if i == p {
                    assert(!not_after(q[p as int].0, at));
                    assert(not_after(q[p as int].0, q[j - 1].0) || p == j - 1);
                } else {
                }
            }
        }
        self.queue = queue;
        assert(self.queue@.subrange(0, p as int) =~= q.subrange(0, p as int));
        assert(self.queue@.subrange(p + 1, self.queue@.len() as int) =~= q.subrange(
            p as int,
            q.len() as int,
        ));
    }

    /// Takes out the notifications due at `now`: the leading entries not after it, in order.
    pub fn pop_due_at(&mut self, now: (i64, u32)) -> (r: Vec<ScheduledNotification>)
        ensures
            ({
                let n = due_count(old(self).entries(), now);
                &&& 0 <= n <= old(self).entries().len()
                &&& r@ == old(self).entries().subrange(0, n).map_values(
                    |e: ((i64, u32), ScheduledNotification)| e.1,
                )
                &&& final(self).entries() == old(self).entries().subrange(
                    n,
                    old(self).entries().len() as int,
                )
            }),
            sorted(final(self).entries()),
            forall|i: int|
                0 <= i < final(self).entries().len() ==> !not_after(
                    #[trigger] final(self).entries()[i].0,
                    now,
                ),
    {
        proof {
            use_type_invariant(&*self);
        }
        let ghost q = self.queue@;
        let mut out: Vec<ScheduledNotification> = Vec::new();
        let mut queue: Vec<((i64, u32), ScheduledNotification)> = Vec::new();
        std::mem::swap(&mut queue, &mut self.queue);
        let mut k: usize = 0;
        proof {
            lemma_due_count(q, now);
        }
        assert(q.len() == queue.len());
        while queue.len() > 0 && instant_not_after(queue[0].0, now)
            invariant
                q.len() <= usize::MAX,
                k <= q.len(),
                queue@ == q.subrange(k as int, q.len() as int),
                out@ == q.subrange(0, k as int).map_values(
                    |e: ((i64, u32), ScheduledNotification)| e.1,
                ),
                sorted(q),
                k <= due_count(q, now),
                0 <= due_count(q, now) <= q.len(),
                forall|i: int| 0 <= i < due_count(q, now) ==> not_after(#[trigger] q[i].0, now),
                due_count(q, now) < q.len() ==> !not_after(q[due_count(q, now)].0, now),
            decreases queue@.len(),
        {
            let (_, n) = queue.remove(0);
            out.push(n);
            k = k + 1;
            assert(queue@ =~= q.subrange(k as int, q.len() as int));
            assert(out@ =~= q.subrange(0, k as int).map_values(
                |e: ((i64, u32), ScheduledNotification)| e.1,
            ));
        }
        assert(k == due_count(q, now));
        assert forall|i: int| 0 <= i < queue@.len() implies !not_after(#[trigger] queue@[i].0, now) by {
            assert(queue@[i] == q[i + k]);
            assert(!not_after(q[k as int].0, now));
            if i > 0 {
                assert(not_after(q[k as int].0, q[i + k].0));
            }
        }
        assert(sorted(queue@)) by {
            assert forall|i: int, j: int| 0 <= i < j < queue@.len() implies not_after(
                queue@[i].0,
                queue@[j].0,
            ) by {
                assert(queue@[i] == q[i + k]);
                assert(queue@[j] == q[j + k]);
            }
        }
        self.queue = queue;
        out
    }

    /// Takes out the notifications due now (see [`Scheduler::pop_due_at`]): those due at
    /// the instant the clock gives.
    pub fn pop_due_notifications(&mut self) -> (r: Vec<ScheduledNotification>)
        ensures
            sorted(final(self).entries()),
            exists|now: (i64, u32)|
                {
                    let n = #[trigger] due_count(old(self).entries(), now);
                    &&& 0 <= n <= old(self).entries().len()
                    &&& r@ == old(self).entries().subrange(0, n).map_values(
                        |e: ((i64, u32), ScheduledNotification)| e.1,
                    )
                    &&& final(self).entries() == old(self).entries().subrange(
                        n,
                        old(self).entries().len() as int,
                    )
                },
    {
        let now = utc_now();
        self.pop_due_at(now)
    }
}

proof fn lemma_due_count(q: Seq<((i64, u32), ScheduledNotification)>, now: (i64, u32))
    ensures
        0 <= due_count(q, now) <= q.len(),
        forall|i: int| 0 <= i < due_count(q, now) ==> not_after(#[trigger] q[i].0, now),
        due_count(q, now) < q.len() ==> !not_after(q[due_count(q, now)].0, now),
    decreases q.len(),
{
    if q.len() > 0 && not_after(q[0].0, now) {
        lemma_due_count(q.drop_first(), now);
        assert forall|i: int| 1 <= i < due_count(q, now) implies not_after(#[trigger] q[i].0, now) by {
            assert(q.drop_first()[i - 1] == q[i]);
        }
    }
}

} // verus!
