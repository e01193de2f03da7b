//! The order in which notifications are stacked.
use vstd::prelude::*;

use std::cmp::Ordering;

use crate::notification::{str_eq, urgency_level, Notification, Urgency};

verus! {

/// What notifications are sorted by.
#[derive(Debug, Clone, Copy, PartialEq, Eq, Structural)]
pub enum SortBy {
    Id,
    Urgency,
    Time,
}

impl Default for SortBy {
    fn default() -> (r: SortBy)
        ensures
            r == SortBy::Time,
    {
        SortBy::Time
    }
}

/// Whether the order is ascending or descending.
#[derive(Debug, Clone, Copy, PartialEq, Eq, Structural)]
pub enum CmpOrdering {
    Ascending,
    Descending,
}

impl Default for CmpOrdering {
    fn default() -> (r: CmpOrdering)
        ensures
            r == CmpOrdering::Ascending,
    {
        CmpOrdering::Ascending
    }
}

/// How notifications are sorted.
#[derive(Debug, Clone, Copy, PartialEq, Eq, Structural)]
pub struct Sorting {
    pub by: SortBy,
    pub ordering: CmpOrdering,
}

/// Why a sorting setting was refused.
#[derive(Debug, Clone, PartialEq, Eq)]
pub enum SortingError {
    /// The value of `sorting`, or of its `by` or `ordering` key, is not one that is known.
    InvalidValue(String),
    /// The table has a key other than `by` and `ordering`.
    UnknownKey(String),
    /// The table has no `by` key.
    MissingBy,
}

/// The names that `sorting` and its `by` key accept.
pub open spec fn is_sort_by_name(s: Seq<char>) -> bool {
    s == "default"@ || s == "id"@ || s == "urgency"@ || s == "time"@
}

/// The names that the `ordering` key accepts.
pub open spec fn is_ordering_name(s: Seq<char>) -> bool {
    s == "ascending"@ || s == "asc"@ || s == "descending"@ || s == "desc"@
}

pub open spec fn sort_by_from_name(s: Seq<char>) -> SortBy {
    if s == "id"@ {
        SortBy::Id
    } else if s == "urgency"@ {
        SortBy::Urgency
    } else {
        SortBy::Time
    }
}

pub open spec fn ordering_from_name(s: Seq<char>) -> CmpOrdering {
    if s == "descending"@ || s == "desc"@ {
        CmpOrdering::Descending
    } else {
        CmpOrdering::Ascending
    }
}

/// The key that notifications are compared by.
pub open spec fn sort_key(by: SortBy, n: Notification) -> int {
    match by {
        SortBy::Id => n.id as int,
        SortBy::Urgency => urgency_level(n.hints.urgency) as int,
        SortBy::Time => n.created_at as int,
    }
}

/// How two keys compare.
pub open spec fn order_of(a: int, b: int) -> Ordering {
    if a < b {
        Ordering::Less
    } else if a == b {
        Ordering::Equal
    } else {
        Ordering::Greater
    }
}

/// How two notifications compare under a sorting.
pub open spec fn sorting_order(s: Sorting, lhs: Notification, rhs: Notification) -> Ordering {
    match s.ordering {
        CmpOrdering::Ascending => order_of(sort_key(s.by, lhs), sort_key(s.by, rhs)),
        CmpOrdering::Descending => order_of(sort_key(s.by, rhs), sort_key(s.by, lhs)),
    }
}

impl SortBy {
    /// `default` and `time` sort by time, `id` by identifier, `urgency` by urgency.
    pub fn from_name(value: &str) -> (r: SortBy)
        requires
            is_sort_by_name(value@),
        ensures
            r == sort_by_from_name(value@),
    {
        if str_eq(value, "id") {
            SortBy::Id
        } else if str_eq(value, "urgency") {
            SortBy::Urgency
        } else {
            SortBy::Time
        }
    }

    pub fn is_name(value: &str) -> (r: bool)
        ensures
            r == is_sort_by_name(value@),
    {
        str_eq(value, "default") || str_eq(value, "id") || str_eq(value, "urgency") || str_eq(
            value,
            "time",
        )
    }
}

impl CmpOrdering {
    /// `ascending`/`asc` or `descending`/`desc`.
    pub fn from_name(value: &str) -> (r: CmpOrdering)
        requires
            is_ordering_name(value@),
        ensures
            r == ordering_from_name(value@),
    {
        if str_eq(value, "descending") || str_eq(value, "desc") {
            CmpOrdering::Descending
        } else {
            CmpOrdering::Ascending
        }
    }

    pub fn is_name(value: &str) -> (r: bool)
        ensures
            r == is_ordering_name(value@),
    {
        str_eq(value, "ascending") || str_eq(value, "asc") || str_eq(value, "descending")
            || str_eq(value, "desc")
    }
}

impl Sorting {
    pub open spec fn spec_default() -> Sorting {
        Sorting { by: SortBy::Time, ordering: CmpOrdering::Ascending }
    }

    pub fn default_sorting() -> (r: Sorting)
        ensures
            r == Sorting::spec_default(),
    {
        Sorting { by: SortBy::Time, ordering: CmpOrdering::Ascending }
    }

    /// The short form `sorting = "<name>"`: `id` and `urgency` sort ascending by that key,
    /// anything else is the default, ascending by time.
    pub fn from_name(value: &str) -> (r: Sorting)
        ensures
            r == (if value@ == "id"@ {
                Sorting { by: SortBy::Id, ordering: CmpOrdering::Ascending }
            } else if value@ == "urgency"@ {
                Sorting { by: SortBy::Urgency, ordering: CmpOrdering::Ascending }
            } else {
                Sorting::spec_default()
            }),
    {
        if str_eq(value, "id") {
            Sorting { by: SortBy::Id, ordering: CmpOrdering::Ascending }
        } else if str_eq(value, "urgency") {
            Sorting { by: SortBy::Urgency, ordering: CmpOrdering::Ascending }
        } else {
            Sorting::default_sorting()
        }
    }

    /// Reads the short form of the setting; only the names of `SortBy` are accepted.
    pub fn from_setting(value: &str) -> (r: Result<Sorting, SortingError>)
        ensures
            is_sort_by_name(value@) ==> r == Ok::<Sorting, SortingError>(
                if value@ == "id"@ {
                    Sorting { by: SortBy::Id, ordering: CmpOrdering::Ascending }
                } else if value@ == "urgency"@ {
                    Sorting { by: SortBy::Urgency, ordering: CmpOrdering::Ascending }
                } else {
                    Sorting::spec_default()
                },
            ),
            !is_sort_by_name(value@) ==> (r matches Err(SortingError::InvalidValue(v)) && v@
                == value@),
    {
        if SortBy::is_name(value) {
            Ok(Sorting::from_name(value))
        } else {
            Err(SortingError::InvalidValue(value.to_owned()))
        }
    }

    /// Reads the table form `{ by = "...", ordering = "..." }`, given as its key and value
    /// pairs in order. A later key replaces an earlier one of the same name.
    pub fn from_table(entries: &[(String, String)]) -> (r: Result<Sorting, SortingError>)
        ensures
            r is Ok <==> table_ok(entries@),
            r matches Ok(s) ==> s == table_sorting(entries@),
    {
        let mut by: Option<SortBy> = None;
        let mut ordering: Option<CmpOrdering> = None;
        let mut i: usize = 0;
        while i < entries.len()
            invariant
                i <= entries@.len(),
                entries_ok(entries@.subrange(0, i as int)),
                by == last_by(entries@.subrange(0, i as int)),
                ordering == last_ordering(entries@.subrange(0, i as int)),
            decreases entries@.len() - i,
        {
            let ghost prefix = entries@.subrange(0, i + 1);
            proof {
                reveal_strlit("by");
                reveal_strlit("ordering");
                assert("by"@ != "ordering"@) by {
                    assert("by"@.len() != "ordering"@.len());
                }
            }
            assert(prefix.drop_last() =~= entries@.subrange(0, i as int));
            assert(prefix.last() == entries@[i as int]);
            let key = entries[i].0.as_str();
            let value = entries[i].1.as_str();
            if str_eq(key, "by") {
                if SortBy::is_name(value) {
                    by = Some(SortBy::from_name(value));
                    assert(last_ordering(prefix) == last_ordering(prefix.drop_last()));
                } else {
                    proof {
                        assert(prefix[i as int] == entries@[i as int]);
                        lemma_entries_ok_prefix(entries@, i + 1);
                    }
                    return Err(SortingError::InvalidValue(value.to_owned()));
                }
            } else if str_eq(key, "ordering") {
                if CmpOrdering::is_name(value) {
                    ordering = Some(CmpOrdering::from_name(value));
                    assert(last_by(prefix) == last_by(prefix.drop_last()));
                } else {
                    proof {
                        assert(prefix[i as int] == entries@[i as int]);
                        lemma_entries_ok_prefix(entries@, i + 1);
                    }
                    return Err(SortingError::InvalidValue(value.to_owned()));
                }
            } else {
                proof {
                    assert(prefix[i as int] == entries@[i as int]);
                    lemma_entries_ok_prefix(entries@, i + 1);
                }
                return Err(SortingError::UnknownKey(key.to_owned()));
            }
            i = i + 1;
        }
        assert(entries@.subrange(0, entries@.len() as int) =~= entries@);
        match by {
            Some(by) => Ok(
                Sorting {
                    by,
                    ordering: match ordering {
                        Some(o) => o,
                        None => CmpOrdering::Ascending,
                    },
                },
            ),
            None => Err(SortingError::MissingBy),
        }
    }

    /// Compares two notifications: by identifier, urgency or creation time, reversed when
    /// the ordering is descending.
    pub fn compare(&self, lhs: &Notification, rhs: &Notification) -> (r: Ordering)
        ensures
            r == sorting_order(*self, *lhs, *rhs),
    {
        let (a, b) = match self.ordering {
            CmpOrdering::Ascending => (lhs, rhs),
            CmpOrdering::Descending => (rhs, lhs),
        };
        let ka = key_of(self.by, a);
        let kb = key_of(self.by, b);
        if ka < kb {
            Ordering::Less
        } else if ka == kb {
            Ordering::Equal
        } else {
            Ordering::Greater
        }
    }
}

/// The key of a notification under the given criterion.
fn key_of(by: SortBy, n: &Notification) -> (r: u64)
    ensures
        r == sort_key(by, *n),
{
    match by {
        SortBy::Id => n.id as u64,
        SortBy::Urgency => n.hints.urgency.level() as u64,
        SortBy::Time => n.created_at,
    }
}

/// Every entry of the table has a known key and an accepted value.
pub open spec fn entries_ok(e: Seq<(String, String)>) -> bool {
    forall|i: int|
        0 <= i < e.len() ==> {
            let (k, v) = #[trigger] e[i];
            (k@ == "by"@ && is_sort_by_name(v@)) || (k@ == "ordering"@ && is_ordering_name(v@))
        }
}

/// The value of the last `by` entry.
pub open spec fn last_by(e: Seq<(String, String)>) -> Option<SortBy>
    decreases e.len(),
{
    if e.len() == 0 {
        None
    } else if e.last().0@ == "by"@ {
        Some(sort_by_from_name(e.last().1@))
    } else {
        last_by(e.drop_last())
    }
}

/// The value of the last `ordering` entry.
pub open spec fn last_ordering(e: Seq<(String, String)>) -> Option<CmpOrdering>
    decreases e.len(),
{
    if e.len() == 0 {
        None
    } else if e.last().0@ == "ordering"@ {
        Some(ordering_from_name(e.last().1@))
    } else {
        last_ordering(e.drop_last())
    }
}

/// The table is accepted: its entries are valid and one of them is `by`.
pub open spec fn table_ok(e: Seq<(String, String)>) -> bool {
    entries_ok(e) && last_by(e) is Some
}

/// The sorting that an accepted table describes; the ordering defaults to ascending.
pub open spec fn table_sorting(e: Seq<(String, String)>) -> Sorting {
    Sorting {
        by: last_by(e)->0,
        ordering: match last_ordering(e) {
            Some(o) => o,
            None => CmpOrdering::Ascending,
        },
    }
}

proof fn lemma_entries_ok_prefix(e: Seq<(String, String)>, n: int)
    requires
        0 < n <= e.len(),
        !entries_ok(e.subrange(0, n)),
    ensures
        !entries_ok(e),
{
    let i = choose|i: int|
        0 <= i < n && !({
            let (k, v) = #[trigger] e.subrange(0, n)[i];
            (k@ == "by"@ && is_sort_by_name(v@)) || (k@ == "ordering"@ && is_ordering_name(v@))
        });
    assert(e.subrange(0, n)[i] == e[i]);
}

} // verus!

verus! {

/// The opposite of a comparison.
pub open spec fn reversed(o: Ordering) -> Ordering {
    match o {
        Ordering::Less => Ordering::Greater,
        Ordering::Equal => Ordering::Equal,
        Ordering::Greater => Ordering::Less,
    }
}

/// Swapping the notifications reverses their comparison, a descending sorting is the
/// ascending one with the notifications swapped, and the order is transitive.
pub proof fn law_sorting_order(s: Sorting, a: Notification, b: Notification, c: Notification)
    ensures
        sorting_order(s, a, b) == reversed(sorting_order(s, b, a)),
        sorting_order(Sorting { by: s.by, ordering: CmpOrdering::Descending }, a, b)
            == sorting_order(Sorting { by: s.by, ordering: CmpOrdering::Ascending }, b, a),
        sorting_order(s, a, a) == Ordering::Equal,
        sorting_order(s, a, b) != Ordering::Greater && sorting_order(s, b, c) != Ordering::Greater
            ==> sorting_order(s, a, c) != Ordering::Greater,
{
}

/// What each key sorts by, in ascending order: by urgency a less urgent notification comes
/// first (low, then normal, then critical), whatever the identifiers and the times; by
/// identifier the smaller identifier first; by time the earlier notification first. Two
/// notifications that agree on the key are equal.
pub proof fn law_sort_keys(a: Notification, b: Notification)
    ensures
        a.hints.urgency == Urgency::Low && b.hints.urgency != Urgency::Low ==> sorting_order(
            Sorting { by: SortBy::Urgency, ordering: CmpOrdering::Ascending },
            a,
            b,
        ) == Ordering::Less,
        a.hints.urgency == Urgency::Normal && b.hints.urgency == Urgency::Critical ==> sorting_order(
            Sorting { by: SortBy::Urgency, ordering: CmpOrdering::Ascending },
            a,
            b,
        ) == Ordering::Less,
        a.hints.urgency == b.hints.urgency ==> sorting_order(
            Sorting { by: SortBy::Urgency, ordering: CmpOrdering::Ascending },
            a,
            b,
        ) == Ordering::Equal,
        a.id < b.id ==> sorting_order(Sorting { by: SortBy::Id, ordering: CmpOrdering::Ascending }, a, b)
            == Ordering::Less,
        a.id == b.id ==> sorting_order(Sorting { by: SortBy::Id, ordering: CmpOrdering::Ascending }, a, b)
            == Ordering::Equal,
        a.created_at < b.created_at ==> sorting_order(
            Sorting { by: SortBy::Time, ordering: CmpOrdering::Ascending },
            a,
            b,
        ) == Ordering::Less,
        a.created_at == b.created_at ==> sorting_order(
            Sorting { by: SortBy::Time, ordering: CmpOrdering::Ascending },
            a,
            b,
        ) == Ordering::Equal,
{
}

} // verus!
