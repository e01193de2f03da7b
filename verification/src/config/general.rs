//! General settings: font, size, position and ordering of the notification stack.
use vstd::prelude::*;

use super::sorting::Sorting;
use super::text::Font;
use super::{or_else, value_or};
use crate::notification::str_eq;

verus! {

/// The corner or edge of the screen the notifications are anchored to.
#[derive(Debug, Clone, Copy, PartialEq, Eq, Structural)]
pub enum Anchor {
    Top,
    TopLeft,
    TopRight,
    Bottom,
    BottomLeft,
    BottomRight,
    Left,
    Right,
}

impl Default for Anchor {
    fn default() -> (r: Anchor)
        ensures
            r == Anchor::TopRight,
    {
        Anchor::TopRight
    }
}

pub open spec fn anchor_is_top(a: Anchor) -> bool {
    a == Anchor::Top || a == Anchor::TopLeft || a == Anchor::TopRight
}

pub open spec fn anchor_is_right(a: Anchor) -> bool {
    a == Anchor::TopRight || a == Anchor::BottomRight || a == Anchor::Right
}

pub open spec fn anchor_is_bottom(a: Anchor) -> bool {
    a == Anchor::Bottom || a == Anchor::BottomLeft || a == Anchor::BottomRight
}

pub open spec fn anchor_is_left(a: Anchor) -> bool {
    a == Anchor::TopLeft || a == Anchor::BottomLeft || a == Anchor::Left
}

/// The names that the `anchor` setting accepts.
pub open spec fn is_anchor_name(s: Seq<char>) -> bool {
    s == "top"@ || s == "top-left"@ || s == "top left"@ || s == "top-right"@ || s
        == "top right"@ || s == "bottom"@ || s == "bottom-left"@ || s == "bottom left"@ || s
        == "bottom-right"@ || s == "bottom right"@ || s == "left"@ || s == "right"@
}

pub open spec fn anchor_from_name(s: Seq<char>) -> Anchor {
    if s == "top"@ {
        Anchor::Top
    } else if s == "top-left"@ || s == "top left"@ {
        Anchor::TopLeft
    } else if s == "top-right"@ || s == "top right"@ {
        Anchor::TopRight
    } else if s == "bottom"@ {
        Anchor::Bottom
    } else if s == "bottom-left"@ || s == "bottom left"@ {
        Anchor::BottomLeft
    } else if s == "bottom-right"@ || s == "bottom right"@ {
        Anchor::BottomRight
    } else if s == "left"@ {
        Anchor::Left
    } else {
        Anchor::Right
    }
}

/// Whether a text ends with another.
pub open spec fn ends_with(s: Seq<char>, suffix: Seq<char>) -> bool {
    s.len() >= suffix.len() && s.subrange(s.len() - suffix.len(), s.len() as int) == suffix
}

/// Whether a text starts with another.
pub open spec fn starts_with(s: Seq<char>, prefix: Seq<char>) -> bool {
    s.len() >= prefix.len() && s.subrange(0, prefix.len() as int) == prefix
}

/// An anchor lies on the edges that its name says: on the right edge exactly when its name
/// ends with "right", the left one when it ends with "left", the top one when it starts
/// with "top" and the bottom one when it starts with "bottom".
pub proof fn law_anchor_edges(s: Seq<char>)
    requires
        is_anchor_name(s),
    ensures
        anchor_is_right(anchor_from_name(s)) == ends_with(s, "right"@),
        anchor_is_left(anchor_from_name(s)) == ends_with(s, "left"@),
        anchor_is_top(anchor_from_name(s)) == starts_with(s, "top"@),
        anchor_is_bottom(anchor_from_name(s)) == starts_with(s, "bottom"@),
{
    reveal_strlit("right");
    reveal_strlit("left");
    reveal_strlit("top");
    reveal_strlit("bottom");
    reveal_strlit("top-left");
    reveal_strlit("top left");
    reveal_strlit("top-right");
    reveal_strlit("top right");
    reveal_strlit("bottom-left");
    reveal_strlit("bottom left");
    reveal_strlit("bottom-right");
    reveal_strlit("bottom right");
    if s == "top"@ {
        assert(s.len() == 3);
        assert(s.subrange(0, 3) =~= "top"@);
    }
    if s == "top-left"@ {
        assert(s.len() == 8);
        assert(s.subrange(3, 8)[0] == '-' && "right"@[0] == 'r');
        assert(s.subrange(4, 8) =~= "left"@);
        assert(s.subrange(0, 3) =~= "top"@);
        assert(s.subrange(0, 6)[0] == 't' && "bottom"@[0] == 'b');
    }
    if s == "top left"@ {
        assert(s.len() == 8);
        assert(s.subrange(3, 8)[0] == ' ' && "right"@[0] == 'r');
        assert(s.subrange(4, 8) =~= "left"@);
        assert(s.subrange(0, 3) =~= "top"@);
        assert(s.subrange(0, 6)[0] == 't' && "bottom"@[0] == 'b');
    }
    if s == "top-right"@ {
        assert(s.len() == 9);
        assert(s.subrange(4, 9) =~= "right"@);
        assert(s.subrange(5, 9)[0] == 'i' && "left"@[0] == 'l');
        assert(s.subrange(0, 3) =~= "top"@);
        assert(s.subrange(0, 6)[0] == 't' && "bottom"@[0] == 'b');
    }
    if s == "top right"@ {
        assert(s.len() == 9);
        assert(s.subrange(4, 9) =~= "right"@);
        assert(s.subrange(5, 9)[0] == 'i' && "left"@[0] == 'l');
        assert(s.subrange(0, 3) =~= "top"@);
        assert(s.subrange(0, 6)[0] == 't' && "bottom"@[0] == 'b');
    }
    if s == "bottom"@ {
        assert(s.len() == 6);
        assert(s.subrange(1, 6)[0] == 'o' && "right"@[0] == 'r');
        assert(s.subrange(2, 6)[0] == 't' && "left"@[0] == 'l');
        assert(s.subrange(0, 3)[0] == 'b' && "top"@[0] == 't');
        assert(s.subrange(0, 6) =~= "bottom"@);
    }
    if s == "bottom-left"@ {
        assert(s.len() == 11);
        assert(s.subrange(6, 11)[0] == '-' && "right"@[0] == 'r');
        assert(s.subrange(7, 11) =~= "left"@);
        assert(s.subrange(0, 3)[0] == 'b' && "top"@[0] == 't');
        assert(s.subrange(0, 6) =~= "bottom"@);
    }
    if s == "bottom left"@ {
        assert(s.len() == 11);
        assert(s.subrange(6, 11)[0] == ' ' && "right"@[0] == 'r');
        assert(s.subrange(7, 11) =~= "left"@);
        assert(s.subrange(0, 3)[0] == 'b' && "top"@[0] == 't');
        assert(s.subrange(0, 6) =~= "bottom"@);
    }
    if s == "bottom-right"@ {
        assert(s.len() == 12);
        assert(s.subrange(7, 12) =~= "right"@);
        assert(s.subrange(8, 12)[0] == 'i' && "left"@[0] == 'l');
        assert(s.subrange(0, 3)[0] == 'b' && "top"@[0] == 't');
        assert(s.subrange(0, 6) =~= "bottom"@);
    }
    if s == "bottom right"@ {
        assert(s.len() == 12);
        assert(s.subrange(7, 12) =~= "right"@);
        assert(s.subrange(8, 12)[0] == 'i' && "left"@[0] == 'l');
        assert(s.subrange(0, 3)[0] == 'b' && "top"@[0] == 't');
        assert(s.subrange(0, 6) =~= "bottom"@);
    }
    if s == "left"@ {
        assert(s.len() == 4);
        assert(s.subrange(0, 4) =~= "left"@);
        assert(s.subrange(0, 3)[0] == 'l' && "top"@[0] == 't');
    }
    if s == "right"@ {
        assert(s.len() == 5);
        assert(s.subrange(0, 5) =~= "right"@);
        assert(s.subrange(1, 5)[0] == 'i' && "left"@[0] == 'l');
        assert(s.subrange(0, 3)[0] == 'r' && "top"@[0] == 't');
    }
}

impl Anchor {
    pub fn is_top(&self) -> (r: bool)
        ensures
            r == anchor_is_top(*self),
    {
        match self {
            Anchor::Top | Anchor::TopLeft | Anchor::TopRight => true,
            _ => false,
        }
    }

    pub fn is_right(&self) -> (r: bool)
        ensures
            r == anchor_is_right(*self),
    {
        match self {
            Anchor::TopRight | Anchor::BottomRight | Anchor::Right => true,
            _ => false,
        }
    }

    pub fn is_bottom(&self) -> (r: bool)
        ensures
            r == anchor_is_bottom(*self),
    {
        match self {
            Anchor::Bottom | Anchor::BottomLeft | Anchor::BottomRight => true,
            _ => false,
        }
    }

    pub fn is_left(&self) -> (r: bool)
        ensures
            r == anchor_is_left(*self),
    {
        match self {
            Anchor::TopLeft | Anchor::BottomLeft | Anchor::Left => true,
            _ => false,
        }
    }

    /// Whether `value` names an anchor.
    pub fn is_name(value: &str) -> (r: bool)
        ensures
            r == is_anchor_name(value@),
    {
        str_eq(value, "top") || str_eq(value, "top-left") || str_eq(value, "top left") || str_eq(
            value,
            "top-right",
        ) || str_eq(value, "top right") || str_eq(value, "bottom") || str_eq(value, "bottom-left")
            || str_eq(value, "bottom left") || str_eq(value, "bottom-right") || str_eq(
            value,
            "bottom right",
        ) || str_eq(value, "left") || str_eq(value, "right")
    }

    /// The anchor that a setting names, such as `"top-right"` or `"top right"`.
    pub fn from_name(value: &str) -> (r: Anchor)
        requires
            is_anchor_name(value@),
        ensures
            r == anchor_from_name(value@),
    {
        if str_eq(value, "top") {
            Anchor::Top
        } else if str_eq(value, "top-left") || str_eq(value, "top left") {
            Anchor::TopLeft
        } else if str_eq(value, "top-right") || str_eq(value, "top right") {
            Anchor::TopRight
        } else if str_eq(value, "bottom") {
            Anchor::Bottom
        } else if str_eq(value, "bottom-left") || str_eq(value, "bottom left") {
            Anchor::BottomLeft
        } else if str_eq(value, "bottom-right") || str_eq(value, "bottom right") {
            Anchor::BottomRight
        } else if str_eq(value, "left") {
            Anchor::Left
        } else {
            Anchor::Right
        }
    }
}

/// What `humantime::parse_duration` gives for a text: whole seconds and nanoseconds.
pub uninterp spec fn spec_parse_duration(s: Seq<char>) -> Option<(u64, u32)>;

/// Parses a human-readable duration ("5 min", "30s") with `humantime::parse_duration`, as
/// seconds and the nanoseconds of the last second. Claims that the result is the one named
/// `spec_parse_duration`, and that the nanoseconds are less than a second (what
/// `Duration::subsec_nanos` documents). The parser adds up the spans of the text in a
/// `Duration` and can carry a full second of nanoseconds into seconds that are already at
/// `u64::MAX`, where `Duration::new` panics; a text whose spans add up to fewer seconds (see
/// [`duration_text_bounded`]) never gets there, so only such a text is handed to it.
#[verifier::external_body]
pub(crate) fn parse_duration(s: &str) -> (r: Option<(u64, u32)>)
    requires
        duration_text_bounded(s@),
    ensures
        r == spec_parse_duration(s@),
        r matches Some(d) ==> d.1 < 1_000_000_000,
{
    humantime::parse_duration(s).ok().map(|d| (d.as_secs(), d.subsec_nanos()))
}

/// Whether a character is a decimal digit.
pub open spec fn is_digit(c: char) -> bool {
    '0' <= c && c <= '9'
}

/// Whether a character can be part of a unit of a duration (`humantime` reads ASCII letters
/// and `µ` there).
pub open spec fn is_unit_letter(c: char) -> bool {
    ('a' <= c && c <= 'z') || ('A' <= c && c <= 'Z') || c == 'µ'
}

/// A duration text read from the left for its size: the sum of the whole numbers already
/// ended by a unit, the whole number being read (its digits joined across anything but a
/// unit letter or a decimal point), whether its fraction is being read, and the decimal
/// points seen.
pub open spec fn duration_scan(s: Seq<char>) -> (nat, nat, bool, nat)
    decreases s.len(),
{
    if s.len() == 0 {
        (0, 0, false, 0)
    } else {
        let (total, current, fraction, points) = duration_scan(s.drop_last());
        let c = s.last();
        if is_digit(c) {
            if fraction {
                (total, current, fraction, points)
            } else {
                (total, (current * 10 + (c as int - '0' as int)) as nat, fraction, points)
            }
        } else if is_unit_letter(c) {
            (total + current, 0, false, points)
        } else if c == '.' {
            (total, current, true, points + 1)
        } else {
            (total, current, fraction, points)
        }
    }
}

/// The size of a duration text: its whole numbers summed, and one for each decimal point.
/// Each span of the text adds at most its whole number of years and, with a fraction, less
/// than one more year, so the text reads as at most this many years and one second.
pub open spec fn duration_size(s: Seq<char>) -> nat {
    let (total, current, _, points) = duration_scan(s);
    total + current + points
}

/// Whether a duration text is small enough to be read: its size in years (see
/// [`duration_size`]), one more, is under `u64::MAX` seconds, so that adding up its spans
/// never carries into `u64::MAX` seconds.
pub open spec fn duration_text_bounded(s: Seq<char>) -> bool {
    duration_size(s) < 584_542_046_090
}

/// The duration a text reads as: what `humantime` reads from a text small enough (see
/// [`duration_text_bounded`]), nothing from a larger one.
pub open spec fn duration_of(s: Seq<char>) -> Option<(u64, u32)> {
    if duration_text_bounded(s) {
        spec_parse_duration(s)
    } else {
        None
    }
}

/// Reading further never makes a duration text smaller.
proof fn lemma_duration_size_prefix(s: Seq<char>, k: int)
    requires
        0 <= k <= s.len(),
    ensures
        duration_size(s.subrange(0, k)) <= duration_size(s),
    decreases s.len() - k,
{
    if k < s.len() {
        lemma_duration_size_prefix(s, k + 1);
        assert(s.subrange(0, k + 1).drop_last() =~= s.subrange(0, k));
    } else {
        assert(s.subrange(0, k) =~= s);
    }
}

/// Whether a duration text is small enough to be read (see [`duration_text_bounded`]).
fn duration_text_within(s: &str) -> (r: bool)
    ensures
        r == duration_text_bounded(s@),
{
    let chars = crate::unicode::chars_of(s);
    let limit: u64 = 584_542_046_090;
    let mut total: u64 = 0;
    let mut current: u64 = 0;
    let mut fraction = false;
    let mut points: u64 = 0;
    let mut i: usize = 0;
    while i < chars.len()
        invariant
            chars@ == s@,
            i <= chars@.len(),
            duration_scan(chars@.subrange(0, i as int)) == (total as nat, current as nat, fraction, points as nat),
            total + current + points < limit,
            limit == 584_542_046_090,
        decreases chars@.len() - i,
    {
        assert(chars@.subrange(0, i + 1).drop_last() =~= chars@.subrange(0, i as int));
        let c = chars[i];
        if '0' <= c && c <= '9' {
            if !fraction {
                current = current * 10 + (c as u32 - '0' as u32) as u64;
            }
        } else if ('a' <= c && c <= 'z') || ('A' <= c && c <= 'Z') || c == 'µ' {
            total = total + current;
            current = 0;
            fraction = false;
        } else if c == '.' {
            fraction = true;
            points = points + 1;
        }
        if total + current + points >= limit {
            proof {
                lemma_duration_size_prefix(chars@, i + 1);
            }
            return false;
        }
        i = i + 1;
    }
    assert(chars@.subrange(0, i as int) =~= chars@);
    true
}

/// Reads a duration text (see [`duration_of`]).
pub fn read_duration(s: &str) -> (r: Option<(u64, u32)>)
    ensures
        r == duration_of(s@),
        r matches Some(d) ==> d.1 < 1_000_000_000,
{
    if duration_text_within(s) {
        parse_duration(s)
    } else {
        None
    }
}

/// The whole milliseconds of a duration.
pub open spec fn duration_millis(d: (u64, u32)) -> int {
    d.0 * 1000 + d.1 / 1_000_000
}

/// How long the user must be inactive before the notifications pause, in milliseconds.
#[derive(Debug, Clone, Copy, PartialEq, Eq, Structural)]
pub struct IdleThreshold {
    pub duration: u32,
}

impl IdleThreshold {
    /// Five minutes.
    pub fn default_threshold() -> (r: IdleThreshold)
        ensures
            r.duration == 300_000,
    {
        IdleThreshold { duration: 300_000 }
    }

    /// The threshold that a duration setting gives; one that does not parse gives the
    /// default. The milliseconds are truncated to 32 bits.
    pub fn from_setting(value: &str) -> (r: IdleThreshold)
        ensures
            r.duration == (match duration_of(value@) {
                Some(d) => duration_millis(d) as u32,
                None => 300_000,
            }),
    {
        match read_duration(value) {
            Some(d) => {
                let ms: u128 = (d.0 as u128) * 1000 + (d.1 / 1_000_000) as u128;
                IdleThreshold { duration: ms as u32 }
            },
            None => IdleThreshold::default_threshold(),
        }
    }
}

/// General settings.
#[derive(Debug, PartialEq, Eq)]
pub struct GeneralConfig {
    pub font: Font,
    pub width: u16,
    pub height: u16,
    pub anchor: Anchor,
    pub offset: (u8, u8),
    pub gap: u8,
    pub sorting: Sorting,
    pub limit: u8,
    pub idle_threshold: IdleThreshold,
}

/// General settings as a configuration file gives them.
#[derive(Debug, PartialEq, Eq)]
pub struct TomlGeneralConfig {
    pub font: Option<Font>,
    pub width: Option<u16>,
    pub height: Option<u16>,
    pub anchor: Option<Anchor>,
    pub offset: Option<(u8, u8)>,
    pub gap: Option<u8>,
    pub sorting: Option<Sorting>,
    pub limit: Option<u8>,
    pub idle_threshold: Option<IdleThreshold>,
}

impl TomlGeneralConfig {
    pub open spec fn empty() -> TomlGeneralConfig {
        TomlGeneralConfig {
            font: None,
            width: None,
            height: None,
            anchor: None,
            offset: None,
            gap: None,
            sorting: None,
            limit: None,
            idle_threshold: None,
        }
    }

    pub fn new() -> (r: TomlGeneralConfig)
        ensures
            r == TomlGeneralConfig::empty(),
    {
        TomlGeneralConfig {
            font: None,
            width: None,
            height: None,
            anchor: None,
            offset: None,
            gap: None,
            sorting: None,
            limit: None,
            idle_threshold: None,
        }
    }

    pub open spec fn spec_merge(a: TomlGeneralConfig, b: Option<TomlGeneralConfig>) -> TomlGeneralConfig {
        match b {
            None => a,
            Some(b) => TomlGeneralConfig {
                font: or_else(a.font, b.font),
                width: or_else(a.width, b.width),
                height: or_else(a.height, b.height),
                anchor: or_else(a.anchor, b.anchor),
                offset: or_else(a.offset, b.offset),
                gap: or_else(a.gap, b.gap),
                sorting: or_else(a.sorting, b.sorting),
                limit: or_else(a.limit, b.limit),
                idle_threshold: or_else(a.idle_threshold, b.idle_threshold),
            },
        }
    }

    /// Completes these settings with `other`: what is set here wins.
    pub fn merge(self, other: Option<TomlGeneralConfig>) -> (r: TomlGeneralConfig)
        ensures
            r == TomlGeneralConfig::spec_merge(self, other),
    {
        match other {
            None => self,
            Some(other) => TomlGeneralConfig {
                font: super::merge_option(self.font, other.font),
                width: super::merge_option(self.width, other.width),
                height: super::merge_option(self.height, other.height),
                anchor: super::merge_option(self.anchor, other.anchor),
                offset: super::merge_option(self.offset, other.offset),
                gap: super::merge_option(self.gap, other.gap),
                sorting: super::merge_option(self.sorting, other.sorting),
                limit: super::merge_option(self.limit, other.limit),
                idle_threshold: super::merge_option(self.idle_threshold, other.idle_threshold),
            },
        }
    }

    /// Whether `r` is these settings with what is missing filled in: Noto Sans, 300 by 150,
    /// top right, no offset, a gap of 10, sorted by time, no limit and an idle threshold of
    /// five minutes.
    pub open spec fn unwraps_to(self, r: GeneralConfig) -> bool {
        &&& match self.font {
            Some(f) => r.font == f,
            None => r.font.name@ == "Noto Sans"@,
        }
        &&& r.width == value_or(self.width, 300)
        &&& r.height == value_or(self.height, 150)
        &&& r.anchor == value_or(self.anchor, Anchor::TopRight)
        &&& r.offset == value_or(self.offset, (0u8, 0u8))
        &&& r.gap == value_or(self.gap, 10)
        &&& r.sorting == value_or(self.sorting, Sorting::spec_default())
        &&& r.limit == value_or(self.limit, 0)
        &&& r.idle_threshold == value_or(self.idle_threshold, IdleThreshold { duration: 300_000 })
    }

    /// Fills what is missing with the defaults (see [`TomlGeneralConfig::unwraps_to`]).
    pub fn unwrap_or_default(self) -> (r: GeneralConfig)
        ensures
            self.unwraps_to(r),
    {
        GeneralConfig {
            font: match self.font {
                Some(f) => f,
                None => Font::default_font(),
            },
            width: super::unwrap_or(self.width, 300),
            height: super::unwrap_or(self.height, 150),
            anchor: super::unwrap_or(self.anchor, Anchor::TopRight),
            offset: super::unwrap_or(self.offset, (0u8, 0u8)),
            gap: super::unwrap_or(self.gap, 10),
            sorting: super::unwrap_or(self.sorting, Sorting::default_sorting()),
            limit: super::unwrap_or(self.limit, 0),
            idle_threshold: super::unwrap_or(
                self.idle_threshold,
                IdleThreshold::default_threshold(),
            ),
        }
    }
}

} // verus!

verus! {

/// Completing general settings with nothing, or with settings that set nothing, leaves them as
/// they are; completing them with themselves too; and a chain of completions gives the same
/// settings however it is grouped.
pub proof fn law_general_merge(a: TomlGeneralConfig, b: TomlGeneralConfig, c: TomlGeneralConfig)
    ensures
        TomlGeneralConfig::spec_merge(a, None) == a,
        TomlGeneralConfig::spec_merge(a, Some(TomlGeneralConfig::empty())) == a,
        TomlGeneralConfig::spec_merge(TomlGeneralConfig::empty(), Some(a)) == a,
        TomlGeneralConfig::spec_merge(a, Some(a)) == a,
        TomlGeneralConfig::spec_merge(TomlGeneralConfig::spec_merge(a, Some(b)), Some(c))
            == TomlGeneralConfig::spec_merge(a, Some(TomlGeneralConfig::spec_merge(b, Some(c)))),
{
    assert(TomlGeneralConfig::spec_merge(a, Some(TomlGeneralConfig::empty())) =~= a);
    assert(TomlGeneralConfig::spec_merge(TomlGeneralConfig::empty(), Some(a)) =~= a);
    assert(TomlGeneralConfig::spec_merge(a, Some(a)) =~= a);
}

} // verus!
