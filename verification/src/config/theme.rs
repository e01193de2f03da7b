//! Themes: the colors of a notification for each urgency.
use vstd::prelude::*;

use super::color::{Color, Rgba};
use super::{or_else, value_or};
use crate::notification::Urgency;

verus! {

/// The colors of one kind of notification.
#[derive(Debug, PartialEq, Eq)]
pub struct Colors {
    pub foreground: Rgba,
    pub background: Color,
    pub border: Color,
}

/// Colors as a configuration file gives them.
#[derive(Debug, PartialEq, Eq)]
pub struct TomlColors {
    pub foreground: Option<Rgba>,
    pub background: Option<Color>,
    pub border: Option<Color>,
}

impl TomlColors {
    pub open spec fn empty() -> TomlColors {
        TomlColors { foreground: None, background: None, border: None }
    }

    /// The colors that critical notifications get by default: red text and border on white.
    pub open spec fn spec_default_critical() -> TomlColors {
        TomlColors {
            background: Some(Color::Rgba(Rgba::white())),
            foreground: Some(Rgba::red()),
            border: Some(Color::Rgba(Rgba::red())),
        }
    }

    pub fn default_critical() -> (r: TomlColors)
        ensures
            r == TomlColors::spec_default_critical(),
    {
        TomlColors {
            background: Some(Color::new_rgba_white()),
            foreground: Some(Rgba::new_red()),
            border: Some(Color::new_rgba_red()),
        }
    }

    pub open spec fn spec_merge(a: TomlColors, b: Option<TomlColors>) -> TomlColors {
        match b {
            None => a,
            Some(b) => TomlColors {
                foreground: or_else(a.foreground, b.foreground),
                background: or_else(a.background, b.background),
                border: or_else(a.border, b.border),
            },
        }
    }

    /// Completes these colors with those of `other`.
    pub fn merge(self, other: Option<TomlColors>) -> (r: TomlColors)
        ensures
            r == TomlColors::spec_merge(self, other),
    {
        match other {
            None => self,
            Some(other) => TomlColors {
                foreground: super::merge_option(self.foreground, other.foreground),
                background: super::merge_option(self.background, other.background),
                border: super::merge_option(self.border, other.border),
            },
        }
    }

    /// Black text on white with a black border, where nothing is set.
    pub open spec fn spec_unwrap_or_default(t: TomlColors) -> Colors {
        Colors {
            foreground: value_or(t.foreground, Rgba::black()),
            background: value_or(t.background, Color::Rgba(Rgba::white())),
            border: value_or(t.border, Color::Rgba(Rgba::black())),
        }
    }

    pub fn unwrap_or_default(self) -> (r: Colors)
        ensures
            r == TomlColors::spec_unwrap_or_default(self),
    {
        Colors {
            foreground: match self.foreground {
                Some(c) => c,
                None => Rgba::new_black(),
            },
            background: match self.background {
                Some(c) => c,
                None => Color::new_rgba_white(),
            },
            border: match self.border {
                Some(c) => c,
                None => Color::new_rgba_black(),
            },
        }
    }
}

/// The colors for each urgency, without a name.
#[derive(Debug, PartialEq, Eq)]
pub struct UrgencyColors {
    pub low: Colors,
    pub normal: Colors,
    pub critical: Colors,
}

impl UrgencyColors {
    /// The colors for notifications of the given urgency.
    pub fn by_urgency(&self, urgency: &Urgency) -> (r: &Colors)
        ensures
            *r == match *urgency {
                Urgency::Low => self.low,
                Urgency::Normal => self.normal,
                Urgency::Critical => self.critical,
            },
    {
        match urgency {
            Urgency::Low => &self.low,
            Urgency::Normal => &self.normal,
            Urgency::Critical => &self.critical,
        }
    }
}

/// A named set of colors for the three urgencies.
#[derive(Debug, PartialEq, Eq)]
pub struct Theme {
    pub name: String,
    pub low: Colors,
    pub normal: Colors,
    pub critical: Colors,
}

/// A theme as a configuration file gives it.
#[derive(Debug, PartialEq, Eq)]
pub struct TomlTheme {
    pub name: Option<String>,
    pub low: Option<TomlColors>,
    pub normal: Option<TomlColors>,
    pub critical: Option<TomlColors>,
}

impl TomlTheme {
    pub open spec fn spec_merge(a: TomlTheme, b: Option<TomlTheme>) -> TomlTheme {
        match b {
            None => a,
            Some(b) => TomlTheme {
                name: or_else(a.name, b.name),
                low: or_else(a.low, b.low),
                normal: or_else(a.normal, b.normal),
                critical: or_else(a.critical, b.critical),
            },
        }
    }

    /// Completes this theme with `other`: what is set here wins.
    pub fn merge(self, other: Option<TomlTheme>) -> (r: TomlTheme)
        ensures
            r == TomlTheme::spec_merge(self, other),
    {
        match other {
            None => self,
            Some(other) => TomlTheme {
                name: super::merge_option(self.name, other.name),
                low: super::merge_option(self.low, other.low),
                normal: super::merge_option(self.normal, other.normal),
                critical: super::merge_option(self.critical, other.critical),
            },
        }
    }

    /// Whether `r` is this theme with what is missing filled in: no name, low and normal
    /// notifications black on white, critical ones red on white.
    pub open spec fn unwraps_to(self, r: Theme) -> bool {
        &&& r.name@ == (match self.name {
            Some(n) => n@,
            None => Seq::<char>::empty(),
        })
        &&& r.low == TomlColors::spec_unwrap_or_default(value_or(self.low, TomlColors::empty()))
        &&& r.normal == TomlColors::spec_unwrap_or_default(value_or(self.normal, TomlColors::empty()))
        &&& r.critical == TomlColors::spec_unwrap_or_default(
            value_or(self.critical, TomlColors::spec_default_critical()),
        )
    }

    /// Fills what is missing: low and normal notifications default to black on white,
    /// critical ones to red on white.
    pub fn unwrap_or_default(self) -> (r: Theme)
        ensures
            self.unwraps_to(r),
    {
        let empty_low = TomlColors { foreground: None, background: None, border: None };
        let empty_normal = TomlColors { foreground: None, background: None, border: None };
        Theme {
            name: match self.name {
                Some(n) => n,
                None => String::new(),
            },
            low: super::unwrap_or(self.low, empty_low).unwrap_or_default(),
            normal: super::unwrap_or(self.normal, empty_normal).unwrap_or_default(),
            critical: match self.critical {
                Some(c) => c,
                None => TomlColors::default_critical(),
            }.unwrap_or_default(),
        }
    }

    pub open spec fn empty() -> TomlTheme {
        TomlTheme { name: None, low: None, normal: None, critical: None }
    }

    /// A theme where nothing is set.
    pub fn new() -> (r: TomlTheme)
        ensures
            r == TomlTheme::empty(),
    {
        TomlTheme { name: None, low: None, normal: None, critical: None }
    }
}

impl Theme {
    /// The theme used when a display names none that exists.
    pub fn default_theme() -> (r: Theme)
        ensures
            TomlTheme::empty().unwraps_to(r),
    {
        TomlTheme::new().unwrap_or_default()
    }

    /// The colors for notifications of the given urgency.
    pub fn by_urgency(&self, urgency: &Urgency) -> (r: &Colors)
        ensures
            *r == match *urgency {
                Urgency::Low => self.low,
                Urgency::Normal => self.normal,
                Urgency::Critical => self.critical,
            },
    {
        match urgency {
            Urgency::Low => &self.low,
            Urgency::Normal => &self.normal,
            Urgency::Critical => &self.critical,
        }
    }
}

} // verus!

verus! {

/// Completing a theme with nothing, or with a theme that sets nothing, leaves it as it is;
/// completing it with itself too; and a chain of themes of one name gives the same theme
/// however it is grouped.
pub proof fn law_theme_merge(a: TomlTheme, b: TomlTheme, c: TomlTheme)
    ensures
        TomlTheme::spec_merge(a, None) == a,
        TomlTheme::spec_merge(a, Some(TomlTheme::empty())) == a,
        TomlTheme::spec_merge(TomlTheme::empty(), Some(a)) == a,
        TomlTheme::spec_merge(a, Some(a)) == a,
        TomlTheme::spec_merge(TomlTheme::spec_merge(a, Some(b)), Some(c)) == TomlTheme::spec_merge(
            a,
            Some(TomlTheme::spec_merge(b, Some(c))),
        ),
{
    assert(TomlTheme::spec_merge(a, Some(TomlTheme::empty())) =~= a);
    assert(TomlTheme::spec_merge(TomlTheme::empty(), Some(a)) =~= a);
    assert(TomlTheme::spec_merge(a, Some(a)) =~= a);
}

} // verus!
