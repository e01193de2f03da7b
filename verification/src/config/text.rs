//! Text properties of the summary and the body of a notification.
use vstd::prelude::*;

use super::spacing::Spacing;
use super::{or_else, value_or};

verus! {

/// A font, by family name.
#[derive(Debug, PartialEq, Eq)]
pub struct Font {
    pub name: String,
}

impl Clone for Font {
    fn clone(&self) -> (r: Font)
        ensures
            r == *self,
    {
        Font { name: self.name.clone() }
    }
}

impl Font {
    /// The font used when none is configured: Noto Sans.
    pub fn default_font() -> (r: Font)
        ensures
            r.name@ == "Noto Sans"@,
    {
        Font { name: "Noto Sans".to_owned() }
    }

    pub fn from_name(name: String) -> (r: Font)
        ensures
            r.name == name,
    {
        Font { name }
    }
}

#[derive(Debug, Clone, Copy, PartialEq, Eq, Structural)]
pub enum TextStyle {
    Regular,
    Bold,
    Italic,
    BoldItalic,
}

impl Default for TextStyle {
    fn default() -> (r: TextStyle)
        ensures
            r == TextStyle::Regular,
    {
        TextStyle::Regular
    }
}

#[derive(Debug, Clone, Copy, PartialEq, Eq, Structural)]
pub enum TextAlignment {
    Center,
    Left,
    Right,
    Justify,
}

impl Default for TextAlignment {
    fn default() -> (r: TextAlignment)
        ensures
            r == TextAlignment::Left,
    {
        TextAlignment::Left
    }
}

/// How a text element is drawn.
#[derive(Debug, Clone, PartialEq, Eq)]
pub struct TextProperty {
    pub font: Font,
    pub wrap: bool,
    pub style: TextStyle,
    pub margin: Spacing,
    pub alignment: TextAlignment,
    pub font_size: u8,
    pub line_spacing: u8,
}

/// Mathematical model of [`TextProperty`].
pub struct TextPropertyView {
    pub font: Seq<char>,
    pub wrap: bool,
    pub style: TextStyle,
    pub margin: Spacing,
    pub alignment: TextAlignment,
    pub font_size: u8,
    pub line_spacing: u8,
}

impl View for TextProperty {
    type V = TextPropertyView;

    open spec fn view(&self) -> TextPropertyView {
        TextPropertyView {
            font: self.font.name@,
            wrap: self.wrap,
            style: self.style,
            margin: self.margin,
            alignment: self.alignment,
            font_size: self.font_size,
            line_spacing: self.line_spacing,
        }
    }
}

/// Text properties as a configuration file gives them: every one may be missing.
#[derive(Debug, PartialEq, Eq)]
pub struct TomlTextProperty {
    pub font: Option<Font>,
    pub wrap: Option<bool>,
    pub style: Option<TextStyle>,
    pub margin: Option<Spacing>,
    pub alignment: Option<TextAlignment>,
    pub font_size: Option<u8>,
    pub line_spacing: Option<u8>,
}

impl Clone for TomlTextProperty {
    fn clone(&self) -> (r: TomlTextProperty)
        ensures
            r == *self,
    {
        TomlTextProperty {
            font: match &self.font {
                Some(f) => Some(f.clone()),
                None => None,
            },
            wrap: self.wrap,
            style: self.style,
            margin: self.margin,
            alignment: self.alignment,
            font_size: self.font_size,
            line_spacing: self.line_spacing,
        }
    }
}

impl TomlTextProperty {
    pub open spec fn empty() -> TomlTextProperty {
        TomlTextProperty {
            font: None,
            wrap: None,
            style: None,
            margin: None,
            alignment: None,
            font_size: None,
            line_spacing: None,
        }
    }

    /// Nothing is set.
    pub fn new() -> (r: TomlTextProperty)
        ensures
            r == TomlTextProperty::empty(),
    {
        TomlTextProperty {
            font: None,
            wrap: None,
            style: None,
            margin: None,
            alignment: None,
            font_size: None,
            line_spacing: None,
        }
    }

    /// Each property of `a`, or else that of `b`.
    pub open spec fn spec_merge(a: TomlTextProperty, b: Option<TomlTextProperty>) -> TomlTextProperty {
        match b {
            None => a,
            Some(b) => TomlTextProperty {
                font: or_else(a.font, b.font),
                wrap: or_else(a.wrap, b.wrap),
                style: or_else(a.style, b.style),
                margin: or_else(a.margin, b.margin),
                alignment: or_else(a.alignment, b.alignment),
                font_size: or_else(a.font_size, b.font_size),
                line_spacing: or_else(a.line_spacing, b.line_spacing),
            },
        }
    }

    /// Completes these properties with those of `other`: a property set here wins.
    pub fn merge(self, other: Option<TomlTextProperty>) -> (r: TomlTextProperty)
        ensures
            r == TomlTextProperty::spec_merge(self, other),
    {
        match other {
            None => self,
            Some(other) => TomlTextProperty {
                font: super::merge_option(self.font, other.font),
                wrap: super::merge_option(self.wrap, other.wrap),
                style: super::merge_option(self.style, other.style),
                margin: super::merge_option(self.margin, other.margin),
                alignment: super::merge_option(self.alignment, other.alignment),
                font_size: super::merge_option(self.font_size, other.font_size),
                line_spacing: super::merge_option(self.line_spacing, other.line_spacing),
            },
        }
    }

    /// The defaults of the summary: bold and centred.
    pub fn default_summary() -> (r: TomlTextProperty)
        ensures
            r == (TomlTextProperty {
                style: Some(TextStyle::Bold),
                alignment: Some(TextAlignment::Center),
                ..TomlTextProperty::empty()
            }),
    {
        TomlTextProperty {
            style: Some(TextStyle::Bold),
            alignment: Some(TextAlignment::Center),
            ..TomlTextProperty::new()
        }
    }

    /// Fills what is missing with the defaults: Noto Sans, wrapped, regular, no margin,
    /// left-aligned, size 14, no extra line spacing.
    pub open spec fn spec_unwrap_or_default(t: TomlTextProperty) -> TextPropertyView {
        TextPropertyView {
            font: match t.font {
                Some(f) => f.name@,
                None => "Noto Sans"@,
            },
            wrap: value_or(t.wrap, true),
            style: value_or(t.style, TextStyle::Regular),
            margin: value_or(t.margin, Spacing::zero()),
            alignment: value_or(t.alignment, TextAlignment::Left),
            font_size: value_or(t.font_size, 14),
            line_spacing: value_or(t.line_spacing, 0),
        }
    }

    pub fn unwrap_or_default(self) -> (r: TextProperty)
        ensures
            r@ == TomlTextProperty::spec_unwrap_or_default(self),
            self.font matches Some(f) ==> r.font == f,
    {
        TextProperty {
            font: match self.font {
                Some(f) => f,
                None => Font::default_font(),
            },
            wrap: super::unwrap_or(self.wrap, true),
            style: super::unwrap_or(self.style, TextStyle::Regular),
            margin: super::unwrap_or(self.margin, Spacing { top: 0, right: 0, bottom: 0, left: 0 }),
            alignment: super::unwrap_or(self.alignment, TextAlignment::Left),
            font_size: super::unwrap_or(self.font_size, 14),
            line_spacing: super::unwrap_or(self.line_spacing, 0),
        }
    }
}

/// Text properties that a file does not set take the documented defaults: the text wraps,
/// in "Noto Sans" of size 14, regular, left-aligned, without margin and without space
/// between lines; a property that is set is kept.
pub proof fn law_text_defaults(t: TomlTextProperty)
    ensures
        t.wrap is None ==> TomlTextProperty::spec_unwrap_or_default(t).wrap == true,
        t.wrap matches Some(w) ==> TomlTextProperty::spec_unwrap_or_default(t).wrap == w,
        t.font_size is None ==> TomlTextProperty::spec_unwrap_or_default(t).font_size == 14,
        t.font_size matches Some(x) ==> TomlTextProperty::spec_unwrap_or_default(t).font_size == x,
        t.line_spacing is None ==> TomlTextProperty::spec_unwrap_or_default(t).line_spacing == 0,
        t.line_spacing matches Some(x) ==> TomlTextProperty::spec_unwrap_or_default(t).line_spacing == x,
        t.style is None ==> TomlTextProperty::spec_unwrap_or_default(t).style == TextStyle::Regular,
        t.alignment is None ==> TomlTextProperty::spec_unwrap_or_default(t).alignment
            == TextAlignment::Left,
        t.margin is None ==> TomlTextProperty::spec_unwrap_or_default(t).margin == (Spacing {
            top: 0,
            right: 0,
            bottom: 0,
            left: 0,
        }),
        t.font is None ==> TomlTextProperty::spec_unwrap_or_default(t).font == "Noto Sans"@,
{
}

} // verus!
