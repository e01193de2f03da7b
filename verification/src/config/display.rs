//! Display settings: layout, image, border, text and timeouts of a notification banner.
use vstd::prelude::*;

use super::spacing::Spacing;
use super::text::{TextPropertyView, TextProperty, TextAlignment, TextStyle, TomlTextProperty};
use super::{or_else, value_or};
use crate::notification::{str_eq, Urgency};

verus! {

// ---------------------------------------------------------------------------
// Layout
// ---------------------------------------------------------------------------

/// What `PathBuf::extend` gives when the components of `path` are pushed onto `base`.
pub uninterp spec fn spec_path_extend(base: Seq<char>, path: Seq<char>) -> Seq<char>;

/// Pushes the components of `path` onto `base` with `PathBuf::extend`; the result is the one
/// named `spec_path_extend`.
#[verifier::external_body]
pub(crate) fn path_extend(base: &str, path: &str) -> (r: String)
    ensures
        r@ == spec_path_extend(base@, path@),
{
    let mut buf = std::path::PathBuf::from(base);
    buf.extend(std::path::Path::new(path));
    buf.to_string_lossy().into_owned()
}

/// A path is relative when it does not start at the root.
pub open spec fn is_relative_path(p: Seq<char>) -> bool {
    !(p.len() > 0 && p[0] == '/')
}

/// Where the layout of a banner comes from.
#[derive(Debug, PartialEq, Eq)]
pub enum Layout {
    /// The built-in layout.
    Default,
    /// A layout file.
    FromPath { path_buf: String },
}

impl Clone for Layout {
    fn clone(&self) -> (r: Layout)
        ensures
            r == *self,
    {
        match self {
            Layout::Default => Layout::Default,
            Layout::FromPath { path_buf } => Layout::FromPath { path_buf: path_buf.clone() },
        }
    }
}

impl Layout {
    pub fn is_default(&self) -> (r: bool)
        ensures
            r == (*self is Default),
    {
        match self {
            Layout::Default => true,
            Layout::FromPath { .. } => false,
        }
    }

    /// The layout that a setting names: `"default"`, or else the path it was expanded to.
    pub fn from_setting(value: &str, expanded: String) -> (r: Layout)
        ensures
            value@ == "default"@ ==> r == Layout::Default,
            value@ != "default"@ ==> r == (Layout::FromPath { path_buf: expanded }),
    {
        if str_eq(value, "default") {
            Layout::Default
        } else {
            Layout::FromPath { path_buf: expanded }
        }
    }
}

// ---------------------------------------------------------------------------
// Small settings
// ---------------------------------------------------------------------------

#[derive(Debug, Clone, Copy, PartialEq, Eq, Structural)]
pub enum AnimationStyle {
    FadeIn,
    FadeOut,
    PopIn,
    PopOut,
    SlideIn,
    SlideOut,
}

impl Default for AnimationStyle {
    fn default() -> (r: AnimationStyle)
        ensures
            r == AnimationStyle::FadeIn,
    {
        AnimationStyle::FadeIn
    }
}

#[derive(Debug, Clone, Copy, PartialEq, Eq, Structural)]
pub enum EasingType {
    Linear,
    EaseOut,
    EaseInOut,
}

impl Default for EasingType {
    fn default() -> (r: EasingType)
        ensures
            r == EasingType::EaseInOut,
    {
        EasingType::EaseInOut
    }
}

/// The duration of an animation, in nanoseconds.
#[derive(Debug, Clone, Copy, PartialEq, Eq, Structural)]
pub struct AnimationDuration {
    pub nanos: u64,
}

impl Default for AnimationDuration {
    /// Half a second.
    fn default() -> (r: AnimationDuration)
        ensures
            r.nanos == 500_000_000,
    {
        AnimationDuration { nanos: 500_000_000 }
    }
}

impl AnimationDuration {
    /// The duration that a setting writes ("300ms", "1s"), read with
    /// `humantime::parse_duration` (see [`crate::config::general::duration_of`]); nothing where
    /// it does not read or does not fit in 64 bits of nanoseconds.
    pub fn from_setting(value: &str) -> (r: Option<AnimationDuration>)
        ensures
            r == match crate::config::general::duration_of(value@) {
                Some(d) => if d.0 * 1_000_000_000 + d.1 <= u64::MAX {
                    Some(AnimationDuration { nanos: (d.0 * 1_000_000_000 + d.1) as u64 })
                } else {
                    None
                },
                None => None,
            },
    {
        match crate::config::general::read_duration(value) {
            Some((secs, nanos)) => {
                if secs <= (u64::MAX - nanos as u64) / 1_000_000_000 {
                    assert(secs * 1_000_000_000 <= u64::MAX - nanos) by (nonlinear_arith)
                        requires
                            secs <= (u64::MAX - nanos as u64) / 1_000_000_000,
                    ;
                    Some(AnimationDuration { nanos: secs * 1_000_000_000 + nanos as u64 })
                } else {
                    assert(secs * 1_000_000_000 + nanos > u64::MAX) by (nonlinear_arith)
                        requires
                            secs > (u64::MAX - nanos as u64) / 1_000_000_000,
                            nanos <= u32::MAX,
                    ;
                    None
                }
            },
            None => None,
        }
    }
}

/// The duration that a spacer animation takes where its setting is absent: 150 milliseconds.
pub open spec fn spacer_duration() -> AnimationDuration {
    AnimationDuration { nanos: 150_000_000 }
}

/// The duration of an animation whose own setting is absent: half a second.
pub open spec fn half_second() -> AnimationDuration {
    AnimationDuration { nanos: 500_000_000 }
}

/// How the space freed or taken by a banner animates.
#[derive(Debug, Clone, Copy, PartialEq, Eq, Structural)]
pub struct SpacerAnimationDefinition {
    pub duration: AnimationDuration,
}

#[derive(Debug, Clone, Copy, PartialEq, Eq, Structural)]
pub struct SpacerAnimationDefinitionProperty {
    pub duration: Option<AnimationDuration>,
}

impl SpacerAnimationDefinitionProperty {
    pub open spec fn spec_merge(
        a: SpacerAnimationDefinitionProperty,
        b: Option<SpacerAnimationDefinitionProperty>,
    ) -> SpacerAnimationDefinitionProperty {
        match b {
            None => a,
            Some(b) => SpacerAnimationDefinitionProperty { duration: or_else(a.duration, b.duration) },
        }
    }

    pub fn merge(self, other: Option<SpacerAnimationDefinitionProperty>) -> (r:
        SpacerAnimationDefinitionProperty)
        ensures
            r == SpacerAnimationDefinitionProperty::spec_merge(self, other),
    {
        match other {
            None => self,
            Some(other) => SpacerAnimationDefinitionProperty {
                duration: super::merge_option(self.duration, other.duration),
            },
        }
    }

    /// The setting used where a spacer animation is not configured at all: 150 milliseconds.
    pub fn default_spacer() -> (r: SpacerAnimationDefinitionProperty)
        ensures
            r == (SpacerAnimationDefinitionProperty { duration: Some(spacer_duration()) }),
    {
        SpacerAnimationDefinitionProperty { duration: Some(AnimationDuration { nanos: 150_000_000 }) }
    }

    /// Half a second where the duration is not set.
    pub fn unwrap_or_default(self) -> (r: SpacerAnimationDefinition)
        ensures
            r == (SpacerAnimationDefinition { duration: value_or(self.duration, half_second()) }),
    {
        SpacerAnimationDefinition {
            duration: super::unwrap_or(self.duration, AnimationDuration { nanos: 500_000_000 }),
        }
    }
}

/// How a banner animates when it appears or leaves.
#[derive(Debug, Clone, Copy, PartialEq, Eq, Structural)]
pub struct AnimationDefinition {
    pub style: AnimationStyle,
    pub easing: EasingType,
    pub duration: AnimationDuration,
}

#[derive(Debug, Clone, Copy, PartialEq, Eq, Structural)]
pub struct AnimationDefinitionProperty {
    pub style: Option<AnimationStyle>,
    pub easing: Option<EasingType>,
    pub duration: Option<AnimationDuration>,
}

impl AnimationDefinitionProperty {
    pub open spec fn spec_merge(
        a: AnimationDefinitionProperty,
        b: Option<AnimationDefinitionProperty>,
    ) -> AnimationDefinitionProperty {
        match b {
            None => a,
            Some(b) => AnimationDefinitionProperty {
                style: or_else(a.style, b.style),
                easing: or_else(a.easing, b.easing),
                duration: or_else(a.duration, b.duration),
            },
        }
    }

    pub fn merge(self, other: Option<AnimationDefinitionProperty>) -> (r: AnimationDefinitionProperty)
        ensures
            r == AnimationDefinitionProperty::spec_merge(self, other),
    {
        match other {
            None => self,
            Some(other) => AnimationDefinitionProperty {
                style: super::merge_option(self.style, other.style),
                easing: super::merge_option(self.easing, other.easing),
                duration: super::merge_option(self.duration, other.duration),
            },
        }
    }

    /// A banner fades in over half a second, easing in and out.
    pub fn default_enter() -> (r: AnimationDefinitionProperty)
        ensures
            r == (AnimationDefinitionProperty {
                style: Some(AnimationStyle::FadeIn),
                easing: Some(EasingType::EaseInOut),
                duration: Some(half_second()),
            }),
    {
        AnimationDefinitionProperty {
            style: Some(AnimationStyle::FadeIn),
            easing: Some(EasingType::EaseInOut),
            duration: Some(AnimationDuration { nanos: 500_000_000 }),
        }
    }

    /// A banner fades out over half a second, easing in and out.
    pub fn default_exit() -> (r: AnimationDefinitionProperty)
        ensures
            r == (AnimationDefinitionProperty {
                style: Some(AnimationStyle::FadeOut),
                easing: Some(EasingType::EaseInOut),
                duration: Some(half_second()),
            }),
    {
        AnimationDefinitionProperty {
            style: Some(AnimationStyle::FadeOut),
            easing: Some(EasingType::EaseInOut),
            duration: Some(AnimationDuration { nanos: 500_000_000 }),
        }
    }

    pub open spec fn spec_unwrap_or_default(p: AnimationDefinitionProperty) -> AnimationDefinition {
        AnimationDefinition {
            style: value_or(p.style, AnimationStyle::FadeIn),
            easing: value_or(p.easing, EasingType::EaseInOut),
            duration: value_or(p.duration, half_second()),
        }
    }

    /// Fades in, easing in and out, over half a second, where a field is not set.
    pub fn unwrap_or_default(self) -> (r: AnimationDefinition)
        ensures
            r == AnimationDefinitionProperty::spec_unwrap_or_default(self),
    {
        AnimationDefinition {
            style: super::unwrap_or(self.style, AnimationStyle::FadeIn),
            easing: super::unwrap_or(self.easing, EasingType::EaseInOut),
            duration: super::unwrap_or(self.duration, AnimationDuration { nanos: 500_000_000 }),
        }
    }
}

/// The animations of banners: the space they take and free, how they enter and leave.
#[derive(Debug, Clone, Copy, PartialEq, Eq, Structural)]
pub struct Animation {
    pub allocation: SpacerAnimationDefinition,
    pub enter: AnimationDefinition,
    pub exit: AnimationDefinition,
    pub free: SpacerAnimationDefinition,
}

#[derive(Debug, Clone, Copy, PartialEq, Eq, Structural)]
pub struct AnimationProperty {
    pub allocation: Option<SpacerAnimationDefinitionProperty>,
    pub enter: Option<AnimationDefinitionProperty>,
    pub exit: Option<AnimationDefinitionProperty>,
    pub free: Option<SpacerAnimationDefinitionProperty>,
}

impl AnimationProperty {
    pub open spec fn empty() -> AnimationProperty {
        AnimationProperty { allocation: None, enter: None, exit: None, free: None }
    }

    pub open spec fn spec_merge(a: AnimationProperty, b: Option<AnimationProperty>) -> AnimationProperty {
        match b {
            None => a,
            Some(b) => AnimationProperty {
                allocation: match a.allocation {
                    Some(x) => Some(SpacerAnimationDefinitionProperty::spec_merge(x, b.allocation)),
                    None => b.allocation,
                },
                enter: match a.enter {
                    Some(x) => Some(AnimationDefinitionProperty::spec_merge(x, b.enter)),
                    None => b.enter,
                },
                exit: match a.exit {
                    Some(x) => Some(AnimationDefinitionProperty::spec_merge(x, b.exit)),
                    None => b.exit,
                },
                free: match a.free {
                    Some(x) => Some(SpacerAnimationDefinitionProperty::spec_merge(x, b.free)),
                    None => b.free,
                },
            },
        }
    }

    pub fn merge(self, other: Option<AnimationProperty>) -> (r: AnimationProperty)
        ensures
            r == AnimationProperty::spec_merge(self, other),
    {
        match other {
            None => self,
            Some(other) => AnimationProperty {
                allocation: match self.allocation {
                    Some(x) => Some(x.merge(other.allocation)),
                    None => other.allocation,
                },
                enter: match self.enter {
                    Some(x) => Some(x.merge(other.enter)),
                    None => other.enter,
                },
                exit: match self.exit {
                    Some(x) => Some(x.merge(other.exit)),
                    None => other.exit,
                },
                free: match self.free {
                    Some(x) => Some(x.merge(other.free)),
                    None => other.free,
                },
            },
        }
    }

    pub open spec fn spec_unwrap_or_default(p: AnimationProperty) -> Animation {
        Animation {
            allocation: SpacerAnimationDefinition {
                duration: match p.allocation {
                    Some(a) => value_or(a.duration, half_second()),
                    None => spacer_duration(),
                },
            },
            enter: AnimationDefinitionProperty::spec_unwrap_or_default(
                value_or(
                    p.enter,
                    AnimationDefinitionProperty {
                        style: Some(AnimationStyle::FadeIn),
                        easing: Some(EasingType::EaseInOut),
                        duration: Some(half_second()),
                    },
                ),
            ),
            exit: AnimationDefinitionProperty::spec_unwrap_or_default(
                value_or(
                    p.exit,
                    AnimationDefinitionProperty {
                        style: Some(AnimationStyle::FadeOut),
                        easing: Some(EasingType::EaseInOut),
                        duration: Some(half_second()),
                    },
                ),
            ),
            free: SpacerAnimationDefinition {
                duration: match p.free {
                    Some(a) => value_or(a.duration, half_second()),
                    None => spacer_duration(),
                },
            },
        }
    }

    /// Spacers take 150 milliseconds and banners fade in and out over half a second where
    /// nothing is set; a set animation falls back field by field.
    pub fn unwrap_or_default(self) -> (r: Animation)
        ensures
            r == AnimationProperty::spec_unwrap_or_default(self),
    {
        Animation {
            allocation: match self.allocation {
                Some(a) => a,
                None => SpacerAnimationDefinitionProperty::default_spacer(),
            }.unwrap_or_default(),
            enter: match self.enter {
                Some(e) => e,
                None => AnimationDefinitionProperty::default_enter(),
            }.unwrap_or_default(),
            exit: match self.exit {
                Some(e) => e,
                None => AnimationDefinitionProperty::default_exit(),
            }.unwrap_or_default(),
            free: match self.free {
                Some(a) => a,
                None => SpacerAnimationDefinitionProperty::default_spacer(),
            }.unwrap_or_default(),
        }
    }
}

#[derive(Debug, Clone, Copy, PartialEq, Eq, Structural)]
pub enum ResizingMethod {
    Nearest,
    Linear,
}

impl Default for ResizingMethod {
    fn default() -> (r: ResizingMethod)
        ensures
            r == ResizingMethod::Linear,
    {
        ResizingMethod::Linear
    }
}

#[derive(Debug, Clone, Copy, PartialEq, Eq, Structural)]
pub enum MipmapMode {
    Disabled,
    Nearest,
    Linear,
}

impl Default for MipmapMode {
    fn default() -> (r: MipmapMode)
        ensures
            r == MipmapMode::Linear,
    {
        MipmapMode::Linear
    }
}

#[derive(Debug, Clone, Copy, PartialEq, Eq, Structural)]
pub enum FitMode {
    Contain,
    Cover,
    Fill,
    ScaleDown,
}

impl Default for FitMode {
    fn default() -> (r: FitMode)
        ensures
            r == FitMode::Contain,
    {
        FitMode::Contain
    }
}

// ---------------------------------------------------------------------------
// Border
// ---------------------------------------------------------------------------

#[derive(Debug, Clone, Copy, PartialEq, Eq, Structural)]
pub struct Border {
    pub size: u32,
    pub radius: u32,
}

#[derive(Debug, Clone, Copy, PartialEq, Eq, Structural)]
pub struct TomlBorder {
    pub size: Option<u32>,
    pub radius: Option<u32>,
}

impl TomlBorder {
    pub open spec fn spec_merge(a: TomlBorder, b: Option<TomlBorder>) -> TomlBorder {
        match b {
            None => a,
            Some(b) => TomlBorder { size: or_else(a.size, b.size), radius: or_else(a.radius, b.radius) },
        }
    }

    pub fn merge(self, other: Option<TomlBorder>) -> (r: TomlBorder)
        ensures
            r == TomlBorder::spec_merge(self, other),
    {
        match other {
            None => self,
            Some(other) => TomlBorder {
                size: super::merge_option(self.size, other.size),
                radius: super::merge_option(self.radius, other.radius),
            },
        }
    }

    /// A missing size or radius is 0.
    pub fn unwrap_or_default(self) -> (r: Border)
        ensures
            r == (Border { size: value_or(self.size, 0), radius: value_or(self.radius, 0) }),
    {
        Border { size: super::unwrap_or(self.size, 0), radius: super::unwrap_or(self.radius, 0) }
    }
}

/// Builds a [`Border`] from fields set one by one by name, as layout files do.
#[derive(Debug, Clone, Copy, PartialEq, Eq, Structural)]
pub struct GBuilderBorder {
    pub size: Option<u32>,
    pub radius: Option<u32>,
}

/// Why a field could not be set on a builder.
#[derive(Debug, Clone, PartialEq, Eq)]
pub enum ConversionError {
    UnknownField { field_name: String },
}

impl GBuilderBorder {
    pub fn new() -> (r: GBuilderBorder)
        ensures
            r == (GBuilderBorder { size: None, radius: None }),
    {
        GBuilderBorder { size: None, radius: None }
    }

    /// Whether the builder has a field of that name: `size` or `radius`.
    pub fn contains_field(&self, field_name: &str) -> (r: bool)
        ensures
            r == (field_name@ == "size"@ || field_name@ == "radius"@),
    {
        str_eq(field_name, "size") || str_eq(field_name, "radius")
    }

    /// Sets a field by name.
    pub fn set_value(&mut self, field_name: &str, value: u32) -> (r: Result<(), ConversionError>)
        ensures
            field_name@ == "size"@ ==> r is Ok && *final(self) == (GBuilderBorder {
                size: Some(value),
                ..*old(self)
            }),
            field_name@ != "size"@ && field_name@ == "radius"@ ==> r is Ok && *final(self) == (
            GBuilderBorder { radius: Some(value), ..*old(self) }),
            field_name@ != "size"@ && field_name@ != "radius"@ ==> *final(self) == *old(self),
            field_name@ != "size"@ && field_name@ != "radius"@ ==> (r matches Err(
                ConversionError::UnknownField { field_name: n },
            ) && n@ == field_name@),
    {
        if str_eq(field_name, "size") {
            self.size = Some(value);
            Ok(())
        } else if str_eq(field_name, "radius") {
            self.radius = Some(value);
            Ok(())
        } else {
            Err(ConversionError::UnknownField { field_name: field_name.to_owned() })
        }
    }

    /// The border, with 0 for a field that was not set.
    pub fn try_build(self) -> (r: Result<Border, String>)
        ensures
            r == Ok::<Border, String>(
                Border { size: value_or(self.size, 0), radius: value_or(self.radius, 0) },
            ),
    {
        Ok(Border { size: super::unwrap_or(self.size, 0), radius: super::unwrap_or(self.radius, 0) })
    }
}

// ---------------------------------------------------------------------------
// Icons and images
// ---------------------------------------------------------------------------

/// The icon theme and the sizes in which icons are looked up.
#[derive(Debug, PartialEq, Eq)]
pub struct IconInfo {
    pub theme: String,
    pub size: Vec<u16>,
}

#[derive(Debug, PartialEq, Eq)]
pub struct IconInfoProperty {
    pub theme: Option<String>,
    pub size: Option<Vec<u16>>,
}

/// Mathematical model of [`IconInfo`].
pub struct IconInfoView {
    pub theme: Seq<char>,
    pub size: Seq<u16>,
}

/// Mathematical model of [`IconInfoProperty`].
pub struct IconInfoPropertyView {
    pub theme: Option<Seq<char>>,
    pub size: Option<Seq<u16>>,
}

impl View for IconInfo {
    type V = IconInfoView;

    open spec fn view(&self) -> IconInfoView {
        IconInfoView { theme: self.theme@, size: self.size@ }
    }
}

impl View for IconInfoProperty {
    type V = IconInfoPropertyView;

    open spec fn view(&self) -> IconInfoPropertyView {
        IconInfoPropertyView {
            theme: match self.theme {
                Some(t) => Some(t@),
                None => None,
            },
            size: match self.size {
                Some(s) => Some(s@),
                None => None,
            },
        }
    }
}

/// The view of an optional icon setting.
pub open spec fn icons_view(p: Option<IconInfoProperty>) -> Option<IconInfoPropertyView> {
    match p {
        Some(i) => Some(i@),
        None => None,
    }
}

impl IconInfoPropertyView {
    /// Each field of `self`, or else that of `other`.
    pub open spec fn merge(self, other: Option<IconInfoPropertyView>) -> IconInfoPropertyView {
        match other {
            None => self,
            Some(b) => IconInfoPropertyView { theme: or_else(self.theme, b.theme), size: or_else(self.size, b.size) },
        }
    }

    /// The Adwaita theme and the sizes 64 and 32 where nothing is set.
    pub open spec fn unwrap_or_default(self) -> IconInfoView {
        IconInfoView {
            theme: value_or(self.theme, "Adwaita"@),
            size: value_or(self.size, seq![64u16, 32u16]),
        }
    }
}

fn copy_sizes(v: &Vec<u16>) -> (r: Vec<u16>)
    ensures
        r@ == v@,
{
    let mut r: Vec<u16> = Vec::new();
    let mut i: usize = 0;
    while i < v.len()
        invariant
            i <= v@.len(),
            r@ == v@.subrange(0, i as int),
        decreases v@.len() - i,
    {
        r.push(v[i]);
        i = i + 1;
        assert(r@ =~= v@.subrange(0, i as int));
    }
    assert(v@.subrange(0, v@.len() as int) =~= v@);
    r
}

impl IconInfoProperty {
    /// Completes this setting with `other`: a field set here wins.
    pub fn merge(self, other: Option<IconInfoProperty>) -> (r: IconInfoProperty)
        ensures
            r@ == self@.merge(icons_view(other)),
    {
        match other {
            None => self,
            Some(other) => IconInfoProperty {
                theme: super::merge_option(self.theme, other.theme),
                size: super::merge_option(self.size, other.size),
            },
        }
    }

    /// The Adwaita theme and the sizes 64 and 32 where nothing is set.
    pub fn unwrap_or_default(self) -> (r: IconInfo)
        ensures
            r@ == self@.unwrap_or_default(),
    {
        IconInfo {
            theme: match self.theme {
                Some(t) => t,
                None => "Adwaita".to_owned(),
            },
            size: match self.size {
                Some(s) => s,
                None => {
                    let v = vec![64u16, 32u16];
                    assert(v@ =~= seq![64u16, 32u16]);
                    v
                },
            },
        }
    }

    pub fn copy(&self) -> (r: IconInfoProperty)
        ensures
            r@ == self@,
    {
        IconInfoProperty {
            theme: match &self.theme {
                Some(t) => Some(t.clone()),
                None => None,
            },
            size: match &self.size {
                Some(s) => Some(copy_sizes(s)),
                None => None,
            },
        }
    }
}

#[derive(Debug, Clone, Copy, PartialEq, Eq, Structural)]
pub struct ImageProperty {
    pub max_size: u16,
    pub rounding: u16,
    pub margin: Spacing,
    pub resizing_method: ResizingMethod,
    pub mipmap_mode: MipmapMode,
    pub fit_mode: FitMode,
}

#[derive(Debug, Clone, Copy, PartialEq, Eq, Structural)]
pub struct TomlImageProperty {
    pub max_size: Option<u16>,
    pub rounding: Option<u16>,
    pub margin: Option<Spacing>,
    pub resizing_method: Option<ResizingMethod>,
    pub mipmap_mode: Option<MipmapMode>,
    pub fit_mode: Option<FitMode>,
}

impl TomlImageProperty {
    pub open spec fn spec_merge(a: TomlImageProperty, b: Option<TomlImageProperty>) -> TomlImageProperty {
        match b {
            None => a,
            Some(b) => TomlImageProperty {
                max_size: or_else(a.max_size, b.max_size),
                rounding: or_else(a.rounding, b.rounding),
                margin: or_else(a.margin, b.margin),
                resizing_method: or_else(a.resizing_method, b.resizing_method),
                mipmap_mode: or_else(a.mipmap_mode, b.mipmap_mode),
                fit_mode: or_else(a.fit_mode, b.fit_mode),
            },
        }
    }

    pub fn merge(self, other: Option<TomlImageProperty>) -> (r: TomlImageProperty)
        ensures
            r == TomlImageProperty::spec_merge(self, other),
    {
        match other {
            None => self,
            Some(other) => TomlImageProperty {
                max_size: super::merge_option(self.max_size, other.max_size),
                rounding: super::merge_option(self.rounding, other.rounding),
                margin: super::merge_option(self.margin, other.margin),
                resizing_method: super::merge_option(self.resizing_method, other.resizing_method),
                mipmap_mode: super::merge_option(self.mipmap_mode, other.mipmap_mode),
                fit_mode: super::merge_option(self.fit_mode, other.fit_mode),
            },
        }
    }

    pub open spec fn spec_unwrap_or_default(t: TomlImageProperty) -> ImageProperty {
        ImageProperty {
            max_size: value_or(t.max_size, 64),
            rounding: value_or(t.rounding, 0),
            margin: value_or(t.margin, Spacing::zero()),
            resizing_method: value_or(t.resizing_method, ResizingMethod::Linear),
            mipmap_mode: value_or(t.mipmap_mode, MipmapMode::Linear),
            fit_mode: value_or(t.fit_mode, FitMode::Contain),
        }
    }

    /// Images at most 64 pixels, not rounded, without margin, resized linearly with linear
    /// mipmaps and contained, where nothing is set.
    pub fn unwrap_or_default(self) -> (r: ImageProperty)
        ensures
            r == TomlImageProperty::spec_unwrap_or_default(self),
    {
        ImageProperty {
            max_size: super::unwrap_or(self.max_size, 64),
            rounding: super::unwrap_or(self.rounding, 0),
            margin: super::unwrap_or(self.margin, Spacing { top: 0, right: 0, bottom: 0, left: 0 }),
            resizing_method: super::unwrap_or(self.resizing_method, ResizingMethod::Linear),
            mipmap_mode: super::unwrap_or(self.mipmap_mode, MipmapMode::Linear),
            fit_mode: super::unwrap_or(self.fit_mode, FitMode::Contain),
        }
    }
}

// ---------------------------------------------------------------------------
// Timeout
// ---------------------------------------------------------------------------

/// How long banners stay, in milliseconds: a default and one value per urgency.
#[derive(Debug, Clone, Copy, PartialEq, Eq, Structural)]
pub struct Timeout {
    pub default: Option<u16>,
    pub low: Option<u16>,
    pub normal: Option<u16>,
    pub critical: Option<u16>,
}

/// Why a timeout setting was refused.
#[derive(Debug, Clone, PartialEq, Eq)]
pub enum TimeoutError {
    /// A negative number of milliseconds.
    Negative(i64),
    /// A table key other than `default`, `low`, `normal` and `critical`.
    UnknownKey(String),
}

/// The timeout for an urgency: its own value, else the default, else 0 (never expire).
pub open spec fn timeout_for(t: Timeout, u: Urgency) -> u16 {
    value_or(
        or_else(
            match u {
                Urgency::Low => t.low,
                Urgency::Normal => t.normal,
                Urgency::Critical => t.critical,
            },
            t.default,
        ),
        0,
    )
}

/// The timeout keys of a table form.
pub open spec fn is_timeout_key(k: Seq<char>) -> bool {
    k == "default"@ || k == "low"@ || k == "normal"@ || k == "critical"@
}

/// The value of the last entry called `key`.
pub open spec fn last_value(e: Seq<(String, u16)>, key: Seq<char>) -> Option<u16>
    decreases e.len(),
{
    if e.len() == 0 {
        None
    } else if e.last().0@ == key {
        Some(e.last().1)
    } else {
        last_value(e.drop_last(), key)
    }
}

impl Timeout {
    /// The same timeout for every urgency.
    pub fn new(default_value: u16) -> (r: Timeout)
        ensures
            r == (Timeout { default: Some(default_value), low: None, normal: None, critical: None }),
    {
        Timeout { default: Some(default_value), low: None, normal: None, critical: None }
    }

    pub fn by_urgency(&self, urgency: &Urgency) -> (r: u16)
        ensures
            r == timeout_for(*self, *urgency),
    {
        let own = match urgency {
            Urgency::Low => self.low,
            Urgency::Normal => self.normal,
            Urgency::Critical => self.critical,
        };
        super::unwrap_or(super::merge_option(own, self.default), 0)
    }

    /// The short form `timeout = <number>`; a negative number is refused, a larger one is
    /// clamped to `u16::MAX`.
    pub fn from_number(value: i64) -> (r: Result<Timeout, TimeoutError>)
        ensures
            value < 0 ==> r == Err::<Timeout, TimeoutError>(TimeoutError::Negative(value)),
            0 <= value <= 65535 ==> r == Ok::<Timeout, TimeoutError>(
                Timeout { default: Some(value as u16), low: None, normal: None, critical: None },
            ),
            value > 65535 ==> r == Ok::<Timeout, TimeoutError>(
                Timeout { default: Some(65535), low: None, normal: None, critical: None },
            ),
    {
        if value < 0 {
            Err(TimeoutError::Negative(value))
        } else if value > 65535 {
            Ok(Timeout::new(65535))
        } else {
            Ok(Timeout::new(value as u16))
        }
    }

    /// The table form: `default`, `low`, `normal` and `critical` keys, a later key replacing
    /// an earlier one of the same name; any other key is refused.
    pub fn from_table(entries: &[(String, u16)]) -> (r: Result<Timeout, TimeoutError>)
        ensures
            r is Ok <==> forall|i: int| 0 <= i < entries@.len() ==> is_timeout_key(
                (#[trigger] entries@[i]).0@,
            ),
            r matches Ok(t) ==> t == (Timeout {
                default: last_value(entries@, "default"@),
                low: last_value(entries@, "low"@),
                normal: last_value(entries@, "normal"@),
                critical: last_value(entries@, "critical"@),
            }),
    {
        let mut t = Timeout { default: None, low: None, normal: None, critical: None };
        let mut i: usize = 0;
        proof {
            reveal_strlit("default");
            reveal_strlit("low");
            reveal_strlit("normal");
            reveal_strlit("critical");
        }
        while i < entries.len()
            invariant
                i <= entries@.len(),
                forall|j: int| 0 <= j < i ==> is_timeout_key((#[trigger] entries@[j]).0@),
                "default"@ =~= seq!['d', 'e', 'f', 'a', 'u', 'l', 't'],
                "low"@ =~= seq!['l', 'o', 'w'],
                "normal"@ =~= seq!['n', 'o', 'r', 'm', 'a', 'l'],
                "critical"@ =~= seq!['c', 'r', 'i', 't', 'i', 'c', 'a', 'l'],
                t == (Timeout {
                    default: last_value(entries@.subrange(0, i as int), "default"@),
                    low: last_value(entries@.subrange(0, i as int), "low"@),
                    normal: last_value(entries@.subrange(0, i as int), "normal"@),
                    critical: last_value(entries@.subrange(0, i as int), "critical"@),
                }),
            decreases entries@.len() - i,
        {
            let ghost prefix = entries@.subrange(0, i + 1);
            assert(prefix.drop_last() =~= entries@.subrange(0, i as int));
            assert(prefix.last() == entries@[i as int]);
            let key = entries[i].0.as_str();
            let value = entries[i].1;
            if str_eq(key, "default") {
                t.default = Some(value);
            } else if str_eq(key, "low") {
                t.low = Some(value);
            } else if str_eq(key, "normal") {
                t.normal = Some(value);
            } else if str_eq(key, "critical") {
                t.critical = Some(value);
            } else {
                return Err(TimeoutError::UnknownKey(key.to_owned()));
            }
            i = i + 1;
        }
        assert(entries@.subrange(0, entries@.len() as int) =~= entries@);
        Ok(t)
    }
}

// ---------------------------------------------------------------------------
// The display configuration
// ---------------------------------------------------------------------------

/// How banners of one application (or all of them) are displayed.
#[derive(Debug, PartialEq, Eq)]
pub struct DisplayConfig {
    pub layout: Layout,
    pub animation: Animation,
    pub theme: String,
    pub icons: IconInfo,
    pub image: ImageProperty,
    pub padding: Spacing,
    pub border: Border,
    pub summary: TextProperty,
    pub body: TextProperty,
    pub markup: bool,
    pub timeout: Timeout,
}

/// Display settings as a configuration file gives them. `text` sets the summary and the body
/// at once; their own settings win over it.
#[derive(Debug, PartialEq, Eq)]
pub struct TomlDisplayConfig {
    pub layout: Option<Layout>,
    pub animation: Option<AnimationProperty>,
    pub theme: Option<String>,
    pub icons: Option<IconInfoProperty>,
    pub image: Option<TomlImageProperty>,
    pub padding: Option<Spacing>,
    pub border: Option<TomlBorder>,
    pub summary: Option<TomlTextProperty>,
    pub body: Option<TomlTextProperty>,
    pub markup: Option<bool>,
    pub timeout: Option<Timeout>,
    pub text: Option<TomlTextProperty>,
}

/// Mathematical model of [`DisplayConfig`].
pub struct DisplayConfigView {
    pub layout: Layout,
    pub animation: Animation,
    pub theme: Seq<char>,
    pub icons: IconInfoView,
    pub image: ImageProperty,
    pub padding: Spacing,
    pub border: Border,
    pub summary: TextPropertyView,
    pub body: TextPropertyView,
    pub markup: bool,
    pub timeout: Timeout,
}

/// Mathematical model of [`TomlDisplayConfig`].
pub struct TomlDisplayConfigView {
    pub layout: Option<Layout>,
    pub animation: Option<AnimationProperty>,
    pub theme: Option<Seq<char>>,
    pub icons: Option<IconInfoPropertyView>,
    pub image: Option<TomlImageProperty>,
    pub padding: Option<Spacing>,
    pub border: Option<TomlBorder>,
    pub summary: Option<TomlTextProperty>,
    pub body: Option<TomlTextProperty>,
    pub markup: Option<bool>,
    pub timeout: Option<Timeout>,
    pub text: Option<TomlTextProperty>,
}

impl View for DisplayConfig {
    type V = DisplayConfigView;

    open spec fn view(&self) -> DisplayConfigView {
        DisplayConfigView {
            layout: self.layout,
            animation: self.animation,
            theme: self.theme@,
            icons: self.icons@,
            image: self.image,
            padding: self.padding,
            border: self.border,
            summary: self.summary@,
            body: self.body@,
            markup: self.markup,
            timeout: self.timeout,
        }
    }
}

impl View for TomlDisplayConfig {
    type V = TomlDisplayConfigView;

    open spec fn view(&self) -> TomlDisplayConfigView {
        TomlDisplayConfigView {
            layout: self.layout,
            animation: self.animation,
            theme: match self.theme {
                Some(t) => Some(t@),
                None => None,
            },
            icons: icons_view(self.icons),
            image: self.image,
            padding: self.padding,
            border: self.border,
            summary: self.summary,
            body: self.body,
            markup: self.markup,
            timeout: self.timeout,
            text: self.text,
        }
    }
}

/// The view of optional display settings.
pub open spec fn display_view(d: Option<TomlDisplayConfig>) -> Option<TomlDisplayConfigView> {
    match d {
        Some(x) => Some(x@),
        None => None,
    }
}

/// The text settings of the summary or the body: its own, completed with the shared `text`.
pub open spec fn text_source(own: Option<TomlTextProperty>, text: Option<TomlTextProperty>) -> Option<TomlTextProperty> {
    match own {
        Some(x) => Some(TomlTextProperty::spec_merge(x, text)),
        None => text,
    }
}

impl TomlDisplayConfigView {
    /// Nothing is set.
    pub open spec fn empty() -> TomlDisplayConfigView {
        TomlDisplayConfigView {
            layout: None,
            animation: None,
            theme: None,
            icons: None,
            image: None,
            padding: None,
            border: None,
            summary: None,
            body: None,
            markup: None,
            timeout: None,
            text: None,
        }
    }

    /// Each setting of `self`, or else that of `other`; nested settings (animation, icons,
    /// image, border, summary, body) are completed field by field.
    pub open spec fn merge(self, other: Option<TomlDisplayConfigView>) -> TomlDisplayConfigView {
        match other {
            None => self,
            Some(b) => TomlDisplayConfigView {
                layout: or_else(self.layout, b.layout),
                animation: match self.animation {
                    Some(x) => Some(AnimationProperty::spec_merge(x, b.animation)),
                    None => b.animation,
                },
                theme: or_else(self.theme, b.theme),
                icons: match self.icons {
                    Some(x) => Some(x.merge(b.icons)),
                    None => b.icons,
                },
                image: match self.image {
                    Some(x) => Some(TomlImageProperty::spec_merge(x, b.image)),
                    None => b.image,
                },
                padding: or_else(self.padding, b.padding),
                border: match self.border {
                    Some(x) => Some(TomlBorder::spec_merge(x, b.border)),
                    None => b.border,
                },
                summary: match self.summary {
                    Some(x) => Some(TomlTextProperty::spec_merge(x, b.summary)),
                    None => b.summary,
                },
                body: match self.body {
                    Some(x) => Some(TomlTextProperty::spec_merge(x, b.body)),
                    None => b.body,
                },
                markup: or_else(self.markup, b.markup),
                timeout: or_else(self.timeout, b.timeout),
                text: or_else(self.text, b.text),
            },
        }
    }

    /// Fills what is missing: the default layout and animations, no theme name, the
    /// default icons, image, padding and border, a bold centred summary (the summary and the
    /// body fall back on the shared `text` first), markup on and banners that stay.
    pub open spec fn unwrap_or_default(self) -> DisplayConfigView {
        DisplayConfigView {
            layout: value_or(self.layout, Layout::Default),
            animation: AnimationProperty::spec_unwrap_or_default(
                value_or(self.animation, AnimationProperty::empty()),
            ),
            theme: value_or(self.theme, Seq::<char>::empty()),
            icons: value_or(self.icons, IconInfoPropertyView { theme: None, size: None }).unwrap_or_default(),
            image: TomlImageProperty::spec_unwrap_or_default(
                value_or(
                    self.image,
                    TomlImageProperty {
                        max_size: None,
                        rounding: None,
                        margin: None,
                        resizing_method: None,
                        mipmap_mode: None,
                        fit_mode: None,
                    },
                ),
            ),
            padding: value_or(self.padding, Spacing::zero()),
            border: match self.border {
                Some(b) => Border { size: value_or(b.size, 0), radius: value_or(b.radius, 0) },
                None => Border { size: 0, radius: 0 },
            },
            summary: TomlTextProperty::spec_unwrap_or_default(
                value_or(
                    text_source(self.summary, self.text),
                    TomlTextProperty {
                        style: Some(TextStyle::Bold),
                        alignment: Some(TextAlignment::Center),
                        ..TomlTextProperty::empty()
                    },
                ),
            ),
            body: TomlTextProperty::spec_unwrap_or_default(
                value_or(text_source(self.body, self.text), TomlTextProperty::empty()),
            ),
            markup: value_or(self.markup, true),
            timeout: value_or(
                self.timeout,
                Timeout { default: Some(0), low: None, normal: None, critical: None },
            ),
        }
    }
}

impl TomlDisplayConfig {
    /// Nothing is set.
    pub fn new() -> (r: TomlDisplayConfig)
        ensures
            r@ == TomlDisplayConfigView::empty(),
    {
        TomlDisplayConfig {
            layout: None,
            animation: None,
            theme: None,
            icons: None,
            image: None,
            padding: None,
            border: None,
            summary: None,
            body: None,
            markup: None,
            timeout: None,
            text: None,
        }
    }

    /// Completes these settings with `other`: what is set here wins, and nested settings
    /// (animation, icons, image, border, summary, body) are completed field by field.
    pub fn merge(self, other: Option<TomlDisplayConfig>) -> (r: TomlDisplayConfig)
        ensures
            r@ == self@.merge(display_view(other)),
    {
        match other {
            None => self,
            Some(other) => TomlDisplayConfig {
                layout: super::merge_option(self.layout, other.layout),
                animation: match self.animation {
                    Some(x) => Some(x.merge(other.animation)),
                    None => other.animation,
                },
                theme: super::merge_option(self.theme, other.theme),
                icons: match self.icons {
                    Some(x) => Some(x.merge(other.icons)),
                    None => other.icons,
                },
                image: match self.image {
                    Some(x) => Some(x.merge(other.image)),
                    None => other.image,
                },
                padding: super::merge_option(self.padding, other.padding),
                border: match self.border {
                    Some(x) => Some(x.merge(other.border)),
                    None => other.border,
                },
                summary: match self.summary {
                    Some(x) => Some(x.merge(other.summary)),
                    None => other.summary,
                },
                body: match self.body {
                    Some(x) => Some(x.merge(other.body)),
                    None => other.body,
                },
                markup: super::merge_option(self.markup, other.markup),
                timeout: super::merge_option(self.timeout, other.timeout),
                text: super::merge_option(self.text, other.text),
            },
        }
    }

    /// Makes the path of a layout file relative to `prefix` (the directory of the file the
    /// setting was read from) when it is not absolute.
    pub fn use_relative_path(&mut self, prefix: &str)
        ensures
            match old(self).layout {
                Some(Layout::FromPath { path_buf }) => is_relative_path(path_buf@) ==> (
                final(self).layout matches Some(Layout::FromPath { path_buf: p })
                    && p@ == spec_path_extend(prefix@, path_buf@)),
                _ => true,
            },
            match old(self).layout {
                Some(Layout::FromPath { path_buf }) => is_relative_path(path_buf@),
                _ => false,
            } || final(self).layout == old(self).layout,
            final(self).animation == old(self).animation,
            final(self).theme == old(self).theme,
            final(self).icons == old(self).icons,
            final(self).image == old(self).image,
            final(self).padding == old(self).padding,
            final(self).border == old(self).border,
            final(self).summary == old(self).summary,
            final(self).body == old(self).body,
            final(self).markup == old(self).markup,
            final(self).timeout == old(self).timeout,
            final(self).text == old(self).text,
    {
        let relative = match &self.layout {
            Some(Layout::FromPath { path_buf }) => {
                let chars = crate::unicode::chars_of(path_buf.as_str());
                if chars.len() > 0 && chars[0] == '/' {
                    None
                } else {
                    Some(path_extend(prefix, path_buf.as_str()))
                }
            },
            _ => None,
        };
        if let Some(p) = relative {
            self.layout = Some(Layout::FromPath { path_buf: p });
        }
    }

    /// Fills what is missing with the defaults (see [`TomlDisplayConfigView::unwrap_or_default`]).
    pub fn unwrap_or_default(self) -> (r: DisplayConfig)
        ensures
            r@ == self@.unwrap_or_default(),
    {
        let text_for_summary = match &self.text {
            Some(t) => Some(t.clone()),
            None => None,
        };
        let summary = match self.summary {
            Some(s) => Some(s.merge(text_for_summary)),
            None => text_for_summary,
        };
        let body = match self.body {
            Some(b) => Some(b.merge(self.text)),
            None => self.text,
        };
        DisplayConfig {
            layout: super::unwrap_or(self.layout, Layout::Default),
            animation: match self.animation {
                Some(a) => a,
                None => AnimationProperty { allocation: None, enter: None, exit: None, free: None },
            }.unwrap_or_default(),
            theme: match self.theme {
                Some(t) => t,
                None => String::new(),
            },
            icons: match self.icons {
                Some(i) => i,
                None => IconInfoProperty { theme: None, size: None },
            }.unwrap_or_default(),
            image: match self.image {
                Some(i) => i,
                None => TomlImageProperty {
                    max_size: None,
                    rounding: None,
                    margin: None,
                    resizing_method: None,
                    mipmap_mode: None,
                    fit_mode: None,
                },
            }.unwrap_or_default(),
            padding: super::unwrap_or(self.padding, Spacing { top: 0, right: 0, bottom: 0, left: 0 }),
            border: match self.border {
                Some(b) => b,
                None => TomlBorder { size: None, radius: None },
            }.unwrap_or_default(),
            summary: match summary {
                Some(s) => s,
                None => TomlTextProperty::default_summary(),
            }.unwrap_or_default(),
            body: match body {
                Some(b) => b,
                None => TomlTextProperty::new(),
            }.unwrap_or_default(),
            markup: super::unwrap_or(self.markup, true),
            timeout: super::unwrap_or(self.timeout, Timeout::new(0)),
        }
    }

    /// A copy of these settings.
    pub fn copy(&self) -> (r: TomlDisplayConfig)
        ensures
            r@ == self@,
    {
        TomlDisplayConfig {
            layout: match &self.layout {
                Some(l) => Some(l.clone()),
                None => None,
            },
            animation: self.animation,
            theme: match &self.theme {
                Some(t) => Some(t.clone()),
                None => None,
            },
            icons: match &self.icons {
                Some(i) => Some(i.copy()),
                None => None,
            },
            image: self.image,
            padding: self.padding,
            border: self.border,
            summary: match &self.summary {
                Some(s) => Some(s.clone()),
                None => None,
            },
            body: match &self.body {
                Some(s) => Some(s.clone()),
                None => None,
            },
            markup: self.markup,
            timeout: self.timeout,
            text: match &self.text {
                Some(s) => Some(s.clone()),
                None => None,
            },
        }
    }
}

} // verus!

verus! {

// ---------------------------------------------------------------------------
// Laws of merging display settings
// ---------------------------------------------------------------------------

/// Completing settings with nothing, or with settings that set nothing, leaves them as they
/// are; completing nothing with settings gives those settings.
pub proof fn law_display_merge_identity(a: TomlDisplayConfigView)
    ensures
        a.merge(None) == a,
        a.merge(Some(TomlDisplayConfigView::empty())) == a,
        TomlDisplayConfigView::empty().merge(Some(a)) == a,
{
    assert(a.merge(Some(TomlDisplayConfigView::empty())) =~= a);
    assert(TomlDisplayConfigView::empty().merge(Some(a)) =~= a);
}

/// Completing settings with themselves changes nothing.
pub proof fn law_display_merge_idempotent(a: TomlDisplayConfigView)
    ensures
        a.merge(Some(a)) == a,
{
    assert(a.merge(Some(a)) =~= a);
}

/// Completing with `b` and then with `c` is completing with `b` completed with `c`: a chain
/// of imported files gives the same settings however it is grouped.
#[verifier::spinoff_prover]
pub proof fn law_display_merge_associative(
    a: TomlDisplayConfigView,
    b: TomlDisplayConfigView,
    c: TomlDisplayConfigView,
)
    ensures
        a.merge(Some(b)).merge(Some(c)) == a.merge(Some(b.merge(Some(c)))),
{
    assert(a.merge(Some(b)).merge(Some(c)) =~= a.merge(Some(b.merge(Some(c)))));
}

/// A setting given by the settings being completed wins over the one they are completed
/// with.
pub proof fn law_display_merge_own_wins(a: TomlDisplayConfigView, b: TomlDisplayConfigView)
    ensures
        a.layout is Some ==> a.merge(Some(b)).layout == a.layout,
        a.theme is Some ==> a.merge(Some(b)).theme == a.theme,
        a.padding is Some ==> a.merge(Some(b)).padding == a.padding,
        a.markup is Some ==> a.merge(Some(b)).markup == a.markup,
        a.timeout is Some ==> a.merge(Some(b)).timeout == a.timeout,
        a.text is Some ==> a.merge(Some(b)).text == a.text,
        a.layout is None ==> a.merge(Some(b)).layout == b.layout,
        a.theme is None ==> a.merge(Some(b)).theme == b.theme,
{
}

/// Whether text properties, where there are some, set wrapping, and how.
pub open spec fn wrap_set(p: Option<TomlTextProperty>) -> Option<bool> {
    match p {
        Some(x) => x.wrap,
        None => None,
    }
}

/// The summary and the body of a banner wrap unless their own text settings, or else the
/// shared ones, say otherwise: settings that say nothing of wrapping give wrapping text.
pub proof fn law_display_text_wraps(d: TomlDisplayConfigView)
    ensures
        d.unwrap_or_default().summary.wrap == match wrap_set(d.summary) {
            Some(w) => w,
            None => match wrap_set(d.text) {
                Some(w) => w,
                None => true,
            },
        },
        d.unwrap_or_default().body.wrap == match wrap_set(d.body) {
            Some(w) => w,
            None => match wrap_set(d.text) {
                Some(w) => w,
                None => true,
            },
        },
{
}

} // verus!
