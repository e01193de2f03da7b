//! Notifications as the freedesktop notification specification describes them, and the
//! decoding of the hints that a client sends with one.
use vstd::prelude::*;

use std::cmp::Ordering;

use crate::markup::{Text, TextView};

verus! {

/// What `str::to_lowercase` gives for a text.
pub uninterp spec fn spec_to_lowercase(s: Seq<char>) -> Seq<char>;

/// Lower-cases `s` with `str::to_lowercase`; the result is the one named `spec_to_lowercase`.
#[verifier::external_body]
pub(crate) fn to_lowercase(s: &str) -> (r: String)
    ensures
        r@ == spec_to_lowercase(s@),
{
    s.to_lowercase()
}

/// Compares two texts character by character.
pub fn str_eq(a: &str, b: &str) -> (r: bool)
    ensures
        r == (a@ == b@),
{
    let ac = crate::unicode::chars_of(a);
    let bc = crate::unicode::chars_of(b);
    if ac.len() != bc.len() {
        return false;
    }
    let mut i: usize = 0;
    while i < ac.len()
        invariant
            ac@ == a@,
            bc@ == b@,
            ac@.len() == bc@.len(),
            i <= ac@.len(),
            forall|j: int| 0 <= j < i ==> ac@[j] == bc@[j],
        decreases ac@.len() - i,
    {
        if ac[i] != bc[i] {
            return false;
        }
        i = i + 1;
    }
    assert(ac@ =~= bc@);
    true
}

// ---------------------------------------------------------------------------
// Urgency
// ---------------------------------------------------------------------------

/// The urgency level of a notification.
#[derive(Debug, Clone, Copy, PartialEq, Eq, Structural)]
pub enum Urgency {
    /// Not time-sensitive; may be shown less prominently.
    Low,
    /// The level of most notifications.
    Normal,
    /// Very important; may stay on screen until dismissed.
    Critical,
}

impl Default for Urgency {
    fn default() -> (r: Urgency)
        ensures
            r == Urgency::Normal,
    {
        Urgency::Normal
    }
}

/// The number that the specification gives each urgency.
pub open spec fn urgency_level(u: Urgency) -> u8 {
    match u {
        Urgency::Low => 0,
        Urgency::Normal => 1,
        Urgency::Critical => 2,
    }
}

pub open spec fn urgency_from_level(v: u8) -> Urgency {
    if v == 0 {
        Urgency::Low
    } else if v == 1 {
        Urgency::Normal
    } else if v == 2 {
        Urgency::Critical
    } else {
        Urgency::Normal
    }
}

/// The urgency that a lower-cased name stands for; unknown names mean `Normal`.
pub open spec fn urgency_from_lower_name(s: Seq<char>) -> Urgency {
    if s == "low"@ {
        Urgency::Low
    } else if s == "normal"@ {
        Urgency::Normal
    } else if s == "critical"@ {
        Urgency::Critical
    } else {
        Urgency::Normal
    }
}

/// The name that the notification specification gives the urgency of each level: 0 is
/// "low", 1 "normal" and 2 "critical".
pub open spec fn level_name(level: u8) -> Seq<char> {
    if level == 0 {
        "low"@
    } else if level == 1 {
        "normal"@
    } else {
        "critical"@
    }
}

/// An urgency read by its name is the urgency of the level of that name, and reading it back
/// by its level gives that level: "low" is level 0, "normal" level 1, "critical" level 2.
pub proof fn law_urgency_names(level: u8, u: Urgency)
    requires
        level <= 2,
    ensures
        urgency_level(urgency_from_lower_name(level_name(level))) == level,
        urgency_from_lower_name(level_name(level)) == urgency_from_level(level),
        urgency_from_lower_name(level_name(urgency_level(u))) == u,
{
    reveal_strlit("low");
    reveal_strlit("normal");
    reveal_strlit("critical");
    assert("low"@.len() == 3 && "normal"@.len() == 6 && "critical"@.len() == 8);
}

impl Urgency {
    /// 0 is low, 1 normal, 2 critical; any other number gives the default, normal.
    pub fn from_level(value: u8) -> (r: Urgency)
        ensures
            r == urgency_from_level(value),
    {
        match value {
            0 => Urgency::Low,
            1 => Urgency::Normal,
            2 => Urgency::Critical,
            _ => Urgency::Normal,
        }
    }

    pub fn level(&self) -> (r: u8)
        ensures
            r == urgency_level(*self),
    {
        match self {
            Urgency::Low => 0,
            Urgency::Normal => 1,
            Urgency::Critical => 2,
        }
    }

    /// The urgency named `value`, whatever its case ("low", "normal", "critical");
    /// any other name gives normal.
    pub fn from_name(value: &str) -> (r: Urgency)
        ensures
            r == urgency_from_lower_name(spec_to_lowercase(value@)),
    {
        let lower = to_lowercase(value);
        if str_eq(lower.as_str(), "low") {
            Urgency::Low
        } else if str_eq(lower.as_str(), "normal") {
            Urgency::Normal
        } else if str_eq(lower.as_str(), "critical") {
            Urgency::Critical
        } else {
            Urgency::Normal
        }
    }

    /// Orders urgencies from low to critical.
    pub fn compare(&self, other: &Urgency) -> (r: Ordering)
        ensures
            (r == Ordering::Less) == (urgency_level(*self) < urgency_level(*other)),
            (r == Ordering::Equal) == (urgency_level(*self) == urgency_level(*other)),
            (r == Ordering::Greater) == (urgency_level(*self) > urgency_level(*other)),
    {
        let a = self.level();
        let b = other.level();
        if a < b {
            Ordering::Less
        } else if a == b {
            Ordering::Equal
        } else {
            Ordering::Greater
        }
    }

    /// The urgency that a hint carries: a byte level, or else a name.
    pub fn from_hint(hint: &HintValue) -> (r: Option<Urgency>)
        ensures
            r == urgency_from_hint(*hint),
    {
        match hint {
            HintValue::U8(v) => Some(Urgency::from_level(*v)),
            HintValue::Str(s) => Some(Urgency::from_name(s.as_str())),
            _ => None,
        }
    }
}

pub open spec fn urgency_from_hint(hint: HintValue) -> Option<Urgency> {
    match hint {
        HintValue::U8(v) => Some(urgency_from_level(v)),
        HintValue::Str(s) => Some(urgency_from_lower_name(spec_to_lowercase(s@))),
        _ => None,
    }
}

// ---------------------------------------------------------------------------
// Category
// ---------------------------------------------------------------------------

/// A specific event within a notification category.
#[derive(Debug, Clone, Copy, PartialEq, Eq, Structural)]
pub enum CategoryEvent {
    Generic,
    Added,
    Removed,
    Arrived,
    Bounced,
    Received,
    Error,
    Connected,
    Disconnected,
    Offline,
    Online,
    Complete,
}

/// The category of a notification.
#[derive(Debug, Clone, Copy, PartialEq, Eq, Structural)]
pub enum Category {
    Device(CategoryEvent),
    Email(CategoryEvent),
    InstantMessage(CategoryEvent),
    Network(CategoryEvent),
    Presence(CategoryEvent),
    Transfer(CategoryEvent),
    Unknown,
}

impl Default for Category {
    fn default() -> (r: Category)
        ensures
            r == Category::Unknown,
    {
        Category::Unknown
    }
}

/// The category that a specification name (such as `"email.arrived"`) stands for.
pub open spec fn category_from_name(s: Seq<char>) -> Category {
    if s == "device"@ {
        Category::Device(CategoryEvent::Generic)
    } else if s == "device.added"@ {
        Category::Device(CategoryEvent::Added)
    } else if s == "device.removed"@ {
        Category::Device(CategoryEvent::Removed)
    } else if s == "device.error"@ {
        Category::Device(CategoryEvent::Error)
    } else if s == "email"@ {
        Category::Email(CategoryEvent::Generic)
    } else if s == "email.arrived"@ {
        Category::Email(CategoryEvent::Arrived)
    } else if s == "email.bounced"@ {
        Category::Email(CategoryEvent::Bounced)
    } else if s == "im"@ {
        Category::InstantMessage(CategoryEvent::Generic)
    } else if s == "im.received"@ {
        Category::InstantMessage(CategoryEvent::Received)
    } else if s == "im.error"@ {
        Category::InstantMessage(CategoryEvent::Error)
    } else if s == "network"@ {
        Category::Network(CategoryEvent::Generic)
    } else if s == "network.connected"@ {
        Category::Network(CategoryEvent::Connected)
    } else if s == "network.disconnected"@ {
        Category::Network(CategoryEvent::Disconnected)
    } else if s == "network.error"@ {
        Category::Network(CategoryEvent::Error)
    } else if s == "presence"@ {
        Category::Presence(CategoryEvent::Generic)
    } else if s == "presence.online"@ {
        Category::Presence(CategoryEvent::Online)
    } else if s == "presence.offline"@ {
        Category::Presence(CategoryEvent::Offline)
    } else if s == "transfer"@ {
        Category::Transfer(CategoryEvent::Generic)
    } else if s == "transfer.complete"@ {
        Category::Transfer(CategoryEvent::Complete)
    } else if s == "transfer.error"@ {
        Category::Transfer(CategoryEvent::Error)
    } else {
        Category::Unknown
    }
}

impl Category {
    /// The category named `value`; unknown names give `Unknown`.
    pub fn from_name(value: &str) -> (r: Category)
        ensures
            r == category_from_name(value@),
    {
        if str_eq(value, "device") {
            Category::Device(CategoryEvent::Generic)
        } else if str_eq(value, "device.added") {
            Category::Device(CategoryEvent::Added)
        } else if str_eq(value, "device.removed") {
            Category::Device(CategoryEvent::Removed)
        } else if str_eq(value, "device.error") {
            Category::Device(CategoryEvent::Error)
        } else if str_eq(value, "email") {
            Category::Email(CategoryEvent::Generic)
        } else if str_eq(value, "email.arrived") {
            Category::Email(CategoryEvent::Arrived)
        } else if str_eq(value, "email.bounced") {
            Category::Email(CategoryEvent::Bounced)
        } else if str_eq(value, "im") {
            Category::InstantMessage(CategoryEvent::Generic)
        } else if str_eq(value, "im.received") {
            Category::InstantMessage(CategoryEvent::Received)
        } else if str_eq(value, "im.error") {
            Category::InstantMessage(CategoryEvent::Error)
        } else if str_eq(value, "network") {
            Category::Network(CategoryEvent::Generic)
        } else if str_eq(value, "network.connected") {
            Category::Network(CategoryEvent::Connected)
        } else if str_eq(value, "network.disconnected") {
            Category::Network(CategoryEvent::Disconnected)
        } else if str_eq(value, "network.error") {
            Category::Network(CategoryEvent::Error)
        } else if str_eq(value, "presence") {
            Category::Presence(CategoryEvent::Generic)
        } else if str_eq(value, "presence.online") {
            Category::Presence(CategoryEvent::Online)
        } else if str_eq(value, "presence.offline") {
            Category::Presence(CategoryEvent::Offline)
        } else if str_eq(value, "transfer") {
            Category::Transfer(CategoryEvent::Generic)
        } else if str_eq(value, "transfer.complete") {
            Category::Transfer(CategoryEvent::Complete)
        } else if str_eq(value, "transfer.error") {
            Category::Transfer(CategoryEvent::Error)
        } else {
            Category::Unknown
        }
    }

    /// The category that a text hint names; other hints carry none.
    pub fn from_hint(hint: &HintValue) -> (r: Option<Category>)
        ensures
            r == (match *hint {
                HintValue::Str(s) => Some(category_from_name(s@)),
                _ => None,
            }),
    {
        match hint {
            HintValue::Str(s) => Some(Category::from_name(s.as_str())),
            _ => None,
        }
    }
}

// ---------------------------------------------------------------------------
// Timeout
// ---------------------------------------------------------------------------

/// How long a notification should be displayed.
#[derive(Debug, Clone, Copy, PartialEq, Eq, Structural)]
pub enum Timeout {
    /// Close after this many milliseconds.
    Millis(u32),
    /// Never close by itself.
    Never,
    /// Use the server's configured timeout.
    Configurable,
}

impl Default for Timeout {
    fn default() -> (r: Timeout)
        ensures
            r == Timeout::Configurable,
    {
        Timeout::Configurable
    }
}

impl Timeout {
    /// The timeout that the `expire_timeout` argument of a notification request means:
    /// 0 never expires, -1 uses the server's default, a positive number is milliseconds.
    pub fn from_expire_timeout(value: i32) -> (r: Timeout)
        requires
            value >= -1,
        ensures
            value == 0 ==> r == Timeout::Never,
            value == -1 ==> r == Timeout::Configurable,
            value > 0 ==> r == Timeout::Millis(value as u32),
    {
        if value == 0 {
            Timeout::Never
        } else if value == -1 {
            Timeout::Configurable
        } else {
            Timeout::Millis(value as u32)
        }
    }
}

// ---------------------------------------------------------------------------
// Hints
// ---------------------------------------------------------------------------

/// A value of the image structure that a hint may carry.
#[derive(Debug, Clone, PartialEq)]
pub enum HintField {
    U8(u8),
    Bool(bool),
    I32(i32),
    Str(String),
    /// An array whose items are all bytes.
    Bytes(Vec<u8>),
    /// An array that holds something other than bytes.
    OtherArray,
    /// Any other kind of value.
    Other,
}

/// The value of a notification hint, by the D-Bus type it was sent with.
#[derive(Debug, Clone, PartialEq)]
pub enum HintValue {
    U8(u8),
    Bool(bool),
    I32(i32),
    Str(String),
    /// A structure, such as the raw image of `image-data`.
    Structure(Vec<HintField>),
    /// Any other kind of value.
    Other,
}

/// A raw image sent in a hint.
#[derive(Debug, Clone, PartialEq)]
pub struct ImageData {
    /// Width of image in pixels.
    pub width: i32,
    /// Height of image in pixels.
    pub height: i32,
    /// Number of bytes between the start of one row and the next.
    pub rowstride: i32,
    /// Whether the image has an alpha channel.
    pub has_alpha: bool,
    /// Number of bits per sample.
    pub bits_per_sample: i32,
    /// Number of channels.
    pub channels: i32,
    /// The pixels, in RGB byte order.
    pub data: Vec<u8>,
}

/// The six leading fields of an image structure have the right types.
pub open spec fn image_header_ok(fields: Seq<HintField>) -> bool {
    &&& fields.len() >= 7
    &&& fields[0] is I32
    &&& fields[1] is I32
    &&& fields[2] is I32
    &&& fields[3] is Bool
    &&& fields[4] is I32
    &&& fields[5] is I32
}

/// An image structure can be read without a fault: its pixel array, when its header is
/// right, holds bytes only.
pub open spec fn image_hint_readable(hint: HintValue) -> bool {
    match hint {
        HintValue::Structure(fields) => image_header_ok(fields@) ==> !(fields@[6] is OtherArray),
        _ => true,
    }
}

impl ImageData {
    /// Reads an image from the structure `(width, height, rowstride, has_alpha,
    /// bits_per_sample, channels, data)`; any other value gives `None`.
    pub fn from_hint(hint: &HintValue) -> (r: Option<ImageData>)
        requires
            image_hint_readable(*hint),
        ensures
            opt_image_view(r) == image_from_hint(*hint),
    {
        let fields = match hint {
            HintValue::Structure(fields) => fields,
            _ => return None,
        };
        if fields.len() < 7 {
            return None;
        }
        let width = match &fields[0] {
            HintField::I32(v) => *v,
            _ => return None,
        };
        let height = match &fields[1] {
            HintField::I32(v) => *v,
            _ => return None,
        };
        let rowstride = match &fields[2] {
            HintField::I32(v) => *v,
            _ => return None,
        };
        let has_alpha = match &fields[3] {
            HintField::Bool(v) => *v,
            _ => return None,
        };
        let bits_per_sample = match &fields[4] {
            HintField::I32(v) => *v,
            _ => return None,
        };
        let channels = match &fields[5] {
            HintField::I32(v) => *v,
            _ => return None,
        };
        let data = match &fields[6] {
            HintField::Bytes(bytes) => copy_bytes(bytes),
            _ => return None,
        };
        Some(ImageData { width, height, rowstride, has_alpha, bits_per_sample, channels, data })
    }
}

fn copy_bytes(bytes: &Vec<u8>) -> (r: Vec<u8>)
    ensures
        r@ == bytes@,
{
    let mut r: Vec<u8> = Vec::new();
    let mut i: usize = 0;
    while i < bytes.len()
        invariant
            i <= bytes@.len(),
            r@ == bytes@.subrange(0, i as int),
        decreases bytes@.len() - i,
    {
        r.push(bytes[i]);
        i = i + 1;
        assert(r@ =~= bytes@.subrange(0, i as int));
    }
    assert(bytes@.subrange(0, bytes@.len() as int) =~= bytes@);
    r
}

/// Screen position that a notification should point to.
#[derive(Debug, Clone, Copy, PartialEq, Eq, Structural)]
pub struct Coordinates {
    pub x: i32,
    pub y: i32,
}

/// The hints of a notification request, as name and value pairs.
pub type HintMap = Vec<(String, HintValue)>;

/// The value of the first hint called `key`.
pub open spec fn hint_get(hints: Seq<(String, HintValue)>, key: Seq<char>) -> Option<HintValue>
    decreases hints.len(),
{
    if hints.len() == 0 {
        None
    } else if hints[0].0@ == key {
        Some(hints[0].1)
    } else {
        hint_get(hints.drop_first(), key)
    }
}

/// Looks a hint up by name.
pub fn hint_lookup<'a>(hints: &'a HintMap, key: &str) -> (r: Option<&'a HintValue>)
    ensures
        match r {
            Some(v) => hint_get(hints@, key@) == Some(*v),
            None => hint_get(hints@, key@) is None,
        },
{
    let mut i: usize = 0;
    assert(hints@.subrange(0, hints@.len() as int) =~= hints@);
    while i < hints.len()
        invariant
            i <= hints@.len(),
            hint_get(hints@, key@) == hint_get(hints@.subrange(i as int, hints@.len() as int), key@),
        decreases hints@.len() - i,
    {
        let ghost rest = hints@.subrange(i as int, hints@.len() as int);
        assert(rest.drop_first() =~= hints@.subrange(i + 1, hints@.len() as int));
        assert(rest[0] == hints@[i as int]);
        if str_eq(hints[i].0.as_str(), key) {
            return Some(&hints[i].1);
        }
        i = i + 1;
    }
    None
}

pub open spec fn hint_string(v: Option<HintValue>) -> Option<Seq<char>> {
    match v {
        Some(HintValue::Str(s)) => Some(s@),
        _ => None,
    }
}

pub open spec fn hint_bool(v: Option<HintValue>) -> Option<bool> {
    match v {
        Some(HintValue::Bool(b)) => Some(b),
        _ => None,
    }
}

pub open spec fn hint_i32(v: Option<HintValue>) -> Option<i32> {
    match v {
        Some(HintValue::I32(b)) => Some(b),
        _ => None,
    }
}

fn string_hint(v: Option<&HintValue>) -> (r: Option<String>)
    ensures
        crate::markup::opt_string_view(r) == hint_string(
            match v {
                Some(v) => Some(*v),
                None => None,
            },
        ),
{
    match v {
        Some(HintValue::Str(s)) => Some(s.clone()),
        _ => None,
    }
}

fn bool_hint(v: Option<&HintValue>) -> (r: Option<bool>)
    ensures
        r == hint_bool(
            match v {
                Some(v) => Some(*v),
                None => None,
            },
        ),
{
    match v {
        Some(HintValue::Bool(b)) => Some(*b),
        _ => None,
    }
}

fn i32_hint(v: Option<&HintValue>) -> (r: Option<i32>)
    ensures
        r == hint_i32(
            match v {
                Some(v) => Some(*v),
                None => None,
            },
        ),
{
    match v {
        Some(HintValue::I32(b)) => Some(*b),
        _ => None,
    }
}

impl Coordinates {
    /// The position given by the `x` and `y` hints, when both are 32-bit integers.
    pub fn from_hints(hints: &HintMap) -> (r: Option<Coordinates>)
        ensures
            r == (match (hint_i32(hint_get(hints@, "x"@)), hint_i32(hint_get(hints@, "y"@))) {
                (Some(x), Some(y)) => Some(Coordinates { x, y }),
                _ => None,
            }),
    {
        let x = i32_hint(hint_lookup(hints, "x"));
        let y = i32_hint(hint_lookup(hints, "y"));
        match (x, y) {
            (Some(x), Some(y)) => Some(Coordinates { x, y }),
            _ => None,
        }
    }
}

/// Optional information that a client attaches to a notification.
#[derive(Debug, Clone, PartialEq)]
pub struct Hints {
    pub urgency: Urgency,
    pub category: Category,
    pub desktop_entry: Option<String>,
    pub image_data: Option<ImageData>,
    pub image_path: Option<String>,
    pub resident: Option<bool>,
    pub sound_file: Option<String>,
    pub sound_name: Option<String>,
    pub suppress_sound: Option<bool>,
    pub transient: Option<bool>,
    pub coordinates: Option<Coordinates>,
    pub action_icons: Option<bool>,
    pub schedule: Option<String>,
}

/// The hint that carries the image: the first of `image-data`, `image_data`, `icon-data`
/// and `icon_data` that is present.
pub open spec fn image_hint(hints: Seq<(String, HintValue)>) -> Option<HintValue> {
    if hint_get(hints, "image-data"@) is Some {
        hint_get(hints, "image-data"@)
    } else if hint_get(hints, "image_data"@) is Some {
        hint_get(hints, "image_data"@)
    } else if hint_get(hints, "icon-data"@) is Some {
        hint_get(hints, "icon-data"@)
    } else {
        hint_get(hints, "icon_data"@)
    }
}

/// Mathematical model of [`ImageData`].
pub struct ImageDataView {
    pub width: i32,
    pub height: i32,
    pub rowstride: i32,
    pub has_alpha: bool,
    pub bits_per_sample: i32,
    pub channels: i32,
    pub data: Seq<u8>,
}

impl View for ImageData {
    type V = ImageDataView;

    open spec fn view(&self) -> ImageDataView {
        ImageDataView {
            width: self.width,
            height: self.height,
            rowstride: self.rowstride,
            has_alpha: self.has_alpha,
            bits_per_sample: self.bits_per_sample,
            channels: self.channels,
            data: self.data@,
        }
    }
}

/// The image that a hint value describes, if any.
pub open spec fn image_from_hint(v: HintValue) -> Option<ImageDataView> {
    match v {
        HintValue::Structure(f) => if image_header_ok(f@) && f@[6] is Bytes {
            Some(
                ImageDataView {
                    width: f@[0]->I32_0,
                    height: f@[1]->I32_0,
                    rowstride: f@[2]->I32_0,
                    has_alpha: f@[3]->Bool_0,
                    bits_per_sample: f@[4]->I32_0,
                    channels: f@[5]->I32_0,
                    data: f@[6]->Bytes_0@,
                },
            )
        } else {
            None
        },
        _ => None,
    }
}

/// Mathematical model of [`Hints`].
pub struct HintsView {
    pub urgency: Urgency,
    pub category: Category,
    pub desktop_entry: Option<Seq<char>>,
    pub image_data: Option<ImageDataView>,
    pub image_path: Option<Seq<char>>,
    pub resident: Option<bool>,
    pub sound_file: Option<Seq<char>>,
    pub sound_name: Option<Seq<char>>,
    pub suppress_sound: Option<bool>,
    pub transient: Option<bool>,
    pub coordinates: Option<Coordinates>,
    pub action_icons: Option<bool>,
    pub schedule: Option<Seq<char>>,
}

pub open spec fn opt_image_view(i: Option<ImageData>) -> Option<ImageDataView> {
    match i {
        Some(i) => Some(i@),
        None => None,
    }
}

impl View for Hints {
    type V = HintsView;

    open spec fn view(&self) -> HintsView {
        HintsView {
            urgency: self.urgency,
            category: self.category,
            desktop_entry: crate::markup::opt_string_view(self.desktop_entry),
            image_data: opt_image_view(self.image_data),
            image_path: crate::markup::opt_string_view(self.image_path),
            resident: self.resident,
            sound_file: crate::markup::opt_string_view(self.sound_file),
            sound_name: crate::markup::opt_string_view(self.sound_name),
            suppress_sound: self.suppress_sound,
            transient: self.transient,
            coordinates: self.coordinates,
            action_icons: self.action_icons,
            schedule: crate::markup::opt_string_view(self.schedule),
        }
    }
}

/// What the hints of a request decode to. Urgency and category fall back to their defaults;
/// a hint of the wrong type counts as absent.
pub open spec fn hints_spec(hints: Seq<(String, HintValue)>) -> HintsView {
    HintsView {
        urgency: match hint_get(hints, "urgency"@) {
            Some(v) => match urgency_from_hint(v) {
                Some(u) => u,
                None => Urgency::Normal,
            },
            None => Urgency::Normal,
        },
        category: match hint_get(hints, "category"@) {
            Some(HintValue::Str(s)) => category_from_name(s@),
            _ => Category::Unknown,
        },
        desktop_entry: hint_string(hint_get(hints, "desktop-entry"@)),
        image_data: match image_hint(hints) {
            Some(v) => image_from_hint(v),
            None => None,
        },
        image_path: hint_string(hint_get(hints, "image-path"@)),
        resident: hint_bool(hint_get(hints, "resident"@)),
        sound_file: hint_string(hint_get(hints, "sound-file"@)),
        sound_name: hint_string(hint_get(hints, "sound-name"@)),
        suppress_sound: hint_bool(hint_get(hints, "suppress-sound"@)),
        transient: hint_bool(hint_get(hints, "transient"@)),
        coordinates: match (hint_i32(hint_get(hints, "x"@)), hint_i32(hint_get(hints, "y"@))) {
            (Some(x), Some(y)) => Some(Coordinates { x, y }),
            _ => None,
        },
        action_icons: hint_bool(hint_get(hints, "action_icons"@)),
        schedule: hint_string(hint_get(hints, "schedule"@)),
    }
}

/// The image hint of a request can be read without a fault.
pub open spec fn hints_readable(hints: Seq<(String, HintValue)>) -> bool {
    match image_hint(hints) {
        Some(v) => image_hint_readable(v),
        None => true,
    }
}

/// Whether an image hint can be read without a fault (see [`image_hint_readable`]).
fn image_hint_is_readable(hint: &HintValue) -> (r: bool)
    ensures
        r == image_hint_readable(*hint),
{
    match hint {
        HintValue::Structure(fields) => {
            if fields.len() < 7 {
                return true;
            }
            let header = match (&fields[0], &fields[1], &fields[2], &fields[3], &fields[4], &fields[5]) {
                (
                    HintField::I32(_),
                    HintField::I32(_),
                    HintField::I32(_),
                    HintField::Bool(_),
                    HintField::I32(_),
                    HintField::I32(_),
                ) => true,
                _ => false,
            };
            let pixels_other = match &fields[6] {
                HintField::OtherArray => true,
                _ => false,
            };
            !header || !pixels_other
        },
        _ => true,
    }
}

/// Whether the hints of a request can be read without a fault (see [`hints_readable`]).
pub fn hints_are_readable(hints: &HintMap) -> (r: bool)
    ensures
        r == hints_readable(hints@),
{
    proof {
        reveal_strlit("image-data");
        reveal_strlit("image_data");
        reveal_strlit("icon-data");
        reveal_strlit("icon_data");
    }
    let image = match hint_lookup(hints, "image-data") {
        Some(v) => Some(v),
        None => match hint_lookup(hints, "image_data") {
            Some(v) => Some(v),
            None => match hint_lookup(hints, "icon-data") {
                Some(v) => Some(v),
                None => hint_lookup(hints, "icon_data"),
            },
        },
    };
    match image {
        Some(v) => image_hint_is_readable(v),
        None => true,
    }
}

impl Hints {
    /// Decodes the hints of a notification request.
    pub fn from_hints(hints: &HintMap) -> (r: Hints)
        requires
            hints_readable(hints@),
        ensures
            r@ == hints_spec(hints@),
    {
        let urgency = match hint_lookup(hints, "urgency") {
            Some(v) => match Urgency::from_hint(v) {
                Some(u) => u,
                None => Urgency::Normal,
            },
            None => Urgency::Normal,
        };
        let category = match hint_lookup(hints, "category") {
            Some(v) => match Category::from_hint(v) {
                Some(c) => c,
                None => Category::Unknown,
            },
            None => Category::Unknown,
        };
        let image = match hint_lookup(hints, "image-data") {
            Some(v) => Some(v),
            None => match hint_lookup(hints, "image_data") {
                Some(v) => Some(v),
                None => match hint_lookup(hints, "icon-data") {
                    Some(v) => Some(v),
                    None => hint_lookup(hints, "icon_data"),
                },
            },
        };
        let image_data = match image {
            Some(v) => ImageData::from_hint(v),
            None => None,
        };
        Hints {
            urgency,
            category,
            image_data,
            image_path: string_hint(hint_lookup(hints, "image-path")),
            desktop_entry: string_hint(hint_lookup(hints, "desktop-entry")),
            resident: bool_hint(hint_lookup(hints, "resident")),
            sound_file: string_hint(hint_lookup(hints, "sound-file")),
            sound_name: string_hint(hint_lookup(hints, "sound-name")),
            suppress_sound: bool_hint(hint_lookup(hints, "suppress-sound")),
            transient: bool_hint(hint_lookup(hints, "transient")),
            coordinates: Coordinates::from_hints(hints),
            action_icons: bool_hint(hint_lookup(hints, "action_icons")),
            schedule: string_hint(hint_lookup(hints, "schedule")),
        }
    }
}

// ---------------------------------------------------------------------------
// Actions and the notification itself
// ---------------------------------------------------------------------------

/// An action attached to a notification: the key sent back when the user activates it, and
/// the label shown to the user.
#[derive(Debug, Clone, PartialEq, Eq)]
pub struct NotificationAction {
    pub action_key: String,
    pub localized_string: String,
}

/// The actions that a flat list of strings describes: consecutive pairs of key and label.
/// A list of fewer than two strings describes none.
pub open spec fn actions_spec(v: Seq<Seq<char>>) -> Seq<(Seq<char>, Seq<char>)> {
    if v.len() < 2 {
        Seq::empty()
    } else {
        Seq::new(v.len() / 2, |i: int| (v[2 * i], v[2 * i + 1]))
    }
}

impl NotificationAction {
    /// Pairs up action keys and labels. The list must not end in an unpaired key once it
    /// holds at least two strings.
    pub fn from_vec(vec: &[&str]) -> (r: Vec<NotificationAction>)
        requires
            vec@.len() < 2 || vec@.len() % 2 == 0,
        ensures
            r@.map_values(|a: NotificationAction| (a.action_key@, a.localized_string@))
                == actions_spec(vec@.map_values(|s: &str| s@)),
    {
        let ghost sv = vec@.map_values(|s: &str| s@);
        let mut actions: Vec<NotificationAction> = Vec::new();
        if vec.len() >= 2 {
            let mut i: usize = 0;
            while i < vec.len() / 2
                invariant
                    vec@.len() % 2 == 0,
                    vec@.len() >= 2,
                    i <= vec@.len() / 2,
                    sv == vec@.map_values(|s: &str| s@),
                    actions@.map_values(|a: NotificationAction| (a.action_key@, a.localized_string@))
                        == actions_spec(sv).subrange(0, i as int),
                decreases vec@.len() / 2 - i,
            {
                let key = vec[2 * i].to_owned();
                let label = vec[2 * i + 1].to_owned();
                let ghost prev = actions@.map_values(
                    |a: NotificationAction| (a.action_key@, a.localized_string@),
                );
                assert(sv[2 * i] == vec@[2 * i]@);
                assert(sv[2 * i + 1] == vec@[2 * i + 1]@);
                assert(actions_spec(sv)[i as int] == (sv[2 * i], sv[2 * i + 1]));
                let ghost pair = (key@, label@);
                actions.push(NotificationAction { action_key: key, localized_string: label });
                assert(actions@.map_values(
                    |a: NotificationAction| (a.action_key@, a.localized_string@),
                ) =~= prev.push(pair));
                assert(actions_spec(sv).subrange(0, i + 1) =~= actions_spec(sv).subrange(
                    0,
                    i as int,
                ).push(actions_spec(sv)[i as int]));
                assert(actions@.map_values(
                    |a: NotificationAction| (a.action_key@, a.localized_string@),
                ) =~= actions_spec(sv).subrange(0, i + 1));
                i = i + 1;
            }
            assert(actions_spec(sv).subrange(0, (vec@.len() / 2) as int) =~= actions_spec(sv));
        } else {
            assert(actions@.map_values(
                |a: NotificationAction| (a.action_key@, a.localized_string@),
            ) =~= actions_spec(sv));
        }
        actions
    }
}

/// A notification as the server keeps it.
#[derive(Debug, PartialEq)]
pub struct Notification {
    /// Identifier assigned by the server.
    pub id: u32,
    /// Name of the sending application.
    pub app_name: String,
    /// Icon of the application (may be empty).
    pub app_icon: String,
    /// Short summary.
    pub summary: String,
    /// Main content, with its formatting.
    pub body: Text,
    /// When the notification expires.
    pub expire_timeout: Timeout,
    pub hints: Hints,
    pub actions: Vec<NotificationAction>,
    /// Whether it has been marked as read.
    pub is_read: bool,
    /// Creation time, seconds since the Unix epoch.
    pub created_at: u64,
}

/// A notification to be shown at a later time.
#[derive(Debug, PartialEq)]
pub struct ScheduledNotification {
    pub id: u32,
    pub time: String,
    pub data: Notification,
}

/// The identifier that a `Notify` request gets: the one it replaces, or else the next free one.
pub open spec fn assigned_id(replaces_id: u32, next_id: u32) -> u32 {
    if replaces_id == 0 {
        next_id
    } else {
        replaces_id
    }
}

impl Notification {
    /// Builds the notification that a `Notify` request describes. `next_id` is the identifier
    /// the server would hand out next; `created_at` is the time of the request.
    pub fn from_request(
        replaces_id: u32,
        next_id: u32,
        app_name: String,
        app_icon: String,
        summary: String,
        body: String,
        actions: &[&str],
        hints: &HintMap,
        expire_timeout: i32,
        created_at: u64,
    ) -> (r: Notification)
        requires
            actions@.len() < 2 || actions@.len() % 2 == 0,
            expire_timeout >= -1,
            4 * body@.len() <= usize::MAX,
            hints_readable(hints@),
        ensures
            r.id == assigned_id(replaces_id, next_id),
            r.app_name == app_name,
            r.app_icon == app_icon,
            r.summary == summary,
            r.body@ == crate::markup::parse_spec(crate::markup::spec_graphemes(body@)),
            r.hints@ == hints_spec(hints@),
            r.actions@.map_values(|a: NotificationAction| (a.action_key@, a.localized_string@))
                == actions_spec(actions@.map_values(|s: &str| s@)),
            expire_timeout == 0 ==> r.expire_timeout == Timeout::Never,
            expire_timeout == -1 ==> r.expire_timeout == Timeout::Configurable,
            expire_timeout > 0 ==> r.expire_timeout == Timeout::Millis(expire_timeout as u32),
            !r.is_read,
            r.created_at == created_at,
    {
        let id = if replaces_id == 0 {
            next_id
        } else {
            replaces_id
        };
        let hints = Hints::from_hints(hints);
        Notification {
            id,
            app_name,
            app_icon,
            summary,
            body: Text::parse(body),
            expire_timeout: Timeout::from_expire_timeout(expire_timeout),
            hints,
            actions: NotificationAction::from_vec(actions),
            is_read: false,
            created_at,
        }
    }
}

} // verus!
