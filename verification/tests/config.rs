//! Reading and completing the configuration: defaults, merges, themes, applications and the
//! settings that can be refused.
use noti::config::color::{Color, Rgba};
use noti::config::display::{
    AnimationDuration, Border, ConversionError, GBuilderBorder, Layout, Timeout, TimeoutError, TomlBorder,
    TomlDisplayConfig,
};
use noti::config::general::{Anchor, IdleThreshold, TomlGeneralConfig};
use noti::config::sorting::{CmpOrdering, SortBy, Sorting, SortingError};
use noti::config::text::{Font, TextAlignment, TextStyle};
use noti::config::theme::{Colors, TomlColors, TomlTheme, UrgencyColors};
use noti::config::{apps_are_resolvable, AppConfig, Config, TomlConfig};
use noti::notification::Urgency;

fn theme(name: &str, normal_foreground: Option<Rgba>) -> TomlTheme {
    TomlTheme {
        name: Some(name.to_string()),
        low: None,
        normal: normal_foreground.map(|f| TomlColors {
            foreground: Some(f),
            background: None,
            border: None,
        }),
        critical: None,
    }
}

fn display_with_theme(name: &str) -> TomlDisplayConfig {
    let mut d = TomlDisplayConfig::new();
    d.theme = Some(name.to_string());
    d
}

#[test]
fn general_settings_default() {
    let g = TomlGeneralConfig::new().unwrap_or_default();
    assert_eq!(g.font.name, "Noto Sans");
    assert_eq!(g.width, 300);
    assert_eq!(g.height, 150);
    assert_eq!(g.anchor, Anchor::TopRight);
    assert_eq!(g.offset, (0, 0));
    assert_eq!(g.gap, 10);
    assert_eq!(g.sorting, Sorting { by: SortBy::Time, ordering: CmpOrdering::Ascending });
    assert_eq!(g.limit, 0);
    assert_eq!(g.idle_threshold.duration, 300_000);
}

#[test]
fn general_settings_of_a_file_win_over_imported_ones() {
    let mut own = TomlGeneralConfig::new();
    own.width = Some(400);
    let mut imported = TomlGeneralConfig::new();
    imported.width = Some(200);
    imported.gap = Some(3);
    let merged = own.merge(Some(imported)).unwrap_or_default();
    assert_eq!(merged.width, 400);
    assert_eq!(merged.gap, 3);
    assert_eq!(merged.height, 150);
}

#[test]
fn anchors_by_name() {
    assert!(Anchor::is_name("top left"));
    assert!(Anchor::is_name("bottom-right"));
    assert!(!Anchor::is_name("middle"));
    assert_eq!(Anchor::from_name("top-left"), Anchor::TopLeft);
    assert_eq!(Anchor::from_name("bottom right"), Anchor::BottomRight);
    assert_eq!(Anchor::from_name("left"), Anchor::Left);
    assert!(Anchor::TopRight.is_top() && Anchor::TopRight.is_right());
    assert!(Anchor::BottomLeft.is_bottom() && Anchor::BottomLeft.is_left());
    assert!(!Anchor::Left.is_top() && !Anchor::Left.is_bottom());
}

#[test]
fn idle_threshold_reads_durations() {
    assert_eq!(IdleThreshold::from_setting("5 min").duration, 300_000);
    assert_eq!(IdleThreshold::from_setting("30s").duration, 30_000);
    assert_eq!(IdleThreshold::from_setting("1m 500ms").duration, 60_500);
    assert_eq!(IdleThreshold::from_setting("soon").duration, 300_000);
}

#[test]
fn durations_too_large_to_add_up_are_not_read() {
    assert_eq!(IdleThreshold::from_setting("18446744073709551615s 1000ms").duration, 300_000);
    assert_eq!(IdleThreshold::from_setting("100000000000s").duration, 100_000_000_000_000u64 as u32);
    assert_eq!(IdleThreshold::from_setting("10000000000ms").duration, 10_000_000_000u64 as u32);
    assert_eq!(AnimationDuration::from_setting("999999999999ns"), None);
}

#[test]
fn sorting_settings() {
    assert_eq!(
        Sorting::from_setting("urgency"),
        Ok(Sorting { by: SortBy::Urgency, ordering: CmpOrdering::Ascending })
    );
    assert_eq!(Sorting::from_setting("default"), Ok(Sorting::default_sorting()));
    assert_eq!(
        Sorting::from_setting("size"),
        Err(SortingError::InvalidValue("size".to_string()))
    );
    let table = vec![
        ("by".to_string(), "id".to_string()),
        ("ordering".to_string(), "desc".to_string()),
    ];
    assert_eq!(
        Sorting::from_table(&table),
        Ok(Sorting { by: SortBy::Id, ordering: CmpOrdering::Descending })
    );
    let no_by = vec![("ordering".to_string(), "asc".to_string())];
    assert_eq!(Sorting::from_table(&no_by), Err(SortingError::MissingBy));
    let unknown = vec![("by".to_string(), "id".to_string()), ("reverse".to_string(), "yes".to_string())];
    assert_eq!(
        Sorting::from_table(&unknown),
        Err(SortingError::UnknownKey("reverse".to_string()))
    );
    let bad_value = vec![("ordering".to_string(), "upwards".to_string())];
    assert_eq!(
        Sorting::from_table(&bad_value),
        Err(SortingError::InvalidValue("upwards".to_string()))
    );
}

#[test]
fn timeouts_by_urgency() {
    let t = Timeout::from_number(3000).unwrap();
    assert_eq!(t.by_urgency(&Urgency::Low), 3000);
    assert_eq!(t.by_urgency(&Urgency::Critical), 3000);
    assert_eq!(Timeout::from_number(-1), Err(TimeoutError::Negative(-1)));
    assert_eq!(Timeout::from_number(100_000).unwrap().by_urgency(&Urgency::Normal), 65535);
    let table = vec![
        ("default".to_string(), 5000u16),
        ("critical".to_string(), 0u16),
        ("default".to_string(), 4000u16),
    ];
    let t = Timeout::from_table(&table).unwrap();
    assert_eq!(t.by_urgency(&Urgency::Low), 4000);
    assert_eq!(t.by_urgency(&Urgency::Critical), 0);
    let bad = vec![("urgent".to_string(), 1u16)];
    assert_eq!(Timeout::from_table(&bad), Err(TimeoutError::UnknownKey("urgent".to_string())));
    let empty = Timeout::from_table(&[]).unwrap();
    assert_eq!(empty.by_urgency(&Urgency::Normal), 0);
}

#[test]
fn border_builder_sets_fields_by_name() {
    let mut b = GBuilderBorder::new();
    assert!(b.contains_field("radius"));
    assert!(!b.contains_field("colour"));
    assert_eq!(b.set_value("size", 2), Ok(()));
    assert_eq!(
        b.set_value("width", 9),
        Err(ConversionError::UnknownField { field_name: "width".to_string() })
    );
    assert_eq!(b.try_build(), Ok(Border { size: 2, radius: 0 }));
}

#[test]
fn layout_paths_become_relative_to_the_file() {
    assert_eq!(Layout::from_setting("default", "/x".to_string()), Layout::Default);
    let mut d = TomlDisplayConfig::new();
    d.layout = Some(Layout::from_setting("my.layout", "my.layout".to_string()));
    d.use_relative_path("/home/u/.config/noti");
    assert_eq!(
        d.layout,
        Some(Layout::FromPath { path_buf: "/home/u/.config/noti/my.layout".to_string() })
    );
    let mut abs = TomlDisplayConfig::new();
    abs.layout = Some(Layout::FromPath { path_buf: "/etc/noti.layout".to_string() });
    abs.use_relative_path("/home/u");
    assert_eq!(abs.layout, Some(Layout::FromPath { path_buf: "/etc/noti.layout".to_string() }));
}

#[test]
fn display_settings_default() {
    let d = TomlDisplayConfig::new().unwrap_or_default();
    assert_eq!(d.layout, Layout::Default);
    assert_eq!(d.theme, "");
    assert!(d.markup);
    assert_eq!(d.border, Border { size: 0, radius: 0 });
    assert_eq!(d.summary.style, TextStyle::Bold);
    assert_eq!(d.summary.alignment, TextAlignment::Center);
    assert_eq!(d.body.alignment, TextAlignment::Left);
    assert_eq!(d.timeout.by_urgency(&Urgency::Normal), 0);
}

#[test]
fn display_settings_merge_nested_fields() {
    let mut own = TomlDisplayConfig::new();
    own.border = Some(TomlBorder { size: Some(3), radius: None });
    own.markup = Some(false);
    let mut other = TomlDisplayConfig::new();
    other.border = Some(TomlBorder { size: Some(1), radius: Some(7) });
    other.markup = Some(true);
    other.theme = Some("dark".to_string());
    let d = own.merge(Some(other)).unwrap_or_default();
    assert_eq!(d.border, Border { size: 3, radius: 7 });
    assert!(!d.markup);
    assert_eq!(d.theme, "dark");
}

#[test]
fn imported_files_extend_lists() {
    let mut a = TomlConfig::new();
    a.imports = Some(vec!["b.toml".to_string()]);
    a.themes = Some(vec![theme("one", None)]);
    let mut b = TomlConfig::new();
    b.themes = Some(vec![theme("two", None)]);
    let merged = a.merge(b);
    assert_eq!(merged.imports, Some(vec!["b.toml".to_string()]));
    let names: Vec<Option<String>> = merged.themes.unwrap().into_iter().map(|t| t.name).collect();
    assert_eq!(names, vec![Some("one".to_string()), Some("two".to_string())]);
    assert_eq!(TomlConfig::new().merge(TomlConfig::new()), TomlConfig::new());
}

#[test]
fn themes_and_applications_are_looked_up_by_name() {
    let red = Rgba { red: 255, green: 0, blue: 0, alpha: 255 };
    let mut toml = TomlConfig::new();
    toml.display = Some(display_with_theme("plain"));
    toml.themes = Some(vec![
        theme("loud", Some(red)),
        theme("", Some(red)),
        TomlTheme { name: None, low: None, normal: None, critical: None },
    ]);
    toml.apps = Some(vec![
        AppConfig { name: "mail".to_string(), display: Some(display_with_theme("loud")) },
        AppConfig { name: "chat".to_string(), display: None },
    ]);
    let config = Config::from_toml(toml);
    assert_eq!(config.themes.len(), 1);
    assert_eq!(config.themes[0].0, "loud");
    assert_eq!(config.theme_by_app("mail").normal.foreground, red);
    assert_eq!(config.display_by_app("chat").theme, "plain");
    assert_eq!(config.display_by_app("unknown").theme, "plain");
    assert_eq!(config.theme_by_app("chat").name, config.default_theme.name);
    assert_eq!(config.displays().len(), 3);
}

#[test]
fn later_themes_of_the_same_name_only_complete_the_first() {
    let red = Rgba { red: 255, green: 0, blue: 0, alpha: 255 };
    let blue = Rgba { red: 0, green: 0, blue: 255, alpha: 255 };
    let mut first = theme("t", Some(red));
    first.low = None;
    let mut second = theme("t", Some(blue));
    second.low = Some(TomlColors { foreground: Some(blue), background: None, border: None });
    let mut toml = TomlConfig::new();
    toml.themes = Some(vec![first, second]);
    let config = Config::from_toml(toml);
    assert_eq!(config.themes.len(), 1);
    assert_eq!(config.themes[0].1.normal.foreground, red);
    assert_eq!(config.themes[0].1.low.foreground, blue);
}

#[test]
fn default_theme_colors() {
    let config = Config::from_toml(TomlConfig::new());
    let t = &config.default_theme;
    assert_eq!(t.critical.foreground, Rgba { red: 255, green: 0, blue: 0, alpha: 255 });
    assert_eq!(t.critical.background, Color::Rgba(Rgba { red: 255, green: 255, blue: 255, alpha: 255 }));
    assert_eq!(config.general.font, Font { name: "Noto Sans".to_string() });
}

#[test]
fn colors_written_in_hexadecimal() {
    assert_eq!(Rgba::from_hex("#fa0"), Some(Rgba { red: 255, green: 170, blue: 0, alpha: 255 }));
    assert_eq!(Rgba::from_hex("#1A2b3C"), Some(Rgba { red: 26, green: 43, blue: 60, alpha: 255 }));
    assert_eq!(Rgba::from_hex("#00000080"), Some(Rgba { red: 0, green: 0, blue: 0, alpha: 128 }));
    assert_eq!(Rgba::from_hex("#12345"), None);
    assert_eq!(Rgba::from_hex("fff"), None);
    assert_eq!(Rgba::from_hex("#ggg"), None);
    assert_eq!(Rgba::from_hex(""), None);
}

#[test]
fn animation_durations() {
    assert_eq!(AnimationDuration::from_setting("300ms"), Some(AnimationDuration { nanos: 300_000_000 }));
    assert_eq!(AnimationDuration::from_setting("2s"), Some(AnimationDuration { nanos: 2_000_000_000 }));
    assert_eq!(AnimationDuration::from_setting("slowly"), None);
}

#[test]
fn applications_need_display_settings_somewhere() {
    let bare = AppConfig { name: "a".to_string(), display: None };
    let dressed = AppConfig { name: "a".to_string(), display: Some(TomlDisplayConfig::new()) };
    assert!(apps_are_resolvable(&[], false));
    assert!(!apps_are_resolvable(&[AppConfig { name: "a".to_string(), display: None }], false));
    assert!(apps_are_resolvable(&[AppConfig { name: "a".to_string(), display: None }], true));
    assert!(apps_are_resolvable(&[dressed, bare], false));
}

#[test]
fn urgency_colors_pick_the_colors_of_an_urgency() {
    let colors = |fg: Rgba| Colors { foreground: fg, background: Color::new_rgba_white(), border: Color::new_rgba_black() };
    let urgency = UrgencyColors {
        low: colors(Rgba::new_black()),
        normal: colors(Rgba::new_white()),
        critical: colors(Rgba::new_red()),
    };
    assert_eq!(urgency.by_urgency(&Urgency::Low).foreground, Rgba::new_black());
    assert_eq!(urgency.by_urgency(&Urgency::Normal).foreground, Rgba::new_white());
    assert_eq!(urgency.by_urgency(&Urgency::Critical).foreground, Rgba::new_red());
}

#[test]
fn large_durations_are_read_up_to_the_bound() {
    assert_eq!(IdleThreshold::from_setting("000000000001h").duration, 3_600_000);
    assert_eq!(IdleThreshold::from_setting("1000000000000s").duration, 300_000);
    assert_eq!(AnimationDuration::from_setting("100000000000s"), None);
}
