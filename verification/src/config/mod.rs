//! The configuration of the notification daemon, as read from TOML files and completed
//! with defaults.
use vstd::prelude::*;

pub mod color;
pub mod display;
pub mod general;
pub mod sorting;
pub mod spacing;
pub mod text;
pub mod theme;
pub mod watcher;

use display::{display_view, DisplayConfig, TomlDisplayConfig, TomlDisplayConfigView};
use general::{GeneralConfig, TomlGeneralConfig};
use theme::{Theme, TomlTheme};
use crate::notification::str_eq;

verus! {

/// `a`, or else `b`.
pub open spec fn or_else<T>(a: Option<T>, b: Option<T>) -> Option<T> {
    match a {
        Some(x) => Some(x),
        None => b,
    }
}

/// The value held, or else `default`.
pub open spec fn value_or<T>(v: Option<T>, default: T) -> T {
    match v {
        Some(x) => x,
        None => default,
    }
}

/// Merges one configuration property: the value set in `own` wins over that of `other`.
pub fn merge_option<T>(own: Option<T>, other: Option<T>) -> (r: Option<T>)
    ensures
        r == or_else(own, other),
{
    match own {
        Some(x) => Some(x),
        None => other,
    }
}

/// Completes one configuration property with its default.
pub fn unwrap_or<T>(v: Option<T>, default: T) -> (r: T)
    ensures
        r == value_or(v, default),
{
    match v {
        Some(x) => x,
        None => default,
    }
}

/// Resolves a property that may also be given under a shared name: its own value, else the
/// shared one, else the default.
pub fn resolve_property<T>(own: Option<T>, shared: Option<T>, default: T) -> (r: T)
    ensures
        r == value_or(or_else(own, shared), default),
{
    unwrap_or(merge_option(own, shared), default)
}

// ---------------------------------------------------------------------------
// A configuration file, and the configuration it gives
// ---------------------------------------------------------------------------

/// The entries of an optional list; none where it is absent.
pub open spec fn entries<T>(l: Option<Vec<T>>) -> Seq<T> {
    match l {
        Some(v) => v@,
        None => Seq::empty(),
    }
}

/// The entries of `a` followed by those of `b`; no list where there are none.
fn concat_lists<T>(a: Option<Vec<T>>, b: Option<Vec<T>>) -> (r: Option<Vec<T>>)
    ensures
        entries(r) == entries(a) + entries(b),
        r is Some <==> entries(r).len() > 0,
{
    let mut v = match a {
        Some(v) => v,
        None => Vec::new(),
    };
    match b {
        Some(mut w) => v.append(&mut w),
        None => {},
    }
    if v.len() == 0 {
        None
    } else {
        Some(v)
    }
}

/// The settings of one application: its name and the display settings that apply to its
/// notifications.
#[derive(Debug, PartialEq, Eq)]
pub struct AppConfig {
    pub name: String,
    pub display: Option<TomlDisplayConfig>,
}

impl AppConfig {
    /// Completes the display settings of the application with `other` (the global ones):
    /// what the application sets wins.
    pub fn merge(self, other: Option<&TomlDisplayConfig>) -> (r: AppConfig)
        ensures
            r.name == self.name,
            display_view(r.display) == match display_view(self.display) {
                Some(d) => Some(
                    d.merge(
                        match other {
                            Some(o) => Some(o@),
                            None => None,
                        },
                    ),
                ),
                None => match other {
                    Some(o) => Some(o@),
                    None => None,
                },
            },
    {
        let copied = match other {
            Some(o) => Some(o.copy()),
            None => None,
        };
        AppConfig {
            name: self.name,
            display: match self.display {
                Some(d) => Some(d.merge(copied)),
                None => copied,
            },
        }
    }
}

/// A configuration file: the files it imports, its general and display settings, its
/// themes and its per-application settings.
#[derive(Debug, PartialEq, Eq)]
pub struct TomlConfig {
    pub imports: Option<Vec<String>>,
    pub general: Option<TomlGeneralConfig>,
    pub display: Option<TomlDisplayConfig>,
    pub themes: Option<Vec<TomlTheme>>,
    pub apps: Option<Vec<AppConfig>>,
}

impl TomlConfig {
    /// A file that sets nothing.
    pub fn new() -> (r: TomlConfig)
        ensures
            r.imports is None,
            r.general is None,
            r.display is None,
            r.themes is None,
            r.apps is None,
    {
        TomlConfig { imports: None, general: None, display: None, themes: None, apps: None }
    }

    /// Completes this file with an imported one: the lists (imports, themes, applications)
    /// are joined, this file's first; general and display settings set here win over the
    /// imported ones, field by field.
    pub fn merge(self, other: TomlConfig) -> (r: TomlConfig)
        ensures
            entries(r.imports) == entries(self.imports) + entries(other.imports),
            r.imports is Some <==> entries(r.imports).len() > 0,
            r.general == match self.general {
                Some(g) => Some(TomlGeneralConfig::spec_merge(g, other.general)),
                None => other.general,
            },
            display_view(r.display) == match display_view(self.display) {
                Some(d) => Some(d.merge(display_view(other.display))),
                None => display_view(other.display),
            },
            entries(r.themes) == entries(self.themes) + entries(other.themes),
            r.themes is Some <==> entries(r.themes).len() > 0,
            entries(r.apps) == entries(self.apps) + entries(other.apps),
            r.apps is Some <==> entries(r.apps).len() > 0,
    {
        TomlConfig {
            imports: concat_lists(self.imports, other.imports),
            general: match self.general {
                Some(g) => Some(g.merge(other.general)),
                None => other.general,
            },
            display: match self.display {
                Some(d) => Some(d.merge(other.display)),
                None => other.display,
            },
            themes: concat_lists(self.themes, other.themes),
            apps: concat_lists(self.apps, other.apps),
        }
    }
}

/// The first position of `key` among `keys`, or -1 where it is absent.
pub open spec fn key_index(keys: Seq<Seq<char>>, key: Seq<char>) -> int
    decreases keys.len(),
{
    if keys.len() == 0 {
        -1
    } else {
        let i = key_index(keys.drop_last(), key);
        if i >= 0 {
            i
        } else if keys.last() == key {
            keys.len() - 1
        } else {
            -1
        }
    }
}

/// `key_index` is the first position of the key, and -1 exactly where the key is absent.
pub proof fn lemma_key_index(keys: Seq<Seq<char>>, key: Seq<char>)
    ensures
        -1 <= key_index(keys, key) < keys.len(),
        key_index(keys, key) >= 0 ==> keys[key_index(keys, key)] == key,
        forall|j: int| 0 <= j < key_index(keys, key) ==> keys[j] != key,
        key_index(keys, key) == -1 <==> forall|j: int| 0 <= j < keys.len() ==> keys[j] != key,
    decreases keys.len(),
{
    if keys.len() > 0 {
        lemma_key_index(keys.drop_last(), key);
        assert forall|j: int| 0 <= j < keys.len() - 1 implies keys.drop_last()[j] == keys[j] by {}
    }
}

/// The keys of a table.
pub open spec fn keys_of<V>(table: Seq<(Seq<char>, V)>) -> Seq<Seq<char>> {
    table.map_values(|e: (Seq<char>, V)| e.0)
}

/// The keys of a table keyed by strings.
pub open spec fn string_keys<V>(table: Seq<(String, V)>) -> Seq<Seq<char>> {
    table.map_values(|e: (String, V)| e.0@)
}

/// The position of `key` in a table keyed by strings: the first entry with that key.
pub(crate) fn find_key<V>(table: &Vec<(String, V)>, key: &str) -> (r: Option<usize>)
    ensures
        match r {
            Some(i) => i < table@.len() && key_index(string_keys(table@), key@) == i,
            None => key_index(string_keys(table@), key@) == -1,
        },
{
    let ghost keys = string_keys(table@);
    proof {
        lemma_key_index(keys, key@);
    }
    let mut j: usize = 0;
    while j < table.len()
        invariant
            j <= table@.len(),
            keys == string_keys(table@),
            -1 <= key_index(keys, key@) < keys.len(),
            key_index(keys, key@) >= 0 ==> keys[key_index(keys, key@)] == key@,
            forall|i: int| 0 <= i < key_index(keys, key@) ==> keys[i] != key@,
            key_index(keys, key@) == -1 <==> forall|i: int| 0 <= i < keys.len() ==> keys[i] != key@,
            forall|i: int| 0 <= i < j ==> keys[i] != key@,
        decreases table@.len() - j,
    {
        if str_eq(table[j].0.as_str(), key) {
            assert(keys[j as int] == key@);
            return Some(j);
        }
        j = j + 1;
    }
    None
}

/// A theme added to the theme table: one without a name, or with an empty name, is left
/// out; one whose name is already there completes the theme of that name (what the earlier
/// one sets wins); any other is added at the end.
pub open spec fn add_theme(table: Seq<(Seq<char>, TomlTheme)>, theme: TomlTheme) -> Seq<(Seq<char>, TomlTheme)> {
    match theme.name {
        Some(n) => if n@.len() == 0 {
            table
        } else {
            let i = key_index(keys_of(table), n@);
            if i >= 0 {
                table.update(i, (n@, TomlTheme::spec_merge(table[i].1, Some(theme))))
            } else {
                table.push((n@, theme))
            }
        },
        None => table,
    }
}

/// The theme table that a list of themes builds, one theme after the other.
pub open spec fn theme_table(themes: Seq<TomlTheme>) -> Seq<(Seq<char>, TomlTheme)>
    decreases themes.len(),
{
    if themes.len() == 0 {
        Seq::empty()
    } else {
        add_theme(theme_table(themes.drop_last()), themes.last())
    }
}

/// The view of a theme table keyed by strings.
pub open spec fn theme_entries(table: Seq<(String, TomlTheme)>) -> Seq<(Seq<char>, TomlTheme)> {
    table.map_values(|e: (String, TomlTheme)| (e.0@, e.1))
}

/// Whether an application's settings can be completed where its name first appears: it
/// sets its own display settings, or there are global ones.
#[verifier::opaque]
pub open spec fn apps_resolvable(apps: Seq<AppConfig>, has_global: bool) -> bool {
    forall|i: int|
        0 <= i < apps.len() && (forall|j: int| 0 <= j < i ==> apps[j].name@ != (#[trigger] apps[i]).name@)
            ==> apps[i].display is Some || has_global
}

/// Whether applications' settings can be completed where their names first appear (see
/// [`apps_resolvable`]).
pub fn apps_are_resolvable(apps: &[AppConfig], has_global: bool) -> (r: bool)
    ensures
        r == apps_resolvable(apps@, has_global),
{
    reveal(apps_resolvable);
    if has_global {
        return true;
    }
    let mut i: usize = 0;
    while i < apps.len()
        invariant
            !has_global,
            i <= apps@.len(),
            forall|k: int|
                0 <= k < i && (forall|j: int| 0 <= j < k ==> apps@[j].name@ != (#[trigger] apps@[k]).name@)
                    ==> apps@[k].display is Some,
        decreases apps@.len() - i,
    {
        let mut first = true;
        let mut j: usize = 0;
        while j < i
            invariant
                i < apps@.len(),
                j <= i,
                first <==> forall|m: int| 0 <= m < j ==> apps@[m].name@ != apps@[i as int].name@,
            decreases i - j,
        {
            if str_eq(apps[j].name.as_str(), apps[i].name.as_str()) {
                first = false;
            }
            j = j + 1;
        }
        if first && apps[i].display.is_none() {
            assert(!apps_resolvable(apps@, has_global)) by {
                reveal(apps_resolvable);
                let k = i as int;
                if apps_resolvable(apps@, has_global) {
                    assert(forall|m: int| 0 <= m < k ==> apps@[m].name@ != apps@[k].name@);
                    assert(apps@[k].display is Some || has_global);
                }
            }
            return false;
        }
        i = i + 1;
    }
    true
}

/// An application added to the application table: the first entry of a name is its own
/// display settings completed with the global ones; a later entry of the same name only
/// completes the settings already there (what came first wins).
#[verifier::opaque]
pub open spec fn add_app(
    table: Seq<(Seq<char>, TomlDisplayConfigView)>,
    app: AppConfig,
    global: Option<TomlDisplayConfigView>,
) -> Seq<(Seq<char>, TomlDisplayConfigView)> {
    let i = key_index(keys_of(table), app.name@);
    if i >= 0 {
        table.update(i, (app.name@, table[i].1.merge(display_view(app.display))))
    } else {
        table.push(
            (
                app.name@,
                match display_view(app.display) {
                    Some(d) => d.merge(global),
                    None => global.unwrap(),
                },
            ),
        )
    }
}

/// The application table that a list of application settings builds.
pub open spec fn app_table(apps: Seq<AppConfig>, global: Option<TomlDisplayConfigView>) -> Seq<(Seq<char>, TomlDisplayConfigView)>
    decreases apps.len(),
{
    if apps.len() == 0 {
        Seq::empty()
    } else {
        add_app(app_table(apps.drop_last(), global), apps.last(), global)
    }
}

/// The view of an application table keyed by strings.
pub open spec fn app_entries(table: Seq<(String, TomlDisplayConfig)>) -> Seq<(Seq<char>, TomlDisplayConfigView)> {
    table.map_values(|e: (String, TomlDisplayConfig)| (e.0@, e.1@))
}

/// Builds the theme table of a list of themes (see [`add_theme`]).
fn build_theme_table(themes: Vec<TomlTheme>) -> (r: Vec<(String, TomlTheme)>)
    ensures
        theme_entries(r@) == theme_table(themes@),
{
    let ghost all = themes@;
    assert(all.len() == themes.len());
    let mut rest = themes;
    let mut table: Vec<(String, TomlTheme)> = Vec::new();
    let mut k: usize = 0;
    while rest.len() > 0
        invariant
            all.len() <= usize::MAX,
            k + rest@.len() == all.len(),
            rest@ == all.subrange(k as int, all.len() as int),
            theme_entries(table@) == theme_table(all.subrange(0, k as int)),
        decreases rest@.len(),
    {
        let theme = rest.remove(0);
        assert(theme == all[k as int]);
        assert(all.subrange(0, k + 1).drop_last() =~= all.subrange(0, k as int));
        let ghost before = table@;
        assert(string_keys(before) =~= keys_of(theme_entries(before)));
        let key: Option<String> = match &theme.name {
            Some(n) => if n.as_str().is_empty() {
                None
            } else {
                Some(n.clone())
            },
            None => None,
        };
        match key {
            None => {},
            Some(n) => {
                match find_key(&table, n.as_str()) {
                    Some(i) => {
                        proof {
                            lemma_key_index(string_keys(before), n@);
                        }
                        let (saved_name, saved) = table.remove(i);
                        assert(saved_name@ == n@);
                        table.insert(i, (saved_name, saved.merge(Some(theme))));
                        assert(theme_entries(table@) =~= theme_entries(before).update(
                            i as int,
                            (n@, TomlTheme::spec_merge(theme_entries(before)[i as int].1, Some(theme))),
                        ));
                    },
                    None => {
                        table.push((n, theme));
                        assert(theme_entries(table@) =~= theme_entries(before).push((n@, theme)));
                    },
                }
            },
        }
        k = k + 1;
        assert(rest@ =~= all.subrange(k as int, all.len() as int));
    }
    assert(all.subrange(0, k as int) =~= all);
    table
}

/// The view of optional global display settings.
pub open spec fn global_view(global: Option<&TomlDisplayConfig>) -> Option<TomlDisplayConfigView> {
    match global {
        Some(g) => Some(g@),
        None => None,
    }
}

/// Adds one application to the application table (see [`add_app`]).
fn add_app_to(table: &mut Vec<(String, TomlDisplayConfig)>, app: AppConfig, global: Option<&TomlDisplayConfig>)
    requires
        key_index(string_keys(old(table)@), app.name@) == -1 ==> app.display is Some || global is Some,
    ensures
        app_entries(final(table)@) == add_app(app_entries(old(table)@), app, global_view(global)),
        key_index(string_keys(final(table)@), app.name@) >= 0,
        forall|key: Seq<char>|
            key_index(string_keys(old(table)@), key) >= 0 ==> #[trigger] key_index(
                string_keys(final(table)@),
                key,
            ) >= 0,
{
    let ghost before = table@;
    let ghost old_keys = string_keys(before);
    assert(old_keys =~= keys_of(app_entries(before)));
    proof {
        lemma_key_index(old_keys, app.name@);
        reveal(add_app);
    }
    match find_key(table, app.name.as_str()) {
        Some(i) => {
            let (saved_name, saved) = table.remove(i);
            assert(saved_name@ == app.name@);
            table.insert(i, (saved_name, saved.merge(app.display)));
            assert(app_entries(table@) =~= app_entries(before).update(
                i as int,
                (app.name@, app_entries(before)[i as int].1.merge(display_view(app.display))),
            ));
            assert(string_keys(table@) =~= old_keys);
        },
        None => {
            let name = app.name.clone();
            let merged = app.merge(global);
            let d = merged.display.unwrap();
            table.push((name, d));
            assert(app_entries(table@) =~= app_entries(before).push((app.name@, d@)));
            let ghost new_keys = string_keys(table@);
            assert(new_keys =~= old_keys.push(app.name@));
            assert(new_keys.drop_last() =~= old_keys);
        },
    }
}

/// An application whose name is not among the keys, while the names of all the
/// applications before it are, appears there for the first time.
proof fn lemma_first_occurrence(apps: Seq<AppConfig>, k: int, keys: Seq<Seq<char>>, has_global: bool)
    requires
        apps_resolvable(apps, has_global),
        0 <= k < apps.len(),
        forall|j: int| 0 <= j < k ==> key_index(keys, (#[trigger] apps[j]).name@) >= 0,
    ensures
        key_index(keys, apps[k].name@) == -1 ==> apps[k].display is Some || has_global,
{
    reveal(apps_resolvable);
    if key_index(keys, apps[k].name@) == -1 {
        assert forall|j: int| 0 <= j < k implies apps[j].name@ != (#[trigger] apps[k]).name@ by {
            assert(key_index(keys, apps[j].name@) >= 0);
        }
    }
}

/// Keys that stay keys, and the key of application `k` added, keep the names of the first
/// `k + 1` applications among the keys.
proof fn lemma_keys_kept(apps: Seq<AppConfig>, k: int, before: Seq<Seq<char>>, after: Seq<Seq<char>>)
    requires
        0 <= k < apps.len(),
        forall|j: int| 0 <= j < k ==> key_index(before, (#[trigger] apps[j]).name@) >= 0,
        key_index(after, apps[k].name@) >= 0,
        forall|key: Seq<char>| key_index(before, key) >= 0 ==> #[trigger] key_index(after, key) >= 0,
    ensures
        forall|j: int| 0 <= j <= k ==> key_index(after, (#[trigger] apps[j]).name@) >= 0,
{
    assert forall|j: int| 0 <= j <= k implies key_index(after, (#[trigger] apps[j]).name@) >= 0 by {
        if j < k {
            assert(key_index(before, apps[j].name@) >= 0);
        }
    }
}

/// Builds the application table of a list of application settings (see [`add_app`]).
fn build_app_table(apps: Vec<AppConfig>, global: Option<&TomlDisplayConfig>) -> (r: Vec<(String, TomlDisplayConfig)>)
    requires
        apps_resolvable(apps@, global is Some),
    ensures
        app_entries(r@) == app_table(apps@, global_view(global)),
{
    let ghost all = apps@;
    assert(all.len() == apps.len());
    let mut rest = apps;
    let mut table: Vec<(String, TomlDisplayConfig)> = Vec::new();
    let mut k: usize = 0;
    while rest.len() > 0
        invariant
            all.len() <= usize::MAX,
            k + rest@.len() == all.len(),
            rest@ == all.subrange(k as int, all.len() as int),
            apps_resolvable(all, global is Some),
            app_entries(table@) == app_table(all.subrange(0, k as int), global_view(global)),
            forall|j: int| 0 <= j < k ==> key_index(string_keys(table@), (#[trigger] all[j]).name@) >= 0,
        decreases rest@.len(),
    {
        let app = rest.remove(0);
        assert(app == all[k as int]);
        assert(all.subrange(0, k + 1).drop_last() =~= all.subrange(0, k as int));
        let ghost before = table@;
        proof {
            lemma_first_occurrence(all, k as int, string_keys(before), global is Some);
        }
        add_app_to(&mut table, app, global);
        proof {
            lemma_keys_kept(all, k as int, string_keys(before), string_keys(table@));
        }
        k = k + 1;
        assert(rest@ =~= all.subrange(k as int, all.len() as int));
    }
    assert(all.subrange(0, k as int) =~= all);
    table
}

/// The configuration in use: general and display settings, the themes by name and the
/// display settings of each application by name.
#[derive(Debug)]
pub struct Config {
    pub general: GeneralConfig,
    pub display: DisplayConfig,
    pub default_theme: Theme,
    pub themes: Vec<(String, Theme)>,
    pub app_configs: Vec<(String, DisplayConfig)>,
}

/// Turns a theme table into themes with what is missing filled in.
fn unwrap_themes(table: Vec<(String, TomlTheme)>) -> (r: Vec<(String, Theme)>)
    ensures
        r@.len() == table@.len(),
        forall|i: int|
            0 <= i < r@.len() ==> (#[trigger] r@[i]).0@ == table@[i].0@ && table@[i].1.unwraps_to(
                r@[i].1,
            ),
{
    let ghost all = table@;
    assert(all.len() == table.len());
    let mut rest = table;
    let mut r: Vec<(String, Theme)> = Vec::new();
    while rest.len() > 0
        invariant
            all.len() <= usize::MAX,
            r@.len() + rest@.len() == all.len(),
            rest@ == all.subrange(r@.len() as int, all.len() as int),
            forall|i: int|
                0 <= i < r@.len() ==> (#[trigger] r@[i]).0@ == all[i].0@ && all[i].1.unwraps_to(r@[i].1),
        decreases rest@.len(),
    {
        let ghost k = r@.len();
        let (name, theme) = rest.remove(0);
        assert((name, theme) == all[k as int]);
        r.push((name, theme.unwrap_or_default()));
        assert(rest@ =~= all.subrange(r@.len() as int, all.len() as int));
    }
    r
}

/// Turns an application table into display settings with what is missing filled in.
fn unwrap_displays(table: Vec<(String, TomlDisplayConfig)>) -> (r: Vec<(String, DisplayConfig)>)
    ensures
        r@.len() == table@.len(),
        forall|i: int|
            0 <= i < r@.len() ==> (#[trigger] r@[i]).0@ == table@[i].0@ && r@[i].1@
                == table@[i].1@.unwrap_or_default(),
{
    let ghost all = table@;
    assert(all.len() == table.len());
    let mut rest = table;
    let mut r: Vec<(String, DisplayConfig)> = Vec::new();
    while rest.len() > 0
        invariant
            all.len() <= usize::MAX,
            r@.len() + rest@.len() == all.len(),
            rest@ == all.subrange(r@.len() as int, all.len() as int),
            forall|i: int|
                0 <= i < r@.len() ==> (#[trigger] r@[i]).0@ == all[i].0@ && r@[i].1@
                    == all[i].1@.unwrap_or_default(),
        decreases rest@.len(),
    {
        let ghost k = r@.len();
        let (name, display) = rest.remove(0);
        assert((name, display) == all[k as int]);
        r.push((name, display.unwrap_or_default()));
        assert(rest@ =~= all.subrange(r@.len() as int, all.len() as int));
    }
    r
}

impl Config {
    /// The configuration that a parsed file gives: general and display settings with what
    /// is missing filled in, the theme table (see [`theme_table`]) and the application table
    /// (see [`app_table`]), each entry with what is missing filled in.
    pub fn from_toml(toml: TomlConfig) -> (r: Config)
        requires
            apps_resolvable(entries(toml.apps), toml.display is Some),
        ensures
            value_or(toml.general, TomlGeneralConfig::empty()).unwraps_to(r.general),
            r.display@ == value_or(display_view(toml.display), TomlDisplayConfigView::empty()).unwrap_or_default(),
            TomlTheme::empty().unwraps_to(r.default_theme),
            r.themes@.len() == theme_table(entries(toml.themes)).len(),
            forall|i: int|
                0 <= i < r.themes@.len() ==> (#[trigger] r.themes@[i]).0@ == theme_table(
                    entries(toml.themes),
                )[i].0 && theme_table(entries(toml.themes))[i].1.unwraps_to(r.themes@[i].1),
            r.app_configs@.len() == app_table(entries(toml.apps), display_view(toml.display)).len(),
            forall|i: int|
                0 <= i < r.app_configs@.len() ==> (#[trigger] r.app_configs@[i]).0@ == app_table(
                    entries(toml.apps),
                    display_view(toml.display),
                )[i].0 && r.app_configs@[i].1@ == app_table(
                    entries(toml.apps),
                    display_view(toml.display),
                )[i].1.unwrap_or_default(),
    {
        let TomlConfig { imports: _, general, display, themes, apps } = toml;
        let theme_list = match themes {
            Some(t) => t,
            None => Vec::new(),
        };
        let theme_table_exec = build_theme_table(theme_list);
        let app_list = match apps {
            Some(a) => a,
            None => Vec::new(),
        };
        let app_table_exec = build_app_table(app_list, display.as_ref());
        let themes = unwrap_themes(theme_table_exec);
        let app_configs = unwrap_displays(app_table_exec);
        let ghost tt = theme_table(entries(toml.themes));
        let ghost at = app_table(entries(toml.apps), display_view(toml.display));
        Config {
            general: match general {
                Some(g) => g,
                None => TomlGeneralConfig::new(),
            }.unwrap_or_default(),
            display: match display {
                Some(d) => d,
                None => TomlDisplayConfig::new(),
            }.unwrap_or_default(),
            default_theme: Theme::default_theme(),
            themes,
            app_configs,
        }
    }

    pub fn general(&self) -> (r: &GeneralConfig)
        ensures
            *r == self.general,
    {
        &self.general
    }

    pub fn default_display(&self) -> (r: &DisplayConfig)
        ensures
            *r == self.display,
    {
        &self.display
    }

    /// The display settings of an application: its own where it has some, else the global
    /// ones.
    pub open spec fn app_display(&self, name: Seq<char>) -> DisplayConfig {
        let i = key_index(string_keys(self.app_configs@), name);
        if i >= 0 {
            self.app_configs@[i].1
        } else {
            self.display
        }
    }

    /// The theme of an application: the theme named by its display settings where there is
    /// one, else the default theme.
    pub open spec fn app_theme(&self, name: Seq<char>) -> Theme {
        let i = key_index(string_keys(self.themes@), self.app_display(name).theme@);
        if i >= 0 {
            self.themes@[i].1
        } else {
            self.default_theme
        }
    }

    pub fn display_by_app(&self, name: &str) -> (r: &DisplayConfig)
        ensures
            *r == self.app_display(name@),
    {
        match find_key(&self.app_configs, name) {
            Some(i) => &self.app_configs[i].1,
            None => &self.display,
        }
    }

    pub fn theme_by_app(&self, name: &str) -> (r: &Theme)
        ensures
            *r == self.app_theme(name@),
    {
        let display = self.display_by_app(name);
        match find_key(&self.themes, display.theme.as_str()) {
            Some(i) => &self.themes[i].1,
            None => &self.default_theme,
        }
    }

    /// All display settings: the global ones first, then those of each application.
    pub fn displays(&self) -> (r: Vec<&DisplayConfig>)
        ensures
            r@.len() == self.app_configs@.len() + 1,
            *r@[0] == self.display,
            forall|i: int| 0 <= i < self.app_configs@.len() ==> *r@[i + 1] == (#[trigger] self.app_configs@[i]).1,
    {
        let mut r: Vec<&DisplayConfig> = Vec::new();
        r.push(&self.display);
        let mut i: usize = 0;
        while i < self.app_configs.len()
            invariant
                i <= self.app_configs@.len(),
                r@.len() == i + 1,
                *r@[0] == self.display,
                forall|j: int| 0 <= j < i ==> *r@[j + 1] == (#[trigger] self.app_configs@[j]).1,
            decreases self.app_configs@.len() - i,
        {
            r.push(&self.app_configs[i].1);
            i = i + 1;
        }
        r
    }
}

} // verus!

verus! {

// ---------------------------------------------------------------------------
// Laws of the tables
// ---------------------------------------------------------------------------

/// No key appears twice.
pub open spec fn distinct_keys(keys: Seq<Seq<char>>) -> bool {
    forall|i: int, j: int| 0 <= i < j < keys.len() ==> keys[i] != keys[j]
}

proof fn lemma_keys_update<V>(t: Seq<(Seq<char>, V)>, i: int, v: V)
    requires
        0 <= i < t.len(),
    ensures
        keys_of(t.update(i, (t[i].0, v))) == keys_of(t),
{
    assert(keys_of(t.update(i, (t[i].0, v))) =~= keys_of(t));
}

proof fn lemma_keys_push<V>(t: Seq<(Seq<char>, V)>, k: Seq<char>, v: V)
    ensures
        keys_of(t.push((k, v))) == keys_of(t).push(k),
{
    assert(keys_of(t.push((k, v))) =~= keys_of(t).push(k));
}

/// A key found in a list stays found when a key is added at the end.
proof fn lemma_key_index_push(keys: Seq<Seq<char>>, k: Seq<char>, key: Seq<char>)
    ensures
        key_index(keys, key) >= 0 ==> key_index(keys.push(k), key) == key_index(keys, key),
        key_index(keys.push(k), k) >= 0,
{
    assert(keys.push(k).drop_last() =~= keys);
}

/// Adding a key that is not there keeps the keys distinct.
proof fn lemma_distinct_push(keys: Seq<Seq<char>>, k: Seq<char>)
    requires
        distinct_keys(keys),
        key_index(keys, k) == -1,
    ensures
        distinct_keys(keys.push(k)),
{
    lemma_key_index(keys, k);
    assert forall|i: int, j: int| 0 <= i < j < keys.push(k).len() implies keys.push(k)[i] != keys.push(
        k,
    )[j] by {
        if j == keys.len() {
            assert(keys[i] != k);
        }
    }
}

/// Whether a theme has a name that is not empty, and so a place in the theme table.
pub open spec fn has_theme_key(t: TomlTheme) -> bool {
    t.name matches Some(n) && n@.len() > 0
}

/// The name under which a theme goes into the theme table.
pub open spec fn theme_key(t: TomlTheme) -> Seq<char> {
    match t.name {
        Some(n) => n@,
        None => Seq::empty(),
    }
}

/// The theme table names each theme once, by a name that is not empty, and every named theme
/// of the list is in it.
pub proof fn law_theme_table_keys(themes: Seq<TomlTheme>)
    ensures
        distinct_keys(keys_of(theme_table(themes))),
        forall|k: int|
            0 <= k < theme_table(themes).len() ==> (#[trigger] theme_table(themes)[k]).0.len() > 0,
        forall|j: int|
            0 <= j < themes.len() && has_theme_key(#[trigger] themes[j]) ==> key_index(
                keys_of(theme_table(themes)),
                theme_key(themes[j]),
            ) >= 0,
    decreases themes.len(),
{
    if themes.len() > 0 {
        let prev = themes.drop_last();
        let t = theme_table(prev);
        law_theme_table_keys(prev);
        let last = themes.last();
        assert forall|j: int| 0 <= j < themes.len() - 1 implies themes[j] == #[trigger] prev[j] by {}
        if has_theme_key(last) {
            let n = theme_key(last);
            let i = key_index(keys_of(t), n);
            lemma_key_index(keys_of(t), n);
            if i >= 0 {
                let v = TomlTheme::spec_merge(t[i].1, Some(last));
                lemma_keys_update(t, i, v);
                assert(keys_of(t)[i] == t[i].0);
                assert(t.update(i, (n, v)) == t.update(i, (t[i].0, v)));
                assert forall|j: int|
                    0 <= j < themes.len() && has_theme_key(#[trigger] themes[j]) implies key_index(
                    keys_of(theme_table(themes)),
                    theme_key(themes[j]),
                ) >= 0 by {
                    if j < themes.len() - 1 {
                        assert(themes[j] == prev[j]);
                    }
                }
            } else {
                lemma_keys_push(t, n, last);
                lemma_distinct_push(keys_of(t), n);
                assert forall|j: int|
                    0 <= j < themes.len() && has_theme_key(#[trigger] themes[j]) implies key_index(
                    keys_of(theme_table(themes)),
                    theme_key(themes[j]),
                ) >= 0 by {
                    lemma_key_index_push(keys_of(t), n, theme_key(themes[j]));
                    if j < themes.len() - 1 {
                        assert(themes[j] == prev[j]);
                    }
                }
            }
        } else {
            assert(theme_table(themes) == t);
            assert forall|j: int|
                0 <= j < themes.len() && has_theme_key(#[trigger] themes[j]) implies key_index(
                keys_of(theme_table(themes)),
                theme_key(themes[j]),
            ) >= 0 by {
                if j < themes.len() - 1 {
                    assert(themes[j] == prev[j]);
                }
            }
        }
    }
}

/// The application table names each application once, and every application of the list
/// is in it.
pub proof fn law_app_table_keys(apps: Seq<AppConfig>, global: Option<TomlDisplayConfigView>)
    ensures
        distinct_keys(keys_of(app_table(apps, global))),
        forall|j: int|
            0 <= j < apps.len() ==> key_index(keys_of(app_table(apps, global)), (#[trigger] apps[j]).name@)
                >= 0,
    decreases apps.len(),
{
    reveal(add_app);
    if apps.len() > 0 {
        let prev = apps.drop_last();
        let t = app_table(prev, global);
        law_app_table_keys(prev, global);
        let last = apps.last();
        let i = key_index(keys_of(t), last.name@);
        lemma_key_index(keys_of(t), last.name@);
        assert forall|j: int| 0 <= j < apps.len() - 1 implies apps[j] == #[trigger] prev[j] by {}
        if i >= 0 {
            let v = t[i].1.merge(display_view(last.display));
            lemma_keys_update(t, i, v);
            assert(keys_of(t)[i] == t[i].0);
            assert(t.update(i, (last.name@, v)) == t.update(i, (t[i].0, v)));
            assert forall|j: int| 0 <= j < apps.len() implies key_index(
                keys_of(app_table(apps, global)),
                (#[trigger] apps[j]).name@,
            ) >= 0 by {
                if j < apps.len() - 1 {
                    assert(apps[j] == prev[j]);
                }
            }
        } else {
            let v = match display_view(last.display) {
                Some(d) => d.merge(global),
                None => global.unwrap(),
            };
            lemma_keys_push(t, last.name@, v);
            lemma_distinct_push(keys_of(t), last.name@);
            assert forall|j: int| 0 <= j < apps.len() implies key_index(
                keys_of(app_table(apps, global)),
                (#[trigger] apps[j]).name@,
            ) >= 0 by {
                lemma_key_index_push(keys_of(t), last.name@, apps[j].name@);
                if j < apps.len() - 1 {
                    assert(apps[j] == prev[j]);
                }
            }
        }
    }
}

} // verus!
