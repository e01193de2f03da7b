//! Watching the configuration file: where it is looked for, and what the changes that the
//! file system reports mean for the configuration.
use vstd::prelude::*;

use super::display::{path_extend, spec_path_extend};

verus! {

/// What happened to the configuration file since it was last looked at.
#[derive(Debug, Clone, Copy, PartialEq, Eq, Structural)]
pub enum ConfigState {
    NotFound,
    Updated,
    NothingChanged,
}

/// How much a state matters: a missing file over an update over nothing.
pub open spec fn priority_of(state: ConfigState) -> u8 {
    match state {
        ConfigState::NotFound => 2,
        ConfigState::Updated => 1,
        ConfigState::NothingChanged => 0,
    }
}

/// Of two states, the one that matters more; the first where they are equal.
pub open spec fn spec_more_prioritized(a: ConfigState, b: ConfigState) -> ConfigState {
    if priority_of(a) < priority_of(b) {
        b
    } else {
        a
    }
}

/// The state that a series of states sums up to, starting from nothing changed.
pub open spec fn fold_states(states: Seq<ConfigState>) -> ConfigState
    decreases states.len(),
{
    if states.len() == 0 {
        ConfigState::NothingChanged
    } else {
        spec_more_prioritized(fold_states(states.drop_last()), states.last())
    }
}

/// What a file system event on the file means: a modification an update; a deletion or a
/// move a missing file; anything else nothing.
pub open spec fn event_state(modify: bool, delete_self: bool, move_self: bool) -> ConfigState {
    if modify {
        ConfigState::Updated
    } else if delete_self || move_self {
        ConfigState::NotFound
    } else {
        ConfigState::NothingChanged
    }
}

impl ConfigState {
    pub fn is_not_found(&self) -> (r: bool)
        ensures
            r == (*self is NotFound),
    {
        match self {
            ConfigState::NotFound => true,
            _ => false,
        }
    }

    pub fn priority(&self) -> (r: u8)
        ensures
            r == priority_of(*self),
    {
        match self {
            ConfigState::NotFound => 2,
            ConfigState::Updated => 1,
            ConfigState::NothingChanged => 0,
        }
    }

    pub fn more_prioritized(self, other: ConfigState) -> (r: ConfigState)
        ensures
            r == spec_more_prioritized(self, other),
    {
        if self.priority() < other.priority() {
            other
        } else {
            self
        }
    }

    /// The state of one file system event (see [`event_state`]).
    pub fn from_event(modify: bool, delete_self: bool, move_self: bool) -> (r: ConfigState)
        ensures
            r == event_state(modify, delete_self, move_self),
    {
        if modify {
            ConfigState::Updated
        } else if delete_self || move_self {
            ConfigState::NotFound
        } else {
            ConfigState::NothingChanged
        }
    }

    /// The state that the events read at once sum up to.
    pub fn fold(states: &[ConfigState]) -> (r: ConfigState)
        ensures
            r == fold_states(states@),
    {
        let mut r = ConfigState::NothingChanged;
        let mut i: usize = 0;
        while i < states.len()
            invariant
                i <= states@.len(),
                r == fold_states(states@.subrange(0, i as int)),
            decreases states@.len() - i,
        {
            assert(states@.subrange(0, i + 1).drop_last() =~= states@.subrange(0, i as int));
            r = r.more_prioritized(states[i]);
            i = i + 1;
        }
        assert(states@.subrange(0, states@.len() as int) =~= states@);
        r
    }
}

/// Which of the places a configuration file is looked for.
#[derive(Debug, Clone, Copy, PartialEq, Eq, Structural)]
pub enum ConfigDestination {
    /// The file given on the command line.
    UserConfig,
    /// Under `$XDG_CONFIG_HOME`.
    Xdg,
    /// Under `$HOME/.config`.
    Home,
}

/// A place where the configuration file may be.
#[derive(Debug, Clone, PartialEq, Eq)]
pub struct ConfigPath {
    pub path_buf: String,
    pub destination: ConfigDestination,
}

/// The file of the configuration under a configuration directory: `noti/config.toml`.
pub open spec fn config_file_under(dir: Seq<char>) -> Seq<char> {
    spec_path_extend(spec_path_extend(dir, "noti"@), "config.toml"@)
}

impl ConfigPath {
    /// The file given on the command line, where one is.
    pub fn new_user_config(user_config: Option<&str>) -> (r: Option<ConfigPath>)
        ensures
            match user_config {
                Some(p) => r matches Some(c) && c.path_buf@ == p@ && c.destination
                    == ConfigDestination::UserConfig,
                None => r is None,
            },
    {
        match user_config {
            Some(p) => Some(
                ConfigPath { path_buf: p.to_owned(), destination: ConfigDestination::UserConfig },
            ),
            None => None,
        }
    }

    /// The file under `$XDG_CONFIG_HOME`, where the variable is set.
    pub fn new_xdg(xdg_config_home: Option<String>) -> (r: Option<ConfigPath>)
        ensures
            match xdg_config_home {
                Some(d) => r matches Some(c) && c.path_buf@ == config_file_under(d@)
                    && c.destination == ConfigDestination::Xdg,
                None => r is None,
            },
    {
        match xdg_config_home {
            Some(d) => Some(
                ConfigPath { path_buf: ConfigPath::to_config_file(d), destination: ConfigDestination::Xdg },
            ),
            None => None,
        }
    }

    /// The file under `$HOME/.config`, where the variable is set.
    pub fn new_home(home: Option<String>) -> (r: Option<ConfigPath>)
        ensures
            match home {
                Some(h) => r matches Some(c) && c.path_buf@ == config_file_under(
                    spec_path_extend(h@, ".config"@),
                ) && c.destination == ConfigDestination::Home,
                None => r is None,
            },
    {
        match home {
            Some(h) => {
                let dir = path_extend(h.as_str(), ".config");
                Some(
                    ConfigPath {
                        path_buf: ConfigPath::to_config_file(dir),
                        destination: ConfigDestination::Home,
                    },
                )
            },
            None => None,
        }
    }

    /// The configuration file under a configuration directory.
    pub fn to_config_file(path: String) -> (r: String)
        ensures
            r@ == config_file_under(path@),
    {
        let app_dir = path_extend(path.as_str(), "noti");
        path_extend(app_dir.as_str(), "config.toml")
    }

    pub fn as_path(&self) -> (r: &str)
        ensures
            r@ == self.path_buf@,
    {
        self.path_buf.as_str()
    }
}

/// What becomes of the watch on the configuration file after a check.
#[derive(Debug, Clone, Copy, PartialEq, Eq, Structural)]
pub enum WatchStep {
    /// The file watched is still the one in use.
    Keep,
    /// Watch the file in use anew (dropping any earlier watch).
    Rewatch,
    /// No file is there: drop the watch.
    Unwatch,
}

/// Whether the events of the watched file are to be read: the first place that holds a file
/// is the one watched.
pub open spec fn reads_events(found: Option<ConfigDestination>, watched: Option<ConfigDestination>) -> bool {
    found is Some && found == watched
}

/// The outcome of a check: no file anywhere is a missing file; a file elsewhere than the
/// watched one is an update; the watched file reports its events, where a deletion or move
/// makes it watched anew and counts as an update.
pub open spec fn spec_watch_outcome(
    found: Option<ConfigDestination>,
    watched: Option<ConfigDestination>,
    events: ConfigState,
) -> (ConfigState, WatchStep) {
    if found is None {
        (ConfigState::NotFound, WatchStep::Unwatch)
    } else if reads_events(found, watched) {
        if events is NotFound {
            (ConfigState::Updated, WatchStep::Rewatch)
        } else {
            (events, WatchStep::Keep)
        }
    } else {
        (ConfigState::Updated, WatchStep::Rewatch)
    }
}

/// Whether a check reads the events of the watched file (see [`reads_events`]).
pub fn needs_events(found: Option<ConfigDestination>, watched: Option<ConfigDestination>) -> (r: bool)
    ensures
        r == reads_events(found, watched),
{
    match (found, watched) {
        (Some(f), Some(w)) => f == w,
        _ => false,
    }
}

/// The state that a check reports and what becomes of the watch; `events` is what the
/// watched file reported, and matters only where [`reads_events`] holds.
pub fn watch_outcome(
    found: Option<ConfigDestination>,
    watched: Option<ConfigDestination>,
    events: ConfigState,
) -> (r: (ConfigState, WatchStep))
    ensures
        r == spec_watch_outcome(found, watched, events),
{
    if found.is_none() {
        (ConfigState::NotFound, WatchStep::Unwatch)
    } else if needs_events(found, watched) {
        if events.is_not_found() {
            (ConfigState::Updated, WatchStep::Rewatch)
        } else {
            (events, WatchStep::Keep)
        }
    } else {
        (ConfigState::Updated, WatchStep::Rewatch)
    }
}

/// The position of the first place whose destination is `d`.
pub open spec fn destination_index(paths: Seq<ConfigPath>, d: ConfigDestination) -> int
    decreases paths.len(),
{
    if paths.len() == 0 {
        -1
    } else {
        let i = destination_index(paths.drop_last(), d);
        if i >= 0 {
            i
        } else if paths.last().destination == d {
            paths.len() - 1
        } else {
            -1
        }
    }
}

/// The path of the configuration file in use: the first place of the watched destination.
pub fn config_path(paths: &[ConfigPath], watched: Option<ConfigDestination>) -> (r: Option<&str>)
    ensures
        watched is None ==> r is None,
        watched matches Some(d) ==> (destination_index(paths@, d) == -1 <==> r is None),
        watched matches Some(d) ==> (r matches Some(p) ==> 0 <= destination_index(paths@, d)
            < paths@.len() && p@ == paths@[destination_index(paths@, d)].path_buf@),
{
    match watched {
        None => None,
        Some(d) => {
            let mut i: usize = 0;
            while i < paths.len()
                invariant
                    watched == Some(d),
                    i <= paths@.len(),
                    destination_index(paths@.subrange(0, i as int), d) == -1,
                decreases paths@.len() - i,
            {
                assert(paths@.subrange(0, i + 1).drop_last() =~= paths@.subrange(0, i as int));
                if paths[i].destination == d {
                    assert(paths@.subrange(0, i + 1).last() == paths@[i as int]);
                    assert(destination_index(paths@.subrange(0, i + 1), d) == i);
                    proof {
                        lemma_destination_index_prefix(paths@, i as int + 1, d);
                    }
                    let p = paths[i].as_path();
                    assert(p@ == paths@[destination_index(paths@, d)].path_buf@);
                    return Some(p);
                }
                i = i + 1;
            }
            assert(paths@.subrange(0, paths@.len() as int) =~= paths@);
            None
        },
    }
}

/// A destination found in a prefix is found at the same place in the whole list.
proof fn lemma_destination_index_prefix(paths: Seq<ConfigPath>, n: int, d: ConfigDestination)
    requires
        0 <= n <= paths.len(),
        destination_index(paths.subrange(0, n), d) >= 0,
    ensures
        destination_index(paths, d) == destination_index(paths.subrange(0, n), d),
    decreases paths.len() - n,
{
    if n < paths.len() {
        assert(paths.subrange(0, n + 1).drop_last() =~= paths.subrange(0, n));
        lemma_destination_index_prefix(paths, n + 1, d);
    } else {
        assert(paths.subrange(0, n) =~= paths);
    }
}

} // verus!

verus! {

/// The larger of two priorities.
pub open spec fn max_priority(a: ConfigState, b: ConfigState) -> u8 {
    if priority_of(a) < priority_of(b) {
        priority_of(b)
    } else {
        priority_of(a)
    }
}

/// Of two states the one that matters more comes out, whichever is given first, however
/// three are grouped, and nothing changed changes nothing.
pub proof fn law_more_prioritized(a: ConfigState, b: ConfigState, c: ConfigState)
    ensures
        priority_of(spec_more_prioritized(a, b)) == max_priority(a, b),
        spec_more_prioritized(a, b) == spec_more_prioritized(b, a),
        spec_more_prioritized(spec_more_prioritized(a, b), c) == spec_more_prioritized(
            a,
            spec_more_prioritized(b, c),
        ),
        spec_more_prioritized(a, ConfigState::NothingChanged) == a,
        spec_more_prioritized(ConfigState::NothingChanged, a) == a,
{
}

/// The events read at once sum up to the one that matters most: no event matters more, and
/// unless nothing changed, it is one of the events.
pub proof fn law_fold_states(states: Seq<ConfigState>)
    ensures
        forall|i: int| 0 <= i < states.len() ==> priority_of(#[trigger] states[i]) <= priority_of(
            fold_states(states),
        ),
        fold_states(states) == ConfigState::NothingChanged || states.contains(fold_states(states)),
    decreases states.len(),
{
    if states.len() > 0 {
        let prev = states.drop_last();
        law_fold_states(prev);
        assert forall|i: int| 0 <= i < states.len() implies priority_of(#[trigger] states[i])
            <= priority_of(fold_states(states)) by {
            if i < states.len() - 1 {
                assert(states[i] == prev[i]);
            }
        }
        if fold_states(states) != ConfigState::NothingChanged {
            if fold_states(states) == states.last() {
                assert(states[states.len() - 1] == states.last());
            } else {
                let w = choose|k: int| 0 <= k < prev.len() && prev[k] == fold_states(prev);
                assert(states[w] == prev[w]);
            }
        }
    }
}

} // verus!
