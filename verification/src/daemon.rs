//! The decisions of the daemon's main loop: what each action of the server becomes, when the
//! configuration is reloaded, what a poll does while the user is away, and how the idle
//! notifications of the compositor are tracked.
use vstd::prelude::*;

use crate::actions::Action;
use crate::config::watcher::ConfigState;
use crate::notification::{Notification, ScheduledNotification};

verus! {

/// What the daemon does with an action of the server.
#[derive(Debug)]
pub enum Dispatch {
    /// Show the notification now.
    Create(Box<Notification>),
    /// Close the notification of that identifier.
    Close(u32),
    /// Hand the notification to the scheduler.
    Schedule(ScheduledNotification),
    /// Nothing: a close request without an identifier, or a request to close them all,
    /// which the daemon does not support.
    Ignore,
}

/// What an action becomes.
pub open spec fn spec_dispatch(action: Action) -> Dispatch {
    match action {
        Action::Show(n) => Dispatch::Create(n),
        Action::Schedule(n) => Dispatch::Schedule(n),
        Action::Close(Some(id)) => Dispatch::Close(id),
        Action::Close(None) => Dispatch::Ignore,
        Action::CloseAll => Dispatch::Ignore,
    }
}

/// Decides what to do with an action of the server (see [`spec_dispatch`]).
pub fn dispatch_action(action: Action) -> (r: Dispatch)
    ensures
        r == spec_dispatch(action),
{
    match action {
        Action::Show(n) => Dispatch::Create(n),
        Action::Schedule(n) => Dispatch::Schedule(n),
        Action::Close(Some(id)) => Dispatch::Close(id),
        Action::Close(None) => Dispatch::Ignore,
        Action::CloseAll => Dispatch::Ignore,
    }
}

/// What the loop does after checking the configuration files.
#[derive(Debug, Clone, Copy, PartialEq, Eq, Structural)]
pub struct ConfigReaction {
    /// Reload the configuration and hand it to the backend.
    pub reload: bool,
    /// Whether the configuration now stands partly on default values (a file is missing).
    pub partially_default: bool,
}

/// An update reloads and clears the flag; a file found missing reloads once, setting the
/// flag, and is ignored while the flag is set; nothing changed does nothing.
pub open spec fn spec_react(state: ConfigState, partially_default: bool) -> ConfigReaction {
    match state {
        ConfigState::Updated => ConfigReaction { reload: true, partially_default: false },
        ConfigState::NotFound => if partially_default {
            ConfigReaction { reload: false, partially_default: true }
        } else {
            ConfigReaction { reload: true, partially_default: true }
        },
        ConfigState::NothingChanged => ConfigReaction { reload: false, partially_default },
    }
}

/// Decides whether to reload the configuration (see [`spec_react`]).
pub fn react_to_config(state: ConfigState, partially_default: bool) -> (r: ConfigReaction)
    ensures
        r == spec_react(state, partially_default),
{
    match state {
        ConfigState::Updated => ConfigReaction { reload: true, partially_default: false },
        ConfigState::NotFound => {
            if partially_default {
                ConfigReaction { reload: false, partially_default: true }
            } else {
                ConfigReaction { reload: true, partially_default: true }
            }
        },
        ConfigState::NothingChanged => ConfigReaction { reload: false, partially_default },
    }
}

/// What one poll of the backend does.
#[derive(Debug, Clone, Copy, PartialEq, Eq, Structural)]
pub struct PollPlan {
    /// Forget that the user was away.
    pub reset_idle: bool,
    /// Restart the timeouts of the banners shown.
    pub reset_timeouts: bool,
    /// Show banners, close those asked to close, remove expired ones and handle clicks.
    pub handle_windows: bool,
}

/// While the user is away nothing is shown or expires; on return the timeouts start again.
pub open spec fn spec_plan_poll(is_idled: bool, was_idled: bool) -> PollPlan {
    PollPlan {
        reset_idle: !is_idled && was_idled,
        reset_timeouts: !is_idled && was_idled,
        handle_windows: !is_idled,
    }
}

/// Decides what a poll does (see [`spec_plan_poll`]).
pub fn plan_poll(is_idled: bool, was_idled: bool) -> (r: PollPlan)
    ensures
        r == spec_plan_poll(is_idled, was_idled),
{
    if is_idled {
        PollPlan { reset_idle: false, reset_timeouts: false, handle_windows: false }
    } else if was_idled {
        PollPlan { reset_idle: true, reset_timeouts: true, handle_windows: true }
    } else {
        PollPlan { reset_idle: false, reset_timeouts: false, handle_windows: true }
    }
}

/// Whether the user is away, as the compositor last reported it.
#[derive(Debug, Clone, Copy, PartialEq, Eq, Structural)]
pub enum IdleState {
    Idled,
    Resumed,
}

/// An event of the compositor's idle notification.
#[derive(Debug, Clone, Copy, PartialEq, Eq, Structural)]
pub enum IdleEvent {
    Idled,
    Resumed,
    /// Any other event, which changes nothing.
    Other,
}

/// The state of the idle notifier: the threshold in milliseconds (0: none), whether an idle
/// notification is requested from the compositor, the last state reported, and whether the
/// user was away since this was last reset.
#[derive(Debug, Clone, Copy, PartialEq, Eq, Structural)]
pub struct IdleTracker {
    pub threshold: u32,
    pub watching: bool,
    pub idle_state: Option<IdleState>,
    pub was_idled: bool,
}

/// What becomes of the compositor's idle notification when the threshold changes.
#[derive(Debug, Clone, Copy, PartialEq, Eq, Structural)]
pub struct IdleRewatch {
    /// Destroy the notification requested before.
    pub destroy: bool,
    /// Request a new one with the new threshold.
    pub create: bool,
}

impl IdleTracker {
    /// A notifier for a threshold: an idle notification is requested unless it is 0.
    pub fn new(threshold: u32) -> (r: IdleTracker)
        ensures
            r == (IdleTracker {
                threshold,
                watching: threshold != 0,
                idle_state: None,
                was_idled: false,
            }),
    {
        IdleTracker { threshold, watching: threshold != 0, idle_state: None, was_idled: false }
    }

    /// A new threshold: the notification requested before is dropped with the state it
    /// reported, and a new one is requested unless the threshold is 0.
    pub fn recreate(&mut self, threshold: u32) -> (r: IdleRewatch)
        ensures
            r == (IdleRewatch { destroy: old(self).watching, create: threshold != 0 }),
            final(self).threshold == threshold,
            final(self).watching == (threshold != 0),
            final(self).idle_state == (if old(self).watching {
                None
            } else {
                old(self).idle_state
            }),
            final(self).was_idled == (old(self).was_idled && !old(self).watching),
    {
        let destroy = self.watching;
        if self.watching {
            self.idle_state = None;
            self.was_idled = false;
        }
        self.threshold = threshold;
        self.watching = threshold != 0;
        IdleRewatch { destroy, create: threshold != 0 }
    }

    /// An event of the compositor: going away is remembered until reset; coming back only
    /// changes the state.
    pub fn on_event(&mut self, event: IdleEvent)
        ensures
            match event {
                IdleEvent::Idled => *final(self) == (IdleTracker {
                    idle_state: Some(IdleState::Idled),
                    was_idled: true,
                    ..*old(self)
                }),
                IdleEvent::Resumed => *final(self) == (IdleTracker {
                    idle_state: Some(IdleState::Resumed),
                    ..*old(self)
                }),
                IdleEvent::Other => *final(self) == *old(self),
            },
    {
        match event {
            IdleEvent::Idled => {
                self.idle_state = Some(IdleState::Idled);
                self.was_idled = true;
            },
            IdleEvent::Resumed => {
                self.idle_state = Some(IdleState::Resumed);
            },
            IdleEvent::Other => {},
        }
    }

    /// Forgets that the user was away.
    pub fn reset_idle_state(&mut self)
        ensures
            *final(self) == (IdleTracker { was_idled: false, ..*old(self) }),
    {
        self.was_idled = false;
    }

    pub fn was_idled(&self) -> (r: bool)
        ensures
            r == self.was_idled,
    {
        self.was_idled
    }

    /// Whether the user is away now.
    pub fn is_idled(&self) -> (r: bool)
        ensures
            r == (self.idle_state == Some(IdleState::Idled)),
    {
        match self.idle_state {
            Some(IdleState::Idled) => true,
            _ => false,
        }
    }
}

} // verus!

verus! {

/// A configuration file found missing makes the daemon fall back on defaults once: the next
/// check that finds it still missing does not reload; an update always reloads and ends the
/// fallback; nothing changed keeps everything.
pub proof fn law_config_reaction(partially_default: bool)
    ensures
        !partially_default ==> spec_react(ConfigState::NotFound, partially_default).reload,
        !spec_react(
            ConfigState::NotFound,
            spec_react(ConfigState::NotFound, partially_default).partially_default,
        ).reload,
        spec_react(ConfigState::Updated, partially_default) == (ConfigReaction {
            reload: true,
            partially_default: false,
        }),
        spec_react(ConfigState::NothingChanged, partially_default) == (ConfigReaction {
            reload: false,
            partially_default,
        }),
{
}

/// While the user is away nothing is shown, closed or expired; the first poll after they
/// come back restarts the timeouts, and the one after it does not again.
pub proof fn law_poll_after_idle(was_idled: bool)
    ensures
        !spec_plan_poll(true, was_idled).handle_windows,
        !spec_plan_poll(true, was_idled).reset_timeouts,
        spec_plan_poll(false, was_idled).handle_windows,
        spec_plan_poll(false, true).reset_timeouts && spec_plan_poll(false, true).reset_idle,
        !spec_plan_poll(false, !spec_plan_poll(false, true).reset_idle).reset_timeouts,
{
}

} // verus!
