//! The command line of the program: run the daemon, send a notification, or ask the server
//! about itself.
use vstd::prelude::*;

use crate::client::HintsData;

verus! {

/// What the program is asked to do.
#[derive(Debug)]
pub enum Args {
    /// Start the daemon.
    Run(Box<RunCommand>),
    /// Send a notification.
    Send(Box<SendCommand>),
    /// Print what the server says of itself.
    ServerInfo,
}

/// Running the daemon, with the configuration file to use first.
#[derive(Debug, Clone, PartialEq, Eq)]
pub struct RunCommand {
    pub config: Option<String>,
}

/// A notification to send, as the command line gives it.
#[derive(Debug, Clone, PartialEq, Eq)]
pub struct SendCommand {
    pub summary: String,
    pub body: String,
    pub app_name: String,
    pub replaces_id: u32,
    pub icon: String,
    pub timeout: i32,
    pub actions: Vec<String>,
    pub hints: Vec<String>,
    pub urgency: Option<String>,
    pub category: Option<String>,
    pub desktop_entry: Option<String>,
    pub image_path: Option<String>,
    pub resident: Option<bool>,
    pub sound_file: Option<String>,
    pub sound_name: Option<String>,
    pub suppress_sound: Option<bool>,
    pub transient: Option<bool>,
    pub action_icons: Option<bool>,
    pub schedule: String,
}

impl SendCommand {
    /// The hints that options of their own set.
    pub fn hints_data(&self) -> (r: HintsData)
        ensures
            r.urgency == self.urgency,
            r.category == self.category,
            r.desktop_entry == self.desktop_entry,
            r.image_path == self.image_path,
            r.resident == self.resident,
            r.sound_file == self.sound_file,
            r.sound_name == self.sound_name,
            r.suppress_sound == self.suppress_sound,
            r.transient == self.transient,
            r.action_icons == self.action_icons,
    {
        HintsData {
            urgency: copy_text(&self.urgency),
            category: copy_text(&self.category),
            desktop_entry: copy_text(&self.desktop_entry),
            image_path: copy_text(&self.image_path),
            resident: self.resident,
            sound_file: copy_text(&self.sound_file),
            sound_name: copy_text(&self.sound_name),
            suppress_sound: self.suppress_sound,
            transient: self.transient,
            action_icons: self.action_icons,
        }
    }
}

fn copy_text(v: &Option<String>) -> (r: Option<String>)
    ensures
        r == *v,
{
    match v {
        Some(s) => Some(s.clone()),
        None => None,
    }
}

} // verus!
