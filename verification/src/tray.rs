//! The tray icon's state: what it shows and what its menu says. Showing it on
//! the desktop and acting on the menu are the host's part.
use crate::config::Config;
use crate::text::{parse_i32, parsed_i32, trim, trim_ws};
use vstd::prelude::*;

verus! {

pub struct TypeTuneTray {
    pub config: Config,
    pub enabled: bool,
}

impl TypeTuneTray {
    pub fn id(&self) -> (s: String)
        ensures
            s@ == "typetune"@,
    {
        String::from_str("typetune")
    }

    pub fn title(&self) -> (s: String)
        ensures
            s@ == "TypeTune"@,
    {
        String::from_str("TypeTune")
    }

    /// The icon: a plain keyboard while enabled, a crossed-out one otherwise.
    pub fn icon_name(&self) -> (s: String)
        ensures
            s@ == if self.enabled {
                "input-keyboard"@
            } else {
                "input-keyboard-disabled"@
            },
    {
        if self.enabled {
            String::from_str("input-keyboard")
        } else {
            String::from_str("input-keyboard-disabled")
        }
    }

    /// The first menu line: whether TypeTune is enabled.
    pub fn status_label(&self) -> (s: String)
        ensures
            s@ == if self.enabled {
                "TypeTune: enabled"@
            } else {
                "TypeTune: disabled"@
            },
    {
        if self.enabled {
            String::from_str("TypeTune: enabled")
        } else {
            String::from_str("TypeTune: disabled")
        }
    }

    /// The menu entry that switches TypeTune the other way.
    pub fn toggle_label(&self) -> (s: String)
        ensures
            s@ == if self.enabled {
                "Disable"@
            } else {
                "Enable"@
            },
    {
        if self.enabled {
            String::from_str("Disable")
        } else {
            String::from_str("Enable")
        }
    }

    /// The menu entries in order: status, toggle, reload, exit.
    pub fn menu_labels(&self) -> (v: Vec<String>)
        ensures
            v@.len() == 4,
            v@[0]@ == if self.enabled {
                "TypeTune: enabled"@
            } else {
                "TypeTune: disabled"@
            },
            v@[1]@ == if self.enabled {
                "Disable"@
            } else {
                "Enable"@
            },
            v@[2]@ == "Reload config"@,
            v@[3]@ == "Exit"@,
    {
        let mut v: Vec<String> = Vec::new();
        v.push(self.status_label());
        v.push(self.toggle_label());
        v.push(String::from_str("Reload config"));
        v.push(String::from_str("Exit"));
        v
    }

    /// Switches TypeTune the other way; the new state is what the daemon is
    /// told.
    pub fn toggle(&mut self) -> (enabled: bool)
        ensures
            final(self).enabled == !old(self).enabled,
            enabled == final(self).enabled,
            final(self).config == old(self).config,
    {
        self.enabled = !self.enabled;
        self.enabled
    }
}

/// The process ID a PID file holds: its trimmed text as a decimal `i32`.
pub fn pid_from_text(text: &str) -> (r: Option<i32>)
    ensures
        r == parsed_i32(trim_ws(text@)),
{
    let t = trim(text);
    parse_i32(t.as_str())
}

} // verus!
