//! The daemon's configuration record: refresh intervals in seconds and the
//! color values the workspace renderer uses.  Loading and saving the
//! per-user file is outside the library; it fills this struct and falls
//! back to [`Config::default`] when the file is missing or malformed.

use vstd::prelude::*;
use vstd::string::StringExecFns;

verus! {

/// Refresh intervals and color configuration, loaded once at startup and
/// replaceable wholesale on an explicit reload event.
pub struct Config {
    /// Clock update interval in seconds.
    pub clock_interval: u64,
    /// Battery update interval in seconds.
    pub battery_interval: u64,
    /// Package-manager outdated-check interval in seconds.
    pub brew_interval: u64,
    /// Chat-notification check interval in seconds.
    pub teams_interval: u64,
    /// Fallback workspace background color.
    pub workspace_bg_color: String,
    /// Label color of a focused workspace.
    pub workspace_focused_label_color: String,
    /// Icon color of a focused workspace.
    pub workspace_focused_icon_color: String,
    /// Label color of an unfocused workspace.
    pub workspace_unfocused_label_color: String,
    /// Icon color of an unfocused workspace.
    pub workspace_unfocused_icon_color: String,
    /// Accent color, either one color or a two-stop gradient
    /// `gradient(top_left=<color>,bottom_right=<color>)`.
    pub border_active_color: String,
}

impl Clone for Config {
    /// An exact copy of the configuration.
    fn clone(&self) -> (r: Self)
        ensures
            r == *self,
    {
        Config {
            clock_interval: self.clock_interval,
            battery_interval: self.battery_interval,
            brew_interval: self.brew_interval,
            teams_interval: self.teams_interval,
            workspace_bg_color: self.workspace_bg_color.clone(),
            workspace_focused_label_color: self.workspace_focused_label_color.clone(),
            workspace_focused_icon_color: self.workspace_focused_icon_color.clone(),
            workspace_unfocused_label_color: self.workspace_unfocused_label_color.clone(),
            workspace_unfocused_icon_color: self.workspace_unfocused_icon_color.clone(),
            border_active_color: self.border_active_color.clone(),
        }
    }
}

impl Default for Config {
    /// The compiled defaults, used when no configuration file exists or it
    /// cannot be read.
    fn default() -> (r: Self)
        ensures
            r.clock_interval == 15,
            r.battery_interval == 120,
            r.brew_interval == 3600,
            r.teams_interval == 30,
            r.workspace_bg_color@ == "0xffbb60cd"@,
            r.workspace_focused_label_color@ == "0xff1d2021"@,
            r.workspace_focused_icon_color@ == "0xff1d2021"@,
            r.workspace_unfocused_label_color@ == "0xffffffff"@,
            r.workspace_unfocused_icon_color@ == "0xffffffff"@,
            r.border_active_color@ == "gradient(top_left=0xffbb60cd,bottom_right=0xffffad00)"@,
    {
        Config {
            clock_interval: 15,
            battery_interval: 120,
            brew_interval: 3600,
            teams_interval: 30,
            workspace_bg_color: String::from_str("0xffbb60cd"),
            workspace_focused_label_color: String::from_str("0xff1d2021"),
            workspace_focused_icon_color: String::from_str("0xff1d2021"),
            workspace_unfocused_label_color: String::from_str("0xffffffff"),
            workspace_unfocused_icon_color: String::from_str("0xffffffff"),
            border_active_color: String::from_str(
                "gradient(top_left=0xffbb60cd,bottom_right=0xffffad00)",
            ),
        }
    }
}

} // verus!
