//! The daemon's event protocol: one UTF-8 line per event, the first
//! whitespace-delimited token naming the handler, the next carrying an
//! optional argument.  Parsing is verified here; the socket loop that
//! delivers the lines lives outside the library.

use vstd::prelude::*;
use vstd::string::StrSliceExecFns;
use vstd::string::StringExecFns;

use crate::text;

verus! {

/// One parsed event line.
pub enum Event {
    /// The output volume changed, optionally to the given percentage.
    VolumeChanged(Option<u8>),
    /// The focused window changed, optionally naming the application.
    FocusChanged(Option<String>),
    /// The workspace layout changed.
    WorkspaceChanged,
    /// The package-manager widget was clicked.
    BrewClicked,
    /// The chat widget asked for a refresh.
    TeamsRefresh,
    /// A monitor was added, removed or rearranged.
    DisplayConfigurationChanged,
    /// The power source changed, optionally naming it.
    PowerSourceChanged(Option<String>),
    /// The machine woke from sleep.
    SystemWake,
    /// The configuration file should be reloaded.
    ConfigReload,
    /// An unrecognized line, logged and ignored.
    Unknown,
}

/// The first whitespace-delimited token of a trimmed line.
pub open spec fn first_token(t: Seq<char>) -> Seq<char> {
    match text::find_char(t, ' ') {
        Some(i) => t.take(i),
        None => t,
    }
}

/// The second whitespace-delimited token, if the line has one.
pub open spec fn second_token(t: Seq<char>) -> Option<Seq<char>> {
    match text::find_char(t, ' ') {
        None => None,
        Some(i) => {
            let rest = t.skip(i + 1);
            match text::find_char(rest, ' ') {
                Some(j) => Some(rest.take(j)),
                None => Some(rest),
            }
        },
    }
}

/// The volume argument: the second token read as a percentage.
pub open spec fn volume_arg(arg: Option<Seq<char>>) -> Option<u8> {
    match arg {
        None => None,
        Some(a) => match text::parse_uint_spec(a, 255) {
            Some(v) => Some(v as u8),
            None => None,
        },
    }
}

/// The view of an optional argument string.
pub open spec fn opt_view(o: Option<String>) -> Option<Seq<char>> {
    match o {
        Some(s) => Some(s@),
        None => None,
    }
}

/// Parses one event line: the line is trimmed, its first token selects
/// the event, the second token (when one exists) is its argument.
#[verifier::loop_isolation(false)]
pub fn parse_event(line: &str) -> (r: Event)
    ensures
        ({
            let t = text::trimmed(line@);
            let name = first_token(t);
            let arg = second_token(t);
            &&& (name == "on-volume-changed"@ ==> (r matches Event::VolumeChanged(v) && v
                == volume_arg(arg)))
            &&& (name == "on-focus-changed"@ ==> (r matches Event::FocusChanged(a) && opt_view(a)
                == arg))
            &&& (name == "on-workspace-changed"@ ==> r is WorkspaceChanged)
            &&& (name == "on-brew-clicked"@ ==> r is BrewClicked)
            &&& (name == "trigger-teams-refresh"@ ==> r is TeamsRefresh)
            &&& (name == "on-display-configuration-changed"@ ==> r
                is DisplayConfigurationChanged)
            &&& (name == "on-power-source-changed"@ ==> (r matches Event::PowerSourceChanged(a)
                && opt_view(a) == arg))
            &&& (name == "on-system-wake"@ ==> r is SystemWake)
            &&& (name == "reload-config"@ ==> r is ConfigReload)
            &&& (!(name == "on-volume-changed"@ || name == "on-focus-changed"@ || name
                == "on-workspace-changed"@ || name == "on-brew-clicked"@ || name
                == "trigger-teams-refresh"@ || name == "on-display-configuration-changed"@
                || name == "on-power-source-changed"@ || name == "on-system-wake"@ || name
                == "reload-config"@) ==> r is Unknown)
        }),
{
    proof {
        reveal_strlit("on-volume-changed");
        reveal_strlit("on-focus-changed");
        reveal_strlit("on-workspace-changed");
        reveal_strlit("on-brew-clicked");
        reveal_strlit("trigger-teams-refresh");
        reveal_strlit("on-display-configuration-changed");
        reveal_strlit("on-power-source-changed");
        reveal_strlit("on-system-wake");
        reveal_strlit("reload-config");
    }
    let n = line.unicode_len();
    let t = text::trim_range(line, 0, n);
    proof {
        assert(line@.subrange(0, n as int) =~= line@);
    }
    let tn = t.unicode_len();
    let space = text::find_in_range(t, 0, tn, ' ');
    proof {
        assert(t@.subrange(0, tn as int) =~= t@);
    }
    let name = match space {
        Some(i) => t.substring_char(0, i),
        None => t,
    };
    proof {
        assert(name@ == first_token(t@));
    }
    let arg: Option<&str> = match space {
        None => None,
        Some(i) => {
            proof {
                assert(t@.skip(i + 1) =~= t@.subrange(i + 1, tn as int));
            }
            let ghost rest = t@.skip(i + 1);
            match text::find_in_range(t, i + 1, tn, ' ') {
                Some(j) => {
                    proof {
                        assert(rest.take(j - (i + 1)) =~= t@.subrange(i + 1, j as int));
                    }
                    Some(t.substring_char(i + 1, j))
                },
                None => Some(t.substring_char(i + 1, tn)),
            }
        },
    };
    proof {
        match arg {
            Some(a) => {
                assert(second_token(t@) == Some(a@));
            },
            None => {
                assert(second_token(t@) is None);
            },
        }
    }
    if text::str_eq(name, "on-volume-changed") {
        let v = match arg {
            Some(a) => {
                let an = a.unicode_len();
                proof {
                    assert(a@.subrange(0, an as int) =~= a@);
                }
                text::parse_u8_range(a, 0, an)
            },
            None => None,
        };
        Event::VolumeChanged(v)
    } else if text::str_eq(name, "on-focus-changed") {
        Event::FocusChanged(
            match arg {
                Some(a) => Some(a.to_owned()),
                None => None,
            },
        )
    } else if text::str_eq(name, "on-workspace-changed") {
        Event::WorkspaceChanged
    } else if text::str_eq(name, "on-brew-clicked") {
        Event::BrewClicked
    } else if text::str_eq(name, "trigger-teams-refresh") {
        Event::TeamsRefresh
    } else if text::str_eq(name, "on-display-configuration-changed") {
        Event::DisplayConfigurationChanged
    } else if text::str_eq(name, "on-power-source-changed") {
        Event::PowerSourceChanged(
            match arg {
                Some(a) => Some(a.to_owned()),
                None => None,
            },
        )
    } else if text::str_eq(name, "on-system-wake") {
        Event::SystemWake
    } else if text::str_eq(name, "reload-config") {
        Event::ConfigReload
    } else {
        Event::Unknown
    }
}

} // verus!
