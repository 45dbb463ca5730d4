//! The per-widget update batches: each function builds the exact
//! directives one widget update sends, ready for one transport delivery.

use vstd::prelude::*;
use vstd::string::StringExecFns;

use crate::batch;
use crate::batch::SketchybarBatch;
use crate::text;

verus! {

/// A batch holding one set-directive for `item`.
pub fn set_item(item: &str, props: &[(&str, &str)]) -> (r: SketchybarBatch)
    ensures
        r@ == batch::set_args(item@, batch::props_view(props@)),
{
    let mut b = SketchybarBatch::new();
    b.set(item, props);
    b
}

/// The clock update: the time string as the clock item's label.
pub fn update_clock(time: &str) -> (r: SketchybarBatch)
    ensures
        r@ == batch::set_args("clock"@, seq![("label"@, time@)]),
{
    let mut props: Vec<(&str, &str)> = Vec::new();
    props.push(("label", time));
    proof {
        assert(batch::props_view(props@) =~= seq![("label"@, time@)]);
    }
    set_item("clock", props.as_slice())
}

/// The battery update: icon, colors, and the percentage label.
pub fn update_battery(icon: &str, icon_color: &str, label_color: &str, percentage: u8) -> (r:
    SketchybarBatch)
    ensures
        r@ == batch::set_args(
            "battery"@,
            seq![
                ("icon"@, icon@),
                ("icon.color"@, icon_color@),
                ("label.color"@, label_color@),
                ("label"@, text::dec_str(percentage as nat) + "%"@),
            ],
        ),
{
    let mut label = text::decimal_string(percentage as u64);
    label.append("%");
    let mut props: Vec<(&str, &str)> = Vec::new();
    props.push(("icon", icon));
    props.push(("icon.color", icon_color));
    props.push(("label.color", label_color));
    props.push(("label", label.as_str()));
    proof {
        assert(batch::props_view(props@) =~= seq![
            ("icon"@, icon@),
            ("icon.color"@, icon_color@),
            ("label.color"@, label_color@),
            ("label"@, text::dec_str(percentage as nat) + "%"@),
        ]);
    }
    set_item("battery", props.as_slice())
}

/// The volume update: icon and the percentage label.
pub fn update_volume(icon: &str, percentage: u8) -> (r: SketchybarBatch)
    ensures
        r@ == batch::set_args(
            "volume"@,
            seq![("icon"@, icon@), ("label"@, text::dec_str(percentage as nat) + "%"@)],
        ),
{
    let mut label = text::decimal_string(percentage as u64);
    label.append("%");
    let mut props: Vec<(&str, &str)> = Vec::new();
    props.push(("icon", icon));
    props.push(("label", label.as_str()));
    proof {
        assert(batch::props_view(props@) =~= seq![
            ("icon"@, icon@),
            ("label"@, text::dec_str(percentage as nat) + "%"@),
        ]);
    }
    set_item("volume", props.as_slice())
}

/// The front-app update: icon and the prompt-prefixed application name.
pub fn update_front_app(icon: &str, app_name: &str) -> (r: SketchybarBatch)
    ensures
        r@ == batch::set_args(
            "front_app"@,
            seq![("icon"@, icon@), ("label"@, "\u{276f} "@ + app_name@)],
        ),
{
    let mut label = String::from_str("\u{276f} ");
    label.append(app_name);
    let mut props: Vec<(&str, &str)> = Vec::new();
    props.push(("icon", icon));
    props.push(("label", label.as_str()));
    proof {
        assert(batch::props_view(props@) =~= seq![
            ("icon"@, icon@),
            ("label"@, "\u{276f} "@ + app_name@),
        ]);
    }
    set_item("front_app", props.as_slice())
}

/// The package-manager label: a check mark when nothing is outdated,
/// else the total count.
pub open spec fn brew_label(total: int) -> Seq<char> {
    if total == 0 {
        "\u{2713}"@
    } else {
        text::dec_str(total as nat)
    }
}

/// The package-manager update: icon and the outdated-count label.
pub fn update_brew(icon: &str, formulae: usize, casks: usize) -> (r: SketchybarBatch)
    requires
        formulae + casks <= usize::MAX,
    ensures
        r@ == batch::set_args(
            "brew"@,
            seq![("icon"@, icon@), ("label"@, brew_label(formulae + casks))],
        ),
{
    let total = formulae + casks;
    let label = if total == 0 {
        String::from_str("\u{2713}")
    } else {
        text::decimal_string(total as u64)
    };
    let mut props: Vec<(&str, &str)> = Vec::new();
    props.push(("icon", icon));
    props.push(("label", label.as_str()));
    proof {
        assert(batch::props_view(props@) =~= seq![
            ("icon"@, icon@),
            ("label"@, brew_label(formulae + casks)),
        ]);
    }
    set_item("brew", props.as_slice())
}

/// The chat label: the notification count, or empty without any.
pub open spec fn teams_label(count: u32) -> Seq<char> {
    if count > 0 {
        text::dec_str(count as nat)
    } else {
        Seq::<char>::empty()
    }
}

/// The chat update: icon, colors, the notification-count label, and the
/// item turned visible.
pub fn update_teams(icon: &str, icon_color: &str, border_color: &str, notification_count: u32)
    -> (r: SketchybarBatch)
    ensures
        r@ == batch::set_args(
            "teams"@,
            seq![
                ("icon"@, icon@),
                ("icon.color"@, icon_color@),
                ("background.border_color"@, border_color@),
                ("label"@, teams_label(notification_count)),
                ("drawing"@, "on"@),
            ],
        ),
{
    let label = if notification_count > 0 {
        text::decimal_string(notification_count as u64)
    } else {
        String::new()
    };
    let mut props: Vec<(&str, &str)> = Vec::new();
    props.push(("icon", icon));
    props.push(("icon.color", icon_color));
    props.push(("background.border_color", border_color));
    props.push(("label", label.as_str()));
    props.push(("drawing", "on"));
    proof {
        assert(batch::props_view(props@) =~= seq![
            ("icon"@, icon@),
            ("icon.color"@, icon_color@),
            ("background.border_color"@, border_color@),
            ("label"@, teams_label(notification_count)),
            ("drawing"@, "on"@),
        ]);
    }
    set_item("teams", props.as_slice())
}

/// One bounce of a pulse animation on `item`: a sine step down and one
/// back up of the named offset property.
pub open spec fn pulse_cycle(item: Seq<char>, prop: Seq<char>) -> Seq<Seq<char>> {
    batch::animate_args("sin"@, 15) + batch::set_args(item, seq![(prop, "-3"@)])
        + batch::animate_args("sin"@, 15) + batch::set_args(item, seq![(prop, "0"@)])
}

/// `n` bounces of the pulse animation, in order.
pub open spec fn pulse_cycles(item: Seq<char>, prop: Seq<char>, n: nat) -> Seq<Seq<char>>
    decreases n,
{
    if n == 0 {
        Seq::<Seq<char>>::empty()
    } else {
        pulse_cycles(item, prop, (n - 1) as nat) + pulse_cycle(item, prop)
    }
}

/// Appends `cycles` pulse bounces of `prop` on `item` to the batch.
fn push_pulse_cycles(b: &mut SketchybarBatch, item: &str, prop: &str, cycles: u32)
    ensures
        final(b)@ == old(b)@ + pulse_cycles(item@, prop@, cycles as nat),
{
    let mut i: u32 = 0;
    proof {
        assert(old(b)@ + pulse_cycles(item@, prop@, 0) =~= old(b)@);
    }
    while i < cycles
        invariant
            i <= cycles,
            b@ == old(b)@ + pulse_cycles(item@, prop@, i as nat),
        decreases cycles - i,
    {
        b.animate("sin", 15);
        let mut props: Vec<(&str, &str)> = Vec::new();
        props.push((prop, "-3"));
        proof {
            assert(batch::props_view(props@) =~= seq![(prop@, "-3"@)]);
        }
        b.set(item, props.as_slice());
        b.animate("sin", 15);
        let mut props2: Vec<(&str, &str)> = Vec::new();
        props2.push((prop, "0"));
        proof {
            assert(batch::props_view(props2@) =~= seq![(prop@, "0"@)]);
        }
        b.set(item, props2.as_slice());
        proof {
            assert(b@ =~= old(b)@ + pulse_cycles(item@, prop@, (i + 1) as nat));
        }
        i += 1;
    }
}

/// The short bounce the chat icon plays when clicked.
pub fn teams_clicked_batch() -> (r: SketchybarBatch)
    ensures
        r@ == pulse_cycles("teams"@, "icon.y_offset"@, 1),
{
    let mut b = SketchybarBatch::new();
    push_pulse_cycles(&mut b, "teams", "icon.y_offset", 1);
    proof {
        assert(b@ =~= pulse_cycles("teams"@, "icon.y_offset"@, 1));
    }
    b
}

/// The directive that shows the package manager's refreshing glyph.
pub fn brew_refreshing_batch() -> (r: SketchybarBatch)
    ensures
        r@ == batch::set_args(
            "brew"@,
            seq![("label"@, "\u{f409}"@), ("label.y_offset"@, "0"@)],
        ),
{
    let mut props: Vec<(&str, &str)> = Vec::new();
    props.push(("label", "\u{f409}"));
    props.push(("label.y_offset", "0"));
    proof {
        assert(batch::props_view(props@) =~= seq![
            ("label"@, "\u{f409}"@),
            ("label.y_offset"@, "0"@),
        ]);
    }
    set_item("brew", props.as_slice())
}

/// The long bounce the package-manager label plays while an upgrade
/// runs: sixty cycles, about half a minute.
pub fn brew_pulse_batch() -> (r: SketchybarBatch)
    ensures
        r@ == pulse_cycles("brew"@, "label.y_offset"@, 60),
{
    let mut b = SketchybarBatch::new();
    push_pulse_cycles(&mut b, "brew", "label.y_offset", 60);
    proof {
        assert(b@ =~= pulse_cycles("brew"@, "label.y_offset"@, 60));
    }
    b
}

} // verus!
