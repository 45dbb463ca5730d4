use sketchybartender::batch::SketchybarBatch;
use sketchybartender::colors::{generate_gradient, get_workspace_gradient_colors, parse_color, parse_gradient};
use sketchybartender::config::Config;
use sketchybartender::events::{parse_event, Event};
use sketchybartender::items;
use sketchybartender::monitor_map::{parse_delimited_map, MonitorMapper};
use sketchybartender::providers::{count_outdated, parse_badge_count, parse_battery, parse_volume, TeamsInfo};
use sketchybartender::reconcile::{classify, focus_update, format_workspace_label, render_pass, workspaces_to_clear, DaemonState, WorkspaceVisual};
use sketchybartender::snapshot::{build_icons, build_workspace_infos, focused_query_stale, get_icon, needs_retry, retry_delay_ms, FocusedWorkspaceInfo, WindowInfo, WorkspaceInfo};
use sketchybartender::transport::{format_message, PortCache, SendOutcome, TransportError};

fn window(app: &str, ws: &str, focused: bool, display: u32) -> WindowInfo {
    WindowInfo {
        app_name: app.to_string(),
        workspace: ws.to_string(),
        workspace_is_focused: focused,
        workspace_is_visible: true,
        display_id: display,
    }
}

fn entry(id: &str, apps: &[&str], icons: &str, focused: bool, display: u32) -> WorkspaceInfo {
    WorkspaceInfo {
        id: id.to_string(),
        apps: apps.iter().map(|a| a.to_string()).collect(),
        icons: icons.to_string(),
        is_focused: focused,
        display_id: display,
    }
}

// ---------------------------------------------------------------
// Debounce gate
// ---------------------------------------------------------------

#[test]
fn test_debounce_second_event_within_window() {
    let mut state = DaemonState::new(Config::default());
    assert!(state.accept_change(1000));
    assert!(!state.accept_change(1050));
    assert_eq!(state.last_workspace_change, Some(1000));
}

#[test]
fn test_debounce_second_event_after_window() {
    let mut state = DaemonState::new(Config::default());
    assert!(state.accept_change(1000));
    assert!(state.accept_change(1100));
    assert_eq!(state.last_workspace_change, Some(1100));
}

// ---------------------------------------------------------------
// Snapshot retries
// ---------------------------------------------------------------

#[test]
fn test_retry_once_on_empty_after_nonempty() {
    let none: Vec<WindowInfo> = Vec::new();
    // An empty read whose predecessor saw three windows is retried;
    // when the retry is empty too, its predecessor saw none, so it is
    // accepted: exactly one retry.
    assert!(needs_retry(3, &none));
    assert!(!needs_retry(0, &none));
    assert_eq!(retry_delay_ms(0), 20);
    assert_eq!(retry_delay_ms(1), 40);
}

#[test]
fn test_retry_when_no_window_focused() {
    let unfocused = vec![window("AppX", "1", false, 1)];
    assert!(needs_retry(0, &unfocused));
    assert!(needs_retry(5, &unfocused));
    let focused = vec![window("AppX", "1", true, 1)];
    assert!(!needs_retry(0, &focused));
}

#[test]
fn test_focused_query_retried_while_empty() {
    assert!(focused_query_stale(&None));
    let empty = Some(FocusedWorkspaceInfo {
        workspace: String::new(),
        workspace_is_focused: true,
        workspace_is_visible: true,
        display_id: 1,
    });
    assert!(focused_query_stale(&empty));
    let answered = Some(FocusedWorkspaceInfo {
        workspace: "3".to_string(),
        workspace_is_focused: true,
        workspace_is_visible: true,
        display_id: 1,
    });
    assert!(!focused_query_stale(&answered));
}

// ---------------------------------------------------------------
// Snapshot grouping and icons
// ---------------------------------------------------------------

#[test]
fn test_build_workspace_infos_groups_windows() {
    let windows = vec![
        window("Safari", "2", false, 2),
        window("Cursor", "1", true, 1),
        window("Safari", "1", true, 1),
    ];
    let infos = build_workspace_infos(&windows, true, &None);
    assert_eq!(infos.len(), 2);
    assert_eq!(infos[0].id, "1");
    assert_eq!(infos[0].apps, vec!["Cursor".to_string(), "Safari".to_string()]);
    assert!(infos[0].is_focused);
    assert_eq!(infos[0].display_id, 1);
    assert_eq!(infos[0].icons, ":cursor: :safari:");
    assert_eq!(infos[1].id, "2");
    assert!(!infos[1].is_focused);
    assert_eq!(infos[1].display_id, 2);
}

#[test]
fn test_build_workspace_infos_synthesizes_focused_fallback() {
    let windows = vec![window("Safari", "2", false, 2)];
    let fallback = Some(FocusedWorkspaceInfo {
        workspace: "5".to_string(),
        workspace_is_focused: true,
        workspace_is_visible: true,
        display_id: 1,
    });
    let infos = build_workspace_infos(&windows, true, &fallback);
    assert_eq!(infos.len(), 2);
    assert_eq!(infos[0].id, "2");
    assert_eq!(infos[1].id, "5");
    assert!(infos[1].is_focused);
    assert!(infos[1].apps.is_empty());
    assert_eq!(infos[1].display_id, 1);
}

#[test]
fn test_icons_one_per_window() {
    let apps = vec!["Safari".to_string(), "Cursor".to_string()];
    assert_eq!(build_icons(&apps, true), ":safari: :cursor:");
}

#[test]
fn test_icons_one_per_distinct_app_sorted() {
    let apps = vec!["Safari".to_string(), "Safari".to_string(), "Cursor".to_string()];
    assert_eq!(build_icons(&apps, false), ":cursor: :safari:");
    assert_eq!(build_icons(&apps, true), ":safari: :safari: :cursor:");
    // The distinct-app mode sorts the names; window order does not leak.
    let unsorted = vec!["Safari".to_string(), "Cursor".to_string()];
    assert_eq!(build_icons(&unsorted, false), ":cursor: :safari:");
}

#[test]
fn test_get_icon_unknown_app() {
    assert_eq!(get_icon("SomethingElse"), ":default: ");
}

// ---------------------------------------------------------------
// Classification
// ---------------------------------------------------------------

#[test]
fn test_classification_table() {
    assert!(matches!(classify(true, true, true), WorkspaceVisual::ActiveFocused));
    assert!(matches!(classify(true, false, true), WorkspaceVisual::ActiveUnfocused));
    assert!(matches!(classify(false, true, true), WorkspaceVisual::EmptyFocused));
    assert!(matches!(classify(false, false, true), WorkspaceVisual::HiddenEmpty));
    assert!(matches!(classify(false, false, false), WorkspaceVisual::DimEmpty));
}

// ---------------------------------------------------------------
// Diff and render pass
// ---------------------------------------------------------------

#[test]
fn test_clear_set_is_previous_minus_current() {
    let prev = vec!["1".to_string(), "2".to_string(), "3".to_string()];
    let entries = vec![entry("2", &[], "", false, 1)];
    let cleared = workspaces_to_clear(&prev, &entries);
    assert_eq!(cleared, vec!["1".to_string(), "3".to_string()]);
}

#[test]
fn test_single_monitor_pass_directives() {
    let mut state = DaemonState::new(Config::default());
    let entries = vec![
        entry("1", &["AppX"], "X", true, 1),
        entry("2", &[], "", false, 1),
    ];
    let displays = vec![1];
    let batches = render_pass(&mut state, &entries, &displays, true);
    assert_eq!(batches.len(), 1);
    assert_eq!(batches[0].0, 1);
    let expected: Vec<String> = [
        "--set",
        "workspace.1",
        "label=[1]",
        "label.color=0xff1d2021",
        "icon=X",
        "icon.color=0xff1d2021",
        "icon.drawing=on",
        "drawing=on",
        "background.drawing=on",
        "display=1",
        "background.color=0xffbb60cd",
        "--set",
        "workspace.2",
        "drawing=off",
        "display=1",
    ]
    .iter()
    .map(|s| s.to_string())
    .collect();
    assert_eq!(batches[0].1.args, expected);
    assert_eq!(
        state.previous_workspaces,
        vec!["1".to_string(), "2".to_string()]
    );
}

#[test]
fn test_vanished_workspace_cleared_on_every_display_first() {
    let mut state = DaemonState::new(Config::default());
    state.previous_workspaces = vec!["1".to_string(), "9".to_string()];
    let entries = vec![entry("1", &["AppX"], "X", true, 1)];
    let displays = vec![1, 2];
    let batches = render_pass(&mut state, &entries, &displays, true);
    assert_eq!(batches.len(), 2);
    assert_eq!(batches[0].0, 1);
    assert_eq!(batches[1].0, 2);
    assert_eq!(
        &batches[0].1.args[0..4],
        &[
            "--set".to_string(),
            "workspace.9".to_string(),
            "drawing=off".to_string(),
            "display=1".to_string(),
        ]
    );
    assert_eq!(
        batches[1].1.args,
        vec![
            "--set".to_string(),
            "workspace.9".to_string(),
            "drawing=off".to_string(),
            "display=2".to_string(),
        ]
    );
    assert_eq!(state.previous_workspaces, vec!["1".to_string()]);
}

#[test]
fn test_format_workspace_label_brackets() {
    assert_eq!(format_workspace_label("3", true), "[3]");
    assert_eq!(format_workspace_label("3", false), "\u{f444} [3]");
}

#[test]
fn test_focus_update_strips_prefix_and_deduplicates() {
    let mut state = DaemonState::new(Config::default());
    assert!(focus_update(&mut state, "").is_none());
    let batch = focus_update(&mut state, "Microsoft Teams").expect("first update");
    assert_eq!(state.front_app, "Teams");
    assert_eq!(
        batch.args,
        vec![
            "--set".to_string(),
            "front_app".to_string(),
            "icon=\":teams: \"".to_string(),
            "label=\"\u{276f} Teams\"".to_string(),
        ]
    );
    assert!(focus_update(&mut state, "Microsoft Teams").is_none());
}

// ---------------------------------------------------------------
// Display mapper
// ---------------------------------------------------------------

#[test]
fn test_display_mapping_join() {
    let mapper = MonitorMapper::new();
    let os_screens = vec![(1, "Built-in".to_string())];
    let renderer = vec![(7, 1)];
    let monitors = vec![(3, "Built-in".to_string())];
    let mapping = mapper.build_mappings(&os_screens, &renderer, &monitors);
    assert_eq!(mapping, vec![(7, 3)]);
}

#[test]
fn test_display_mapping_falls_back_to_default() {
    let mapper = MonitorMapper::new();
    let os_screens = vec![(1, "Built-in".to_string())];
    let renderer = vec![(7, 2)];
    let monitors = vec![(3, "Built-in".to_string())];
    let mapping = mapper.build_mappings(&os_screens, &renderer, &monitors);
    assert_eq!(mapping, vec![(7, 1)]);
}

#[test]
fn test_mapping_cache_round_trip() {
    let mut mapper = MonitorMapper::new();
    let os_screens = vec![(1, "Built-in".to_string())];
    let renderer = vec![(7, 1)];
    let monitors = vec![(3, "Built-in".to_string())];
    let first = mapper.get_mappings(0, &os_screens, &renderer, &monitors);
    assert_eq!(first, vec![(7, 3)]);
    // Within the TTL the cached mapping answers, whatever the inputs.
    let cached = mapper.get_mappings(1000, &Vec::new(), &Vec::new(), &Vec::new());
    assert_eq!(cached, vec![(7, 3)]);
    mapper.invalidate_cache();
    let rebuilt = mapper.get_mappings(2000, &Vec::new(), &Vec::new(), &Vec::new());
    assert_eq!(rebuilt, Vec::new());
}

#[test]
fn test_parse_delimited_lines() {
    let listing = "1|Built-in Display\n2|DELL U2720Q\nbroken line\n";
    let map = parse_delimited_map(listing);
    assert_eq!(
        map,
        vec![
            (1, "Built-in Display".to_string()),
            (2, "DELL U2720Q".to_string()),
        ]
    );
}

#[test]
fn test_parse_delimited_last_binding_wins() {
    let map = parse_delimited_map("1|A\n1|B");
    assert_eq!(map, vec![(1, "B".to_string())]);
}

// ---------------------------------------------------------------
// Colors
// ---------------------------------------------------------------

#[test]
fn test_parse_color_with_alpha() {
    assert_eq!(parse_color("0xffbb60cd"), Some((0xbb, 0x60, 0xcd)));
    assert_eq!(parse_color("0x123456"), Some((0x12, 0x34, 0x56)));
    assert_eq!(parse_color("123456"), None);
    assert_eq!(parse_color("0x12"), None);
    assert_eq!(parse_color("0xffbb60zz"), None);
}

#[test]
fn test_parse_gradient_stops() {
    let g = parse_gradient("gradient(top_left=0xffbb60cd,bottom_right=0xfffabd2f)");
    assert_eq!(g, Some(((0xbb, 0x60, 0xcd), (0xfa, 0xbd, 0x2f))));
    assert_eq!(parse_gradient("0xffbb60cd"), None);
    assert_eq!(parse_gradient("gradient(top_left=0xffbb60cd)"), None);
}

#[test]
fn test_generate_gradient_endpoints() {
    let steps = generate_gradient((0, 0, 0), (255, 255, 255), 2);
    assert_eq!(steps, vec!["0xff000000".to_string(), "0xffffffff".to_string()]);
    let single = generate_gradient((1, 2, 3), (9, 9, 9), 1);
    assert_eq!(single, vec!["0xff010203".to_string()]);
}

#[test]
fn test_gradient_colors_fall_back_to_background() {
    let mut config = Config::default();
    config.border_active_color = "0xff123456".to_string();
    let colors = get_workspace_gradient_colors(&config);
    assert_eq!(colors.len(), 15);
    assert!(colors.iter().all(|c| c == &config.workspace_bg_color));
}

// ---------------------------------------------------------------
// Widget updates
// ---------------------------------------------------------------

#[test]
fn test_update_battery_directives() {
    let b = items::update_battery("I", "C", "L", 42);
    assert_eq!(
        b.args,
        vec![
            "--set".to_string(),
            "battery".to_string(),
            "icon=I".to_string(),
            "icon.color=C".to_string(),
            "label.color=L".to_string(),
            "label=42%".to_string(),
        ]
    );
}

#[test]
fn test_update_brew_check_mark_when_current() {
    let b = items::update_brew("X", 0, 0);
    assert_eq!(
        b.args,
        vec![
            "--set".to_string(),
            "brew".to_string(),
            "icon=X".to_string(),
            "label=\u{2713}".to_string(),
        ]
    );
    let b2 = items::update_brew("X", 2, 1);
    assert_eq!(b2.args[3], "label=3");
}

#[test]
fn test_update_teams_empty_label_quoted() {
    let b = items::update_teams("T", "C", "B", 0);
    assert_eq!(b.args[5], "label=\"\"");
    let b2 = items::update_teams("T", "C", "B", 7);
    assert_eq!(b2.args[5], "label=7");
    assert_eq!(b2.args[6], "drawing=on");
}

#[test]
fn test_set_quotes_values_with_spaces() {
    let b = items::set_item("item", &[("label", "hello world"), ("icon", "X")]);
    assert_eq!(
        b.args,
        vec![
            "--set".to_string(),
            "item".to_string(),
            "label=\"hello world\"".to_string(),
            "icon=X".to_string(),
        ]
    );
    assert_eq!(b.command_string(), "--set item label=\"hello world\" icon=X");
}

#[test]
fn test_pulse_batches() {
    let b = items::teams_clicked_batch();
    assert_eq!(
        b.args,
        vec![
            "--animate".to_string(),
            "sin".to_string(),
            "15".to_string(),
            "--set".to_string(),
            "teams".to_string(),
            "icon.y_offset=-3".to_string(),
            "--animate".to_string(),
            "sin".to_string(),
            "15".to_string(),
            "--set".to_string(),
            "teams".to_string(),
            "icon.y_offset=0".to_string(),
        ]
    );
    let pulse = items::brew_pulse_batch();
    assert_eq!(pulse.args.len(), 60 * 12);
    let refreshing = items::brew_refreshing_batch();
    assert_eq!(refreshing.args.len(), 4);
}

#[test]
fn test_empty_batch_is_empty() {
    let b = SketchybarBatch::new();
    assert!(b.is_empty());
    assert_eq!(b.command_string(), "");
}

// ---------------------------------------------------------------
// Transport
// ---------------------------------------------------------------

#[test]
fn test_transport_timeout_keeps_cached_port() {
    let mut cache = PortCache::new();
    assert_eq!(cache.cached(), None);
    cache.store(5);
    assert!(cache.settle(SendOutcome::ReplyTimedOut).is_ok());
    assert_eq!(cache.cached(), Some(5));
    assert!(cache.settle(SendOutcome::Delivered).is_ok());
    assert_eq!(cache.cached(), Some(5));
}

#[test]
fn test_transport_error_invalidates_cached_port() {
    let mut cache = PortCache::new();
    cache.store(5);
    let r = cache.settle(SendOutcome::SendFailed);
    assert!(matches!(r, Err(TransportError::Send)));
    assert_eq!(cache.cached(), None);
    cache.store(6);
    let r2 = cache.settle(SendOutcome::ReceiveFailed);
    assert!(matches!(r2, Err(TransportError::Receive)));
    assert_eq!(cache.cached(), None);
    let r3 = cache.settle(SendOutcome::LookupFailed);
    assert!(matches!(r3, Err(TransportError::Lookup)));
    assert_eq!(cache.cached(), None);
}

#[test]
fn test_format_message_collapses_doubled_trailing_null() {
    assert_eq!(format_message("a  "), b"a\0\0");
    assert_eq!(format_message("a "), b"a\0\0");
}

// ---------------------------------------------------------------
// Sensor output parsing
// ---------------------------------------------------------------

#[test]
fn test_parse_battery_output() {
    let discharging = "Now drawing from 'Battery Power'\n -InternalBattery-0 (id=123)  26%; discharging; 3:00 remaining present: true";
    let info = parse_battery(discharging, &None).expect("parses");
    assert_eq!(info.percentage, 26);
    assert!(!info.is_charging);

    let charging = "Now drawing from 'AC Power'\n -InternalBattery-0 (id=123)  100%; charged";
    let info2 = parse_battery(charging, &None).expect("parses");
    assert_eq!(info2.percentage, 100);
    assert!(info2.is_charging);

    let info3 = parse_battery(discharging, &Some("AC".to_string())).expect("parses");
    assert!(info3.is_charging);

    assert!(parse_battery("no percent sign here", &None).is_none());
}

#[test]
fn test_parse_volume_output() {
    let info = parse_volume("80\n", "false\n").expect("parses");
    assert_eq!(info.percentage, 80);
    assert!(!info.muted);
    let muted = parse_volume(" 0 ", "TRUE").expect("parses");
    assert_eq!(muted.percentage, 0);
    assert!(muted.muted);
    assert!(parse_volume("loud", "false").is_none());
}

#[test]
fn test_count_outdated_lines() {
    assert_eq!(count_outdated("pkg1\npkg2\n"), 2);
    assert_eq!(count_outdated(""), 0);
    assert_eq!(count_outdated("\n\n"), 0);
    assert_eq!(count_outdated("one"), 1);
}

#[test]
fn test_parse_badge_count_digits() {
    assert_eq!(parse_badge_count("5\n"), 5);
    assert_eq!(parse_badge_count("(12)"), 12);
    assert_eq!(parse_badge_count("none"), 0);
    assert_eq!(parse_badge_count(""), 0);
    assert_eq!(parse_badge_count("99999999999999999999"), 0);
}

#[test]
fn test_teams_colors() {
    let stopped = TeamsInfo { running: false, notification_count: 0 };
    assert_eq!(stopped.icon_color(), "0xff3c3836");
    let busy = TeamsInfo { running: true, notification_count: 2 };
    assert_eq!(busy.icon_color(), "0xfffabd2f");
    assert_eq!(busy.border_color(), "0xfffabd2f");
    let idle = TeamsInfo { running: true, notification_count: 0 };
    assert_eq!(idle.icon_color(), "0xffffffff");
    assert_eq!(idle.border_color(), "0xff2a2c3a");
}

// ---------------------------------------------------------------
// Event lines
// ---------------------------------------------------------------

#[test]
fn test_parse_event_lines() {
    assert!(matches!(
        parse_event("on-volume-changed 55"),
        Event::VolumeChanged(Some(55))
    ));
    assert!(matches!(
        parse_event("on-volume-changed"),
        Event::VolumeChanged(None)
    ));
    assert!(matches!(parse_event("on-workspace-changed\n"), Event::WorkspaceChanged));
    assert!(matches!(parse_event("on-brew-clicked"), Event::BrewClicked));
    assert!(matches!(parse_event("trigger-teams-refresh"), Event::TeamsRefresh));
    assert!(matches!(
        parse_event("on-display-configuration-changed"),
        Event::DisplayConfigurationChanged
    ));
    match parse_event("on-power-source-changed AC") {
        Event::PowerSourceChanged(Some(src)) => assert_eq!(src, "AC"),
        other => panic!("unexpected event: {:?}", std::mem::discriminant(&other)),
    }
    assert!(matches!(parse_event("on-system-wake"), Event::SystemWake));
    assert!(matches!(parse_event("reload-config"), Event::ConfigReload));
    assert!(matches!(parse_event("bogus line"), Event::Unknown));
    match parse_event("on-focus-changed Safari") {
        Event::FocusChanged(Some(app)) => assert_eq!(app, "Safari"),
        other => panic!("unexpected event: {:?}", std::mem::discriminant(&other)),
    }
}
