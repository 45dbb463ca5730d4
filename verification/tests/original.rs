use sketchybartender::config::Config;
use sketchybartender::monitor_map::{CacheEntry, MonitorMapper};
use sketchybartender::providers::{BatteryInfo, VolumeInfo};
use sketchybartender::snapshot::WorkspaceInfo;
use sketchybartender::transport::format_message;

#[test]
fn test_workspace_infos_structure() {
    // This test verifies the structure without requiring the window manager
    let mut info = WorkspaceInfo::default();
    info.id = "1".to_string();
    info.apps = vec!["Safari".to_string(), "Cursor".to_string()];
    info.icons = ":safari: :cursor:".to_string();
    info.is_focused = true;

    assert_eq!(info.apps.len(), 2);
    assert!(info.is_focused);
}

#[test]
fn test_default_config() {
    let config = Config::default();
    assert_eq!(config.clock_interval, 15);
    assert_eq!(config.battery_interval, 120);
    assert_eq!(config.brew_interval, 3600);
    assert_eq!(config.teams_interval, 30);
}

#[test]
fn test_format_message() {
    let msg = format_message("--set item label=\"hello world\"");
    // Should convert to: --set\0item\0label=hello world\0
    assert_eq!(msg, b"--set\0item\0label=hello world\0");
}

#[test]
fn test_format_message_single_quotes() {
    let msg = format_message("--set item label='hello world'");
    assert_eq!(msg, b"--set\0item\0label=hello world\0");
}

#[test]
fn test_format_message_no_quotes() {
    let msg = format_message("--set item icon=X");
    assert_eq!(msg, b"--set\0item\0icon=X\0");
}

#[test]
fn test_cache_expiration() {
    // Created 400 seconds ago with a 300 second time-to-live.
    let entry = CacheEntry {
        mappings: Vec::new(),
        created_at_ms: 0,
    };
    assert!(entry.is_expired(300 * 1000, 400 * 1000));
}

#[test]
fn test_cache_not_expired() {
    // Created just now with a 300 second time-to-live.
    let entry = CacheEntry {
        mappings: Vec::new(),
        created_at_ms: 400 * 1000,
    };
    assert!(!entry.is_expired(300 * 1000, 400 * 1000));
}

#[test]
fn test_json_number_extraction() {
    let mapper = MonitorMapper::new();
    let json = "{\"arrangement-id\": 1, \"DirectDisplayID\": 3}";
    assert_eq!(mapper.extract_json_number(json, "arrangement-id"), Some(1));
    assert_eq!(mapper.extract_json_number(json, "DirectDisplayID"), Some(3));
}

#[test]
fn test_sketchybar_map_parsing() {
    // Simulate actual renderer JSON output format (multi-line)
    let json = "[\n\t{\n\t\t\"arrangement-id\":1,\n\t\t\"DirectDisplayID\":3,\n\t\t\"UUID\":\"test1\"\n\t},\n\t{\n\t\t\"arrangement-id\":2,\n\t\t\"DirectDisplayID\":2,\n\t\t\"UUID\":\"test2\"\n\t}\n]";
    let map = sketchybartender::monitor_map::parse_display_query(json);

    let get = |k: u32| map.iter().find(|p| p.0 == k).map(|p| p.1);
    assert_eq!(get(1), Some(3));
    assert_eq!(get(2), Some(2));
    assert_eq!(map.len(), 2);
}

#[test]
fn test_battery_icons() {
    let high = BatteryInfo {
        percentage: 95,
        is_charging: false,
    };
    assert_eq!(high.icon(), "\u{f12a3}");

    let is_charging = BatteryInfo {
        percentage: 50,
        is_charging: true,
    };
    assert_eq!(is_charging.icon(), "\u{f0e7}"); // nf-fa-bolt

    let low = BatteryInfo {
        percentage: 5,
        is_charging: false,
    };
    assert_eq!(low.icon(), "\u{f008e}");
}

#[test]
fn test_volume_icons() {
    let high = VolumeInfo {
        percentage: 80,
        muted: false,
    };
    assert_eq!(high.icon(), "\u{f240}");

    let muted = VolumeInfo {
        percentage: 80,
        muted: true,
    };
    assert_eq!(muted.icon(), "\u{f0581}");

    let zero = VolumeInfo {
        percentage: 0,
        muted: false,
    };
    assert_eq!(zero.icon(), "\u{f244}");
}

#[test]
fn test_clock() {
    let clock = sketchybartender::clock::get_clock();
    assert!(clock.contains('/'));
    assert!(clock.contains(':'));
}
