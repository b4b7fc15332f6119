//! Exercises the adapter decisions: media players, application
//! inhibition, power supplies, sessions, processes, logging and the
//! bridge parser — with the real outside crates behind the wrappers.

use stasis::app_inhibit;
use stasis::config::AppInhibitPattern;
use stasis::json;
use stasis::lock;
use stasis::logging::{self, LogLevel};
use stasis::media::{check_media_playing, PlayerSnapshot};
use stasis::power::{self, PowerSupplyEntry, WaylandInhibitors};
use stasis::process;
use stasis::session::{choose_session, SessionEntry};

fn player(identity: &str, bus: &str, playing: bool) -> PlayerSnapshot {
    PlayerSnapshot { identity: identity.to_string(), bus_name: bus.to_string(), playing }
}

#[test]
fn media_local_player_counts() {
    let players = vec![player("mpv Media Player", "org.mpris.MediaPlayer2.mpv", true)];
    assert!(check_media_playing(&players, true, &Vec::new(), false, false, false, false));
}

#[test]
fn media_blacklist_wins() {
    let players = vec![player("Firefox", "org.mpris.MediaPlayer2.firefox", true)];
    let blacklist = vec!["firefox".to_string()];
    assert!(!check_media_playing(&players, true, &blacklist, false, false, false, false));
}

#[test]
fn media_remote_needs_running_sink() {
    let players = vec![player("Phone Remote", "org.mpris.MediaPlayer2.kdeconnect", true)];
    // Remote media ignored: audio alone is not enough without a sink.
    assert!(!check_media_playing(&players, true, &Vec::new(), true, false, true, false));
    assert!(check_media_playing(&players, true, &Vec::new(), true, false, true, true));
    // Remote media respected: audio suffices.
    assert!(check_media_playing(&players, false, &Vec::new(), true, false, true, false));
}

#[test]
fn media_silent_players_do_not_count() {
    let players = vec![player("mpv", "org.mpris.MediaPlayer2.mpv", false)];
    assert!(!check_media_playing(&players, false, &Vec::new(), false, true, true, true));
}

#[test]
fn media_skip_firefox_when_bridged() {
    let players = vec![player("Mozilla Firefox", "org.mpris.MediaPlayer2.firefox", true)];
    assert!(!check_media_playing(&players, false, &Vec::new(), true, true, false, false));
}

#[test]
fn app_patterns_match() {
    assert!(app_inhibit::app_id_matches("Steam", "steam"));
    assert!(app_inhibit::app_id_matches("game", "Game.exe"));
    assert!(app_inhibit::app_id_matches("com.example.Player", "player"));
    assert!(!app_inhibit::app_id_matches("steam", "stream"));
    let patterns = vec![
        AppInhibitPattern::Literal("steam".to_string()),
        AppInhibitPattern::Regex("^obs.*".to_string()),
    ];
    assert!(app_inhibit::should_inhibit_for_app(&patterns, "Steam"));
    assert!(app_inhibit::should_inhibit_for_app(&patterns, "obs-studio"));
    assert!(!app_inhibit::should_inhibit_for_app(&patterns, "editor"));
    assert!(app_inhibit::should_inhibit_for_process(&patterns, "obs"));
    assert!(!app_inhibit::should_inhibit_for_process(&patterns, "xobs"));
    let ids = vec!["Steam".to_string(), "editor".to_string(), "obs-live".to_string()];
    let matched = app_inhibit::matching_app_ids(&patterns, &ids);
    assert_eq!(matched, vec!["Steam".to_string(), "obs-live".to_string()]);
}

#[test]
fn invalid_regex_matches_nothing() {
    let patterns = vec![AppInhibitPattern::Regex("(".to_string())];
    assert!(!app_inhibit::should_inhibit_for_app(&patterns, "anything"));
}

#[test]
fn pattern_classification() {
    assert!(matches!(
        stasis::config::parse_app_pattern("steam"),
        AppInhibitPattern::Literal(_)
    ));
    assert!(matches!(
        stasis::config::parse_app_pattern("obs.*"),
        AppInhibitPattern::Regex(_)
    ));
}

#[test]
fn niri_listing_parses() {
    let out = "Window 1\n  App ID: \"firefox\"\nWindow 2\n  App ID: \"steam\"\n";
    assert_eq!(app_inhibit::parse_niri_windows(out), vec![
        "firefox".to_string(),
        "steam".to_string(),
    ]);
}

#[test]
fn hyprland_listing_parses() {
    let out = "[{\"app_id\": \"firefox\"}, {\"class\": \"Steam\"}, {\"pid\": 1}]";
    assert_eq!(
        json::parse_hyprland_clients(out),
        Some(vec!["firefox".to_string(), "Steam".to_string()])
    );
    assert_eq!(json::parse_hyprland_clients("not json"), None);
}

#[test]
fn bridge_status_parses() {
    let reply = "{\"playing\": true, \"tab_count\": 2, \"playing_tabs\": [3, 9]}";
    let st = json::parse_bridge_status(reply).expect("valid reply");
    assert!(st.playing);
    assert_eq!(st.tab_count, 2);
    assert_eq!(st.playing_tabs, vec![3, 9]);
    assert!(json::parse_bridge_status("garbage").is_none());
    let partial = json::parse_bridge_status("{}").expect("an empty object still parses");
    assert!(!partial.playing);
    assert_eq!(partial.tab_count, 0);
}

#[test]
fn power_supply_detection() {
    let entry = |name: &str, t: Option<&str>, online: Option<&str>| PowerSupplyEntry {
        name: name.to_string(),
        type_content: t.map(|s| s.to_string()),
        online_content: online.map(|s| s.to_string()),
    };
    assert!(power::is_on_ac_power(&vec![entry("AC0", Some("Mains\n"), Some("1\n"))]));
    assert!(power::is_on_ac_power(&vec![entry("ADP1", None, Some("1"))]));
    assert!(!power::is_on_ac_power(&vec![entry("BAT0", Some("Battery"), Some("1"))]));
    assert!(!power::is_on_ac_power(&vec![entry("AC", Some("Mains"), Some("0"))]));
    assert!(!power::is_on_ac_power(&Vec::new()));
}

#[test]
fn wayland_inhibitors_count() {
    let mut w = WaylandInhibitors::new(true);
    assert!(!w.is_inhibited());
    w.inhibitor_created();
    assert!(w.is_inhibited());
    w.inhibitor_removed();
    w.inhibitor_removed();
    assert!(!w.is_inhibited());
    let mut ignored = WaylandInhibitors::new(false);
    ignored.inhibitor_created();
    assert!(!ignored.is_inhibited());
}

#[test]
fn session_selection() {
    let entry = |id: &str, uid: u32, seat: &str, t: Option<&str>| SessionEntry {
        session_id: id.to_string(),
        uid,
        username: "user".to_string(),
        seat: seat.to_string(),
        path: format!("/org/freedesktop/login1/session/{id}"),
        session_type: t.map(|s| s.to_string()),
    };
    let sessions = vec![
        entry("1", 1000, "seat0", Some("tty")),
        entry("2", 1001, "seat0", Some("wayland")),
        entry("3", 1000, "seat0", Some("wayland")),
    ];
    assert_eq!(choose_session(&sessions, 1000), Some(2));
    let no_graphical = vec![entry("1", 1000, "seat0", Some("tty"))];
    assert_eq!(choose_session(&no_graphical, 1000), Some(0));
    assert_eq!(choose_session(&no_graphical, 42), None);
}

#[test]
fn process_probes() {
    assert_eq!(
        process::extract_expected_process_name("/usr/bin/swaylock -f --color 000"),
        Some("swaylock".to_string())
    );
    assert_eq!(process::extract_expected_process_name("   "), None);
    let stat = "1234 (sh) S 1 4321 4321 0 -1";
    assert_eq!(process::parse_pgid_from_stat(stat), Some(4321));
    assert_eq!(process::parse_pgid_from_stat("1234 (sh)"), None);
    let ps = "  PID  PGID\n 10 4321\n 11 9999\n";
    assert!(process::ps_lists_group(ps, 4321));
    assert!(!process::ps_lists_group(ps, 7));
    assert!(process::parse_locked_hint("b true\n"));
    assert!(!process::parse_locked_hint("b false"));
    assert!(process::process_active_given(false, false, Some(true)));
    assert!(!process::process_active_given(false, false, Some(false)));
    assert!(process::process_active_given(true, false, None));
}

#[test]
fn lock_probe_priority() {
    assert!(lock::lock_still_active(Some(true), false, false, false, false));
    assert!(!lock::lock_still_active(Some(false), true, false, false, false));
    assert!(lock::lock_still_active(None, true, true, false, false));
    assert!(!lock::lock_still_active(None, false, false, true, false));
    assert!(lock::lock_still_active(None, false, false, false, false));
}

#[test]
fn prepare_action_decisions() {
    let lock = stasis::action::IdleActionBlock {
        name: "lock".to_string(),
        kind: stasis::action::IdleAction::LockScreen,
        timeout: 120,
        command: "swaylock -f".to_string(),
        lock_command: Some("swaylock".to_string()),
        resume_command: None,
        notification: None,
        last_triggered: None,
    };
    let skipped = process::prepare_action(&lock, Some(true), false);
    assert!(matches!(&skipped[0], process::ActionRequest::Skip(c) if c == "swaylock"));
    let run = process::prepare_action(&lock, Some(false), false);
    assert!(matches!(&run[0], process::ActionRequest::RunCommand(c) if c == "swaylock -f"));
    let probe_hit = process::prepare_action(&lock, None, true);
    assert!(matches!(&probe_hit[0], process::ActionRequest::Skip(_)));
    let blank = stasis::action::IdleActionBlock {
        name: "noop".to_string(),
        kind: stasis::action::IdleAction::Custom,
        timeout: 10,
        command: "   ".to_string(),
        lock_command: None,
        resume_command: None,
        notification: None,
        last_triggered: None,
    };
    assert!(process::prepare_action(&blank, None, false).is_empty());
}

#[test]
fn logging_rules() {
    let mut cfg = logging::Config::default();
    let out = logging::log_message(&cfg, "2024-01-01 10:00:00", "started");
    assert_eq!(out.file_line.as_deref(), Some("[2024-01-01 10:00:00][Stasis] started"));
    assert!(out.console_line.is_none());
    let debug = logging::log_debug_message(&cfg, "t", "hidden");
    assert!(debug.file_line.is_none());
    logging::set_verbose(&mut cfg, true);
    assert_eq!(cfg.level, LogLevel::Debug);
    let debug = logging::log_dbus_message(&cfg, "t", "visible");
    assert_eq!(debug.file_line.as_deref(), Some("[t][D-Bus] visible"));
    assert!(debug.console_line.is_some());
    let err = logging::log_error_message(&cfg, "t", "boom");
    assert!(err.console_is_error);
    logging::set_log_level(&mut cfg, LogLevel::Info);
    assert_eq!(cfg.level, LogLevel::Info);
    assert!(logging::should_rotate(50 * 1024 * 1024));
    assert!(!logging::should_rotate(1024));
}

#[test]
fn special_keys_recognised() {
    assert!(stasis::config::is_special_key("debounce-seconds"));
    assert!(stasis::config::is_special_key("media_blacklist"));
    assert!(!stasis::config::is_special_key("lock_screen"));
}
