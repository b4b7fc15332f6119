//! Exercises the IPC surface: command parsing, durations, the fuzzy
//! trigger lookup, and the response texts.

use stasis::action::{IdleAction, IdleActionBlock};
use stasis::config::{AppInhibitPattern, LidCloseAction, LidOpenAction, StasisConfig};
use stasis::info;
use stasis::ipc::{self, IpcCommand, TriggerDecision};
use stasis::state::{ChassisType, DesktopState, ManagerState};

fn action(name: &str, kind: IdleAction, timeout: u32) -> IdleActionBlock {
    IdleActionBlock {
        name: name.to_string(),
        kind,
        timeout,
        command: format!("run-{name}"),
        lock_command: None,
        resume_command: None,
        notification: None,
        last_triggered: None,
    }
}

fn config(actions: Vec<IdleActionBlock>) -> StasisConfig {
    StasisConfig {
        actions,
        pre_suspend_command: None,
        monitor_media: true,
        ignore_remote_media: true,
        media_blacklist: Vec::new(),
        respect_wayland_inhibitors: true,
        inhibit_apps: Vec::<AppInhibitPattern>::new(),
        debounce_seconds: 0,
        lid_close_action: LidCloseAction::Ignore,
        lid_open_action: LidOpenAction::Ignore,
        notify_before_action: false,
        notify_seconds_before: 0,
    }
}

#[test]
fn wire_commands_parse() {
    assert!(matches!(ipc::parse_command("reload"), IpcCommand::Reload));
    assert!(matches!(ipc::parse_command(" resume \n"), IpcCommand::Resume));
    assert!(matches!(ipc::parse_command("stop"), IpcCommand::Stop));
    assert!(matches!(ipc::parse_command("toggle_inhibit"), IpcCommand::ToggleInhibit));
    assert!(matches!(ipc::parse_command("list_actions"), IpcCommand::ListActions));
    assert!(matches!(ipc::parse_command("info"), IpcCommand::Info { json: false }));
    assert!(matches!(ipc::parse_command("info --json"), IpcCommand::Info { json: true }));
    assert!(matches!(ipc::parse_command("pause"), IpcCommand::Pause));
    assert!(matches!(ipc::parse_command("pause help"), IpcCommand::PauseHelp));
    assert!(matches!(ipc::parse_command("pause -h"), IpcCommand::PauseHelp));
    match ipc::parse_command("pause 1h 30m") {
        IpcCommand::PauseFor(args) => assert_eq!(args, "1h 30m"),
        _ => panic!("expected a timed pause"),
    }
    assert!(matches!(ipc::parse_command("trigger all"), IpcCommand::TriggerAll));
    match ipc::parse_command("trigger lock_screen") {
        IpcCommand::Trigger(name) => assert_eq!(name, "lock_screen"),
        _ => panic!("expected a named trigger"),
    }
    assert!(matches!(ipc::parse_command("trigger  "), IpcCommand::Unknown(_)));
    assert!(matches!(ipc::parse_command("dance"), IpcCommand::Unknown(_)));
}

#[test]
fn durations_parse() {
    assert_eq!(ipc::parse_duration("1h 30m 15s"), Some(5415));
    assert_eq!(ipc::parse_duration("90"), Some(90));
    assert_eq!(ipc::parse_duration("2m"), Some(120));
    assert_eq!(ipc::parse_duration(""), None);
    assert_eq!(ipc::parse_duration("abc"), None);
    assert_eq!(ipc::parse_duration("5x"), None);
    assert_eq!(ipc::parse_duration("10h 5"), Some(36_005));
}

#[test]
fn prefixes_strip() {
    assert_eq!(ipc::strip_action_prefix("ac.dim"), "dim");
    assert_eq!(ipc::strip_action_prefix("battery.lock"), "lock");
    assert_eq!(ipc::strip_action_prefix("dim"), "dim");
}

#[test]
fn trigger_matches_fuzzily() {
    let cfg = config(vec![
        action("dim-screen", IdleAction::Custom, 60),
        action("lock", IdleAction::LockScreen, 120),
    ]);
    let mut st = ManagerState::new(cfg, ChassisType::Desktop(DesktopState), 0);
    match st.trigger_action_by_name("dim_screen", 0) {
        TriggerDecision::Run { action } => assert_eq!(action.name, "dim-screen"),
        _ => panic!("expected the hyphen-insensitive name match"),
    }
    match st.trigger_action_by_name("dimscreen", 0) {
        TriggerDecision::Run { action } => assert_eq!(action.name, "dim-screen"),
        _ => panic!("expected the dehyphenated match"),
    }
    match st.trigger_action_by_name("lock_screen", 0) {
        TriggerDecision::LockBumped { name } => assert_eq!(name, "lock"),
        _ => panic!("expected the kind match to reach the lock"),
    }
    assert!(st.lock_state.is_locked);
}

#[test]
fn trigger_loginctl_lock_runs_only() {
    let mut lock = action("lock", IdleAction::LockScreen, 120);
    lock.command = "loginctl lock-session".to_string();
    let mut st = ManagerState::new(config(vec![lock]), ChassisType::Desktop(DesktopState), 0);
    match st.trigger_action_by_name("lock", 0) {
        TriggerDecision::Loginctl { command } => assert_eq!(command, "loginctl lock-session"),
        _ => panic!("expected the loginctl path"),
    }
    assert!(!st.lock_state.is_locked);
}

#[test]
fn trigger_pre_suspend_and_not_found() {
    let mut cfg = config(vec![action("zeta", IdleAction::Custom, 60), action(
        "alpha",
        IdleAction::Dpms,
        30,
    )]);
    cfg.pre_suspend_command = Some("sync-disks".to_string());
    let mut st = ManagerState::new(cfg, ChassisType::Desktop(DesktopState), 0);
    match st.trigger_action_by_name("pre_suspend", 0) {
        TriggerDecision::PreSuspend { command } => {
            assert_eq!(command, Some("sync-disks".to_string()))
        }
        _ => panic!("expected the pre-suspend path"),
    }
    match st.trigger_action_by_name("nothing-here", 0) {
        TriggerDecision::NotFound { available } => {
            assert_eq!(available, vec![
                "alpha".to_string(),
                "pre_suspend".to_string(),
                "zeta".to_string(),
            ]);
        }
        _ => panic!("expected no match"),
    }
}

#[test]
fn sorting_is_ordered_and_complete() {
    let v = vec!["pear".to_string(), "apple".to_string(), "apple".to_string(), "fig".to_string()];
    let sorted = ipc::sort_strings(v);
    assert_eq!(sorted, vec![
        "apple".to_string(),
        "apple".to_string(),
        "fig".to_string(),
        "pear".to_string(),
    ]);
}

#[test]
fn durations_render() {
    assert_eq!(info::format_duration(0), "0s");
    assert_eq!(info::format_duration(59), "59s");
    assert_eq!(info::format_duration(90), "1m 30s");
    assert_eq!(info::format_duration(5415), "1h 30m 15s");
}

#[test]
fn responses_render() {
    assert_eq!(info::resp_triggered("dim"), "Action 'dim' triggered successfully");
    assert_eq!(
        info::resp_not_found("x", "a, b"),
        "ERROR: Action 'x' not found. Available actions: a, b"
    );
    assert_eq!(info::resp_paused_for(90), "Paused for 1m 30s");
    let names = vec!["a".to_string(), "b".to_string(), "c".to_string()];
    assert_eq!(info::join_comma(&names), "a, b, c");
    assert_eq!(info::join_comma(&Vec::new()), "");
}

#[test]
fn toggle_and_info_json() {
    assert_eq!(
        info::toggle_response(true),
        "{\"text\": \"Active\", \"alt\": \"idle_active\", \"tooltip\": \"Idle inhibition cleared\"}"
    );
    let json = info::info_json(90, 5415, false, false, false, false);
    assert!(json.starts_with("{\"text\": \"Active\", \"alt\": \"idle_active\""));
    assert!(json.contains("Idle time: 1m 30s"));
    assert!(json.contains("Uptime: 1h 30m 15s"));
    let blocked = info::info_json(0, 0, true, false, false, false);
    assert!(blocked.starts_with("{\"text\": \"Blocked\", \"alt\": \"idle_inhibited\""));
    let manual = info::info_json(0, 0, false, true, false, false);
    assert!(manual.starts_with("{\"text\": \"Inhibited\", \"alt\": \"manually_inhibited\""));
}

#[test]
fn report_renders() {
    let mut lock = action("lock", IdleAction::LockScreen, 120);
    lock.lock_command = Some("swaylock".to_string());
    let cfg = config(vec![action("ac.dim", IdleAction::Custom, 60), lock]);
    let report = cfg.pretty_print(Some(90), Some(5415), Some(false), Some(false));
    assert!(report.starts_with("Status:\n"));
    assert!(report.contains("  IdleTime           = 1m 30s\n"));
    assert!(report.contains("  Uptime             = 1h 30m 15s\n"));
    assert!(report.contains("\nConfig:\n"));
    assert!(report.contains("  DebounceSeconds    = 0\n"));
    assert!(report.contains("  LidCloseAction     = ignore\n"));
    assert!(report.contains("  LidOpenAction      = ignore\n"));
    assert!(report.contains("  InhibitApps        = -\n"));
    assert!(report.contains("  [AC]\n"));
    assert!(report.contains("  [Desktop]\n"));
    assert!(report.contains("    dim                  Timeout=60 Kind=Custom Command=\"run-ac.dim\"\n"));
    assert!(report.contains("LockCommand=\"swaylock\""));
}
