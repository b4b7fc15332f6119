//! Drives the staged scheduler through the core timing scenarios.

use stasis::action::{IdleAction, IdleActionBlock};
use stasis::config::{AppInhibitPattern, LidCloseAction, LidOpenAction, StasisConfig};
use stasis::manager::CheckOutcome;
use stasis::state::{ChassisType, DesktopState, LaptopState, ManagerState};

fn action(name: &str, kind: IdleAction, timeout: u32) -> IdleActionBlock {
    IdleActionBlock {
        name: name.to_string(),
        kind,
        timeout,
        command: format!("run-{name}"),
        lock_command: None,
        resume_command: None,
        notification: None,
        last_triggered: None,
    }
}

fn config(actions: Vec<IdleActionBlock>) -> StasisConfig {
    StasisConfig {
        actions,
        pre_suspend_command: None,
        monitor_media: true,
        ignore_remote_media: true,
        media_blacklist: Vec::new(),
        respect_wayland_inhibitors: true,
        inhibit_apps: Vec::<AppInhibitPattern>::new(),
        debounce_seconds: 0,
        lid_close_action: LidCloseAction::Ignore,
        lid_open_action: LidOpenAction::Ignore,
        notify_before_action: false,
        notify_seconds_before: 0,
    }
}

fn prewarn_config() -> StasisConfig {
    let mut dim = action("dim", IdleAction::Custom, 60);
    dim.notification = Some("Dimming".to_string());
    let lock = action("lock", IdleAction::LockScreen, 120);
    let mut cfg = config(vec![dim, lock]);
    cfg.notify_before_action = true;
    cfg.notify_seconds_before = 5;
    cfg
}

/// The linear fire sequence with a pre-warn: wake at 60 s, notification
/// at 60 s, the action five seconds later, the lock at 185 s.
#[test]
fn linear_fire_with_notification() {
    let mut st = ManagerState::new(prewarn_config(), ChassisType::Desktop(DesktopState), 0);
    st.handle_event(stasis::events::Event::InputActivity, 0, true);
    assert_eq!(st.next_action_instant(), Some(60_000));
    assert!(matches!(st.check_timeouts(59_999), CheckOutcome::NotYet));
    match st.check_timeouts(60_000) {
        CheckOutcome::Notify { message, action_name, fire_at } => {
            assert_eq!(message, "Dimming");
            assert_eq!(action_name, "dim");
            assert_eq!(fire_at, 65_000);
        }
        _ => panic!("expected the pre-warn"),
    }
    assert!(matches!(st.check_timeouts(64_000), CheckOutcome::AwaitingNotification));
    match st.check_timeouts(65_000) {
        CheckOutcome::Fire { action } => assert_eq!(action.name, "dim"),
        _ => panic!("expected the dim stage to fire"),
    }
    // The wake computation spans every stage, so the fired dim stage's
    // own refire instant (65 s + 60 s) still bounds the next wake; the
    // lock stage counts 120 s from the dim trigger and fires at 185 s.
    assert_eq!(st.next_action_instant(), Some(125_000));
    assert!(matches!(st.check_timeouts(184_999), CheckOutcome::NotYet));
    match st.check_timeouts(185_000) {
        CheckOutcome::Fire { action } => assert_eq!(action.name, "lock"),
        _ => panic!("expected the lock stage to fire"),
    }
}

/// Activity during the pre-warn cancels the fire and restarts the
/// timeline at the activity instant.
#[test]
fn activity_during_prewarn_cancels() {
    let mut st = ManagerState::new(prewarn_config(), ChassisType::Desktop(DesktopState), 0);
    st.handle_event(stasis::events::Event::InputActivity, 0, true);
    assert!(matches!(st.check_timeouts(60_000), CheckOutcome::Notify { .. }));
    st.handle_event(stasis::events::Event::InputActivity, 62_000, true);
    assert_eq!(st.queue.action_index, 0);
    assert!(st.queue.notification_sent_for_action.is_none());
    assert_eq!(st.next_action_instant(), Some(122_000));
    assert!(matches!(st.check_timeouts(121_000), CheckOutcome::NotYet));
    // The pre-warn state was cleared with the stamps, so the dim stage
    // pre-warns again at its new fire instant and runs five seconds on.
    match st.check_timeouts(122_000) {
        CheckOutcome::Notify { fire_at, .. } => assert_eq!(fire_at, 127_000),
        _ => panic!("expected the pre-warn to return after the reset"),
    }
    match st.check_timeouts(127_000) {
        CheckOutcome::Fire { action } => assert_eq!(action.name, "dim"),
        _ => panic!("expected the dim stage to fire after the reset"),
    }
}

/// A stage that fired at `t` does not fire again before `t` plus its
/// timeout when no reset intervenes.
#[test]
fn no_refire_before_timeout() {
    let cfg = config(vec![action("dim", IdleAction::Custom, 60)]);
    let mut st = ManagerState::new(cfg, ChassisType::Desktop(DesktopState), 0);
    match st.check_timeouts(60_000) {
        CheckOutcome::Fire { .. } => {}
        _ => panic!("expected the stage to fire"),
    }
    assert!(matches!(st.check_timeouts(100_000), CheckOutcome::NotYet));
    assert!(matches!(st.check_timeouts(120_000), CheckOutcome::Fire { .. }));
}

/// The lock stage never fires from the staged path while locked.
#[test]
fn lock_stage_skipped_while_locked() {
    let cfg = config(vec![action("lock", IdleAction::LockScreen, 30)]);
    let mut st = ManagerState::new(cfg, ChassisType::Desktop(DesktopState), 0);
    st.update_lock_state(true);
    assert!(matches!(st.check_timeouts(1_000_000), CheckOutcome::LockSkipped));
    assert_eq!(st.next_action_instant(), None);
}

/// The cursor stays clamped on the last stage after it fires.
#[test]
fn index_clamped_at_last_stage() {
    let cfg = config(vec![
        action("dim", IdleAction::Custom, 10),
        action("off", IdleAction::Dpms, 10),
    ]);
    let mut st = ManagerState::new(cfg, ChassisType::Desktop(DesktopState), 0);
    assert!(matches!(st.check_timeouts(10_000), CheckOutcome::Fire { .. }));
    assert_eq!(st.queue.action_index, 1);
    assert!(matches!(st.check_timeouts(20_000), CheckOutcome::Fire { .. }));
    assert_eq!(st.queue.action_index, 1);
    assert!(matches!(st.check_timeouts(30_000), CheckOutcome::Fire { .. }));
    assert_eq!(st.queue.action_index, 1);
}

/// Instant actions never enter the staged timeline: they fire only
/// through the instants path, once per arming.
#[test]
fn instants_stay_out_of_staging() {
    let cfg = config(vec![action("banner", IdleAction::Custom, 0)]);
    let mut st = ManagerState::new(cfg, ChassisType::Desktop(DesktopState), 0);
    assert_eq!(st.next_action_instant(), None);
    assert!(matches!(st.check_timeouts(1_000_000), CheckOutcome::InstantSkipped));
    let first = st.trigger_instant_actions();
    assert_eq!(first.len(), 1);
    assert_eq!(first[0].name, "banner");
    let second = st.trigger_instant_actions();
    assert!(second.is_empty());
    st.reset_instant_actions();
    assert_eq!(st.trigger_instant_actions().len(), 1);
}

/// With a zero debounce, the first stage fires exactly one timeout
/// after the activity instant.
#[test]
fn zero_debounce_first_stage() {
    let cfg = config(vec![action("dim", IdleAction::Custom, 60)]);
    let mut st = ManagerState::new(cfg, ChassisType::Desktop(DesktopState), 0);
    st.handle_event(stasis::events::Event::InputActivity, 10_000, true);
    assert_eq!(st.debounce, Some(10_000));
    assert_eq!(st.next_action_instant(), Some(70_000));
}

/// A non-zero debounce anchors the first stage at the debounce end.
#[test]
fn debounce_delays_first_stage() {
    let mut cfg = config(vec![action("dim", IdleAction::Custom, 60)]);
    cfg.debounce_seconds = 5;
    let mut st = ManagerState::new(cfg, ChassisType::Desktop(DesktopState), 0);
    st.handle_event(stasis::events::Event::InputActivity, 10_000, true);
    assert_eq!(st.debounce, Some(15_000));
    assert_eq!(st.next_action_instant(), Some(75_000));
}

/// The AC/battery edge re-arms the instants and switches the block.
#[test]
fn power_edge_switches_block() {
    let cfg = config(vec![
        action("ac.dim", IdleAction::Custom, 30),
        action("battery.dim", IdleAction::Custom, 15),
    ]);
    let laptop = ChassisType::Laptop(LaptopState { on_battery: false });
    let mut st = ManagerState::new(cfg, laptop, 0);
    assert_eq!(st.queue.current_block, stasis::queue::BlockKind::Ac);
    assert!(matches!(st.check_timeouts(35_000), CheckOutcome::Fire { .. }));
    let out = st.handle_event(stasis::events::Event::ACDisconnected, 40_000, true);
    assert!(out.wake_scheduler);
    assert_eq!(st.queue.current_block, stasis::queue::BlockKind::Battery);
    assert_eq!(st.queue.action_index, 0);
    assert!(st.queue.instants_triggered);
    assert_eq!(st.on_battery(), Some(true));
}

/// `trigger all` stamps every stage and parks the cursor on the last.
#[test]
fn trigger_all_stamps_and_clamps() {
    let cfg = config(vec![
        action("dim", IdleAction::Custom, 10),
        action("off", IdleAction::Dpms, 20),
    ]);
    let mut st = ManagerState::new(cfg, ChassisType::Desktop(DesktopState), 0);
    let to_run = st.trigger_all_idle_actions(50_000);
    assert_eq!(to_run.len(), 2);
    assert_eq!(st.queue.action_index, 1);
    for a in st.get_active_actions().iter() {
        assert_eq!(a.last_triggered, Some(50_000));
    }
    st.handle_event(stasis::events::Event::InputActivity, 60_000, true);
    assert_eq!(st.queue.action_index, 0);
    for a in st.get_active_actions().iter() {
        assert_eq!(a.last_triggered, None);
    }
}

/// The sleep deadline rule: periodic cap, past-due floor, exact wake.
#[test]
fn sleep_deadline_rule() {
    assert_eq!(stasis::scheduler::compute_sleep_deadline(None, 1_000), 61_000);
    assert_eq!(stasis::scheduler::compute_sleep_deadline(Some(500), 1_000), 1_050);
    assert_eq!(stasis::scheduler::compute_sleep_deadline(Some(90_000), 1_000), 61_000);
    assert_eq!(stasis::scheduler::compute_sleep_deadline(Some(30_000), 1_000), 30_000);
}
