//! Exercises the pause discipline, the resume queue, and the media and
//! lock lifecycles.

use stasis::action::{IdleAction, IdleActionBlock};
use stasis::config::{AppInhibitPattern, LidCloseAction, LidOpenAction, StasisConfig};
use stasis::events::Event;
use stasis::manager::CheckOutcome;
use stasis::media::MediaBridgeState;
use stasis::state::{ChassisType, DesktopState, ManagerState};

fn action(name: &str, kind: IdleAction, timeout: u32) -> IdleActionBlock {
    IdleActionBlock {
        name: name.to_string(),
        kind,
        timeout,
        command: format!("run-{name}"),
        lock_command: None,
        resume_command: None,
        notification: None,
        last_triggered: None,
    }
}

fn config(actions: Vec<IdleActionBlock>) -> StasisConfig {
    StasisConfig {
        actions,
        pre_suspend_command: None,
        monitor_media: true,
        ignore_remote_media: true,
        media_blacklist: Vec::new(),
        respect_wayland_inhibitors: true,
        inhibit_apps: Vec::<AppInhibitPattern>::new(),
        debounce_seconds: 0,
        lid_close_action: LidCloseAction::Ignore,
        lid_open_action: LidOpenAction::Ignore,
        notify_before_action: false,
        notify_seconds_before: 0,
    }
}

fn pause_consistent(st: &ManagerState) -> bool {
    st.paused == (st.active_inhibitor_count > 0 || st.manually_paused)
}

/// The pause flag always equals "inhibitors active or manually paused",
/// across an arbitrary event mix.
#[test]
fn pause_discipline_invariant() {
    let cfg = config(vec![action("dim", IdleAction::Custom, 60)]);
    let mut st = ManagerState::new(cfg, ChassisType::Desktop(DesktopState), 0);
    assert!(pause_consistent(&st));
    let events = [
        Event::MediaPlaybackActive,
        Event::Suspend,
        Event::InputActivity,
        Event::Resume,
        Event::MediaPlaybackEnded,
        Event::Wake,
        Event::LoginctlUnlock,
    ];
    let mut now = 0u64;
    for e in events {
        now += 1_000;
        st.handle_event(e, now, true);
        assert!(pause_consistent(&st));
        assert!(st.queue.action_index == 0 || st.queue.action_index < st.get_active_actions().len());
    }
    assert_eq!(st.active_inhibitor_count, 0);
    assert!(!st.paused);
}

/// A manual pause then a manual resume restores the starting state.
#[test]
fn manual_pause_roundtrip() {
    let cfg = config(vec![action("dim", IdleAction::Custom, 60)]);
    let mut st = ManagerState::new(cfg, ChassisType::Desktop(DesktopState), 0);
    st.pause(true);
    assert!(st.paused && st.manually_paused);
    assert_eq!(st.next_action_instant(), None);
    st.resume(true, 0, true);
    assert!(!st.paused && !st.manually_paused);
    assert_eq!(st.next_action_instant(), Some(60_000));
}

/// A manual resume while inhibitors remain keeps the timers gated.
#[test]
fn manual_resume_respects_inhibitors() {
    let cfg = config(vec![action("dim", IdleAction::Custom, 60)]);
    let mut st = ManagerState::new(cfg, ChassisType::Desktop(DesktopState), 0);
    st.incr_active_inhibitor();
    st.pause(true);
    st.resume(true, 0, true);
    assert!(!st.manually_paused);
    assert!(st.paused);
    st.decr_active_inhibitor(0, true);
    assert!(!st.paused);
}

/// A release with no inhibitor registered changes nothing.
#[test]
fn spurious_release_is_ignored() {
    let cfg = config(vec![action("dim", IdleAction::Custom, 60)]);
    let mut st = ManagerState::new(cfg, ChassisType::Desktop(DesktopState), 0);
    let out = st.decr_active_inhibitor(5_000, true);
    assert!(out.is_none());
    assert_eq!(st.active_inhibitor_count, 0);
    assert!(!st.paused);
}

/// Every fired non-lock action with a resume command enters the resume
/// queue exactly once, and the drain returns it exactly once.
#[test]
fn resume_queue_exactly_once() {
    let mut dim = action("dim", IdleAction::Custom, 10);
    dim.resume_command = Some("undim".to_string());
    let mut st = ManagerState::new(config(vec![dim]), ChassisType::Desktop(DesktopState), 0);
    assert!(matches!(st.check_timeouts(10_000), CheckOutcome::Fire { .. }));
    assert_eq!(st.queue.resume_queue.len(), 1);
    st.incr_active_inhibitor();
    let out = st.decr_active_inhibitor(20_000, true).expect("the last release resumes");
    let count = out.resume_commands.iter().filter(|c| c.as_str() == "undim").count();
    assert_eq!(count, 1);
    assert_eq!(st.queue.resume_queue.len(), 0);
}

/// The media handoff: MPRIS playing pauses, tabs count per inhibitor,
/// and the last stop resumes.
#[test]
fn media_handoff_counts() {
    let cfg = config(vec![action("dim", IdleAction::Custom, 60)]);
    let mut st = ManagerState::new(cfg, ChassisType::Desktop(DesktopState), 0);
    st.recheck_media(true, 0, true);
    assert!(st.paused && st.media_playing);
    assert_eq!(st.active_inhibitor_count, 1);
    // The bridge takes over: the MPRIS inhibitor leaves first.
    st.recheck_media(false, 1_000, true);
    assert!(!st.paused);
    st.media_bridge.activate();
    let (added, removed) = st.media_bridge.update_playing_state(2);
    assert_eq!((added, removed), (2, 0));
    for _ in 0..added {
        st.incr_active_inhibitor();
    }
    assert_eq!(st.active_inhibitor_count, 2);
    let (added, removed) = st.media_bridge.update_playing_state(1);
    assert_eq!((added, removed), (0, 1));
    for _ in 0..removed {
        st.decr_active_inhibitor(2_000, true);
    }
    assert!(st.paused);
    let (_, removed) = st.media_bridge.update_playing_state(0);
    assert_eq!(removed, 1);
    for _ in 0..removed {
        st.decr_active_inhibitor(3_000, true);
    }
    assert!(!st.paused);
    assert!(!st.media_bridge.browser_playing);
}

/// The loginctl lock path marks the session locked, remembers the lock
/// command, and the unlock hands back the resume command.
#[test]
fn loginctl_lock_then_unlock() {
    let mut lock = action("lock", IdleAction::LockScreen, 120);
    lock.lock_command = Some("swaylock -f".to_string());
    lock.resume_command = Some("wake-screens".to_string());
    let mut st = ManagerState::new(config(vec![lock]), ChassisType::Desktop(DesktopState), 0);
    let out = st.handle_event(Event::LoginctlLock, 5_000, true);
    assert!(st.lock_state.is_locked);
    assert!(st.lock_state.post_advanced);
    assert!(out.wake_lock_watcher);
    assert_eq!(out.run_lock_command, Some("swaylock -f".to_string()));
    // A second lock signal while locked changes nothing.
    let out2 = st.handle_event(Event::LoginctlLock, 6_000, true);
    assert!(out2.run_lock_command.is_none());
    let resume = st.handle_unlock();
    assert_eq!(resume, Some("wake-screens".to_string()));
    assert!(!st.lock_state.is_locked);
    assert!(!st.lock_state.post_advanced);
    assert_eq!(st.queue.action_index, 0);
}

/// While locked, an activity reset preserves post-lock stamps and bumps
/// the cursor past a live lock stage, anchored at the debounce end.
#[test]
fn reset_while_locked_bumps_past_lock() {
    let mut cfg = config(vec![
        action("dim", IdleAction::Custom, 10),
        action("lock", IdleAction::LockScreen, 20),
        action("off", IdleAction::Dpms, 30),
    ]);
    cfg.debounce_seconds = 2;
    let mut st = ManagerState::new(cfg, ChassisType::Desktop(DesktopState), 0);
    st.update_lock_state(true);
    st.handle_event(Event::InputActivity, 100_000, true);
    assert_eq!(st.queue.action_index, 2);
    assert!(st.lock_state.post_advanced);
    let acts = st.get_active_actions();
    assert_eq!(acts[2].last_triggered, Some(102_000));
    assert_eq!(acts[0].last_triggered, None);
}

/// While locked, the reset clears the stamps of the stages at and
/// before the lock stage itself; only the stages strictly after it
/// keep theirs.
#[test]
fn reset_while_locked_clears_lock_stamp() {
    let mut cfg = config(vec![
        action("dim", IdleAction::Custom, 10),
        action("lock", IdleAction::LockScreen, 20),
        action("off", IdleAction::Dpms, 30),
    ]);
    cfg.debounce_seconds = 0;
    let mut st = ManagerState::new(cfg, ChassisType::Desktop(DesktopState), 0);
    // Walk the pipeline until every stage carries a stamp.
    st.trigger_all_idle_actions(50_000);
    st.update_lock_state(true);
    st.handle_event(Event::InputActivity, 100_000, true);
    let acts = st.get_active_actions();
    assert_eq!(acts[0].last_triggered, None);
    assert_eq!(acts[1].last_triggered, None);
    // The post-lock stage was re-anchored at the debounce end by the bump.
    assert_eq!(acts[2].last_triggered, Some(100_000));
}

/// A locked block whose only action is the lock stage loses that
/// stage's stamp on reset, and the bump re-anchors it.
#[test]
fn reset_single_lock_block() {
    let lock = action("lock", IdleAction::LockScreen, 20);
    let mut st = ManagerState::new(config(vec![lock]), ChassisType::Desktop(DesktopState), 0);
    st.trigger_all_idle_actions(50_000);
    st.update_lock_state(true);
    st.handle_event(Event::InputActivity, 100_000, true);
    let acts = st.get_active_actions();
    // Cleared at the lock stage, then re-anchored by the bump.
    assert_eq!(acts[0].last_triggered, Some(100_000));
    assert_eq!(st.queue.action_index, 0);
}

/// The bridge state invariant: the playing flag mirrors the tab count.
#[test]
fn bridge_state_invariant() {
    let mut b = MediaBridgeState::new();
    assert!(!b.is_playing());
    b.activate();
    b.update_playing_state(3);
    assert!(b.browser_playing && b.is_playing());
    assert_eq!(b.inhibitor_count(), 3);
    b.reset();
    assert!(!b.browser_playing);
    assert_eq!(b.inhibitor_count(), 0);
}

/// The lid configuration drives the lid events.
#[test]
fn lid_actions() {
    let mut cfg = config(vec![
        action("suspend", IdleAction::Suspend, 300),
    ]);
    cfg.lid_close_action = LidCloseAction::Suspend;
    cfg.lid_open_action = LidOpenAction::Custom("wake-displays".to_string());
    let mut st = ManagerState::new(cfg, ChassisType::Desktop(DesktopState), 0);
    let out = st.handle_event(Event::LidClosed, 1_000, true);
    assert_eq!(out.run_actions.len(), 1);
    assert_eq!(out.run_actions[0].name, "suspend");
    let out = st.handle_event(Event::LidOpened, 2_000, true);
    assert_eq!(out.spawn_detached, vec!["wake-displays".to_string()]);
}
