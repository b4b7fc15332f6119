//! The manager's authoritative session state and its invariants.

use vstd::prelude::*;
use crate::action::{IdleAction, IdleActionBlock, MAX_INSTANT, TS_BOUND, clone_opt_string};
use crate::config::{ConfigModel, StasisConfig};
use crate::media::MediaBridgeState;
use crate::process::ProcessInfo;
use crate::queue::{ActionQueue, BlockKind, QueueModel, block_ts_ok};

verus! {

/// Laptop-specific state: whether the machine runs on battery.
#[derive(Clone, Copy, Debug, PartialEq, Eq, Structural)]
pub struct LaptopState {
    pub on_battery: bool,
}

/// Desktop machines carry no power state.
#[derive(Clone, Copy, Debug, PartialEq, Eq, Structural)]
pub struct DesktopState;

/// The kind of machine the session runs on.
#[derive(Clone, Copy, Debug, PartialEq, Eq, Structural)]
pub enum ChassisType {
    Laptop(LaptopState),
    Desktop(DesktopState),
}

impl Default for ChassisType {
    fn default() -> (r: Self)
        ensures
            r == ChassisType::Desktop(DesktopState),
    {
        ChassisType::Desktop(DesktopState)
    }
}

/// One-shot flags of the current idle descent.
#[derive(Clone, Copy, Debug, PartialEq, Eq, Structural)]
pub struct ActiveFlags {
    pub pre_suspend_triggered: bool,
    pub brightness_captured: bool,
}

impl Default for ActiveFlags {
    fn default() -> (r: Self)
        ensures
            r == (ActiveFlags { pre_suspend_triggered: false, brightness_captured: false }),
    {
        ActiveFlags { pre_suspend_triggered: false, brightness_captured: false }
    }
}

/// The lock lifecycle: whether the session is locked, the supervised
/// lock process, the probe command for the name fallback, and whether
/// the queue was already bumped past the lock stage.
#[derive(Debug)]
pub struct LockState {
    pub is_locked: bool,
    pub process_info: Option<ProcessInfo>,
    pub command: Option<String>,
    pub last_advanced: Option<u64>,
    pub post_advanced: bool,
}

impl Clone for LockState {
    fn clone(&self) -> (res: Self)
        ensures
            res == *self,
    {
        LockState {
            is_locked: self.is_locked,
            process_info: match &self.process_info {
                Some(p) => Some(p.clone()),
                None => None,
            },
            command: clone_opt_string(&self.command),
            last_advanced: self.last_advanced,
            post_advanced: self.post_advanced,
        }
    }
}

impl Default for LockState {
    fn default() -> (r: Self)
        ensures
            r.is_locked == false,
            r.process_info is None,
            r.command is None,
            r.last_advanced is None,
            r.post_advanced == false,
    {
        LockState {
            is_locked: false,
            process_info: None,
            command: None,
            last_advanced: None,
            post_advanced: false,
        }
    }
}

/// The index of the first lock action at or after `i`, or the length
/// when there is none.
pub open spec fn first_lock_from(actions: Seq<IdleActionBlock>, i: int) -> int
    decreases actions.len() - i,
{
    if i < 0 || i >= actions.len() {
        actions.len() as int
    } else if actions[i].kind == IdleAction::LockScreen {
        i
    } else {
        first_lock_from(actions, i + 1)
    }
}

/// The probe command `from_config` stores: the first lock action's
/// `lock_command` when set, else that action's command; nothing without
/// a lock action.
pub open spec fn spec_lock_command_of(actions: Seq<IdleActionBlock>) -> Option<String> {
    let fi = first_lock_from(actions, 0);
    if fi < actions.len() {
        match actions[fi].lock_command {
            Some(c) => Some(c),
            None => Some(actions[fi].command),
        }
    } else {
        None
    }
}

pub proof fn lemma_first_lock_agree(actions: Seq<IdleActionBlock>, i: int, j: int)
    requires
        0 <= i <= j <= actions.len(),
        forall|k: int| i <= k < j ==> actions[k].kind != IdleAction::LockScreen,
        j < actions.len() ==> actions[j].kind == IdleAction::LockScreen,
    ensures
        first_lock_from(actions, i) == if j < actions.len() {
            j
        } else {
            actions.len() as int
        },
    decreases j - i,
{
    if i < j {
        lemma_first_lock_agree(actions, i + 1, j);
    }
}

impl LockState {
    /// Build the lock state for a configuration: unlocked, with the
    /// probe command of the first configured lock action.
    pub fn from_config(cfg: &StasisConfig) -> (r: LockState)
        ensures
            r.is_locked == false,
            r.process_info is None,
            r.command == spec_lock_command_of(cfg.actions@),
            r.last_advanced is None,
            r.post_advanced == false,
    {
        let mut i: usize = 0;
        let mut command: Option<String> = None;
        while i < cfg.actions.len()
            invariant
                0 <= i <= cfg.actions@.len(),
                command is None,
                forall|k: int| 0 <= k < i ==> cfg.actions@[k].kind != IdleAction::LockScreen,
            decreases cfg.actions@.len() - i,
        {
            if matches!(cfg.actions[i].kind, IdleAction::LockScreen) {
                command = match &cfg.actions[i].lock_command {
                    Some(c) => Some(c.clone()),
                    None => Some(cfg.actions[i].command.clone()),
                };
                proof {
                    lemma_first_lock_agree(cfg.actions@, 0, i as int);
                }
                return LockState {
                    is_locked: false,
                    process_info: None,
                    command,
                    last_advanced: None,
                    post_advanced: false,
                };
            }
            i = i + 1;
        }
        proof {
            lemma_first_lock_agree(cfg.actions@, 0, cfg.actions@.len() as int);
        }
        LockState {
            is_locked: false,
            process_info: None,
            command: None,
            last_advanced: None,
            post_advanced: false,
        }
    }
}

/// The single authoritative snapshot of session state.
#[derive(Debug)]
pub struct ManagerState {
    pub queue: ActionQueue,
    pub lock_state: LockState,
    pub media_bridge: MediaBridgeState,
    pub chassis: ChassisType,
    pub last_activity: u64,
    pub debounce: Option<u64>,
    pub start_time: u64,
    pub paused: bool,
    pub manually_paused: bool,
    pub active_inhibitor_count: u32,
    pub media_playing: bool,
    pub media_blocking: bool,
    pub previous_brightness: Option<u32>,
    pub max_brightness: Option<u32>,
    pub brightness_device: Option<String>,
    pub pre_suspend_command: Option<String>,
    pub active_flags: ActiveFlags,
    pub cfg: StasisConfig,
}

/// The mathematical value of the manager state.
#[verifier::ext_equal]
pub ghost struct StateModel {
    pub queue: QueueModel,
    pub lock_state: LockState,
    pub media_bridge: MediaBridgeState,
    pub chassis: ChassisType,
    pub last_activity: u64,
    pub debounce: Option<u64>,
    pub start_time: u64,
    pub paused: bool,
    pub manually_paused: bool,
    pub active_inhibitor_count: u32,
    pub media_playing: bool,
    pub media_blocking: bool,
    pub previous_brightness: Option<u32>,
    pub max_brightness: Option<u32>,
    pub brightness_device: Option<String>,
    pub pre_suspend_command: Option<String>,
    pub active_flags: ActiveFlags,
    pub cfg: ConfigModel,
}

impl View for ManagerState {
    type V = StateModel;

    open spec fn view(&self) -> StateModel {
        StateModel {
            queue: self.queue@,
            lock_state: self.lock_state,
            media_bridge: self.media_bridge,
            chassis: self.chassis,
            last_activity: self.last_activity,
            debounce: self.debounce,
            start_time: self.start_time,
            paused: self.paused,
            manually_paused: self.manually_paused,
            active_inhibitor_count: self.active_inhibitor_count,
            media_playing: self.media_playing,
            media_blocking: self.media_blocking,
            previous_brightness: self.previous_brightness,
            max_brightness: self.max_brightness,
            brightness_device: self.brightness_device,
            pre_suspend_command: self.pre_suspend_command,
            active_flags: self.active_flags,
            cfg: self.cfg@,
        }
    }
}

impl StateModel {
    /// The pause discipline: the pause flag holds exactly when an
    /// automatic inhibitor is active or the session is manually paused.
    pub open spec fn pause_consistent(self) -> bool {
        self.paused == (self.active_inhibitor_count > 0 || self.manually_paused)
    }

    /// Well-formedness of the whole state: a well-formed queue, the
    /// pause discipline, the media-bridge invariant, and every stored
    /// instant within bounds.
    pub open spec fn inv(self) -> bool {
        &&& self.queue.wf()
        &&& self.pause_consistent()
        &&& self.media_bridge.inv()
        &&& self.last_activity <= MAX_INSTANT
        &&& (self.debounce matches Some(d) ==> d <= TS_BOUND)
        &&& self.start_time <= MAX_INSTANT
    }

    /// Whether the machine is a laptop.
    pub open spec fn spec_is_laptop(self) -> bool {
        self.chassis is Laptop
    }

    /// Whether the machine runs on battery, when it can.
    pub open spec fn spec_on_battery(self) -> Option<bool> {
        match self.chassis {
            ChassisType::Laptop(l) => Some(l.on_battery),
            ChassisType::Desktop(_) => None,
        }
    }

    /// The block the chassis and power state call for.
    pub open spec fn wanted_block(self) -> BlockKind {
        match self.chassis {
            ChassisType::Desktop(_) => BlockKind::Default,
            ChassisType::Laptop(l) => if l.on_battery {
                if self.queue.battery_actions.len() > 0 {
                    BlockKind::Battery
                } else {
                    BlockKind::Default
                }
            } else {
                if self.queue.ac_actions.len() > 0 {
                    BlockKind::Ac
                } else {
                    BlockKind::Default
                }
            },
        }
    }

    /// The effective media state: with the bridge active, browser or
    /// MPRIS playback counts; without it, only MPRIS.
    pub open spec fn spec_any_media_playing(self) -> bool {
        if self.media_bridge.active {
            self.media_bridge.browser_playing || self.media_playing
        } else {
            self.media_playing
        }
    }
}

/// The debounce window in milliseconds for a configured number of
/// seconds.
pub open spec fn debounce_ms_of(debounce_seconds: u32) -> int {
    debounce_seconds * 1000
}

/// The state after the power source is recorded: on laptops the
/// chassis carries the new power state and the active block follows.
pub open spec fn spec_set_on_battery(m: StateModel, value: bool) -> StateModel {
    match m.chassis {
        ChassisType::Laptop(_) => {
            let mid = StateModel {
                chassis: ChassisType::Laptop(LaptopState { on_battery: value }),
                ..m
            };
            if mid.wanted_block() != mid.queue.current_block {
                StateModel { queue: mid.queue.switched(mid.wanted_block()), ..mid }
            } else {
                mid
            }
        },
        ChassisType::Desktop(_) => m,
    }
}

/// Whether recording the power source switches the active block.
pub open spec fn spec_on_battery_changes(m: StateModel, value: bool) -> bool {
    &&& m.chassis is Laptop
    &&& (StateModel {
        chassis: ChassisType::Laptop(LaptopState { on_battery: value }),
        ..m
    }).wanted_block() != m.queue.current_block
}

impl ManagerState {
    /// Build the initial state for a configuration: idle since `now`,
    /// with the debounce window already running, unlocked, unpaused,
    /// and the block picked for the chassis.
    pub fn new(cfg: StasisConfig, chassis: ChassisType, now: u64) -> (r: ManagerState)
        requires
            now <= MAX_INSTANT,
            block_ts_ok(cfg.actions@),
        ensures
            r@.inv(),
            r@.cfg == cfg@,
            r@.chassis == chassis,
            r@.last_activity == now,
            r@.start_time == now,
            r@.debounce == Some((now + debounce_ms_of(cfg.debounce_seconds)) as u64),
            r@.paused == false,
            r@.manually_paused == false,
            r@.active_inhibitor_count == 0,
            r@.media_playing == false,
            r@.media_bridge.active == false,
            r@.lock_state.is_locked == false,
            r@.lock_state.command == spec_lock_command_of(cfg.actions@),
            r@.queue.default_actions == crate::queue::split_block(
                cfg.actions@,
                BlockKind::Default,
            ),
            r@.queue.ac_actions == crate::queue::split_block(cfg.actions@, BlockKind::Ac),
            r@.queue.battery_actions == crate::queue::split_block(
                cfg.actions@,
                BlockKind::Battery,
            ),
            r@.queue.current_block == if chassis is Laptop {
                BlockKind::Ac
            } else {
                BlockKind::Default
            },
            r@.queue.action_index == 0,
            r@.queue.instants_triggered == false,
            r@.queue.resume_queue.len() == 0,
            r@.pre_suspend_command == cfg.pre_suspend_command,
            r@.previous_brightness is None,
            r@.active_flags == (ActiveFlags {
                pre_suspend_triggered: false,
                brightness_captured: false,
            }),
            r@.queue.notification_pending == false,
    {
        let is_laptop = matches!(chassis, ChassisType::Laptop(_));
        let queue = ActionQueue::new(&cfg, is_laptop);
        let lock_state = LockState::from_config(&cfg);
        let debounce_ms = (cfg.debounce_seconds as u64) * 1000;
        let pre_suspend_command = clone_opt_string(&cfg.pre_suspend_command);
        ManagerState {
            queue,
            lock_state,
            media_bridge: MediaBridgeState::new(),
            chassis,
            last_activity: now,
            debounce: Some(now + debounce_ms),
            start_time: now,
            paused: false,
            manually_paused: false,
            active_inhibitor_count: 0,
            media_playing: false,
            media_blocking: false,
            previous_brightness: None,
            max_brightness: None,
            brightness_device: None,
            pre_suspend_command,
            active_flags: ActiveFlags::default(),
            cfg,
        }
    }

    /// Whether the machine is a laptop.
    pub fn is_laptop(&self) -> (r: bool)
        ensures
            r == self@.spec_is_laptop(),
    {
        matches!(self.chassis, ChassisType::Laptop(_))
    }

    /// Whether the machine runs on battery; desktops report nothing.
    pub fn on_battery(&self) -> (r: Option<bool>)
        ensures
            r == self@.spec_on_battery(),
    {
        match &self.chassis {
            ChassisType::Laptop(l) => Some(l.on_battery),
            ChassisType::Desktop(_) => None,
        }
    }

    /// Record the power source; on laptops the active block follows.
    /// Reports whether the block changed, so the caller can wake the
    /// scheduler.
    pub fn set_on_battery(&mut self, value: bool) -> (changed: bool)
        requires
            old(self)@.inv(),
        ensures
            final(self)@.inv(),
            final(self)@ == spec_set_on_battery(old(self)@, value),
            changed == spec_on_battery_changes(old(self)@, value),
    {
        match self.chassis {
            ChassisType::Laptop(_) => {
                self.chassis = ChassisType::Laptop(LaptopState { on_battery: value });
                self.update_current_block()
            },
            ChassisType::Desktop(_) => false,
        }
    }

    /// Align the active block with the chassis and power state; a real
    /// switch resets the cursor and re-arms the instants. Reports
    /// whether a switch happened.
    pub fn update_current_block(&mut self) -> (changed: bool)
        requires
            old(self)@.inv(),
        ensures
            final(self)@.inv(),
            changed == (old(self)@.wanted_block() != old(self)@.queue.current_block),
            changed ==> final(self)@ == (StateModel {
                queue: old(self)@.queue.switched(old(self)@.wanted_block()),
                ..old(self)@
            }),
            !changed ==> final(self)@ == old(self)@,
    {
        let new_block = match &self.chassis {
            ChassisType::Desktop(_) => BlockKind::Default,
            ChassisType::Laptop(l) => {
                if l.on_battery {
                    if self.queue.battery_actions.len() > 0 {
                        BlockKind::Battery
                    } else {
                        BlockKind::Default
                    }
                } else {
                    if self.queue.ac_actions.len() > 0 {
                        BlockKind::Ac
                    } else {
                        BlockKind::Default
                    }
                }
            },
        };
        let changed = self.queue.switch_block(new_block);
        proof {
            if changed {
                assert(self@ =~= (StateModel {
                    queue: old(self)@.queue.switched(old(self)@.wanted_block()),
                    ..old(self)@
                }));
            } else {
                assert(self@ =~= old(self)@);
            }
        }
        changed
    }

    /// The actions of the active block.
    pub fn get_active_actions(&self) -> (r: &Vec<IdleActionBlock>)
        ensures
            r@ == self@.queue.active(),
    {
        self.queue.get_active_actions()
    }

    /// The effective media state across bridge and MPRIS.
    pub fn is_any_media_playing(&self) -> (r: bool)
        ensures
            r == self@.spec_any_media_playing(),
    {
        if self.media_bridge.active {
            self.media_bridge.browser_playing || self.media_playing
        } else {
            self.media_playing
        }
    }

    /// How many media inhibitors are accounted for: per tab with the
    /// bridge active, else one when MPRIS media plays.
    pub fn get_media_inhibitor_count(&self) -> (r: usize)
        ensures
            r == if self@.media_bridge.active {
                self@.media_bridge.playing_tab_count as int
            } else if self@.media_playing {
                1int
            } else {
                0int
            },
    {
        if self.media_bridge.active {
            self.media_bridge.playing_tab_count
        } else {
            if self.media_playing {
                1
            } else {
                0
            }
        }
    }

    /// Whether the session is manually paused.
    pub fn get_manual_inhibit(&self) -> (r: bool)
        ensures
            r == self@.manually_paused,
    {
        self.manually_paused
    }

    /// Overwrite the lock flag alone.
    pub fn update_lock_state(&mut self, locked: bool)
        ensures
            final(self)@ == (StateModel {
                lock_state: LockState { is_locked: locked, ..old(self)@.lock_state },
                ..old(self)@
            }),
            old(self)@.inv() ==> final(self)@.inv(),
    {
        self.lock_state.is_locked = locked;
        proof {
            assert(self@ =~= (StateModel {
                lock_state: LockState { is_locked: locked, ..old(self)@.lock_state },
                ..old(self)@
            }));
        }
    }
}

} // verus!
