//! The per-power-state action queue: three ordered blocks, a cursor, the
//! instant-action gate, the resume queue, the pre-warn bookkeeping, and
//! the next-fire computation of the staged scheduler.

use vstd::prelude::*;
use crate::action::{IdleAction, IdleActionBlock, MAX_DUR_MS, MAX_INSTANT, TS_BOUND};
use crate::config::StasisConfig;
use crate::text;

verus! {

/// Every fire or wake instant the queue computes stays under this bound.
pub const FIRE_BOUND: u64 = TS_BOUND + MAX_DUR_MS + MAX_DUR_MS;

/// Which block is active.
#[derive(Clone, Copy, Debug, PartialEq, Eq, Structural)]
pub enum BlockKind {
    Default,
    Ac,
    Battery,
}

/// The action queue.
#[derive(Debug)]
pub struct ActionQueue {
    pub default_actions: Vec<IdleActionBlock>,
    pub ac_actions: Vec<IdleActionBlock>,
    pub battery_actions: Vec<IdleActionBlock>,
    pub current_block: BlockKind,
    pub action_index: usize,
    pub instants_triggered: bool,
    pub resume_queue: Vec<IdleActionBlock>,
    pub resume_commands_fired: bool,
    pub notification_pending: bool,
    pub notification_sent_for_action: Option<usize>,
}

/// The mathematical value of an action queue.
#[verifier::ext_equal]
pub ghost struct QueueModel {
    pub default_actions: Seq<IdleActionBlock>,
    pub ac_actions: Seq<IdleActionBlock>,
    pub battery_actions: Seq<IdleActionBlock>,
    pub current_block: BlockKind,
    pub action_index: usize,
    pub instants_triggered: bool,
    pub resume_queue: Seq<IdleActionBlock>,
    pub resume_commands_fired: bool,
    pub notification_pending: bool,
    pub notification_sent_for_action: Option<usize>,
}

impl View for ActionQueue {
    type V = QueueModel;

    open spec fn view(&self) -> QueueModel {
        QueueModel {
            default_actions: self.default_actions@,
            ac_actions: self.ac_actions@,
            battery_actions: self.battery_actions@,
            current_block: self.current_block,
            action_index: self.action_index,
            instants_triggered: self.instants_triggered,
            resume_queue: self.resume_queue@,
            resume_commands_fired: self.resume_commands_fired,
            notification_pending: self.notification_pending,
            notification_sent_for_action: self.notification_sent_for_action,
        }
    }
}

/// The block an action belongs to, read off its name prefix.
pub open spec fn name_block(a: IdleActionBlock) -> BlockKind {
    if "ac."@.is_prefix_of(a.name@) {
        BlockKind::Ac
    } else if "battery."@.is_prefix_of(a.name@) {
        BlockKind::Battery
    } else {
        BlockKind::Default
    }
}

/// The configured actions that belong to one block.
pub open spec fn split_block(actions: Seq<IdleActionBlock>, b: BlockKind) -> Seq<
    IdleActionBlock,
> {
    actions.filter(|a: IdleActionBlock| name_block(a) == b)
}

/// An action with its trigger stamp cleared.
pub open spec fn clear_stamp(a: IdleActionBlock) -> IdleActionBlock {
    IdleActionBlock { last_triggered: None, ..a }
}

/// Whether a `LockScreen` action stands strictly before index `i`.
pub open spec fn has_lock_before(actions: Seq<IdleActionBlock>, i: int) -> bool {
    exists|j: int| 0 <= j < i && j < actions.len() && actions[j].kind == IdleAction::LockScreen
}

/// One block after an activity reset: stamps of the stages at or before
/// the lock stage are cleared, except on instant actions; while locked,
/// the stages strictly after the lock stage keep their stamps, so their
/// offsets survive the reset.
pub open spec fn clear_block(actions: Seq<IdleActionBlock>, is_locked: bool) -> Seq<
    IdleActionBlock,
> {
    actions.map(
        |i: int, a: IdleActionBlock|
            if (is_locked && has_lock_before(actions, i)) || a.spec_is_instant() {
                a
            } else {
                clear_stamp(a)
            },
    )
}

/// All timestamps of a block stay under `TS_BOUND`.
pub open spec fn block_ts_ok(actions: Seq<IdleActionBlock>) -> bool {
    forall|i: int| 0 <= i < actions.len() ==> (#[trigger] actions[i]).ts_ok()
}

impl QueueModel {
    /// The actions of the active block.
    pub open spec fn active(self) -> Seq<IdleActionBlock> {
        match self.current_block {
            BlockKind::Default => self.default_actions,
            BlockKind::Ac => self.ac_actions,
            BlockKind::Battery => self.battery_actions,
        }
    }

    /// Well-formedness: the cursor stays inside the active block (or at
    /// zero when the block is empty) and every stored stamp is bounded.
    pub open spec fn wf(self) -> bool {
        &&& (self.action_index < self.active().len() || self.action_index == 0)
        &&& block_ts_ok(self.default_actions)
        &&& block_ts_ok(self.ac_actions)
        &&& block_ts_ok(self.battery_actions)
    }

    /// The queue after a real block switch.
    pub open spec fn switched(self, new_block: BlockKind) -> QueueModel {
        QueueModel {
            current_block: new_block,
            action_index: 0,
            instants_triggered: false,
            notification_pending: false,
            notification_sent_for_action: None,
            ..self
        }
    }

    /// The queue with the instant actions armed again.
    pub open spec fn with_instants_reset(self) -> QueueModel {
        QueueModel { instants_triggered: false, ..self }
    }

    /// The queue with the instant actions marked as fired.
    pub open spec fn with_instants_done(self) -> QueueModel {
        QueueModel { instants_triggered: true, ..self }
    }

    /// The queue after an activity reset cleared the stamps of all blocks.
    pub open spec fn cleared_before_lock(self, is_locked: bool) -> QueueModel {
        QueueModel {
            default_actions: clear_block(self.default_actions, is_locked),
            ac_actions: clear_block(self.ac_actions, is_locked),
            battery_actions: clear_block(self.battery_actions, is_locked),
            ..self
        }
    }

    /// The queue after an action fired: non-lock actions with a resume
    /// command join the resume queue.
    pub open spec fn with_queued_resume(self, action: IdleActionBlock) -> QueueModel {
        QueueModel {
            resume_queue: if action.kind != IdleAction::LockScreen
                && action.resume_command is Some {
                self.resume_queue.push(action)
            } else {
                self.resume_queue
            },
            ..self
        }
    }

    /// The queue with the resume queue drained.
    pub open spec fn with_resume_queue_cleared(self) -> QueueModel {
        QueueModel { resume_queue: Seq::<IdleActionBlock>::empty(), ..self }
    }

    /// The queue with the cursor moved one stage on, clamped to the last.
    pub open spec fn advanced(self) -> QueueModel {
        QueueModel {
            action_index: if self.action_index + 1 < self.active().len() {
                (self.action_index + 1) as usize
            } else if self.active().len() > 0 {
                (self.active().len() - 1) as usize
            } else {
                0usize
            },
            resume_commands_fired: if self.action_index + 1 < self.active().len() {
                false
            } else {
                self.resume_commands_fired
            },
            ..self
        }
    }

    /// The queue with the cursor placed on a given stage.
    pub open spec fn with_index(self, i: usize) -> QueueModel {
        QueueModel { action_index: i, ..self }
    }

    /// The queue with any pre-warn state dropped.
    pub open spec fn with_notification_cleared(self) -> QueueModel {
        QueueModel {
            notification_pending: false,
            notification_sent_for_action: None,
            ..self
        }
    }

    /// The queue after the pre-warn for a stage went out.
    pub open spec fn with_notification_sent(self, i: usize) -> QueueModel {
        QueueModel {
            notification_pending: true,
            notification_sent_for_action: Some(i),
            ..self
        }
    }

    /// The queue with the active block replaced.
    pub open spec fn with_active(self, acts: Seq<IdleActionBlock>) -> QueueModel {
        match self.current_block {
            BlockKind::Default => QueueModel { default_actions: acts, ..self },
            BlockKind::Ac => QueueModel { ac_actions: acts, ..self },
            BlockKind::Battery => QueueModel { battery_actions: acts, ..self },
        }
    }

    /// The queue with every stamp in every block cleared.
    pub open spec fn with_stamps_cleared(self) -> QueueModel {
        QueueModel {
            default_actions: cleared(self.default_actions),
            ac_actions: cleared(self.ac_actions),
            battery_actions: cleared(self.battery_actions),
            ..self
        }
    }

    /// The queue with the three blocks rebuilt from a fresh action list,
    /// all stamps cleared.
    pub open spec fn with_blocks_rebuilt(self, actions: Seq<IdleActionBlock>) -> QueueModel {
        QueueModel {
            default_actions: cleared(split_block(actions, BlockKind::Default)),
            ac_actions: cleared(split_block(actions, BlockKind::Ac)),
            battery_actions: cleared(split_block(actions, BlockKind::Battery)),
            ..self
        }
    }
}

/// An action stamped as triggered at `t`.
pub open spec fn stamped(a: IdleActionBlock, t: u64) -> IdleActionBlock {
    IdleActionBlock { last_triggered: Some(t), ..a }
}

/// The larger of two instants.
pub open spec fn max_time(a: int, b: int) -> int {
    if a >= b {
        a
    } else {
        b
    }
}

/// The debounce end, or the activity time when no debounce is pending.
pub open spec fn debounce_or(debounce: Option<u64>, last_activity: u64) -> int {
    match debounce {
        Some(d) => d as int,
        None => last_activity as int,
    }
}

/// The base instant a stage's timeout counts from: its own last trigger;
/// else the previous stage's; else — for the first stage — the later of
/// the last activity and the debounce end; else the last activity.
pub open spec fn base_time(
    actions: Seq<IdleActionBlock>,
    i: int,
    last_activity: u64,
    debounce: Option<u64>,
) -> int {
    match actions[i].last_triggered {
        Some(t) => t as int,
        None => if i > 0 && actions[i - 1].last_triggered is Some {
            actions[i - 1].last_triggered.unwrap() as int
        } else if i == 0 {
            max_time(last_activity as int, debounce_or(debounce, last_activity))
        } else {
            last_activity as int
        },
    }
}

/// The instant a stage would fire without any pre-warn delay.
pub open spec fn original_fire_time(
    actions: Seq<IdleActionBlock>,
    i: int,
    last_activity: u64,
    debounce: Option<u64>,
) -> int {
    base_time(actions, i, last_activity, debounce) + actions[i].spec_timeout_ms()
}

/// The instant the scheduler must wake for a stage: the fire instant,
/// pushed back by the pre-warn delay once the notification went out.
pub open spec fn wake_time(
    m: QueueModel,
    i: int,
    last_activity: u64,
    debounce: Option<u64>,
    notify_enabled: bool,
    notify_seconds: u32,
) -> int {
    let oft = original_fire_time(m.active(), i, last_activity, debounce);
    if notify_enabled && m.active()[i].notification is Some && m.notification_sent_for_action
        == Some(i as usize) {
        oft + notify_seconds * 1000
    } else {
        oft
    }
}

/// Whether stage `i` takes part in the staged timeline right now: instant
/// actions never do, and the lock stage is excluded while locked.
pub open spec fn eligible(m: QueueModel, i: int, is_locked: bool) -> bool {
    &&& 0 <= i < m.active().len()
    &&& !(m.active()[i].kind == IdleAction::LockScreen && is_locked)
    &&& !m.active()[i].spec_is_instant()
}

impl ActionQueue {
    /// Split the configured actions into the three blocks. The active
    /// block starts as `ac` on laptops and `default` otherwise.
    pub fn new(cfg: &StasisConfig, is_laptop: bool) -> (r: ActionQueue)
        ensures
            r@.default_actions == split_block(cfg.actions@, BlockKind::Default),
            r@.ac_actions == split_block(cfg.actions@, BlockKind::Ac),
            r@.battery_actions == split_block(cfg.actions@, BlockKind::Battery),
            r@.current_block == if is_laptop {
                BlockKind::Ac
            } else {
                BlockKind::Default
            },
            r@.action_index == 0,
            r@.instants_triggered == false,
            r@.resume_queue == Seq::<IdleActionBlock>::empty(),
            r@.resume_commands_fired == false,
            r@.notification_pending == false,
            r@.notification_sent_for_action is None,
            block_ts_ok(cfg.actions@) ==> r@.wf(),
    {
        let (d, a, b) = split_actions(cfg);
        let r = ActionQueue {
            default_actions: d,
            ac_actions: a,
            battery_actions: b,
            current_block: if is_laptop {
                BlockKind::Ac
            } else {
                BlockKind::Default
            },
            action_index: 0,
            instants_triggered: false,
            resume_queue: Vec::new(),
            resume_commands_fired: false,
            notification_pending: false,
            notification_sent_for_action: None,
        };
        proof {
            if block_ts_ok(cfg.actions@) {
                lemma_split_ts_ok(cfg.actions@, BlockKind::Default);
                lemma_split_ts_ok(cfg.actions@, BlockKind::Ac);
                lemma_split_ts_ok(cfg.actions@, BlockKind::Battery);
            }
        }
        r
    }

    /// The actions of the active block.
    pub fn get_active_actions(&self) -> (r: &Vec<IdleActionBlock>)
        ensures
            r@ == self@.active(),
    {
        match self.current_block {
            BlockKind::Default => &self.default_actions,
            BlockKind::Ac => &self.ac_actions,
            BlockKind::Battery => &self.battery_actions,
        }
    }

    /// The instant actions of the active block, in order.
    pub fn get_active_instant_actions(&self) -> (r: Vec<IdleActionBlock>)
        ensures
            r@ == self@.active().filter(|a: IdleActionBlock| a.spec_is_instant()),
    {
        let actions = self.get_active_actions();
        let mut out: Vec<IdleActionBlock> = Vec::new();
        let mut i: usize = 0;
        while i < actions.len()
            invariant
                actions@ == self@.active(),
                0 <= i <= actions@.len(),
                out@ =~= actions@.subrange(0, i as int).filter(
                    |a: IdleActionBlock| a.spec_is_instant(),
                ),
            decreases actions@.len() - i,
        {
            proof {
                reveal_with_fuel(Seq::filter, 2);
                assert(actions@.subrange(0, i + 1 as int).drop_last() =~= actions@.subrange(
                    0,
                    i as int,
                ));
            }
            if actions[i].is_instant() {
                out.push(actions[i].clone());
            }
            i = i + 1;
        }
        proof {
            assert(actions@.subrange(0, actions@.len() as int) =~= actions@);
        }
        out
    }

    /// Switch the active block. A switch to the block already active does
    /// nothing and reports `false`; a real switch resets the cursor, arms
    /// the instants again, drops any pre-warn state, and reports `true`.
    pub fn switch_block(&mut self, new_block: BlockKind) -> (r: bool)
        ensures
            r == (new_block != old(self)@.current_block),
            r ==> final(self)@ == old(self)@.switched(new_block),
            !r ==> final(self)@ == old(self)@,
            old(self)@.wf() ==> final(self)@.wf(),
    {
        if new_block == self.current_block {
            return false;
        }
        self.current_block = new_block;
        self.action_index = 0;
        self.instants_triggered = false;
        self.notification_pending = false;
        self.notification_sent_for_action = None;
        true
    }

    /// The block that should be active for a power state: the matching
    /// non-empty block, with `default` as the fallback.
    pub fn determine_block(&self, on_battery: bool) -> (r: BlockKind)
        ensures
            r == spec_determine_block(self@, on_battery),
    {
        if on_battery {
            if self.battery_actions.len() > 0 {
                BlockKind::Battery
            } else {
                BlockKind::Default
            }
        } else {
            if self.ac_actions.len() > 0 {
                BlockKind::Ac
            } else {
                BlockKind::Default
            }
        }
    }

    /// Arm the instant actions again.
    pub fn reset_instant_actions(&mut self)
        ensures
            final(self)@ == old(self)@.with_instants_reset(),
            old(self)@.wf() ==> final(self)@.wf(),
    {
        self.instants_triggered = false;
    }

    /// Clear trigger stamps in every block, preserving instants and —
    /// while locked — the stages strictly after the lock stage.
    pub fn clear_triggered_before_lock(&mut self, is_locked: bool)
        ensures
            final(self)@ == old(self)@.cleared_before_lock(is_locked),
            old(self)@.wf() ==> final(self)@.wf(),
    {
        clear_one_block(&mut self.default_actions, is_locked);
        clear_one_block(&mut self.ac_actions, is_locked);
        clear_one_block(&mut self.battery_actions, is_locked);
        proof {
            if old(self)@.wf() {
                lemma_clear_block_ts_ok(old(self)@.default_actions, is_locked);
                lemma_clear_block_ts_ok(old(self)@.ac_actions, is_locked);
                lemma_clear_block_ts_ok(old(self)@.battery_actions, is_locked);
            }
        }
    }

    /// The index of the lock stage in the active block, when there is one.
    pub fn find_lock_index(&self) -> (r: Option<usize>)
        ensures
            r matches Some(i) ==> 0 <= i < self@.active().len() && self@.active()[i as int].kind
                == IdleAction::LockScreen && (forall|j: int|
                0 <= j < i ==> self@.active()[j].kind != IdleAction::LockScreen),
            r is None ==> forall|j: int|
                0 <= j < self@.active().len() ==> self@.active()[j].kind != IdleAction::LockScreen,
    {
        let actions = self.get_active_actions();
        let mut i: usize = 0;
        while i < actions.len()
            invariant
                actions@ == self@.active(),
                0 <= i <= actions@.len(),
                forall|j: int| 0 <= j < i ==> actions@[j].kind != IdleAction::LockScreen,
            decreases actions@.len() - i,
        {
            if matches!(actions[i].kind, IdleAction::LockScreen) {
                return Some(i);
            }
            i = i + 1;
        }
        None
    }

    /// Queue a fired action's resume command: only non-lock actions that
    /// carry one enter the queue.
    pub fn queue_resume(&mut self, action: IdleActionBlock)
        ensures
            final(self)@ == old(self)@.with_queued_resume(action),
            old(self)@.wf() ==> final(self)@.wf(),
    {
        if !matches!(action.kind, IdleAction::LockScreen) && action.resume_command.is_some() {
            self.resume_queue.push(action);
        }
    }

    /// Empty the resume queue.
    pub fn clear_resume_queue(&mut self)
        ensures
            final(self)@ == old(self)@.with_resume_queue_cleared(),
            old(self)@.wf() ==> final(self)@.wf(),
    {
        self.resume_queue.clear();
        proof {
            assert(self.resume_queue@ =~= Seq::<IdleActionBlock>::empty());
        }
    }

    /// Advance the cursor one stage, clamped to the last stage.
    pub fn advance_index(&mut self)
        requires
            old(self)@.wf(),
        ensures
            final(self)@ == old(self)@.advanced(),
            final(self)@.wf(),
    {
        let actions_len = self.get_active_actions().len();
        if self.action_index + 1 < actions_len {
            self.action_index = self.action_index + 1;
            self.resume_commands_fired = false;
        } else if actions_len > 0 {
            self.action_index = actions_len - 1;
        } else {
            self.action_index = 0;
        }
    }

    /// Reset the cursor to the first stage.
    pub fn reset_index(&mut self)
        ensures
            final(self)@ == old(self)@.with_index(0),
            old(self)@.wf() ==> final(self)@.wf(),
    {
        self.action_index = 0;
    }

    /// Drop any pre-warn state.
    pub fn clear_notification_state(&mut self)
        ensures
            final(self)@ == old(self)@.with_notification_cleared(),
            old(self)@.wf() ==> final(self)@.wf(),
    {
        self.notification_pending = false;
        self.notification_sent_for_action = None;
    }

    /// Record that the pre-warn for a stage went out.
    pub fn mark_notification_sent(&mut self, action_index: usize)
        ensures
            final(self)@ == old(self)@.with_notification_sent(action_index),
            old(self)@.wf() ==> final(self)@.wf(),
    {
        self.notification_pending = true;
        self.notification_sent_for_action = Some(action_index);
    }

    /// Whether the pre-warn for a stage already went out.
    pub fn notification_sent_for(&self, action_index: usize) -> (r: bool)
        ensures
            r == (self@.notification_sent_for_action == Some(action_index)),
    {
        match self.notification_sent_for_action {
            Some(i) => i == action_index,
            None => false,
        }
    }

    /// Rebuild the queue from a fresh configuration: blocks are split
    /// again, every stamp is cleared, the cursor returns to the start,
    /// instants are armed, and any pre-warn state is dropped.
    pub fn update_from_config(&mut self, cfg: &StasisConfig, is_laptop: bool)
        ensures
            final(self)@ == spec_update_from_config(old(self)@, cfg@.actions, is_laptop),
            final(self)@.wf(),
            final(self)@.instants_triggered == false,
    {
        let (d, a, b) = split_actions(cfg);
        let mut d = d;
        let mut a = a;
        let mut b = b;
        clear_all_stamps(&mut d);
        clear_all_stamps(&mut a);
        clear_all_stamps(&mut b);
        self.default_actions = d;
        self.ac_actions = a;
        self.battery_actions = b;
        let new_block = if is_laptop {
            self.determine_block(false)
        } else {
            BlockKind::Default
        };
        self.switch_block(new_block);
        self.instants_triggered = false;
        self.action_index = 0;
        self.clear_notification_state();
        proof {
            lemma_cleared_ts_ok(final(self)@.default_actions);
            lemma_cleared_ts_ok(final(self)@.ac_actions);
            lemma_cleared_ts_ok(final(self)@.battery_actions);
        }
    }

    /// Place the cursor on a given stage.
    pub fn set_index(&mut self, i: usize)
        requires
            i < old(self)@.active().len() || i == 0,
        ensures
            final(self)@ == old(self)@.with_index(i),
            old(self)@.wf() ==> final(self)@.wf(),
    {
        self.action_index = i;
    }

    /// Stamp one stage of the active block as triggered at `t`.
    pub fn stamp_active(&mut self, i: usize, t: u64)
        requires
            i < old(self)@.active().len(),
            t <= TS_BOUND,
        ensures
            final(self)@ == old(self)@.with_active(
                old(self)@.active().update(i as int, stamped(old(self)@.active()[i as int], t)),
            ),
            old(self)@.wf() ==> final(self)@.wf(),
    {
        let v = match self.current_block {
            BlockKind::Default => &mut self.default_actions,
            BlockKind::Ac => &mut self.ac_actions,
            BlockKind::Battery => &mut self.battery_actions,
        };
        let mut updated = v[i].clone();
        updated.last_triggered = Some(t);
        v.set(i, updated);
        proof {
            assert(self@ =~= old(self)@.with_active(
                old(self)@.active().update(i as int, stamped(old(self)@.active()[i as int], t)),
            ));
        }
    }

    /// Stamp every stage of the active block as triggered at `t`.
    pub fn stamp_all_active(&mut self, t: u64)
        requires
            t <= TS_BOUND,
        ensures
            final(self)@ == old(self)@.with_active(
                old(self)@.active().map(|i: int, a: IdleActionBlock| stamped(a, t)),
            ),
            old(self)@.wf() ==> final(self)@.wf(),
    {
        let ghost orig = self@.active();
        let v = match self.current_block {
            BlockKind::Default => &mut self.default_actions,
            BlockKind::Ac => &mut self.ac_actions,
            BlockKind::Battery => &mut self.battery_actions,
        };
        let mut i: usize = 0;
        while i < v.len()
            invariant
                v@.len() == orig.len(),
                0 <= i <= orig.len(),
                forall|j: int| i <= j < orig.len() ==> v@[j] == orig[j],
                forall|j: int| 0 <= j < i ==> v@[j] == stamped(orig[j], t),
            decreases orig.len() - i,
        {
            let mut updated = v[i].clone();
            updated.last_triggered = Some(t);
            v.set(i, updated);
            i = i + 1;
        }
        proof {
            assert(v@ =~= orig.map(|j: int, a: IdleActionBlock| stamped(a, t)));
            assert(self@ =~= old(self)@.with_active(
                old(self)@.active().map(|j: int, a: IdleActionBlock| stamped(a, t)),
            ));
        }
    }

    /// Clear every stamp in every block.
    pub fn clear_stamps_all_blocks(&mut self)
        ensures
            final(self)@ == old(self)@.with_stamps_cleared(),
            block_ts_ok(final(self)@.default_actions),
            block_ts_ok(final(self)@.ac_actions),
            block_ts_ok(final(self)@.battery_actions),
            old(self)@.wf() ==> final(self)@.wf(),
    {
        clear_all_stamps(&mut self.default_actions);
        clear_all_stamps(&mut self.ac_actions);
        clear_all_stamps(&mut self.battery_actions);
        proof {
            assert(self@ =~= old(self)@.with_stamps_cleared());
            lemma_cleared_ts_ok(self@.default_actions);
            lemma_cleared_ts_ok(self@.ac_actions);
            lemma_cleared_ts_ok(self@.battery_actions);
        }
    }

    /// Replace the three blocks from a fresh action list, clearing every
    /// stamp; cursor and flags are left for the caller to reset.
    pub fn rebuild_blocks(&mut self, cfg: &StasisConfig)
        ensures
            final(self)@ == old(self)@.with_blocks_rebuilt(cfg.actions@),
            block_ts_ok(final(self)@.default_actions),
            block_ts_ok(final(self)@.ac_actions),
            block_ts_ok(final(self)@.battery_actions),
    {
        let (d, a, b) = split_actions(cfg);
        let mut d = d;
        let mut a = a;
        let mut b = b;
        clear_all_stamps(&mut d);
        clear_all_stamps(&mut a);
        clear_all_stamps(&mut b);
        self.default_actions = d;
        self.ac_actions = a;
        self.battery_actions = b;
        proof {
            assert(self@ =~= old(self)@.with_blocks_rebuilt(cfg.actions@));
            lemma_cleared_ts_ok(self@.default_actions);
            lemma_cleared_ts_ok(self@.ac_actions);
            lemma_cleared_ts_ok(self@.battery_actions);
        }
    }

    /// The earliest instant any eligible stage of the active block needs
    /// the scheduler awake, per the staged-timeline rule; `None` when no
    /// stage is eligible.
    pub fn next_action_time(
        &self,
        is_locked: bool,
        last_activity: u64,
        debounce: Option<u64>,
        notify_enabled: bool,
        notify_seconds: u32,
    ) -> (r: Option<u64>)
        requires
            self@.wf(),
            last_activity <= MAX_INSTANT,
            debounce matches Some(d) ==> d <= TS_BOUND,
        ensures
            r is Some <==> exists|i: int| eligible(self@, i, is_locked),
            r matches Some(t) ==> (exists|i: int|
                eligible(self@, i, is_locked) && t == wake_time(
                    self@,
                    i,
                    last_activity,
                    debounce,
                    notify_enabled,
                    notify_seconds,
                )) && (forall|i: int|
                eligible(self@, i, is_locked) ==> t <= wake_time(
                    self@,
                    i,
                    last_activity,
                    debounce,
                    notify_enabled,
                    notify_seconds,
                )),
            r matches Some(t) ==> t <= FIRE_BOUND,
    {
        let actions = self.get_active_actions();
        let mut min_time: Option<u64> = None;
        let mut i: usize = 0;
        while i < actions.len()
            invariant
                self@.wf(),
                last_activity <= MAX_INSTANT,
                debounce matches Some(d) ==> d <= TS_BOUND,
                actions@ == self@.active(),
                0 <= i <= actions@.len(),
                min_time is Some <==> exists|k: int| k < i && eligible(self@, k, is_locked),
                min_time matches Some(t) ==> (exists|k: int|
                    k < i && eligible(self@, k, is_locked) && t == wake_time(
                        self@,
                        k,
                        last_activity,
                        debounce,
                        notify_enabled,
                        notify_seconds,
                    )) && (forall|k: int|
                    k < i && eligible(self@, k, is_locked) ==> t <= wake_time(
                        self@,
                        k,
                        last_activity,
                        debounce,
                        notify_enabled,
                        notify_seconds,
                    )),
                min_time matches Some(t) ==> t <= FIRE_BOUND,
            decreases actions@.len() - i,
        {
            let skip_lock = matches!(actions[i].kind, IdleAction::LockScreen) && is_locked;
            if !skip_lock && !actions[i].is_instant() {
                let next_time = stage_wake_time(
                    actions,
                    i,
                    last_activity,
                    debounce,
                    notify_enabled,
                    notify_seconds,
                    self.notification_sent_for(i),
                );
                assert(eligible(self@, i as int, is_locked));
                min_time = Some(
                    match min_time {
                        None => next_time,
                        Some(current_min) => if next_time < current_min {
                            next_time
                        } else {
                            current_min
                        },
                    },
                );
            }
            i = i + 1;
        }
        min_time
    }
}

/// The block `determine_block` picks.
pub open spec fn spec_determine_block(m: QueueModel, on_battery: bool) -> BlockKind {
    if on_battery {
        if m.battery_actions.len() > 0 {
            BlockKind::Battery
        } else {
            BlockKind::Default
        }
    } else {
        if m.ac_actions.len() > 0 {
            BlockKind::Ac
        } else {
            BlockKind::Default
        }
    }
}

/// Every stamp in the sequence cleared.
pub open spec fn cleared(actions: Seq<IdleActionBlock>) -> Seq<IdleActionBlock> {
    actions.map(|i: int, a: IdleActionBlock| clear_stamp(a))
}

/// The queue after a configuration reload.
pub open spec fn spec_update_from_config(
    m: QueueModel,
    actions: Seq<IdleActionBlock>,
    is_laptop: bool,
) -> QueueModel {
    let d = cleared(split_block(actions, BlockKind::Default));
    let a = cleared(split_block(actions, BlockKind::Ac));
    let b = cleared(split_block(actions, BlockKind::Battery));
    QueueModel {
        default_actions: d,
        ac_actions: a,
        battery_actions: b,
        current_block: if is_laptop {
            if a.len() > 0 {
                BlockKind::Ac
            } else {
                BlockKind::Default
            }
        } else {
            BlockKind::Default
        },
        action_index: 0,
        instants_triggered: false,
        notification_pending: false,
        notification_sent_for_action: None,
        ..m
    }
}

/// Split the configured actions into the three blocks by name prefix.
fn split_actions(cfg: &StasisConfig) -> (r: (
    Vec<IdleActionBlock>,
    Vec<IdleActionBlock>,
    Vec<IdleActionBlock>,
))
    ensures
        r.0@ == split_block(cfg.actions@, BlockKind::Default),
        r.1@ == split_block(cfg.actions@, BlockKind::Ac),
        r.2@ == split_block(cfg.actions@, BlockKind::Battery),
{
    let mut d: Vec<IdleActionBlock> = Vec::new();
    let mut a: Vec<IdleActionBlock> = Vec::new();
    let mut b: Vec<IdleActionBlock> = Vec::new();
    let mut i: usize = 0;
    while i < cfg.actions.len()
        invariant
            0 <= i <= cfg.actions@.len(),
            d@ =~= split_block(cfg.actions@.subrange(0, i as int), BlockKind::Default),
            a@ =~= split_block(cfg.actions@.subrange(0, i as int), BlockKind::Ac),
            b@ =~= split_block(cfg.actions@.subrange(0, i as int), BlockKind::Battery),
        decreases cfg.actions@.len() - i,
    {
        proof {
            reveal_with_fuel(Seq::filter, 2);
            assert(cfg.actions@.subrange(0, i + 1 as int).drop_last() =~= cfg.actions@.subrange(
                0,
                i as int,
            ));
        }
        let action = cfg.actions[i].clone();
        let is_ac = text::has_prefix(action.name.as_str(), "ac.");
        let is_battery = text::has_prefix(action.name.as_str(), "battery.");
        if is_ac {
            a.push(action);
        } else if is_battery {
            b.push(action);
        } else {
            d.push(action);
        }
        i = i + 1;
    }
    proof {
        assert(cfg.actions@.subrange(0, cfg.actions@.len() as int) =~= cfg.actions@);
    }
    (d, a, b)
}

/// Clear the stamps of one block per the activity-reset rule.
fn clear_one_block(v: &mut Vec<IdleActionBlock>, is_locked: bool)
    ensures
        final(v)@ == clear_block(old(v)@, is_locked),
{
    let ghost orig = old(v)@;
    let mut past_lock = false;
    let mut i: usize = 0;
    while i < v.len()
        invariant
            v@.len() == orig.len(),
            0 <= i <= orig.len(),
            past_lock == has_lock_before(orig, i as int),
            forall|j: int| i <= j < orig.len() ==> v@[j] == orig[j],
            v@.subrange(0, i as int) =~= clear_block(orig, is_locked).subrange(0, i as int),
        decreases orig.len() - i,
    {
        if is_locked && past_lock {
            // the stages after the lock stage keep their offsets
        } else if v[i].is_instant() {
            // instants never carry a stamp that matters
        } else {
            let mut updated = v[i].clone();
            updated.last_triggered = None;
            v.set(i, updated);
        }
        proof {
            let expected = if (is_locked && has_lock_before(orig, i as int))
                || orig[i as int].spec_is_instant() {
                orig[i as int]
            } else {
                clear_stamp(orig[i as int])
            };
            assert(v@[i as int] == expected);
            assert(clear_block(orig, is_locked)[i as int] == expected);
            assert(v@.subrange(0, i + 1 as int) =~= clear_block(orig, is_locked).subrange(
                0,
                i + 1 as int,
            ));
        }
        if matches!(v[i].kind, IdleAction::LockScreen) {
            past_lock = true;
            proof {
                assert(orig[i as int].kind == IdleAction::LockScreen);
                assert(has_lock_before(orig, i + 1 as int));
            }
        } else {
            proof {
                if past_lock {
                    let j = choose|j: int|
                        0 <= j < i as int && j < orig.len() && orig[j].kind
                            == IdleAction::LockScreen;
                    assert(has_lock_before(orig, i + 1 as int));
                } else {
                    assert(!has_lock_before(orig, i + 1 as int));
                }
            }
        }
        i = i + 1;
    }
    proof {
        assert(v@.subrange(0, v@.len() as int) =~= v@);
        assert(clear_block(orig, is_locked).subrange(0, orig.len() as int) =~= clear_block(
            orig,
            is_locked,
        ));
    }
}

/// Clear every stamp of one block.
fn clear_all_stamps(v: &mut Vec<IdleActionBlock>)
    ensures
        final(v)@ == cleared(old(v)@),
{
    let ghost orig = old(v)@;
    let mut i: usize = 0;
    while i < v.len()
        invariant
            v@.len() == orig.len(),
            0 <= i <= orig.len(),
            forall|j: int| i <= j < orig.len() ==> v@[j] == orig[j],
            forall|j: int| 0 <= j < i ==> v@[j] == clear_stamp(orig[j]),
        decreases orig.len() - i,
    {
        let mut updated = v[i].clone();
        updated.last_triggered = None;
        v.set(i, updated);
        i = i + 1;
    }
    proof {
        assert(v@ =~= cleared(orig));
    }
}

/// The wake instant of one eligible stage.
fn stage_wake_time(
    actions: &Vec<IdleActionBlock>,
    i: usize,
    last_activity: u64,
    debounce: Option<u64>,
    notify_enabled: bool,
    notify_seconds: u32,
    already_notified: bool,
) -> (r: u64)
    requires
        0 <= i < actions@.len(),
        block_ts_ok(actions@),
        last_activity <= MAX_INSTANT,
        debounce matches Some(d) ==> d <= TS_BOUND,
    ensures
        r == (if notify_enabled && actions@[i as int].notification is Some && already_notified {
            original_fire_time(actions@, i as int, last_activity, debounce) + notify_seconds
                * 1000
        } else {
            original_fire_time(actions@, i as int, last_activity, debounce)
        }),
        r <= FIRE_BOUND,
{
    let timeout = actions[i].timeout_ms();
    let base: u64 = match actions[i].last_triggered {
        Some(t) => t,
        None => {
            if i > 0 && actions[i - 1].last_triggered.is_some() {
                match actions[i - 1].last_triggered {
                    Some(t) => t,
                    None => 0,  // unreachable: the arm above tested is_some
                }
            } else if i == 0 {
                match debounce {
                    Some(d) => if d >= last_activity {
                        d
                    } else {
                        last_activity
                    },
                    None => last_activity,
                }
            } else {
                last_activity
            }
        },
    };
    let oft = base + timeout;
    if notify_enabled && actions[i].notification.is_some() && already_notified {
        oft + (notify_seconds as u64) * 1000
    } else {
        oft
    }
}

proof fn lemma_split_ts_ok(actions: Seq<IdleActionBlock>, b: BlockKind)
    requires
        block_ts_ok(actions),
    ensures
        block_ts_ok(split_block(actions, b)),
    decreases actions.len(),
{
    reveal_with_fuel(Seq::filter, 2);
    let f = |a: IdleActionBlock| name_block(a) == b;
    if actions.len() > 0 {
        assert(block_ts_ok(actions.drop_last()));
        lemma_split_ts_ok(actions.drop_last(), b);
        let prev = actions.drop_last().filter(f);
        assert forall|i: int| 0 <= i < actions.filter(f).len() implies (
        #[trigger] actions.filter(f)[i]).ts_ok() by {
            if i < prev.len() {
                assert(actions.filter(f)[i] == prev[i]);
            } else {
                assert(actions.filter(f)[i] == actions.last());
            }
        }
    }
}

proof fn lemma_clear_block_ts_ok(actions: Seq<IdleActionBlock>, is_locked: bool)
    requires
        block_ts_ok(actions),
    ensures
        block_ts_ok(clear_block(actions, is_locked)),
{
    assert forall|i: int| 0 <= i < clear_block(actions, is_locked).len() implies (
    #[trigger] clear_block(actions, is_locked)[i]).ts_ok() by {
        assert(actions[i].ts_ok());
    }
}

proof fn lemma_cleared_ts_ok(actions: Seq<IdleActionBlock>)
    requires
        forall|i: int|
            0 <= i < actions.len() ==> (#[trigger] actions[i]).last_triggered is None,
    ensures
        block_ts_ok(actions),
{
}

} // verus!
