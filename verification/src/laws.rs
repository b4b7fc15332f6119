//! The laws the core obeys, stated and proved over the state models.
//! Each is a public proof function; the per-function contracts in
//! `manager` and `queue` carry the per-step guarantees these compose.

use vstd::prelude::*;
use crate::action::MAX_INSTANT;
use crate::manager::{spec_fired, spec_reset};
use crate::queue::{BlockKind, QueueModel};
use crate::state::{ManagerState, StateModel};

verus! {

/// The pause discipline is an invariant: whatever pauses, resumes,
/// registers or releases an inhibitor, or resets the timers, the pause
/// flag afterwards still equals "an inhibitor is active or the session
/// is manually paused" (and the count, a `u32`, is never negative).
pub proof fn lemma_pause_discipline(m: StateModel, now: u64, lock_alive: bool, manual: bool)
    requires
        m.pause_consistent(),
    ensures
        m.paused_state(manual).pause_consistent(),
        m.inhibited_state().pause_consistent(),
        m.manually_resumed_state().pause_consistent(),
        ManagerState::spec_decr(m, now, lock_alive).pause_consistent(),
        spec_reset(m, now, lock_alive).pause_consistent(),
        spec_fired(m, now).pause_consistent(),
{
}

/// Firing the instant actions twice is the same as firing them once:
/// the first trigger marks them fired, and a state with them marked is
/// a fixed point.
pub proof fn lemma_instants_at_most_once(m: StateModel)
    ensures
        m.instants_done_state().queue.instants_triggered,
        m.instants_done_state().instants_done_state() == m.instants_done_state(),
{
    assert(m.instants_done_state().instants_done_state() =~= m.instants_done_state());
}

/// The instants gate moves only at its boundaries: a real block switch
/// and a configuration reload arm it; an activity reset, a fired stage,
/// an inhibitor release, and the pause transitions all leave it alone.
pub proof fn lemma_instants_gate_stable(m: StateModel, now: u64, lock_alive: bool, b: BlockKind)
    requires
        now <= MAX_INSTANT,
    ensures
        m.queue.switched(b).instants_triggered == false,
        crate::manager::spec_update_from_config(
            m,
            m.cfg,
            now,
        ).queue.instants_triggered == false,
        spec_reset(m, now, lock_alive).queue.instants_triggered
            == m.queue.instants_triggered,
        spec_fired(m, now).queue.instants_triggered == m.queue.instants_triggered,
        ManagerState::spec_decr(m, now, lock_alive).queue.instants_triggered
            == m.queue.instants_triggered,
        m.paused_state(true).queue.instants_triggered == m.queue.instants_triggered,
        m.inhibited_state().queue.instants_triggered == m.queue.instants_triggered,
        m.manually_resumed_state().queue.instants_triggered == m.queue.instants_triggered,
{
}

/// A fired non-lock action with a resume command enters the resume
/// queue exactly once — its count there rises by one — and a drain
/// empties the queue.
pub proof fn lemma_resume_queue_once(m: StateModel, now: u64)
    requires
        m.queue.wf(),
        m.queue.active().len() > 0,
    ensures
        ({
            let a = m.queue.active()[crate::manager::clamped_index(m.queue)];
            (a.kind != crate::action::IdleAction::LockScreen && a.resume_command is Some)
                ==> spec_fired(m, now).queue.resume_queue =~= m.queue.resume_queue.push(a)
        }),
        ({
            let a = m.queue.active()[crate::manager::clamped_index(m.queue)];
            !(a.kind != crate::action::IdleAction::LockScreen && a.resume_command is Some)
                ==> spec_fired(m, now).queue.resume_queue =~= m.queue.resume_queue
        }),
        spec_fired(m, now).drained_state().queue.resume_queue.len() == 0,
{
}

/// A manual pause followed by a manual resume restores the starting
/// state, provided the session was not already manually paused and no
/// inhibitor changed in between.
pub proof fn lemma_pause_resume_roundtrip(m: StateModel)
    requires
        m.inv(),
        !m.manually_paused,
    ensures
        m.paused_state(true).manually_resumed_state() == m,
{
    assert(m.paused_state(true).manually_resumed_state() =~= m);
}

/// Switching to a block twice is the same as switching once: after the
/// first switch the block is active, so the second is a no-op.
pub proof fn lemma_switch_block_idempotent(q: QueueModel, b: BlockKind)
    ensures
        q.switched(b).current_block == b,
        q.switched(b).switched(b) == q.switched(b),
{
    assert(q.switched(b).switched(b) =~= q.switched(b));
}

/// Two activity resets at the same instant are one: the reset is
/// idempotent, so input activity applied twice within one scheduler
/// tick leaves the same state as once.
#[verifier::rlimit(100)]
pub proof fn lemma_reset_idempotent(m: StateModel, now: u64, lock_alive: bool)
    requires
        m.inv(),
        now <= MAX_INSTANT,
    ensures
        spec_reset(spec_reset(m, now, lock_alive), now, lock_alive) == spec_reset(
            m,
            now,
            lock_alive,
        ),
{
    let s1 = spec_reset(m, now, lock_alive);
    let locked = m.lock_state.is_locked;
    let debounce_end = (now + crate::state::debounce_ms_of(m.cfg.debounce_seconds)) as u64;
    let q1 = m.queue.with_notification_cleared().cleared_before_lock(locked);
    let q2 = if !locked {
        q1.with_index(0)
    } else {
        q1
    };
    lemma_clear_gives_fixed_shape(m.queue.default_actions, locked);
    lemma_clear_gives_fixed_shape(m.queue.ac_actions, locked);
    lemma_clear_gives_fixed_shape(m.queue.battery_actions, locked);
    if !crate::manager::reset_stops_at_instant(q2.active()) && locked
        && crate::state::first_lock_from(q2.active(), 0) < q2.active().len() && lock_alive {
        let li = crate::state::first_lock_from(q2.active(), 0);
        let ni = if li + 1 < q2.active().len() {
            li + 1
        } else {
            q2.active().len() - 1
        };
        let c = q2.active();
        let u = c.update(ni, crate::queue::stamped(c[ni], debounce_end));
        lemma_first_lock_bounds(c, 0);
        assert(c[li].kind == crate::action::IdleAction::LockScreen);
        assert(li <= ni < c.len());
        assert(s1.queue.active() =~= u);
        match m.queue.current_block {
            crate::queue::BlockKind::Default => {
                lemma_clear_fixed(s1.queue.ac_actions, locked);
                lemma_clear_fixed(s1.queue.battery_actions, locked);
            },
            crate::queue::BlockKind::Ac => {
                lemma_clear_fixed(s1.queue.default_actions, locked);
                lemma_clear_fixed(s1.queue.battery_actions, locked);
            },
            crate::queue::BlockKind::Battery => {
                lemma_clear_fixed(s1.queue.default_actions, locked);
                lemma_clear_fixed(s1.queue.ac_actions, locked);
            },
        }
        assert(forall|k: int| 0 <= k < c.len() ==> (#[trigger] u[k]).kind == c[k].kind);
        crate::state::lemma_first_lock_agree(u, 0, li);
        assert(crate::state::first_lock_from(u, 0) == li);
        if li + 1 < c.len() {
            // The new stamp sits strictly after the lock stage, so the
            // active block is a fixed point of another clearing pass.
            lemma_update_keeps_fixed_shape(c, locked, ni, debounce_end, li);
            lemma_clear_fixed(u, locked);
            assert(s1.queue.active() == u);
            assert(crate::queue::clear_block(s1.queue.active(), locked) =~= s1.queue.active());
            assert(s1.queue.with_notification_cleared().cleared_before_lock(locked)
                =~= s1.queue);
            crate::state::lemma_first_lock_agree(s1.queue.active(), 0, li);
            let s2 = spec_reset(s1, now, lock_alive);
            if crate::manager::reset_stops_at_instant(s1.queue.active()) {
                assert(s2 =~= s1);
            } else {
                assert(crate::queue::stamped(
                    s1.queue.active()[ni],
                    debounce_end,
                ) =~= s1.queue.active()[ni]);
                assert(s1.queue.active().update(
                    ni,
                    crate::queue::stamped(s1.queue.active()[ni], debounce_end),
                ) =~= s1.queue.active());
                assert(s2 =~= s1);
            }
        } else {
            // The lock stage is last: the bump stamped the lock stage
            // itself. Another clearing pass removes that stamp again
            // (unless the lock stage is instant), and the second bump
            // restores it, landing on the same state.
            let w = crate::queue::clear_block(u, locked);
            assert forall|j: int| 0 <= j < u.len() implies #[trigger] w[j] == (if c[
                li
            ].spec_is_instant() {
                u[j]
            } else {
                c[j]
            }) by {
                assert(!crate::queue::has_lock_before(u, li)) by {
                    lemma_no_lock_before_first(c, li);
                    assert(forall|k: int|
                        0 <= k < li ==> (#[trigger] u[k]).kind
                            != crate::action::IdleAction::LockScreen);
                }
                if j < li {
                    assert(!crate::queue::has_lock_before(u, j)) by {
                        lemma_no_lock_before_first(c, li);
                    }
                    assert(u[j] == c[j]);
                    if c[j].spec_is_instant() {
                    } else {
                        assert(c[j].last_triggered is None);
                        assert(crate::queue::clear_stamp(c[j]) =~= c[j]);
                    }
                } else {
                    assert(j == li);
                    if c[li].spec_is_instant() {
                        assert(u[li].spec_is_instant());
                    } else {
                        assert(crate::queue::clear_stamp(u[li]) =~= c[li]);
                    }
                }
            }
            let active2 = if c[li].spec_is_instant() {
                u
            } else {
                c
            };
            assert(w =~= active2);
            let qcleared = s1.queue.with_notification_cleared().cleared_before_lock(locked);
            assert(qcleared =~= s1.queue.with_active(active2));
            assert(qcleared.active() =~= active2);
            assert(forall|k: int|
                0 <= k < active2.len() ==> (#[trigger] active2[k]).kind == c[k].kind);
            crate::state::lemma_first_lock_agree(active2, 0, li);
            assert(crate::state::first_lock_from(active2, 0) == li);
            let s2 = spec_reset(s1, now, lock_alive);
            if crate::manager::reset_stops_at_instant(active2) {
                assert(s2.queue.active() =~= u);
                assert(s2 =~= s1);
            } else {
                assert(active2.update(
                    li,
                    crate::queue::stamped(active2[li], debounce_end),
                ) =~= u);
                assert(s2.queue =~= s1.queue);
                assert(s2 =~= s1);
            }
        }
    } else {
        lemma_clear_fixed(s1.queue.default_actions, locked);
        lemma_clear_fixed(s1.queue.ac_actions, locked);
        lemma_clear_fixed(s1.queue.battery_actions, locked);
        assert(s1.queue.with_notification_cleared().cleared_before_lock(locked) =~= s1.queue);
        let s2 = spec_reset(s1, now, lock_alive);
        if locked && crate::state::first_lock_from(s1.queue.active(), 0)
            < s1.queue.active().len() && lock_alive {
            assert(crate::manager::reset_stops_at_instant(s1.queue.active()));
            assert(s2 =~= s1);
        } else {
            assert(s2 =~= s1);
        }
    }
}

/// The first lock index points at a lock action, with none before it.
proof fn lemma_first_lock_bounds(c: Seq<crate::action::IdleActionBlock>, i: int)
    requires
        0 <= i <= c.len(),
    ensures
        i <= crate::state::first_lock_from(c, i) <= c.len(),
        crate::state::first_lock_from(c, i) < c.len() ==> c[crate::state::first_lock_from(
            c,
            i,
        )].kind == crate::action::IdleAction::LockScreen,
        forall|k: int|
            i <= k < crate::state::first_lock_from(c, i) ==> (#[trigger] c[k]).kind
                != crate::action::IdleAction::LockScreen,
    decreases c.len() - i,
{
    if i < c.len() && c[i].kind != crate::action::IdleAction::LockScreen {
        lemma_first_lock_bounds(c, i + 1);
    }
}

/// No lock stands strictly before the first lock index.
proof fn lemma_no_lock_before_first(c: Seq<crate::action::IdleActionBlock>, li: int)
    requires
        0 <= li <= c.len(),
        li == crate::state::first_lock_from(c, 0),
    ensures
        forall|k: int|
            0 <= k < li ==> (#[trigger] c[k]).kind != crate::action::IdleAction::LockScreen,
        !crate::queue::has_lock_before(c, li),
{
    lemma_first_lock_bounds(c, 0);
}

/// A sequence whose every stage is protected (strictly after the lock
/// while locked, or instant) or already unstamped is a fixed point of
/// clearing.
proof fn lemma_clear_fixed(c: Seq<crate::action::IdleActionBlock>, locked: bool)
    requires
        forall|j: int|
            0 <= j < c.len() ==> ((locked && crate::queue::has_lock_before(c, j)) || (
            #[trigger] c[j]).spec_is_instant() || c[j].last_triggered is None),
    ensures
        crate::queue::clear_block(c, locked) =~= c,
{
    assert forall|j: int| 0 <= j < c.len() implies #[trigger] crate::queue::clear_block(
        c,
        locked,
    )[j] == c[j] by {
        if (locked && crate::queue::has_lock_before(c, j)) || c[j].spec_is_instant() {
        } else {
            assert(c[j].last_triggered is None);
            assert(crate::queue::clear_stamp(c[j]) =~= c[j]);
        }
    }
}

/// Every element of a cleared block is protected or unstamped.
proof fn lemma_clear_gives_fixed_shape(a: Seq<crate::action::IdleActionBlock>, locked: bool)
    ensures
        ({
            let c = crate::queue::clear_block(a, locked);
            forall|j: int|
                0 <= j < c.len() ==> ((locked && crate::queue::has_lock_before(c, j)) || (
                #[trigger] c[j]).spec_is_instant() || c[j].last_triggered is None)
        }),
{
    let c = crate::queue::clear_block(a, locked);
    assert forall|j: int|
        0 <= j < c.len() implies ((locked && crate::queue::has_lock_before(c, j)) || (
    #[trigger] c[j]).spec_is_instant() || c[j].last_triggered is None) by {
        assert(forall|k: int| 0 <= k < a.len() ==> (#[trigger] c[k]).kind == a[k].kind);
        if locked && crate::queue::has_lock_before(a, j) {
            let w = choose|w: int|
                0 <= w < j && w < a.len() && a[w].kind == crate::action::IdleAction::LockScreen;
            assert(c[w].kind == crate::action::IdleAction::LockScreen);
            assert(crate::queue::has_lock_before(c, j));
        } else if a[j].spec_is_instant() {
            assert(c[j] == a[j]);
        } else {
            assert(c[j] == crate::queue::clear_stamp(a[j]));
        }
    }
}

/// Stamping a stage strictly after the lock of a protected-or-unstamped
/// block keeps every element protected or unstamped.
proof fn lemma_update_keeps_fixed_shape(
    c: Seq<crate::action::IdleActionBlock>,
    locked: bool,
    ni: int,
    t: u64,
    li: int,
)
    requires
        locked,
        0 <= li < ni < c.len(),
        c[li].kind == crate::action::IdleAction::LockScreen,
        forall|j: int|
            0 <= j < c.len() ==> ((locked && crate::queue::has_lock_before(c, j)) || (
            #[trigger] c[j]).spec_is_instant() || c[j].last_triggered is None),
    ensures
        ({
            let u = c.update(ni, crate::queue::stamped(c[ni], t));
            forall|j: int|
                0 <= j < u.len() ==> ((locked && crate::queue::has_lock_before(u, j)) || (
                #[trigger] u[j]).spec_is_instant() || u[j].last_triggered is None)
        }),
{
    let u = c.update(ni, crate::queue::stamped(c[ni], t));
    assert forall|j: int|
        0 <= j < u.len() implies ((locked && crate::queue::has_lock_before(u, j)) || (
    #[trigger] u[j]).spec_is_instant() || u[j].last_triggered is None) by {
        assert(forall|k: int| 0 <= k < c.len() ==> (#[trigger] u[k]).kind == c[k].kind);
        if j > li {
            assert(u[li].kind == crate::action::IdleAction::LockScreen);
            assert(crate::queue::has_lock_before(u, j));
        } else {
            assert(u[j] == c[j]);
            if locked && crate::queue::has_lock_before(c, j) {
                let w = choose|w: int|
                    0 <= w < j && w < c.len() && c[w].kind
                        == crate::action::IdleAction::LockScreen;
                assert(u[w].kind == crate::action::IdleAction::LockScreen);
                assert(crate::queue::has_lock_before(u, j));
            }
        }
    }
}

/// The last stage stays the last stage: once the cursor stands on it,
/// firing it leaves the cursor clamped there.
pub proof fn lemma_index_stays_clamped(m: StateModel, now: u64)
    requires
        m.queue.wf(),
        now <= MAX_INSTANT,
        m.queue.active().len() > 0,
        m.queue.action_index == m.queue.active().len() - 1,
    ensures
        spec_fired(m, now).queue.action_index == m.queue.active().len() - 1,
        spec_fired(m, now).queue.wf(),
{
}

/// With a zero debounce the debounce window ends at the activity
/// instant itself, and an untriggered first stage fires exactly one
/// timeout after the activity.
pub proof fn lemma_zero_debounce(m: StateModel, now: u64, lock_alive: bool)
    requires
        m.inv(),
        now <= MAX_INSTANT,
        m.cfg.debounce_seconds == 0,
    ensures
        spec_reset(m, now, lock_alive).debounce == Some(now),
        spec_reset(m, now, lock_alive).last_activity == now,
        ({
            let s = spec_reset(m, now, lock_alive);
            (s.queue.active().len() > 0 && s.queue.active()[0].last_triggered is None)
                ==> crate::queue::original_fire_time(
                s.queue.active(),
                0,
                s.last_activity,
                s.debounce,
            ) == now + s.queue.active()[0].spec_timeout_ms()
        }),
{
}

} // verus!
