//! Process-supervision decisions: what to spawn, how to recognise a
//! process by name, and how to read the probes the daemon performs.

use vstd::prelude::*;
use crate::action::{IdleAction, IdleActionBlock, clone_opt_string};
use crate::text;

verus! {

/// What a spawned command is remembered by: its process id, its process
/// group, the command line, and the binary name liveness probes look for.
#[derive(Debug)]
pub struct ProcessInfo {
    pub pid: u32,
    pub pgid: u32,
    pub command: String,
    pub expected_process_name: Option<String>,
}

impl Clone for ProcessInfo {
    fn clone(&self) -> (res: Self)
        ensures
            res == *self,
    {
        ProcessInfo {
            pid: self.pid,
            pgid: self.pgid,
            command: self.command.clone(),
            expected_process_name: clone_opt_string(&self.expected_process_name),
        }
    }
}

/// What running an action comes down to: a command to spawn, or a skip
/// recording the probe command that found the work already done.
#[derive(Debug)]
pub enum ActionRequest {
    RunCommand(String),
    Skip(String),
}

impl Clone for ActionRequest {
    fn clone(&self) -> (res: Self)
        ensures
            res == *self,
    {
        match self {
            ActionRequest::RunCommand(s) => ActionRequest::RunCommand(s.clone()),
            ActionRequest::Skip(s) => ActionRequest::Skip(s.clone()),
        }
    }
}

/// The binary name expected from a command line: the basename of its
/// first whitespace-separated token.
pub open spec fn spec_expected_process_name(command: Seq<char>) -> Option<Seq<char>> {
    let tok = text::first_token(command);
    if tok.len() == 0 {
        None
    } else {
        let b = text::basename(tok);
        if b.len() == 0 {
            None
        } else {
            Some(b)
        }
    }
}

/// Extract the binary name liveness probes should look for.
pub fn extract_expected_process_name(command: &str) -> (r: Option<String>)
    ensures
        (r is Some <==> spec_expected_process_name(command@) is Some),
        (r matches Some(n) ==> Some(n@) == spec_expected_process_name(command@)),
{
    let tok = text::first_token_str(command);
    if tok.unicode_len() == 0 {
        return None;
    }
    let b = text::basename_str(tok);
    if b.unicode_len() == 0 {
        return None;
    }
    Some(b.to_owned())
}

/// The fifth whitespace-separated field of a `stat` record parsed as a
/// number: the process group id.
pub fn parse_pgid_from_stat(contents: &str) -> (r: Option<u32>)
    ensures
        (r is Some ==> text::fields_of(contents@).len() > 4),
        (r matches Some(v) ==> v == text::dec_val(text::fields_of(contents@)[4])),
        (text::fields_of(contents@).len() > 4 && text::parses_as_u64(
            text::fields_of(contents@)[4],
        ) && text::dec_val(text::fields_of(contents@)[4]) <= u32::MAX ==> r is Some),
{
    let fields = text::fields_str(contents);
    if fields.len() > 4 {
        proof {
            assert(fields@.map_values(|x: String| x@)[4] == fields@[4]@);
        }
        text::parse_u32(fields[4].as_str())
    } else {
        None
    }
}

/// A line of a `pid,pgid` process listing that names a member of the
/// given process group.
pub open spec fn is_member_line(l: Seq<char>, pgid: u32) -> bool {
    let fs = text::fields_of(l);
    &&& fs.len() >= 2
    &&& text::parses_as_u64(fs[0])
    &&& text::dec_val(fs[0]) <= u32::MAX
    &&& text::parses_as_u64(fs[1])
    &&& text::dec_val(fs[1]) == pgid
}

/// Whether a `pid,pgid` process listing (first line a header) shows any
/// surviving member of the process group.
pub fn ps_lists_group(text_out: &str, pgid: u32) -> (r: bool)
    ensures
        r == exists|i: int|
            1 <= i < text::lines_of(text_out@).len() && is_member_line(
                #[trigger] text::lines_of(text_out@)[i],
                pgid,
            ),
{
    let lines = text::lines_str(text_out);
    let mut i: usize = 1;
    while i < lines.len()
        invariant
            lines@.map_values(|x: String| x@) == text::lines_of(text_out@),
            1 <= i <= lines@.len() || (lines@.len() < 1 && i == 1),
            forall|k: int|
                1 <= k < i ==> !is_member_line(#[trigger] text::lines_of(text_out@)[k], pgid),
        decreases lines@.len() - i,
    {
        proof {
            assert(text::lines_of(text_out@)[i as int] == lines@[i as int]@);
        }
        let fields = text::fields_str(lines[i].as_str());
        if fields.len() >= 2 {
            proof {
                assert(fields@.map_values(|x: String| x@)[0] == fields@[0]@);
                assert(fields@.map_values(|x: String| x@)[1] == fields@[1]@);
            }
            let pid_ok = text::parse_u32(fields[0].as_str());
            let pg = text::parse_u64(fields[1].as_str());
            if pid_ok.is_some() {
                match pg {
                    Some(v) => if v == pgid as u64 {
                        return true;
                    },
                    None => {},
                }
            }
        }
        i = i + 1;
    }
    false
}

/// How liveness is decided from the three ordered probes: the original
/// pid still present, any process left in the group, or — when a binary
/// name is known — a system-wide name match.
pub fn process_active_given(
    pid_exists: bool,
    group_has_members: bool,
    name_match: Option<bool>,
) -> (r: bool)
    ensures
        r == (pid_exists || group_has_members || name_match == Some(true)),
{
    if pid_exists {
        true
    } else if group_has_members {
        true
    } else {
        match name_match {
            Some(m) => m,
            None => false,
        }
    }
}

/// Read a logind `LockedHint` property reply: locked exactly when the
/// trimmed output is `b true`.
pub fn parse_locked_hint(output: &str) -> (r: bool)
    ensures
        r == (text::trim_of(output@) == "b true"@),
{
    let t = text::trim_str(output);
    text::str_eq(t, "b true")
}

/// The probe command of a lock action: its `lock_command` when set, else
/// its command.
pub open spec fn lock_probe_command(a: IdleActionBlock) -> String {
    match a.lock_command {
        Some(c) => c,
        None => a.command,
    }
}

/// What `prepare_action` decides, given the lock probes' results.
pub open spec fn spec_prepare_action(
    a: IdleActionBlock,
    logind_locked: Option<bool>,
    probe_running: bool,
) -> Seq<ActionRequest> {
    if a.kind == IdleAction::LockScreen {
        let is_locked = if logind_locked == Some(true) {
            true
        } else {
            probe_running
        };
        if is_locked {
            seq![ActionRequest::Skip(lock_probe_command(a))]
        } else {
            seq![ActionRequest::RunCommand(a.command)]
        }
    } else {
        if text::trim_of(a.command@).len() == 0 {
            Seq::empty()
        } else {
            seq![ActionRequest::RunCommand(a.command)]
        }
    }
}

/// Decide what running an action comes down to. For a lock action the
/// caller supplies what logind reported and whether the probe command's
/// process is running; a session logind calls locked, or a live lock
/// process, turns the run into a skip. Any other action runs its command
/// unless that command is blank.
pub fn prepare_action(
    action: &IdleActionBlock,
    logind_locked: Option<bool>,
    probe_running: bool,
) -> (r: Vec<ActionRequest>)
    ensures
        r@ == spec_prepare_action(*action, logind_locked, probe_running),
{
    let mut out: Vec<ActionRequest> = Vec::new();
    if matches!(action.kind, IdleAction::LockScreen) {
        let is_locked = if logind_locked.is_some() && matches!(logind_locked, Some(true)) {
            true
        } else {
            probe_running
        };
        if is_locked {
            let probe_cmd = match &action.lock_command {
                Some(c) => c.clone(),
                None => action.command.clone(),
            };
            out.push(ActionRequest::Skip(probe_cmd));
        } else {
            out.push(ActionRequest::RunCommand(action.command.clone()));
        }
    } else {
        if text::trim_str(action.command.as_str()).unicode_len() > 0 {
            out.push(ActionRequest::RunCommand(action.command.clone()));
        }
    }
    proof {
        assert(out@ =~= spec_prepare_action(*action, logind_locked, probe_running));
    }
    out
}

} // verus!
