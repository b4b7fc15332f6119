//! Choosing the session whose lock signals the daemon follows, from a
//! listing of logind sessions.

use vstd::prelude::*;

verus! {

/// One session as logind lists it, with the type the daemon queried
/// for it (when that query succeeded).
#[derive(Debug)]
pub struct SessionEntry {
    pub session_id: String,
    pub uid: u32,
    pub username: String,
    pub seat: String,
    pub path: String,
    pub session_type: Option<String>,
}

/// A session of the given user that is graphical (wayland or x11) on
/// seat0 — the preferred pick.
pub open spec fn graphical_match(s: SessionEntry, uid: u32) -> bool {
    &&& s.uid == uid
    &&& s.seat@ == "seat0"@
    &&& (match s.session_type {
        Some(t) => t@ == "wayland"@ || t@ == "x11"@,
        None => false,
    })
}

/// Pick the session to monitor: the first graphical session of the
/// user on seat0, else the user's first session of any kind, else
/// nothing (the caller then falls back to its process id).
pub fn choose_session(sessions: &Vec<SessionEntry>, uid: u32) -> (r: Option<usize>)
    ensures
        (r matches Some(i) ==> i < sessions@.len()),
        ((exists|i: int| 0 <= i < sessions@.len() && graphical_match(#[trigger] sessions@[i], uid))
            ==> (r matches Some(i) && graphical_match(sessions@[i as int], uid) && (forall|
            k: int,
        |
            0 <= k < i ==> !graphical_match(#[trigger] sessions@[k], uid)))),
        (!(exists|i: int|
            0 <= i < sessions@.len() && graphical_match(#[trigger] sessions@[i], uid)) ==> ((
        exists|i: int| 0 <= i < sessions@.len() && (#[trigger] sessions@[i]).uid == uid) ==> (
        r matches Some(i) && sessions@[i as int].uid == uid && (forall|k: int|
            0 <= k < i ==> (#[trigger] sessions@[k]).uid != uid)))),
        ((forall|i: int| 0 <= i < sessions@.len() ==> (#[trigger] sessions@[i]).uid != uid)
            ==> r is None),
{
    let mut i: usize = 0;
    while i < sessions.len()
        invariant
            0 <= i <= sessions@.len(),
            forall|k: int| 0 <= k < i ==> !graphical_match(#[trigger] sessions@[k], uid),
        decreases sessions@.len() - i,
    {
        let s = &sessions[i];
        if s.uid == uid && crate::text::str_eq(s.seat.as_str(), "seat0") {
            let type_ok = match &s.session_type {
                Some(t) => crate::text::str_eq(t.as_str(), "wayland") || crate::text::str_eq(
                    t.as_str(),
                    "x11",
                ),
                None => false,
            };
            if type_ok {
                assert(graphical_match(sessions@[i as int], uid));
                return Some(i);
            }
        }
        i = i + 1;
    }
    let mut j: usize = 0;
    while j < sessions.len()
        invariant
            0 <= j <= sessions@.len(),
            forall|k: int| 0 <= k < sessions@.len() ==> !graphical_match(
                #[trigger] sessions@[k],
                uid,
            ),
            forall|k: int| 0 <= k < j ==> (#[trigger] sessions@[k]).uid != uid,
        decreases sessions@.len() - j,
    {
        if sessions[j].uid == uid {
            return Some(j);
        }
        j = j + 1;
    }
    None
}

} // verus!
