//! The IPC command surface: parsing the wire commands, the duration
//! grammar of `pause`, the fuzzy action lookup of `trigger`, and the
//! response texts.

use vstd::prelude::*;
use crate::action::{IdleAction, IdleActionBlock, MAX_INSTANT};
use crate::queue::BlockKind;
use crate::state::{LockState, ManagerState, StateModel};
use crate::text;

verus! {

/// One parsed wire command.
#[derive(Debug)]
pub enum IpcCommand {
    Reload,
    Pause,
    PauseFor(String),
    PauseHelp,
    Resume,
    TriggerAll,
    Trigger(String),
    ToggleInhibit,
    Info { json: bool },
    ListActions,
    Stop,
    Unknown(String),
}

/// Parse one wire command, as the socket dispatcher reads it: the text
/// is trimmed first; `pause` takes optional arguments, `trigger` takes
/// a required name.
pub fn parse_command(raw: &str) -> (r: IpcCommand)
    ensures
        (r is Reload ==> text::trim_of(raw@) == "reload"@),
        (text::trim_of(raw@) == "reload"@ ==> r is Reload),
        (r is Resume ==> text::trim_of(raw@) == "resume"@),
        (text::trim_of(raw@) == "resume"@ ==> r is Resume),
        (r is Stop ==> text::trim_of(raw@) == "stop"@),
        (text::trim_of(raw@) == "stop"@ ==> r is Stop),
        (r is ToggleInhibit ==> text::trim_of(raw@) == "toggle_inhibit"@),
        (text::trim_of(raw@) == "toggle_inhibit"@ ==> r is ToggleInhibit),
        (r is ListActions ==> text::trim_of(raw@) == "list_actions"@),
        (text::trim_of(raw@) == "list_actions"@ ==> r is ListActions),
        (r matches IpcCommand::Info { json } ==> (json == (text::trim_of(raw@)
            == "info --json"@) && (json || text::trim_of(raw@) == "info"@))),
        ({
            let t = text::trim_of(raw@);
            let trig = "trigger "@.is_prefix_of(t);
            let ps = !trig && "pause"@.is_prefix_of(t);
            let rtrim = text::trim_of(t.skip(5));
            let help_form = (text::lower_of(rtrim) == text::lower_of("help"@) || rtrim == "-h"@
                || rtrim == "--help"@);
            &&& (r is TriggerAll) == (trig && text::trim_of(t.skip(8)) == "all"@)
            &&& (r is Trigger) == (trig && text::trim_of(t.skip(8)) != "all"@)
            &&& (r matches IpcCommand::Trigger(name) ==> name@ == text::trim_of(t.skip(8)))
            &&& (r is Pause) == (ps && rtrim.len() == 0)
            &&& (r is PauseHelp) == (ps && rtrim.len() > 0 && help_form)
            &&& (r is PauseFor) == (ps && rtrim.len() > 0 && !help_form)
            &&& (r matches IpcCommand::PauseFor(args) ==> args@ == rtrim)
            &&& (r is Unknown) == (t != "reload"@ && t != "resume"@ && t != "stop"@ && t
                != "toggle_inhibit"@ && t != "list_actions"@ && t != "info"@ && t
                != "info --json"@ && !trig && !ps)
            &&& (r matches IpcCommand::Unknown(c) ==> c@ == t)
        }),
{
    proof {
        reveal_strlit("reload");
        reveal_strlit("resume");
        reveal_strlit("stop");
        reveal_strlit("toggle_inhibit");
        reveal_strlit("list_actions");
        reveal_strlit("info");
        reveal_strlit("info --json");
        reveal_strlit("pause");
        reveal_strlit("trigger ");
        assert("reload"@ != "resume"@) by {
            reveal_strlit("reload");
            reveal_strlit("resume");
            assert("reload"@[2] != "resume"@[2]);
        }
        assert("stop"@ != "info"@) by {
            reveal_strlit("stop");
            reveal_strlit("info");
            assert("stop"@[0] != "info"@[0]);
        }
        assert("reload"@.len() == 6);
        assert("resume"@.len() == 6);
        assert("stop"@.len() == 4);
        assert("toggle_inhibit"@.len() == 14);
        assert("list_actions"@.len() == 12);
        assert("info"@.len() == 4);
        assert("info --json"@.len() == 11);
        assert("pause"@.len() == 5);
        assert("trigger "@.len() == 8);
        assert(!"trigger "@.is_prefix_of("toggle_inhibit"@)) by {
            reveal_strlit("toggle_inhibit");
            reveal_strlit("trigger ");
            assert("trigger "@[1] != "toggle_inhibit"@[1]);
            assert("toggle_inhibit"@.subrange(0, 8)[1] == "toggle_inhibit"@[1]);
        }
        assert(!"trigger "@.is_prefix_of("list_actions"@)) by {
            reveal_strlit("list_actions");
            reveal_strlit("trigger ");
            assert("trigger "@[0] != "list_actions"@[0]);
            assert("list_actions"@.subrange(0, 8)[0] == "list_actions"@[0]);
        }
        assert(!"trigger "@.is_prefix_of("info --json"@)) by {
            reveal_strlit("info --json");
            reveal_strlit("trigger ");
            assert("trigger "@[0] != "info --json"@[0]);
            assert("info --json"@.subrange(0, 8)[0] == "info --json"@[0]);
        }
        assert(!"pause"@.is_prefix_of("reload"@)) by {
            reveal_strlit("reload");
            reveal_strlit("pause");
            assert("pause"@[0] != "reload"@[0]);
            assert("reload"@.subrange(0, 5)[0] == "reload"@[0]);
        }
        assert(!"pause"@.is_prefix_of("resume"@)) by {
            reveal_strlit("resume");
            reveal_strlit("pause");
            assert("pause"@[0] != "resume"@[0]);
            assert("resume"@.subrange(0, 5)[0] == "resume"@[0]);
        }
        assert(!"pause"@.is_prefix_of("toggle_inhibit"@)) by {
            reveal_strlit("toggle_inhibit");
            reveal_strlit("pause");
            assert("pause"@[0] != "toggle_inhibit"@[0]);
            assert("toggle_inhibit"@.subrange(0, 5)[0] == "toggle_inhibit"@[0]);
        }
        assert(!"pause"@.is_prefix_of("list_actions"@)) by {
            reveal_strlit("list_actions");
            reveal_strlit("pause");
            assert("pause"@[0] != "list_actions"@[0]);
            assert("list_actions"@.subrange(0, 5)[0] == "list_actions"@[0]);
        }
        assert(!"pause"@.is_prefix_of("info --json"@)) by {
            reveal_strlit("info --json");
            reveal_strlit("pause");
            assert("pause"@[0] != "info --json"@[0]);
            assert("info --json"@.subrange(0, 5)[0] == "info --json"@[0]);
        }
    }
    let cmd = text::trim_str(raw);
    if text::str_eq(cmd, "reload") {
        return IpcCommand::Reload;
    }
    if text::str_eq(cmd, "resume") {
        return IpcCommand::Resume;
    }
    if text::str_eq(cmd, "stop") {
        return IpcCommand::Stop;
    }
    if text::str_eq(cmd, "toggle_inhibit") {
        return IpcCommand::ToggleInhibit;
    }
    if text::str_eq(cmd, "list_actions") {
        return IpcCommand::ListActions;
    }
    if text::str_eq(cmd, "info") {
        return IpcCommand::Info { json: false };
    }
    if text::str_eq(cmd, "info --json") {
        return IpcCommand::Info { json: true };
    }
    match text::strip_prefix_str(cmd, "trigger ") {
        Some(rest) => {
            proof {
                reveal_strlit("trigger ");
                assert(rest@ =~= cmd@.skip(8));
            }
            let step = text::trim_str(rest);
            if text::str_eq(step, "all") {
                return IpcCommand::TriggerAll;
            }
            return IpcCommand::Trigger(step.to_owned());
        },
        None => {},
    }
    match text::strip_prefix_str(cmd, "pause") {
        Some(rest) => {
            proof {
                reveal_strlit("pause");
                assert(rest@ =~= cmd@.skip(5));
            }
            let args = text::trim_str(rest);
            if args.unicode_len() == 0 {
                return IpcCommand::Pause;
            }
            if text::eq_ignore_case(args, "help") || text::str_eq(args, "-h") || text::str_eq(
                args,
                "--help",
            ) {
                return IpcCommand::PauseHelp;
            }
            return IpcCommand::PauseFor(args.to_owned());
        },
        None => {},
    }
    IpcCommand::Unknown(cmd.to_owned())
}

/// The digits and the multiplier of one duration token: an `h`, `m` or
/// `s` suffix scales the digits before it; bare digits are seconds.
pub open spec fn token_parts(t: Seq<char>) -> (Seq<char>, int) {
    if t.len() == 0 {
        (t, 1int)
    } else if t.last() == 'h' {
        (t.drop_last(), 3600int)
    } else if t.last() == 'm' {
        (t.drop_last(), 60int)
    } else if t.last() == 's' {
        (t.drop_last(), 1int)
    } else {
        (t, 1int)
    }
}

/// The value of one duration token; digits are required.
pub open spec fn token_secs(t: Seq<char>) -> Option<int> {
    if t.len() == 0 {
        None
    } else {
        let digits = token_parts(t).0;
        let mult = token_parts(t).1;
        if digits.len() > 0 && (forall|k: int| 0 <= k < digits.len() ==> text::is_digit(
            digits[k],
        )) {
            Some(text::dec_val(digits) * mult)
        } else {
            None
        }
    }
}

/// The total seconds of a whitespace-separated duration, when every
/// token parses.
pub open spec fn duration_secs(tokens: Seq<Seq<char>>) -> Option<int>
    decreases tokens.len(),
{
    if tokens.len() == 0 {
        Some(0)
    } else {
        match (duration_secs(tokens.drop_last()), token_secs(tokens.last())) {
            (Some(a), Some(b)) => Some(a + b),
            _ => None,
        }
    }
}

/// Parse a human duration such as `1h 30m 15s`: `Some` exactly when the
/// text has at least one token, every token is digits with an optional
/// `h`/`m`/`s` suffix, and the total fits.
pub fn parse_duration(s: &str) -> (r: Option<u64>)
    ensures
        (r is Some) == (text::fields_of(s@).len() > 0 && (duration_secs(text::fields_of(s@))
            matches Some(v) && v <= u64::MAX)),
        (r matches Some(v) ==> Some(v as int) == duration_secs(text::fields_of(s@))),
{
    let fields = text::fields_str(s);
    if fields.len() == 0 {
        return None;
    }
    let mut total: u64 = 0;
    let mut i: usize = 0;
    while i < fields.len()
        invariant
            fields@.map_values(|x: String| x@) == text::fields_of(s@),
            0 <= i <= fields@.len(),
            Some(total as int) == duration_secs(text::fields_of(s@).subrange(0, i as int)),
        decreases fields@.len() - i,
    {
        proof {
            assert(text::fields_of(s@)[i as int] == fields@[i as int]@);
            assert(text::fields_of(s@).subrange(0, i + 1 as int).drop_last()
                =~= text::fields_of(s@).subrange(0, i as int));
        }
        let v = match parse_token_secs(fields[i].as_str()) {
            Some(v) => v,
            None => {
                proof {
                    if token_secs(text::fields_of(s@)[i as int]) is None {
                        lemma_duration_none(text::fields_of(s@), i as int);
                    } else {
                        lemma_duration_dominates(text::fields_of(s@), i as int);
                    }
                }
                return None;
            },
        };
        if total > u64::MAX - v {
            proof {
                lemma_duration_monotone(text::fields_of(s@), i + 1);
            }
            return None;
        }
        total = total + v;
        i = i + 1;
    }
    proof {
        assert(text::fields_of(s@).subrange(0, text::fields_of(s@).len() as int)
            =~= text::fields_of(s@));
    }
    Some(total)
}

/// Parse one duration token; the value is clamped-free: `None` when the
/// digits overflow a `u64` even before the multiplier.
fn parse_token_secs(t: &str) -> (r: Option<u64>)
    ensures
        (r matches Some(v) ==> token_secs(t@) == Some(v as int)),
        (r is None ==> (token_secs(t@) is None || (token_secs(t@) matches Some(v) && v
            > u64::MAX))),
{
    let n: usize = t.unicode_len();
    if n == 0 {
        return None;
    }
    let last = t.get_char(n - 1);
    let has_suffix = last == 'h' || last == 'm' || last == 's';
    let digits: &str = if has_suffix {
        t.substring_char(0, n - 1)
    } else {
        t
    };
    let mult: u64 = if last == 'h' {
        3600
    } else if last == 'm' {
        60
    } else {
        1
    };
    proof {
        assert(t@.subrange(0, n - 1 as int) =~= t@.drop_last());
        assert(digits@ == token_parts(t@).0);
        assert(mult as int == token_parts(t@).1);
    }
    match text::parse_u64(digits) {
        Some(v) => {
            if v > u64::MAX / mult {
                proof {
                    assert(v * mult > u64::MAX) by (nonlinear_arith)
                        requires
                            v > u64::MAX / mult,
                            mult == 3600 || mult == 60 || mult == 1,
                    ;
                }
                None
            } else {
                proof {
                    assert(v * mult <= u64::MAX) by (nonlinear_arith)
                        requires
                            v <= u64::MAX / mult,
                            mult == 3600 || mult == 60 || mult == 1,
                    ;
                }
                Some(v * mult)
            }
        },
        None => {
            proof {
                if digits@.len() > 0 && (forall|k: int|
                    0 <= k < digits@.len() ==> text::is_digit(digits@[k])) {
                    assert(!text::parses_as_u64(digits@));
                    assert(text::dec_val(digits@) > u64::MAX);
                    let mult: int = if t@.len() > 0 && t@.last() == 'h' {
                        3600
                    } else if t@.len() > 0 && t@.last() == 'm' {
                        60
                    } else {
                        1
                    };
                    assert(text::dec_val(digits@) * mult > u64::MAX) by (nonlinear_arith)
                        requires
                            text::dec_val(digits@) > u64::MAX,
                            mult == 3600 || mult == 60 || mult == 1,
                    ;
                }
            }
            None
        },
    }
}

proof fn lemma_duration_none(tokens: Seq<Seq<char>>, i: int)
    requires
        0 <= i < tokens.len(),
        token_secs(tokens[i]) is None,
    ensures
        duration_secs(tokens) is None,
    decreases tokens.len(),
{
    if tokens.len() > 0 {
        if i == tokens.len() - 1 {
        } else {
            lemma_duration_none(tokens.drop_last(), i);
        }
    }
}

/// A duration is at least any one of its tokens.
proof fn lemma_duration_dominates(tokens: Seq<Seq<char>>, i: int)
    requires
        0 <= i < tokens.len(),
    ensures
        (duration_secs(tokens) matches Some(v) ==> (token_secs(tokens[i]) matches Some(x) && v
            >= x)),
    decreases tokens.len(),
{
    if duration_secs(tokens) is Some {
        if i == tokens.len() - 1 {
            lemma_duration_nonneg(tokens.drop_last());
        } else {
            lemma_duration_dominates(tokens.drop_last(), i);
            lemma_token_secs_nonneg(tokens.last());
        }
    }
}

/// A duration, when defined, is never negative.
proof fn lemma_duration_nonneg(tokens: Seq<Seq<char>>)
    ensures
        duration_secs(tokens) matches Some(v) ==> v >= 0,
    decreases tokens.len(),
{
    if tokens.len() > 0 && duration_secs(tokens) is Some {
        lemma_duration_nonneg(tokens.drop_last());
        lemma_token_secs_nonneg(tokens.last());
    }
}

/// Prefix sums of a duration only grow.
proof fn lemma_duration_monotone(tokens: Seq<Seq<char>>, i: int)
    requires
        0 <= i <= tokens.len(),
    ensures
        (duration_secs(tokens) matches Some(v) ==> (duration_secs(tokens.subrange(0, i))
            matches Some(p) && p <= v)),
    decreases tokens.len() - i,
{
    if i == tokens.len() {
        assert(tokens.subrange(0, tokens.len() as int) =~= tokens);
    } else {
        lemma_duration_monotone(tokens, i + 1);
        let a = tokens.subrange(0, i);
        let b = tokens.subrange(0, i + 1);
        assert(b.drop_last() =~= a);
        if duration_secs(tokens) is Some {
            if duration_secs(b) matches Some(q) {
                assert(token_secs(b.last()) matches Some(x) && x >= 0) by {
                    lemma_token_secs_nonneg(b.last());
                }
            }
        }
    }
}

proof fn lemma_token_secs_nonneg(t: Seq<char>)
    ensures
        token_secs(t) matches Some(v) ==> v >= 0,
{
    if token_secs(t) is Some {
        if t.len() > 0 {
            if t.last() == 'h' {
                text::lemma_dec_val_nonneg(t.drop_last());
                assert(text::dec_val(t.drop_last()) * 3600 >= 0) by (nonlinear_arith)
                    requires
                        text::dec_val(t.drop_last()) >= 0,
                ;
            } else if t.last() == 'm' {
                text::lemma_dec_val_nonneg(t.drop_last());
                assert(text::dec_val(t.drop_last()) * 60 >= 0) by (nonlinear_arith)
                    requires
                        text::dec_val(t.drop_last()) >= 0,
                ;
            } else if t.last() == 's' {
                text::lemma_dec_val_nonneg(t.drop_last());
            } else {
                text::lemma_dec_val_nonneg(t);
            }
        }
    }
}

/// The action name without its block prefix.
pub open spec fn spec_strip_prefix(name: Seq<char>) -> Seq<char> {
    if "ac."@.is_prefix_of(name) {
        name.skip(3)
    } else if "battery."@.is_prefix_of(name) {
        name.skip(8)
    } else {
        name
    }
}

/// Strip the `ac.` / `battery.` block prefix off an action name.
pub fn strip_action_prefix<'a>(name: &'a str) -> (r: &'a str)
    ensures
        r@ == spec_strip_prefix(name@),
{
    match text::strip_prefix_str(name, "ac.") {
        Some(rest) => {
            proof {
                reveal_strlit("ac.");
                assert(name@.subrange(3, name@.len() as int) =~= name@.skip(3));
            }
            rest
        },
        None => {
            match text::strip_prefix_str(name, "battery.") {
                Some(rest) => {
                    proof {
                        reveal_strlit("battery.");
                        assert(name@.subrange(8, name@.len() as int) =~= name@.skip(8));
                    }
                    rest
                },
                None => name,
            }
        },
    }
}

/// The lower-case token of an action kind.
pub open spec fn kind_token(k: IdleAction) -> Seq<char> {
    match k {
        IdleAction::LockScreen => "lockscreen"@,
        IdleAction::Suspend => "suspend"@,
        IdleAction::Dpms => "dpms"@,
        IdleAction::Brightness => "brightness"@,
        IdleAction::Custom => "custom"@,
    }
}

fn kind_name(k: IdleAction) -> (r: &'static str)
    ensures
        r@ == kind_token(k),
{
    match k {
        IdleAction::LockScreen => "lockscreen",
        IdleAction::Suspend => "suspend",
        IdleAction::Dpms => "dpms",
        IdleAction::Brightness => "brightness",
        IdleAction::Custom => "custom",
    }
}

/// The normalized form of a query: underscores become hyphens, letters
/// lower-case.
pub open spec fn spec_normalize(s: Seq<char>) -> Seq<char> {
    text::lower_of(s.map_values(|c: char| if c == '_' { '-' } else { c }))
}

fn normalize_query(s: &str) -> (r: String)
    ensures
        r@ == spec_normalize(s@),
{
    let replaced = text::replace_char(s, '_', '-');
    text::to_lower(replaced.as_str())
}

/// A sequence without its hyphens.
pub open spec fn dehyphen(s: Seq<char>) -> Seq<char> {
    s.filter(|c: char| c != '-')
}

/// Whether an action answers a normalized query: by its kind token, by
/// its stripped or full name, each also compared with hyphens ignored.
pub open spec fn matches_query(a: IdleActionBlock, q: Seq<char>) -> bool {
    let kn = kind_token(a.kind);
    let stripped = text::lower_of(spec_strip_prefix(a.name@));
    ||| kn == q
    ||| dehyphen(kn) == dehyphen(q)
    ||| stripped == q
    ||| dehyphen(stripped) == dehyphen(q)
    ||| text::lower_of(a.name@) == q
}

fn matches_query_exec(a: &IdleActionBlock, q: &str) -> (r: bool)
    ensures
        r == matches_query(*a, q@),
{
    let kn = kind_name(a.kind);
    if text::str_eq(kn, q) {
        return true;
    }
    let kn_nh = text::remove_char(kn, '-');
    let q_nh = text::remove_char(q, '-');
    if text::str_eq(kn_nh.as_str(), q_nh.as_str()) {
        return true;
    }
    let stripped = text::to_lower(strip_action_prefix(a.name.as_str()));
    if text::str_eq(stripped.as_str(), q) {
        return true;
    }
    let stripped_nh = text::remove_char(stripped.as_str(), '-');
    if text::str_eq(stripped_nh.as_str(), q_nh.as_str()) {
        return true;
    }
    let full = text::to_lower(a.name.as_str());
    text::str_eq(full.as_str(), q)
}

/// The index of the first action at or after `i` answering the query,
/// or the length when none does.
pub open spec fn first_match_from(block: Seq<IdleActionBlock>, q: Seq<char>, i: int) -> int
    decreases block.len() - i,
{
    if i < 0 || i >= block.len() {
        block.len() as int
    } else if matches_query(block[i], q) {
        i
    } else {
        first_match_from(block, q, i + 1)
    }
}

/// The first action of a block answering the query, when one does.
pub open spec fn spec_first_match(block: Seq<IdleActionBlock>, q: Seq<char>) -> Option<
    IdleActionBlock,
> {
    let fi = first_match_from(block, q, 0);
    if fi < block.len() {
        Some(block[fi])
    } else {
        None
    }
}

proof fn lemma_first_match_agree(block: Seq<IdleActionBlock>, q: Seq<char>, i: int, j: int)
    requires
        0 <= i <= j <= block.len(),
        forall|k: int| i <= k < j ==> !matches_query(#[trigger] block[k], q),
        j < block.len() ==> matches_query(block[j], q),
    ensures
        first_match_from(block, q, i) == if j < block.len() {
            j
        } else {
            block.len() as int
        },
    decreases j - i,
{
    if i < j {
        lemma_first_match_agree(block, q, i + 1, j);
    }
}

/// Find the first action answering a normalized query.
fn find_query_match(block: &Vec<IdleActionBlock>, q: &str) -> (r: Option<usize>)
    ensures
        (r matches Some(i) ==> i < block@.len() && Some(block@[i as int]) == spec_first_match(
            block@,
            q@,
        )),
        (r is Some) == (spec_first_match(block@, q@) is Some),
{
    let mut i: usize = 0;
    while i < block.len()
        invariant
            0 <= i <= block@.len(),
            forall|k: int| 0 <= k < i ==> !matches_query(#[trigger] block@[k], q@),
        decreases block@.len() - i,
    {
        if matches_query_exec(&block[i], q) {
            proof {
                lemma_first_match_agree(block@, q@, 0, i as int);
            }
            return Some(i);
        }
        i = i + 1;
    }
    proof {
        lemma_first_match_agree(block@, q@, 0, block@.len() as int);
    }
    None
}

/// Which block a trigger query searches, and the name searched for: an
/// explicit `ac.` / `battery.` prefix picks that block; otherwise the
/// block follows the power state when power-specific blocks exist.
pub open spec fn spec_query_block(m: StateModel, q: Seq<char>) -> (BlockKind, Seq<char>) {
    if "ac."@.is_prefix_of(q) {
        (BlockKind::Ac, q.skip(3))
    } else if "battery."@.is_prefix_of(q) {
        (BlockKind::Battery, q.skip(8))
    } else if m.queue.ac_actions.len() > 0 || m.queue.battery_actions.len() > 0 {
        match m.spec_on_battery() {
            Some(true) => (BlockKind::Battery, q),
            Some(false) => (BlockKind::Ac, q),
            None => (BlockKind::Default, q),
        }
    } else {
        (BlockKind::Default, q)
    }
}

/// The block sequence a block kind names.
pub open spec fn block_of(m: StateModel, b: BlockKind) -> Seq<IdleActionBlock> {
    match b {
        BlockKind::Default => m.queue.default_actions,
        BlockKind::Ac => m.queue.ac_actions,
        BlockKind::Battery => m.queue.battery_actions,
    }
}

/// What a `trigger <name>` command comes to.
pub enum TriggerDecision {
    /// Run the pre-suspend command (when configured) and wait for it.
    PreSuspend { command: Option<String> },
    /// No action answered; the caller reports the available names.
    NotFound { available: Vec<String> },
    /// A lock that goes through loginctl: run it, let the signal drive.
    Loginctl { command: String },
    /// A direct lock: the state was marked locked and bumped past the
    /// lock stage; the daemon wakes the lock supervisor and scheduler.
    LockBumped { name: String },
    /// Any other action: drive it through the run pipeline.
    Run { action: IdleActionBlock },
}

/// The state after an IPC lock trigger: locked, probe command recorded,
/// bumped past the lock stage with every stamp cleared and the stage
/// after the lock anchored at the debounce end.
pub open spec fn spec_ipc_lock_bump(m: StateModel, command: String, now: u64) -> StateModel {
    let debounce_end = (now + crate::state::debounce_ms_of(m.cfg.debounce_seconds)) as u64;
    let q1 = m.queue.with_stamps_cleared();
    let acts = q1.active();
    let li = crate::state::first_lock_from(acts, 0);
    let q2 = if li < acts.len() {
        let ni = if li + 1 < acts.len() {
            li + 1
        } else {
            acts.len() - 1
        };
        q1.with_index(ni as usize).with_active(
            acts.update(ni, crate::queue::stamped(acts[ni], debounce_end)),
        )
    } else {
        q1.with_index(0)
    };
    StateModel {
        queue: q2,
        lock_state: LockState {
            is_locked: true,
            command: Some(command),
            post_advanced: true,
            last_advanced: Some(now),
            ..m.lock_state
        },
        last_activity: now,
        debounce: Some(debounce_end),
        ..m
    }
}

impl ManagerState {
    /// Trigger one action by name over IPC. The query is normalized and
    /// matched fuzzily against the chosen block; `pre-suspend` is
    /// answered directly. A loginctl lock only runs its command; any
    /// other lock marks the session locked and bumps past the lock
    /// stage; everything else is handed back to run.
    #[verifier::rlimit(100)]
    pub fn trigger_action_by_name(&mut self, name: &str, now: u64) -> (r: TriggerDecision)
        requires
            old(self)@.inv(),
            now <= MAX_INSTANT,
        ensures
            final(self)@.inv(),
            ({
                let q = spec_normalize(name@);
                let bk = spec_query_block(old(self)@, q).0;
                let search = spec_query_block(old(self)@, q).1;
                let found = spec_first_match(block_of(old(self)@, bk), search);
                let presus = (q == "pre-suspend"@ || q == "presuspend"@);
                &&& (r is PreSuspend) == presus
                &&& (r matches TriggerDecision::PreSuspend { command } ==> command == old(
                    self,
                )@.pre_suspend_command && final(self)@ == old(self)@)
                &&& (r is NotFound) == (!presus && found is None)
                &&& (r matches TriggerDecision::NotFound { available } ==> final(self)@ == old(
                    self,
                )@ && strings_sorted(available@.map_values(|s: String| s@))
                    && available@.map_values(|s: String| s@).to_multiset()
                    == spec_available_names(old(self)@, bk).to_multiset())
                &&& (r is Loginctl) == (!presus && (found matches Some(a) && a.kind
                    == IdleAction::LockScreen && text::contains_seq(
                    a.command@,
                    "loginctl lock-session"@,
                )))
                &&& (r matches TriggerDecision::Loginctl { command } ==> (found matches Some(a)
                    && command == a.command) && final(self)@ == old(self)@)
                &&& (r is LockBumped) == (!presus && (found matches Some(a) && a.kind
                    == IdleAction::LockScreen && !text::contains_seq(
                    a.command@,
                    "loginctl lock-session"@,
                )))
                &&& (r matches TriggerDecision::LockBumped { name: n } ==> (found matches Some(
                    a,
                ) && n@ == spec_strip_prefix(a.name@) && final(self)@ == spec_ipc_lock_bump(
                    old(self)@,
                    a.command,
                    now,
                )))
                &&& (r is Run) == (!presus && (found matches Some(a) && a.kind
                    != IdleAction::LockScreen))
                &&& (r matches TriggerDecision::Run { action } ==> (found matches Some(a)
                    && action == a) && final(self)@ == old(self)@)
            }),
    {
        let normalized = normalize_query(name);
        if text::str_eq(normalized.as_str(), "pre-suspend") || text::str_eq(
            normalized.as_str(),
            "presuspend",
        ) {
            return TriggerDecision::PreSuspend {
                command: crate::action::clone_opt_string(&self.pre_suspend_command),
            };
        }
        let (block_kind, search): (BlockKind, String) = match text::strip_prefix_str(
            normalized.as_str(),
            "ac.",
        ) {
            Some(rest) => {
                proof {
                    reveal_strlit("ac.");
                    assert(normalized@.subrange(3, normalized@.len() as int)
                        =~= normalized@.skip(3));
                }
                (BlockKind::Ac, rest.to_owned())
            },
            None => {
                match text::strip_prefix_str(normalized.as_str(), "battery.") {
                    Some(rest) => {
                        proof {
                            reveal_strlit("battery.");
                            assert(normalized@.subrange(8, normalized@.len() as int)
                                =~= normalized@.skip(8));
                        }
                        (BlockKind::Battery, rest.to_owned())
                    },
                    None => {
                        let kind = if self.queue.ac_actions.len() > 0
                            || self.queue.battery_actions.len() > 0 {
                            match self.on_battery() {
                                Some(true) => BlockKind::Battery,
                                Some(false) => BlockKind::Ac,
                                None => BlockKind::Default,
                            }
                        } else {
                            BlockKind::Default
                        };
                        (kind, normalized.clone())
                    },
                }
            },
        };
        let block = match block_kind {
            BlockKind::Default => &self.queue.default_actions,
            BlockKind::Ac => &self.queue.ac_actions,
            BlockKind::Battery => &self.queue.battery_actions,
        };
        let found = find_query_match(block, search.as_str());
        let action = match found {
            Some(i) => block[i].clone(),
            None => {
                return TriggerDecision::NotFound {
                    available: self.available_action_names(block_kind),
                };
            },
        };
        if matches!(action.kind, IdleAction::LockScreen) {
            if text::contains_str(action.command.as_str(), "loginctl lock-session") {
                return TriggerDecision::Loginctl { command: action.command };
            }
            let stripped = strip_action_prefix(action.name.as_str()).to_owned();
            let command = action.command.clone();
            self.ipc_lock_bump(command, now);
            return TriggerDecision::LockBumped { name: stripped };
        }
        TriggerDecision::Run { action }
    }

    /// Apply the IPC lock trigger's state change.
    #[verifier::rlimit(100)]
    fn ipc_lock_bump(&mut self, command: String, now: u64)
        requires
            old(self)@.inv(),
            now <= MAX_INSTANT,
        ensures
            final(self)@ == spec_ipc_lock_bump(old(self)@, command, now),
            final(self)@.inv(),
    {
        let ghost cmd = command;
        self.lock_state.is_locked = true;
        self.lock_state.post_advanced = true;
        self.lock_state.last_advanced = Some(now);
        self.lock_state.command = Some(command);
        let debounce_ms = (self.cfg.debounce_seconds as u64) * 1000;
        let debounce_end = now + debounce_ms;
        self.last_activity = now;
        self.debounce = Some(debounce_end);
        self.queue.clear_stamps_all_blocks();
        let ghost q1 = self@.queue;
        match self.queue.find_lock_index() {
            Some(li) => {
                proof {
                    crate::state::lemma_first_lock_agree(q1.active(), 0, li as int);
                }
                let len = self.queue.get_active_actions().len();
                let ni = if li + 1 < len {
                    li + 1
                } else {
                    len - 1
                };
                self.queue.stamp_active(ni, debounce_end);
                self.queue.set_index(ni);
            },
            None => {
                proof {
                    crate::state::lemma_first_lock_agree(q1.active(), 0, q1.active().len() as int);
                }
                self.queue.reset_index();
            },
        }
        proof {
            assert(self@ =~= spec_ipc_lock_bump(old(self)@, cmd, now));
        }
    }

    /// The names offered to a failed trigger: the block's names without
    /// their prefixes, plus `pre_suspend` when configured, sorted.
    pub fn available_action_names(&self, block_kind: BlockKind) -> (r: Vec<String>)
        ensures
            strings_sorted(r@.map_values(|s: String| s@)),
            r@.map_values(|s: String| s@).to_multiset() == spec_available_names(
                self@,
                block_kind,
            ).to_multiset(),
    {
        let block = match block_kind {
            BlockKind::Default => &self.queue.default_actions,
            BlockKind::Ac => &self.queue.ac_actions,
            BlockKind::Battery => &self.queue.battery_actions,
        };
        let mut names: Vec<String> = Vec::new();
        let mut i: usize = 0;
        while i < block.len()
            invariant
                block@ == block_of(self@, block_kind),
                0 <= i <= block@.len(),
                names@.map_values(|s: String| s@) =~= block@.subrange(0, i as int).map_values(
                    |a: IdleActionBlock| spec_strip_prefix(a.name@),
                ),
            decreases block@.len() - i,
        {
            let ghost pre = names@;
            names.push(strip_action_prefix(block[i].name.as_str()).to_owned());
            proof {
                assert(names@.map_values(|s: String| s@) =~= pre.map_values(
                    |s: String| s@,
                ).push(spec_strip_prefix(block@[i as int].name@)));
                assert(block@.subrange(0, i + 1 as int).map_values(
                    |a: IdleActionBlock| spec_strip_prefix(a.name@),
                ) =~= block@.subrange(0, i as int).map_values(
                    |a: IdleActionBlock| spec_strip_prefix(a.name@),
                ).push(spec_strip_prefix(block@[i as int].name@)));
            }
            i = i + 1;
        }
        proof {
            assert(block@.subrange(0, block@.len() as int) =~= block@);
        }
        if self.pre_suspend_command.is_some() {
            let ghost pre = names@;
            names.push(String::from_str("pre_suspend"));
            proof {
                assert(names@.map_values(|s: String| s@) =~= pre.map_values(
                    |s: String| s@,
                ).push("pre_suspend"@));
            }
        }
        proof {
            assert(names@.map_values(|s: String| s@) =~= spec_available_names(
                self@,
                block_kind,
            ));
        }
        sort_strings(names)
    }
}

/// The unsorted available names of a block.
pub open spec fn spec_available_names(m: StateModel, b: BlockKind) -> Seq<Seq<char>> {
    let base = block_of(m, b).map_values(|a: IdleActionBlock| spec_strip_prefix(a.name@));
    if m.pre_suspend_command is Some {
        base.push("pre_suspend"@)
    } else {
        base
    }
}

/// Lexicographic order on character sequences, by code point.
pub open spec fn str_le(a: Seq<char>, b: Seq<char>) -> bool
    decreases a.len(),
{
    if a.len() == 0 {
        true
    } else if b.len() == 0 {
        false
    } else if (a[0] as u32) < (b[0] as u32) {
        true
    } else if (a[0] as u32) > (b[0] as u32) {
        false
    } else {
        str_le(a.drop_first(), b.drop_first())
    }
}

/// A sequence of strings in lexicographic order.
pub open spec fn strings_sorted(v: Seq<Seq<char>>) -> bool {
    forall|i: int, j: int| 0 <= i < j < v.len() ==> str_le(#[trigger] v[i], #[trigger] v[j])
}

proof fn lemma_str_le_total(a: Seq<char>, b: Seq<char>)
    ensures
        str_le(a, b) || str_le(b, a),
    decreases a.len(),
{
    if a.len() > 0 && b.len() > 0 && (a[0] as u32) == (b[0] as u32) {
        lemma_str_le_total(a.drop_first(), b.drop_first());
    }
}

proof fn lemma_str_le_trans(a: Seq<char>, b: Seq<char>, c: Seq<char>)
    requires
        str_le(a, b),
        str_le(b, c),
    ensures
        str_le(a, c),
    decreases a.len(),
{
    if a.len() > 0 && b.len() > 0 && c.len() > 0 && (a[0] as u32) == (b[0] as u32) && (
    b[0] as u32) == (c[0] as u32) {
        lemma_str_le_trans(a.drop_first(), b.drop_first(), c.drop_first());
    }
}

/// Compare two strings lexicographically.
fn str_le_exec(a: &str, b: &str) -> (r: bool)
    ensures
        r == str_le(a@, b@),
{
    let al: usize = a.unicode_len();
    let bl: usize = b.unicode_len();
    proof {
        assert(a@.skip(0) =~= a@);
        assert(b@.skip(0) =~= b@);
    }
    let mut i: usize = 0;
    while i < al && i < bl
        invariant
            al == a@.len(),
            bl == b@.len(),
            0 <= i <= al,
            0 <= i <= bl,
            str_le(a@, b@) == str_le(a@.skip(i as int), b@.skip(i as int)),
        decreases al - i,
    {
        let ca = a.get_char(i);
        let cb = b.get_char(i);
        proof {
            assert(a@.skip(i as int)[0] == a@[i as int]);
            assert(b@.skip(i as int)[0] == b@[i as int]);
            assert(a@.skip(i as int).drop_first() =~= a@.skip(i + 1 as int));
            assert(b@.skip(i as int).drop_first() =~= b@.skip(i + 1 as int));
        }
        if (ca as u32) < (cb as u32) {
            return true;
        }
        if (ca as u32) > (cb as u32) {
            return false;
        }
        i = i + 1;
    }
    proof {
        if i == al {
            assert(a@.skip(i as int).len() == 0);
        } else {
            assert(b@.skip(i as int).len() == 0);
            assert(a@.skip(i as int).len() > 0);
        }
    }
    al <= bl
}

/// Sort strings lexicographically; the result is ordered and holds
/// exactly the given strings.
pub fn sort_strings(v: Vec<String>) -> (r: Vec<String>)
    ensures
        strings_sorted(r@.map_values(|s: String| s@)),
        r@.map_values(|s: String| s@).to_multiset() == v@.map_values(
            |s: String| s@,
        ).to_multiset(),
{
    broadcast use vstd::seq_lib::group_to_multiset_ensures;

    let mut out: Vec<String> = Vec::new();
    let mut i: usize = 0;
    while i < v.len()
        invariant
            0 <= i <= v@.len(),
            strings_sorted(out@.map_values(|s: String| s@)),
            out@.map_values(|s: String| s@).to_multiset() =~= v@.subrange(
                0,
                i as int,
            ).map_values(|s: String| s@).to_multiset(),
        decreases v@.len() - i,
    {
        let x = v[i].clone();
        let ghost pre = out@.map_values(|s: String| s@);
        let mut k: usize = 0;
        while k < out.len() && str_le_exec(out[k].as_str(), x.as_str())
            invariant
                0 <= k <= out@.len(),
                out@.map_values(|s: String| s@) == pre,
                x@ == v@[i as int]@,
                forall|t: int| 0 <= t < k ==> str_le(#[trigger] pre[t], x@),
            decreases out@.len() - k,
        {
            k = k + 1;
        }
        proof {
            if k < out@.len() {
                lemma_str_le_total(pre[k as int], x@);
                assert(str_le(x@, pre[k as int]));
            }
        }
        out.insert(k, x);
        proof {
            let post = out@.map_values(|s: String| s@);
            assert(post =~= pre.insert(k as int, v@[i as int]@));
            assert(strings_sorted(post)) by {
                assert forall|p: int, q: int| 0 <= p < q < post.len() implies str_le(
                    #[trigger] post[p],
                    #[trigger] post[q],
                ) by {
                    if p < k && q == k {
                    } else if p == k && q > k {
                        lemma_str_le_total(pre[q - 1], post[p]);
                        if !str_le(post[p], pre[q - 1]) {
                        }
                        assert(str_le(x@, pre[q - 1]) || q - 1 >= k);
                        if q - 1 == k {
                        }
                        assert(str_le(post[p], post[q])) by {
                            if k < pre.len() {
                                if q - 1 == k {
                                    assert(post[q] == pre[k as int]);
                                } else {
                                    assert(post[q] == pre[q - 1]);
                                    lemma_str_le_trans(x@, pre[k as int], pre[q - 1]);
                                }
                            }
                        }
                    } else if p < k && q > k {
                        assert(post[p] == pre[p] && post[q] == pre[q - 1]);
                    } else if p == k && q == k {
                    } else if p > k && q > k {
                        assert(post[p] == pre[p - 1] && post[q] == pre[q - 1]);
                    } else if p < k && q < k {
                        assert(post[p] == pre[p] && post[q] == pre[q]);
                    }
                }
            }
            vstd::seq_lib::to_multiset_insert(pre, k as int, v@[i as int]@);
            assert(pre.insert(k as int, v@[i as int]@).to_multiset() == pre.to_multiset().insert(
                v@[i as int]@,
            ));
            assert(post.to_multiset() == pre.to_multiset().insert(v@[i as int]@));
            assert(v@.subrange(0, i + 1 as int).map_values(|s: String| s@)
                =~= v@.subrange(0, i as int).map_values(|s: String| s@).push(v@[i as int]@));
            v@.subrange(0, i as int).map_values(|s: String| s@).to_multiset_ensures();
            assert(v@.subrange(0, i as int).map_values(|s: String| s@).push(
                v@[i as int]@,
            ).to_multiset() == v@.subrange(0, i as int).map_values(
                |s: String| s@,
            ).to_multiset().insert(v@[i as int]@));
        }
        i = i + 1;
    }
    proof {
        assert(v@.subrange(0, v@.len() as int) =~= v@);
    }
    out
}

} // verus!
