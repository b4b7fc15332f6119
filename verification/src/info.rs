//! Rendering: human durations, the status report, and the IPC response
//! texts, each pinned to its exact character sequence.

use vstd::prelude::*;
use crate::action::{IdleAction, IdleActionBlock};
use crate::config::{AppInhibitPattern, ConfigModel, LidCloseAction, LidOpenAction, StasisConfig};
use crate::queue::{name_block, BlockKind};
use crate::text;

verus! {

/// A human-readable duration: hours, minutes and seconds, larger units
/// only when non-zero.
pub open spec fn spec_format_duration(secs: int) -> Seq<char> {
    let h = secs / 3600;
    let m = (secs % 3600) / 60;
    let s = secs % 60;
    if h > 0 {
        text::dec_str(h) + "h "@ + text::dec_str(m) + "m "@ + text::dec_str(s) + "s"@
    } else if m > 0 {
        text::dec_str(m) + "m "@ + text::dec_str(s) + "s"@
    } else {
        text::dec_str(s) + "s"@
    }
}

/// Render a number of seconds as `1h 30m 15s`.
pub fn format_duration(secs: u64) -> (r: String)
    ensures
        r@ == spec_format_duration(secs as int),
{
    let h = secs / 3600;
    let m = (secs % 3600) / 60;
    let s = secs % 60;
    let mut out = String::new();
    if h > 0 {
        let hs = text::u64_to_string(h);
        out.append(hs.as_str());
        out.append("h ");
        let ms = text::u64_to_string(m);
        out.append(ms.as_str());
        out.append("m ");
        let ss = text::u64_to_string(s);
        out.append(ss.as_str());
        out.append("s");
    } else if m > 0 {
        let ms = text::u64_to_string(m);
        out.append(ms.as_str());
        out.append("m ");
        let ss = text::u64_to_string(s);
        out.append(ss.as_str());
        out.append("s");
    } else {
        let ss = text::u64_to_string(s);
        out.append(ss.as_str());
        out.append("s");
    }
    out
}

/// The spelling of a flag.
pub open spec fn spec_bool_str(b: bool) -> Seq<char> {
    if b {
        "true"@
    } else {
        "false"@
    }
}

pub fn bool_str(b: bool) -> (r: &'static str)
    ensures
        r@ == spec_bool_str(b),
{
    if b {
        "true"
    } else {
        "false"
    }
}

/// The display name of an action kind.
pub open spec fn spec_kind_str(k: IdleAction) -> Seq<char> {
    match k {
        IdleAction::LockScreen => "LockScreen"@,
        IdleAction::Suspend => "Suspend"@,
        IdleAction::Dpms => "Dpms"@,
        IdleAction::Brightness => "Brightness"@,
        IdleAction::Custom => "Custom"@,
    }
}

pub fn kind_str(k: IdleAction) -> (r: &'static str)
    ensures
        r@ == spec_kind_str(k),
{
    match k {
        IdleAction::LockScreen => "LockScreen",
        IdleAction::Suspend => "Suspend",
        IdleAction::Dpms => "Dpms",
        IdleAction::Brightness => "Brightness",
        IdleAction::Custom => "Custom",
    }
}

/// A run of spaces.
pub open spec fn spaces(n: int) -> Seq<char>
    decreases n,
{
    if n <= 0 {
        Seq::empty()
    } else {
        spaces(n - 1).push(' ')
    }
}

/// A name padded with spaces to a column width.
pub open spec fn spec_padded(s: Seq<char>, width: int) -> Seq<char> {
    s + spaces(width - s.len())
}

/// Pad a string with trailing spaces to a column width.
pub fn pad_to(s: &str, width: usize) -> (r: String)
    ensures
        r@ == spec_padded(s@, width as int),
{
    let mut out = s.to_owned();
    let n: usize = s.unicode_len();
    let mut i: usize = n;
    proof {
        assert(out@ =~= s@ + spaces(0));
    }
    while i < width
        invariant
            n <= i,
            i <= width || i == n,
            out@ == s@ + spaces(i - n),
            n == s@.len(),
        decreases width - i,
    {
        text::push_char(&mut out, ' ');
        proof {
            assert(s@ + spaces(i + 1 - n) =~= (s@ + spaces(i - n)).push(' '));
        }
        i = i + 1;
    }
    proof {
        assert(out@ =~= spec_padded(s@, width as int));
    }
    out
}

/// The display group of an action: by its name's block prefix.
pub open spec fn spec_group_str(a: IdleActionBlock) -> Seq<char> {
    match name_block(a) {
        BlockKind::Ac => "AC"@,
        BlockKind::Battery => "Battery"@,
        BlockKind::Default => "Desktop"@,
    }
}

/// One action line of the report.
pub open spec fn spec_action_line(a: IdleActionBlock) -> Seq<char> {
    let base = "    "@ + spec_padded(crate::ipc::spec_strip_prefix(a.name@), 20) + " Timeout="@
        + text::dec_str(a.timeout as int) + " Kind="@ + spec_kind_str(a.kind) + " Command=\""@
        + a.command@ + "\""@;
    let with_lock = match a.lock_command {
        Some(c) => base + " LockCommand=\""@ + c@ + "\""@,
        None => base,
    };
    let with_resume = match a.resume_command {
        Some(c) => with_lock + " ResumeCommand=\""@ + c@ + "\""@,
        None => with_lock,
    };
    with_resume + "\n"@
}

/// Render one action line.
fn action_line(a: &IdleActionBlock) -> (r: String)
    ensures
        r@ == spec_action_line(*a),
{
    let mut out = String::new();
    out.append("    ");
    let stripped = crate::ipc::strip_action_prefix(a.name.as_str());
    let padded = pad_to(stripped, 20);
    out.append(padded.as_str());
    out.append(" Timeout=");
    let t = text::u64_to_string(a.timeout as u64);
    out.append(t.as_str());
    out.append(" Kind=");
    out.append(kind_str(a.kind));
    out.append(" Command=\"");
    out.append(a.command.as_str());
    out.append("\"");
    match &a.lock_command {
        Some(c) => {
            out.append(" LockCommand=\"");
            out.append(c.as_str());
            out.append("\"");
        },
        None => {},
    }
    match &a.resume_command {
        Some(c) => {
            out.append(" ResumeCommand=\"");
            out.append(c.as_str());
            out.append("\"");
        },
        None => {},
    }
    out.append("\n");
    out
}

/// Whether index `i` opens a new display group.
pub open spec fn first_of_group(actions: Seq<IdleActionBlock>, i: int) -> bool {
    forall|k: int| 0 <= k < i ==> spec_group_str(#[trigger] actions[k]) != spec_group_str(
        actions[i],
    )
}

/// The action lines from index `i` on, each group opened by a header the
/// first time it appears.
pub open spec fn spec_actions_from(actions: Seq<IdleActionBlock>, i: int) -> Seq<char>
    decreases actions.len() - i,
{
    if i < 0 || i >= actions.len() {
        Seq::empty()
    } else {
        (if first_of_group(actions, i) {
            "  ["@ + spec_group_str(actions[i]) + "]\n"@
        } else {
            Seq::empty()
        }) + spec_action_line(actions[i]) + spec_actions_from(actions, i + 1)
    }
}

/// One labelled status line: two spaces, the padded label, ` = `, the
/// value, and a newline.
pub open spec fn spec_kv_line(label: Seq<char>, value: Seq<char>) -> Seq<char> {
    "  "@ + spec_padded(label, 19) + "= "@ + value + "\n"@
}

fn kv_line(out: &mut String, label: &str, value: &str)
    ensures
        final(out)@ == old(out)@ + spec_kv_line(label@, value@),
{
    out.append("  ");
    let padded = pad_to(label, 19);
    out.append(padded.as_str());
    out.append("= ");
    out.append(value);
    out.append("\n");
}

/// The display text of the lid-close setting.
pub open spec fn spec_lid_close_str(a: LidCloseAction) -> Seq<char> {
    match a {
        LidCloseAction::Ignore => "ignore"@,
        LidCloseAction::LockScreen => "lock-screen"@,
        LidCloseAction::Suspend => "suspend"@,
        LidCloseAction::Custom(c) => c@,
    }
}

fn lid_close_str(a: &LidCloseAction) -> (r: String)
    ensures
        r@ == spec_lid_close_str(*a),
{
    match a {
        LidCloseAction::Ignore => "ignore".to_owned(),
        LidCloseAction::LockScreen => "lock-screen".to_owned(),
        LidCloseAction::Suspend => "suspend".to_owned(),
        LidCloseAction::Custom(c) => c.clone(),
    }
}

/// The display text of the lid-open setting.
pub open spec fn spec_lid_open_str(a: LidOpenAction) -> Seq<char> {
    match a {
        LidOpenAction::Ignore => "ignore"@,
        LidOpenAction::Wake => "wake"@,
        LidOpenAction::Custom(c) => c@,
    }
}

fn lid_open_str(a: &LidOpenAction) -> (r: String)
    ensures
        r@ == spec_lid_open_str(*a),
{
    match a {
        LidOpenAction::Ignore => "ignore".to_owned(),
        LidOpenAction::Wake => "wake".to_owned(),
        LidOpenAction::Custom(c) => c.clone(),
    }
}

/// The source text of one inhibit pattern.
pub open spec fn spec_pattern_text(p: AppInhibitPattern) -> Seq<char> {
    match p {
        AppInhibitPattern::Literal(s) => s@,
        AppInhibitPattern::Regex(s) => s@,
    }
}

/// The inhibit patterns joined with commas, from index `i` on.
pub open spec fn spec_patterns_from(v: Seq<AppInhibitPattern>, i: int) -> Seq<char>
    decreases v.len() - i,
{
    if i < 0 || i >= v.len() {
        Seq::empty()
    } else if i == v.len() - 1 {
        spec_pattern_text(v[i])
    } else {
        spec_pattern_text(v[i]) + ","@ + spec_patterns_from(v, i + 1)
    }
}

/// The display text of the inhibit patterns: a dash when none are set.
pub open spec fn spec_patterns_str(v: Seq<AppInhibitPattern>) -> Seq<char> {
    if v.len() == 0 {
        "-"@
    } else {
        spec_patterns_from(v, 0)
    }
}

fn patterns_str(v: &Vec<AppInhibitPattern>) -> (r: String)
    ensures
        r@ == spec_patterns_str(v@),
{
    if v.len() == 0 {
        return "-".to_owned();
    }
    let mut out = String::new();
    let mut i: usize = 0;
    while i < v.len()
        invariant
            v@.len() > 0,
            0 <= i <= v@.len(),
            out@ + spec_patterns_from(v@, i as int) == spec_patterns_from(v@, 0),
            i < v@.len(),
        decreases v@.len() - i,
    {
        match &v[i] {
            AppInhibitPattern::Literal(s) => out.append(s.as_str()),
            AppInhibitPattern::Regex(s) => out.append(s.as_str()),
        }
        if i + 1 < v.len() {
            out.append(",");
            proof {
                assert(out@ + spec_patterns_from(v@, i + 1 as int) =~= spec_patterns_from(
                    v@,
                    0,
                ));
            }
            i = i + 1;
        } else {
            proof {
                assert(out@ =~= spec_patterns_from(v@, 0));
            }
            return out;
        }
    }
    out
}

/// The configuration section of the report.
pub open spec fn spec_config_section(cfg: ConfigModel) -> Seq<char> {
    "\nConfig:\n"@ + spec_kv_line(
        "PreSuspendCommand"@,
        match cfg.pre_suspend_command {
            Some(c) => c@,
            None => "-"@,
        },
    ) + spec_kv_line("MonitorMedia"@, spec_bool_str(cfg.monitor_media)) + spec_kv_line(
        "IgnoreRemoteMedia"@,
        spec_bool_str(cfg.ignore_remote_media),
    ) + spec_kv_line(
        "RespectInhibitors"@,
        spec_bool_str(cfg.respect_wayland_inhibitors),
    ) + spec_kv_line("DebounceSeconds"@, text::dec_str(cfg.debounce_seconds as int))
        + spec_kv_line("LidCloseAction"@, spec_lid_close_str(cfg.lid_close_action))
        + spec_kv_line("LidOpenAction"@, spec_lid_open_str(cfg.lid_open_action))
        + spec_kv_line("InhibitApps"@, spec_patterns_str(cfg.inhibit_apps))
}

/// The status section of the report: only the values that were supplied.
pub open spec fn spec_status_section(
    idle_secs: Option<u64>,
    uptime_secs: Option<u64>,
    is_inhibited: Option<bool>,
    is_manually_inhibited: Option<bool>,
) -> Seq<char> {
    "Status:\n"@ + (match idle_secs {
        Some(v) => spec_kv_line("IdleTime"@, spec_format_duration(v as int)),
        None => Seq::empty(),
    }) + (match uptime_secs {
        Some(v) => spec_kv_line("Uptime"@, spec_format_duration(v as int)),
        None => Seq::empty(),
    }) + (match is_inhibited {
        Some(b) => spec_kv_line("IdleInhibited"@, spec_bool_str(b)),
        None => Seq::empty(),
    }) + (match is_manually_inhibited {
        Some(b) => spec_kv_line("ManuallyInhibited"@, spec_bool_str(b)),
        None => Seq::empty(),
    })
}

/// The whole report.
pub open spec fn spec_pretty_print(
    cfg: ConfigModel,
    idle_secs: Option<u64>,
    uptime_secs: Option<u64>,
    is_inhibited: Option<bool>,
    is_manually_inhibited: Option<bool>,
) -> Seq<char> {
    spec_status_section(idle_secs, uptime_secs, is_inhibited, is_manually_inhibited)
        + spec_config_section(cfg) + "\nActions:\n"@ + spec_actions_from(cfg.actions, 0)
}

impl StasisConfig {
    /// Render the status report: the supplied status values, the
    /// configuration, and the actions grouped by block.
    pub fn pretty_print(
        &self,
        idle_secs: Option<u64>,
        uptime_secs: Option<u64>,
        is_inhibited: Option<bool>,
        is_manually_inhibited: Option<bool>,
    ) -> (r: String)
        ensures
            r@ == spec_pretty_print(
                self@,
                idle_secs,
                uptime_secs,
                is_inhibited,
                is_manually_inhibited,
            ),
    {
        let mut out = render_status(idle_secs, uptime_secs, is_inhibited, is_manually_inhibited);
        let cfg_part = self.render_config();
        out.append(cfg_part.as_str());
        out.append("\nActions:\n");
        let actions_part = render_actions(&self.actions);
        out.append(actions_part.as_str());
        out
    }

    /// Render the configuration section.
    fn render_config(&self) -> (r: String)
        ensures
            r@ == spec_config_section(self@),
    {
        let mut out = String::new();
        out.append("\nConfig:\n");
        match &self.pre_suspend_command {
            Some(c) => {
                kv_line(&mut out, "PreSuspendCommand", c.as_str());
            },
            None => {
                kv_line(&mut out, "PreSuspendCommand", "-");
            },
        }
        kv_line(&mut out, "MonitorMedia", bool_str(self.monitor_media));
        kv_line(&mut out, "IgnoreRemoteMedia", bool_str(self.ignore_remote_media));
        kv_line(&mut out, "RespectInhibitors", bool_str(self.respect_wayland_inhibitors));
        let ds = text::u64_to_string(self.debounce_seconds as u64);
        kv_line(&mut out, "DebounceSeconds", ds.as_str());
        let lc = lid_close_str(&self.lid_close_action);
        kv_line(&mut out, "LidCloseAction", lc.as_str());
        let lo = lid_open_str(&self.lid_open_action);
        kv_line(&mut out, "LidOpenAction", lo.as_str());
        let apps = patterns_str(&self.inhibit_apps);
        kv_line(&mut out, "InhibitApps", apps.as_str());
        out
    }
}

/// Render the status section.
fn render_status(
    idle_secs: Option<u64>,
    uptime_secs: Option<u64>,
    is_inhibited: Option<bool>,
    is_manually_inhibited: Option<bool>,
) -> (r: String)
    ensures
        r@ == spec_status_section(idle_secs, uptime_secs, is_inhibited, is_manually_inhibited),
{
    let mut out = String::new();
    out.append("Status:\n");
    match idle_secs {
        Some(v) => {
            let d = format_duration(v);
            kv_line(&mut out, "IdleTime", d.as_str());
        },
        None => {},
    }
    match uptime_secs {
        Some(v) => {
            let d = format_duration(v);
            kv_line(&mut out, "Uptime", d.as_str());
        },
        None => {},
    }
    match is_inhibited {
        Some(b) => {
            kv_line(&mut out, "IdleInhibited", bool_str(b));
        },
        None => {},
    }
    match is_manually_inhibited {
        Some(b) => {
            kv_line(&mut out, "ManuallyInhibited", bool_str(b));
        },
        None => {},
    }
    out
}

/// Render the actions section, opening each group the first time it
/// appears.
#[verifier::rlimit(100)]
fn render_actions(actions: &Vec<IdleActionBlock>) -> (r: String)
    ensures
        r@ == spec_actions_from(actions@, 0),
{
    let mut out = String::new();
    let ghost head = out@;
    proof {
        assert(head =~= Seq::<char>::empty());
    }
    let mut i: usize = 0;
    while i < actions.len()
        invariant
            out@ + spec_actions_from(actions@, i as int) == spec_actions_from(actions@, 0),
            0 <= i <= actions@.len(),
        decreases actions@.len() - i,
    {
        let mut header_needed = true;
        let group = group_str(&actions[i]);
        let mut k: usize = 0;
        while k < i
            invariant
                0 <= k <= i < actions@.len(),
                group@ == spec_group_str(actions@[i as int]),
                header_needed == (forall|t: int|
                    0 <= t < k ==> spec_group_str(#[trigger] actions@[t]) != spec_group_str(
                        actions@[i as int],
                    )),
            decreases i - k,
        {
            if text::str_eq(group_str(&actions[k]), group) {
                header_needed = false;
                proof {
                    assert(spec_group_str(actions@[k as int]) == spec_group_str(
                        actions@[i as int],
                    ));
                }
                k = i;
            } else {
                k = k + 1;
            }
        }
        if header_needed {
            out.append("  [");
            out.append(group);
            out.append("]\n");
        }
        let line = action_line(&actions[i]);
        out.append(line.as_str());
        proof {
            assert(header_needed == first_of_group(actions@, i as int));
            assert(out@ + spec_actions_from(actions@, i + 1 as int) =~= spec_actions_from(
                actions@,
                0,
            ));
        }
        i = i + 1;
    }
    proof {
        assert(out@ =~= spec_actions_from(actions@, 0));
    }
    out
}

/// The display group of one action.
fn group_str(a: &IdleActionBlock) -> (r: &'static str)
    ensures
        r@ == spec_group_str(*a),
{
    let is_ac = text::has_prefix(a.name.as_str(), "ac.");
    if is_ac {
        "AC"
    } else {
        let is_battery = text::has_prefix(a.name.as_str(), "battery.");
        if is_battery {
            "Battery"
        } else {
            "Desktop"
        }
    }
}

/// The waybar status pair: the short text and its icon name.
pub open spec fn spec_status_pair(manually_inhibited: bool, idle_inhibited: bool) -> (
    Seq<char>,
    Seq<char>,
) {
    if manually_inhibited {
        ("Inhibited"@, "manually_inhibited"@)
    } else if idle_inhibited {
        ("Blocked"@, "idle_inhibited"@)
    } else {
        ("Active"@, "idle_active"@)
    }
}

/// Pick the short status text and icon.
pub fn status_pair(manually_inhibited: bool, idle_inhibited: bool) -> (r: (
    &'static str,
    &'static str,
))
    ensures
        r.0@ == spec_status_pair(manually_inhibited, idle_inhibited).0,
        r.1@ == spec_status_pair(manually_inhibited, idle_inhibited).1,
{
    if manually_inhibited {
        ("Inhibited", "manually_inhibited")
    } else if idle_inhibited {
        ("Blocked", "idle_inhibited")
    } else {
        ("Active", "idle_active")
    }
}

/// The `toggle_inhibit` reply: the state the toggle switched to.
pub open spec fn spec_toggle_response(was_inhibited: bool) -> Seq<char> {
    if was_inhibited {
        "{\"text\": \"Active\", \"alt\": \"idle_active\", \"tooltip\": \"Idle inhibition cleared\"}"@
    } else {
        "{\"text\": \"Inhibited\", \"alt\": \"manually_inhibited\", \"tooltip\": \"Idle inhibition active\"}"@
    }
}

pub fn toggle_response(was_inhibited: bool) -> (r: &'static str)
    ensures
        r@ == spec_toggle_response(was_inhibited),
{
    if was_inhibited {
        "{\"text\": \"Active\", \"alt\": \"idle_active\", \"tooltip\": \"Idle inhibition cleared\"}"
    } else {
        "{\"text\": \"Inhibited\", \"alt\": \"manually_inhibited\", \"tooltip\": \"Idle inhibition active\"}"
    }
}

/// The `info --json` reply.
pub open spec fn spec_info_json(
    idle_secs: u64,
    uptime_secs: u64,
    paused: bool,
    manually_inhibited: bool,
    app_blocking: bool,
    media_blocking: bool,
) -> Seq<char> {
    let idle_inhibited = paused || app_blocking || manually_inhibited;
    let pair = spec_status_pair(manually_inhibited, idle_inhibited);
    "{\"text\": \""@ + pair.0 + "\", \"alt\": \""@ + pair.1 + "\", \"tooltip\": \""@ + (
    if idle_inhibited {
        "Idle inhibited"@
    } else {
        "Idle active"@
    }) + "\nIdle time: "@ + spec_format_duration(idle_secs as int) + "\nUptime: "@
        + spec_format_duration(uptime_secs as int) + "\nPaused: "@ + spec_bool_str(paused)
        + "\nManually paused: "@ + spec_bool_str(manually_inhibited) + "\nApp blocking: "@
        + spec_bool_str(app_blocking) + "\nMedia blocking: "@ + spec_bool_str(media_blocking)
        + "\"}"@
}

/// Render the `info --json` reply.
pub fn info_json(
    idle_secs: u64,
    uptime_secs: u64,
    paused: bool,
    manually_inhibited: bool,
    app_blocking: bool,
    media_blocking: bool,
) -> (r: String)
    ensures
        r@ == spec_info_json(
            idle_secs,
            uptime_secs,
            paused,
            manually_inhibited,
            app_blocking,
            media_blocking,
        ),
{
    let idle_inhibited = paused || app_blocking || manually_inhibited;
    let pair = status_pair(manually_inhibited, idle_inhibited);
    let mut out = String::new();
    out.append("{\"text\": \"");
    out.append(pair.0);
    out.append("\", \"alt\": \"");
    out.append(pair.1);
    out.append("\", \"tooltip\": \"");
    if idle_inhibited {
        out.append("Idle inhibited");
    } else {
        out.append("Idle active");
    }
    out.append("\nIdle time: ");
    let d1 = format_duration(idle_secs);
    out.append(d1.as_str());
    out.append("\nUptime: ");
    let d2 = format_duration(uptime_secs);
    out.append(d2.as_str());
    out.append("\nPaused: ");
    out.append(bool_str(paused));
    out.append("\nManually paused: ");
    out.append(bool_str(manually_inhibited));
    out.append("\nApp blocking: ");
    out.append(bool_str(app_blocking));
    out.append("\nMedia blocking: ");
    out.append(bool_str(media_blocking));
    out.append("\"}");
    out
}

/// A comma-separated join, from index `i` on.
pub open spec fn spec_joined_from(names: Seq<String>, i: int) -> Seq<char>
    decreases names.len() - i,
{
    if i < 0 || i >= names.len() {
        Seq::empty()
    } else if i == names.len() - 1 {
        names[i]@
    } else {
        names[i]@ + ", "@ + spec_joined_from(names, i + 1)
    }
}

/// Join names with `, `.
pub fn join_comma(names: &Vec<String>) -> (r: String)
    ensures
        r@ == spec_joined_from(names@, 0),
{
    let mut out = String::new();
    let mut i: usize = 0;
    while i < names.len()
        invariant
            0 <= i <= names@.len(),
            out@ + spec_joined_from(names@, i as int) == spec_joined_from(names@, 0),
            i < names@.len() || out@ == spec_joined_from(names@, 0),
        decreases names@.len() - i,
    {
        out.append(names[i].as_str());
        if i + 1 < names.len() {
            out.append(", ");
        }
        proof {
            assert(out@ + spec_joined_from(names@, i + 1 as int) =~= spec_joined_from(
                names@,
                0,
            ));
        }
        i = i + 1;
    }
    proof {
        if names@.len() == 0 {
            assert(out@ =~= spec_joined_from(names@, 0));
        }
    }
    out
}

/// The reply to a successful trigger.
pub open spec fn spec_resp_triggered(name: Seq<char>) -> Seq<char> {
    "Action '"@ + name + "' triggered successfully"@
}

pub fn resp_triggered(name: &str) -> (r: String)
    ensures
        r@ == spec_resp_triggered(name@),
{
    let mut out = String::new();
    out.append("Action '");
    out.append(name);
    out.append("' triggered successfully");
    out
}

/// The reply to a trigger that found no action.
pub open spec fn spec_resp_not_found(name: Seq<char>, joined: Seq<char>) -> Seq<char> {
    "ERROR: Action '"@ + name + "' not found. Available actions: "@ + joined
}

pub fn resp_not_found(name: &str, joined: &str) -> (r: String)
    ensures
        r@ == spec_resp_not_found(name@, joined@),
{
    let mut out = String::new();
    out.append("ERROR: Action '");
    out.append(name);
    out.append("' not found. Available actions: ");
    out.append(joined);
    out
}

/// The reply to a timed pause.
pub open spec fn spec_resp_paused_for(secs: int) -> Seq<char> {
    "Paused for "@ + spec_format_duration(secs)
}

pub fn resp_paused_for(secs: u64) -> (r: String)
    ensures
        r@ == spec_resp_paused_for(secs as int),
{
    let mut out = String::new();
    out.append("Paused for ");
    let d = format_duration(secs);
    out.append(d.as_str());
    out
}

/// The `pause help` reply.
pub fn pause_help() -> (r: &'static str)
    ensures
        r@
            == "Usage: pause [duration]\nDuration format: combine numbers with h, m or s, such as '1h 30m 15s'.\nWithout a duration the timers stay paused until 'resume'."@,
{
    "Usage: pause [duration]\nDuration format: combine numbers with h, m or s, such as '1h 30m 15s'.\nWithout a duration the timers stay paused until 'resume'."
}

} // verus!
