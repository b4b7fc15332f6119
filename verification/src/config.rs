//! The immutable configuration snapshot the core consumes, and the small
//! classification rules the loader applies to it.

use vstd::prelude::*;
use crate::action::IdleActionBlock;
use crate::text;

verus! {

/// A pattern from `inhibit_apps`: either a case-insensitive literal or a
/// regular expression, kept as its source text.
#[derive(Debug)]
pub enum AppInhibitPattern {
    Literal(String),
    Regex(String),
}

impl Clone for AppInhibitPattern {
    fn clone(&self) -> (res: Self)
        ensures
            res == *self,
    {
        match self {
            AppInhibitPattern::Literal(s) => AppInhibitPattern::Literal(s.clone()),
            AppInhibitPattern::Regex(s) => AppInhibitPattern::Regex(s.clone()),
        }
    }
}

/// What to do when the lid closes.
#[derive(Debug)]
pub enum LidCloseAction {
    Ignore,
    LockScreen,
    Suspend,
    Custom(String),
}

impl Clone for LidCloseAction {
    fn clone(&self) -> (res: Self)
        ensures
            res == *self,
    {
        match self {
            LidCloseAction::Ignore => LidCloseAction::Ignore,
            LidCloseAction::LockScreen => LidCloseAction::LockScreen,
            LidCloseAction::Suspend => LidCloseAction::Suspend,
            LidCloseAction::Custom(s) => LidCloseAction::Custom(s.clone()),
        }
    }
}

/// What to do when the lid opens.
#[derive(Debug)]
pub enum LidOpenAction {
    Ignore,
    Wake,
    Custom(String),
}

impl Clone for LidOpenAction {
    fn clone(&self) -> (res: Self)
        ensures
            res == *self,
    {
        match self {
            LidOpenAction::Ignore => LidOpenAction::Ignore,
            LidOpenAction::Wake => LidOpenAction::Wake,
            LidOpenAction::Custom(s) => LidOpenAction::Custom(s.clone()),
        }
    }
}

/// The configuration snapshot. The loader (outside the core) builds it;
/// the core only reads it. Action names carry their block as a textual
/// `ac.` / `battery.` prefix; `media_blacklist` entries are already
/// lower-cased.
#[derive(Debug)]
pub struct StasisConfig {
    pub actions: Vec<IdleActionBlock>,
    pub pre_suspend_command: Option<String>,
    pub monitor_media: bool,
    pub ignore_remote_media: bool,
    pub media_blacklist: Vec<String>,
    pub respect_wayland_inhibitors: bool,
    pub inhibit_apps: Vec<AppInhibitPattern>,
    pub debounce_seconds: u32,
    pub lid_close_action: LidCloseAction,
    pub lid_open_action: LidOpenAction,
    pub notify_before_action: bool,
    pub notify_seconds_before: u32,
}

/// The mathematical value of a configuration snapshot.
#[verifier::ext_equal]
pub ghost struct ConfigModel {
    pub actions: Seq<IdleActionBlock>,
    pub pre_suspend_command: Option<String>,
    pub monitor_media: bool,
    pub ignore_remote_media: bool,
    pub media_blacklist: Seq<String>,
    pub respect_wayland_inhibitors: bool,
    pub inhibit_apps: Seq<AppInhibitPattern>,
    pub debounce_seconds: u32,
    pub lid_close_action: LidCloseAction,
    pub lid_open_action: LidOpenAction,
    pub notify_before_action: bool,
    pub notify_seconds_before: u32,
}

impl View for StasisConfig {
    type V = ConfigModel;

    open spec fn view(&self) -> ConfigModel {
        ConfigModel {
            actions: self.actions@,
            pre_suspend_command: self.pre_suspend_command,
            monitor_media: self.monitor_media,
            ignore_remote_media: self.ignore_remote_media,
            media_blacklist: self.media_blacklist@,
            respect_wayland_inhibitors: self.respect_wayland_inhibitors,
            inhibit_apps: self.inhibit_apps@,
            debounce_seconds: self.debounce_seconds,
            lid_close_action: self.lid_close_action,
            lid_open_action: self.lid_open_action,
            notify_before_action: self.notify_before_action,
            notify_seconds_before: self.notify_seconds_before,
        }
    }
}

/// Copy a vector of strings, preserving each element exactly.
pub fn clone_string_vec(v: &Vec<String>) -> (r: Vec<String>)
    ensures
        r@ == v@,
{
    let mut out: Vec<String> = Vec::new();
    let mut i: usize = 0;
    while i < v.len()
        invariant
            0 <= i <= v.len(),
            out@ =~= v@.subrange(0, i as int),
        decreases v.len() - i,
    {
        out.push(v[i].clone());
        i = i + 1;
    }
    proof {
        assert(v@.subrange(0, v@.len() as int) =~= v@);
    }
    out
}

/// Copy a vector of actions, preserving each element exactly.
pub fn clone_actions(v: &Vec<IdleActionBlock>) -> (r: Vec<IdleActionBlock>)
    ensures
        r@ == v@,
{
    let mut out: Vec<IdleActionBlock> = Vec::new();
    let mut i: usize = 0;
    while i < v.len()
        invariant
            0 <= i <= v.len(),
            out@ =~= v@.subrange(0, i as int),
        decreases v.len() - i,
    {
        out.push(v[i].clone());
        i = i + 1;
    }
    proof {
        assert(v@.subrange(0, v@.len() as int) =~= v@);
    }
    out
}

/// Copy a vector of patterns, preserving each element exactly.
pub fn clone_patterns(v: &Vec<AppInhibitPattern>) -> (r: Vec<AppInhibitPattern>)
    ensures
        r@ == v@,
{
    let mut out: Vec<AppInhibitPattern> = Vec::new();
    let mut i: usize = 0;
    while i < v.len()
        invariant
            0 <= i <= v.len(),
            out@ =~= v@.subrange(0, i as int),
        decreases v.len() - i,
    {
        out.push(v[i].clone());
        i = i + 1;
    }
    proof {
        assert(v@.subrange(0, v@.len() as int) =~= v@);
    }
    out
}

impl Clone for StasisConfig {
    fn clone(&self) -> (res: Self)
        ensures
            res@ == self@,
    {
        let res = StasisConfig {
            actions: clone_actions(&self.actions),
            pre_suspend_command: crate::action::clone_opt_string(&self.pre_suspend_command),
            monitor_media: self.monitor_media,
            ignore_remote_media: self.ignore_remote_media,
            media_blacklist: clone_string_vec(&self.media_blacklist),
            respect_wayland_inhibitors: self.respect_wayland_inhibitors,
            inhibit_apps: clone_patterns(&self.inhibit_apps),
            debounce_seconds: self.debounce_seconds,
            lid_close_action: self.lid_close_action.clone(),
            lid_open_action: self.lid_open_action.clone(),
            notify_before_action: self.notify_before_action,
            notify_seconds_before: self.notify_seconds_before,
        };
        res
    }
}

/// The configuration keys that are settings rather than action tables.
pub open spec fn spec_is_special_key(key: Seq<char>) -> bool {
    ||| key == "resume_command"@
    ||| key == "resume-command"@
    ||| key == "pre_suspend_command"@
    ||| key == "pre-suspend-command"@
    ||| key == "monitor_media"@
    ||| key == "monitor-media"@
    ||| key == "ignore_remote_media"@
    ||| key == "ignore-remote-media"@
    ||| key == "respect_wayland_inhibitors"@
    ||| key == "respect-wayland-inhibitors"@
    ||| key == "inhibit_apps"@
    ||| key == "inhibit-apps"@
    ||| key == "debounce_seconds"@
    ||| key == "debounce-seconds"@
    ||| key == "notify_on_unpause"@
    ||| key == "notify-on-unpause"@
    ||| key == "notify_before_action"@
    ||| key == "notify-before-action"@
    ||| key == "notify_seconds_before"@
    ||| key == "notify-seconds-before"@
    ||| key == "lid_close_action"@
    ||| key == "lid-close-action"@
    ||| key == "lid_open_action"@
    ||| key == "lid-open-action"@
    ||| key == "media_blacklist"@
    ||| key == "media-blacklist"@
}

/// Whether a configuration key names a setting instead of an action.
pub fn is_special_key(key: &str) -> (r: bool)
    ensures
        r == spec_is_special_key(key@),
{
    text::str_eq(key, "resume_command") || text::str_eq(key, "resume-command") || text::str_eq(
        key,
        "pre_suspend_command",
    ) || text::str_eq(key, "pre-suspend-command") || text::str_eq(key, "monitor_media")
        || text::str_eq(key, "monitor-media") || text::str_eq(key, "ignore_remote_media")
        || text::str_eq(key, "ignore-remote-media") || text::str_eq(
        key,
        "respect_wayland_inhibitors",
    ) || text::str_eq(key, "respect-wayland-inhibitors") || text::str_eq(key, "inhibit_apps")
        || text::str_eq(key, "inhibit-apps") || text::str_eq(key, "debounce_seconds")
        || text::str_eq(key, "debounce-seconds") || text::str_eq(key, "notify_on_unpause")
        || text::str_eq(key, "notify-on-unpause") || text::str_eq(key, "notify_before_action")
        || text::str_eq(key, "notify-before-action") || text::str_eq(key, "notify_seconds_before")
        || text::str_eq(key, "notify-seconds-before") || text::str_eq(key, "lid_close_action")
        || text::str_eq(key, "lid-close-action") || text::str_eq(key, "lid_open_action")
        || text::str_eq(key, "lid-open-action") || text::str_eq(key, "media_blacklist")
        || text::str_eq(key, "media-blacklist")
}

/// The characters that mark a pattern as a regular expression.
pub open spec fn is_regex_meta(c: char) -> bool {
    c == '.' || c == '*' || c == '+' || c == '?' || c == '(' || c == ')' || c == '[' || c == ']'
        || c == '{' || c == '}' || c == '|' || c == '\\' || c == '^' || c == '$'
}

fn is_regex_meta_exec(c: char) -> (r: bool)
    ensures
        r == is_regex_meta(c),
{
    c == '.' || c == '*' || c == '+' || c == '?' || c == '(' || c == ')' || c == '[' || c == ']'
        || c == '{' || c == '}' || c == '|' || c == '\\' || c == '^' || c == '$'
}

/// Classify an `inhibit_apps` entry: a pattern with any regex
/// metacharacter is a regular expression, anything else a literal.
pub fn parse_app_pattern(s: &str) -> (r: AppInhibitPattern)
    ensures
        (r matches AppInhibitPattern::Regex(p) ==> p@ == s@ && (exists|i: int|
            0 <= i < s@.len() && is_regex_meta(s@[i]))),
        (r matches AppInhibitPattern::Literal(p) ==> p@ == s@ && (forall|i: int|
            0 <= i < s@.len() ==> !is_regex_meta(s@[i]))),
{
    let n: usize = s.unicode_len();
    let mut i: usize = 0;
    while i < n
        invariant
            n == s@.len(),
            0 <= i <= n,
            forall|k: int| 0 <= k < i ==> !is_regex_meta(s@[k]),
        decreases n - i,
    {
        if is_regex_meta_exec(s.get_char(i)) {
            return AppInhibitPattern::Regex(s.to_owned());
        }
        i = i + 1;
    }
    AppInhibitPattern::Literal(s.to_owned())
}

} // verus!
