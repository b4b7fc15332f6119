//! Media detection: the browser-bridge state, and the rule that decides
//! whether observed players count as playing media.

use vstd::prelude::*;
use crate::text;

verus! {

/// What the browser media bridge reports: whether the bridge considers
/// media playing, and how many tabs are playing.
#[derive(Debug)]
pub struct MediaBridgeState {
    /// Whether the bridge socket is currently the authoritative source.
    pub active: bool,
    /// Whether any browser tab is playing.
    pub browser_playing: bool,
    /// How many browser tabs are playing.
    pub playing_tab_count: usize,
}

impl MediaBridgeState {
    /// The browser-playing flag always mirrors the tab count.
    pub open spec fn inv(self) -> bool {
        self.browser_playing == (self.playing_tab_count > 0)
    }

    pub fn new() -> (r: MediaBridgeState)
        ensures
            r.active == false,
            r.browser_playing == false,
            r.playing_tab_count == 0,
            r.inv(),
    {
        MediaBridgeState { active: false, browser_playing: false, playing_tab_count: 0 }
    }

    /// Whether the bridge is active and browser media is playing.
    pub fn is_playing(&self) -> (r: bool)
        ensures
            r == (self.active && self.browser_playing),
    {
        self.active && self.browser_playing
    }

    /// The number of media inhibitors the browser accounts for.
    pub fn inhibitor_count(&self) -> (r: usize)
        ensures
            r == if self.active {
                self.playing_tab_count
            } else {
                0
            },
    {
        if self.active {
            self.playing_tab_count
        } else {
            0
        }
    }

    /// Deactivate the bridge and forget its tabs.
    pub fn reset(&mut self)
        ensures
            final(self).active == false,
            final(self).browser_playing == false,
            final(self).playing_tab_count == 0,
            final(self).inv(),
    {
        self.active = false;
        self.browser_playing = false;
        self.playing_tab_count = 0;
    }

    /// Make the bridge authoritative, starting from no playing tabs.
    pub fn activate(&mut self)
        ensures
            final(self).active == true,
            final(self).browser_playing == false,
            final(self).playing_tab_count == 0,
            final(self).inv(),
    {
        self.active = true;
        self.playing_tab_count = 0;
        self.browser_playing = false;
    }

    /// Take a fresh tab count from the browser. Reports how many
    /// inhibitors to add and how many to remove (one of the two is
    /// always zero).
    pub fn update_playing_state(&mut self, tab_count: usize) -> (r: (usize, usize))
        ensures
            final(self).playing_tab_count == tab_count,
            final(self).browser_playing == (tab_count > 0),
            final(self).active == old(self).active,
            final(self).inv(),
            r.0 == if tab_count > old(self).playing_tab_count {
                tab_count - old(self).playing_tab_count
            } else {
                0
            },
            r.1 == if tab_count < old(self).playing_tab_count {
                old(self).playing_tab_count - tab_count
            } else {
                0
            },
    {
        let prev = self.playing_tab_count;
        self.playing_tab_count = tab_count;
        self.browser_playing = tab_count > 0;
        if tab_count > prev {
            (tab_count - prev, 0)
        } else {
            (0, prev - tab_count)
        }
    }
}

/// One observed MPRIS player: its advertised identity, its bus name, and
/// whether it reports playing.
#[derive(Debug)]
pub struct PlayerSnapshot {
    pub identity: String,
    pub bus_name: String,
    pub playing: bool,
}

/// A player's searchable name: identity and bus name, lower-cased and
/// joined with a space.
pub open spec fn combined_name(p: PlayerSnapshot) -> Seq<char> {
    text::lower_unicode_of(p.identity@) + " "@ + text::lower_unicode_of(p.bus_name@)
}

/// Whether any blacklist entry (already lower-case) occurs in the
/// player's combined name.
pub open spec fn is_blacklisted(p: PlayerSnapshot, blacklist: Seq<String>) -> bool {
    exists|i: int|
        0 <= i < blacklist.len() && text::contains_seq(
            combined_name(p),
            text::lower_unicode_of(#[trigger] blacklist[i]@),
        )
}

/// Whether the player is one of the browsers and local players that
/// always count as local media.
pub open spec fn is_always_local(p: PlayerSnapshot) -> bool {
    ||| text::contains_seq(combined_name(p), "firefox"@)
    ||| text::contains_seq(combined_name(p), "chrome"@)
    ||| text::contains_seq(combined_name(p), "chromium"@)
    ||| text::contains_seq(combined_name(p), "brave"@)
    ||| text::contains_seq(combined_name(p), "opera"@)
    ||| text::contains_seq(combined_name(p), "vivaldi"@)
    ||| text::contains_seq(combined_name(p), "edge"@)
    ||| text::contains_seq(combined_name(p), "mpv"@)
    ||| text::contains_seq(combined_name(p), "vlc"@)
    ||| text::contains_seq(combined_name(p), "totem"@)
    ||| text::contains_seq(combined_name(p), "celluloid"@)
}

/// Whether one player makes the session count as playing media, given
/// the audio probes: it must be playing, not a skipped Firefox, not
/// blacklisted, and either always-local or backed by actual audio
/// (a running sink too, when remote media is ignored).
pub open spec fn player_counts(
    p: PlayerSnapshot,
    ignore_remote_media: bool,
    blacklist: Seq<String>,
    skip_firefox: bool,
    audio_active: bool,
    sink_running: bool,
) -> bool {
    &&& p.playing
    &&& !(skip_firefox && text::contains_seq(text::lower_unicode_of(p.identity@), "firefox"@))
    &&& !is_blacklisted(p, blacklist)
    &&& (is_always_local(p) || (audio_active && (!ignore_remote_media || sink_running)))
}

/// What the media check decides over a set of observed players.
pub open spec fn spec_check_media_playing(
    players: Seq<PlayerSnapshot>,
    ignore_remote_media: bool,
    blacklist: Seq<String>,
    skip_firefox: bool,
    has_player_list: bool,
    audio_active: bool,
    sink_running: bool,
) -> bool {
    if !(exists|i: int| 0 <= i < players.len() && (#[trigger] players[i]).playing) {
        false
    } else if !skip_firefox && has_player_list && audio_active {
        true
    } else {
        exists|i: int|
            0 <= i < players.len() && player_counts(
                #[trigger] players[i],
                ignore_remote_media,
                blacklist,
                skip_firefox,
                audio_active,
                sink_running,
            )
    }
}

/// Decide whether observed media players count as playing media. The
/// daemon passes the player snapshots and the results of its audio
/// probes: whether a player list is available, whether any audio stream
/// exists, and whether a sink is running.
pub fn check_media_playing(
    players: &Vec<PlayerSnapshot>,
    ignore_remote_media: bool,
    blacklist: &Vec<String>,
    skip_firefox: bool,
    has_player_list: bool,
    audio_active: bool,
    sink_running: bool,
) -> (r: bool)
    ensures
        r == spec_check_media_playing(
            players@,
            ignore_remote_media,
            blacklist@,
            skip_firefox,
            has_player_list,
            audio_active,
            sink_running,
        ),
{
    let mut any_playing = false;
    let mut i: usize = 0;
    while i < players.len()
        invariant
            0 <= i <= players@.len(),
            any_playing == exists|k: int| 0 <= k < i && (#[trigger] players@[k]).playing,
        decreases players@.len() - i,
    {
        if players[i].playing {
            any_playing = true;
        }
        i = i + 1;
    }
    if !any_playing {
        return false;
    }
    if !skip_firefox && has_player_list && audio_active {
        return true;
    }
    let mut j: usize = 0;
    while j < players.len()
        invariant
            0 <= j <= players@.len(),
            forall|k: int|
                0 <= k < j ==> !player_counts(
                    #[trigger] players@[k],
                    ignore_remote_media,
                    blacklist@,
                    skip_firefox,
                    audio_active,
                    sink_running,
                ),
        decreases players@.len() - j,
    {
        if player_counts_exec(
            &players[j],
            ignore_remote_media,
            blacklist,
            skip_firefox,
            audio_active,
            sink_running,
        ) {
            return true;
        }
        j = j + 1;
    }
    false
}

/// Decide whether one player counts as playing media.
fn player_counts_exec(
    p: &PlayerSnapshot,
    ignore_remote_media: bool,
    blacklist: &Vec<String>,
    skip_firefox: bool,
    audio_active: bool,
    sink_running: bool,
) -> (r: bool)
    ensures
        r == player_counts(
            *p,
            ignore_remote_media,
            blacklist@,
            skip_firefox,
            audio_active,
            sink_running,
        ),
{
    if !p.playing {
        return false;
    }
    let identity_lower = text::to_lowercase(p.identity.as_str());
    if skip_firefox && text::contains_str(identity_lower.as_str(), "firefox") {
        return false;
    }
    let mut combined = identity_lower;
    combined.append(" ");
    let bus_lower = text::to_lowercase(p.bus_name.as_str());
    combined.append(bus_lower.as_str());
    proof {
        assert(combined@ == combined_name(*p));
    }
    let mut i: usize = 0;
    while i < blacklist.len()
        invariant
            combined@ == combined_name(*p),
            0 <= i <= blacklist@.len(),
            forall|k: int|
                0 <= k < i ==> !text::contains_seq(
                    combined_name(*p),
                    text::lower_unicode_of(#[trigger] blacklist@[k]@),
                ),
        decreases blacklist@.len() - i,
    {
        let entry_lower = text::to_lowercase(blacklist[i].as_str());
        if text::contains_str(combined.as_str(), entry_lower.as_str()) {
            assert(is_blacklisted(*p, blacklist@));
            return false;
        }
        i = i + 1;
    }
    assert(!is_blacklisted(*p, blacklist@));
    let always_local = text::contains_str(combined.as_str(), "firefox") || text::contains_str(
        combined.as_str(),
        "chrome",
    ) || text::contains_str(combined.as_str(), "chromium") || text::contains_str(
        combined.as_str(),
        "brave",
    ) || text::contains_str(combined.as_str(), "opera") || text::contains_str(
        combined.as_str(),
        "vivaldi",
    ) || text::contains_str(combined.as_str(), "edge") || text::contains_str(
        combined.as_str(),
        "mpv",
    ) || text::contains_str(combined.as_str(), "vlc") || text::contains_str(
        combined.as_str(),
        "totem",
    ) || text::contains_str(combined.as_str(), "celluloid");
    if always_local {
        return true;
    }
    if !audio_active {
        return false;
    }
    if ignore_remote_media {
        sink_running
    } else {
        true
    }
}

} // verus!
