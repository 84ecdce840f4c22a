//! The player pane: the lines that describe what is playing.

use vstd::prelude::*;
use crate::model::PlaybackView;
use crate::model::RepeatState;
use crate::model::Track;
use crate::model::TrackView;
use crate::model::Playback;
use crate::spoterm::SaveState;
use crate::text::clock;
use crate::text::decimal;
use crate::text::push_clock;
use crate::text::push_decimal;

verus! {

/// A line of the player pane.
#[derive(Debug, PartialEq, Eq)]
pub struct PlayerLine {
    pub text: String,
    /// Whether the line is drawn in white rather than the terminal's colour.
    pub highlighted: bool,
}

/// The view of a [`PlayerLine`]: the same with sequences for strings and vectors.
pub struct PlayerLineView {
    pub text: Seq<char>,
    pub highlighted: bool,
}

impl View for PlayerLine {
    type V = PlayerLineView;

    open spec fn view(&self) -> PlayerLineView {
        PlayerLineView { text: self.text@, highlighted: self.highlighted }
    }
}

impl DeepView for PlayerLine {
    type V = PlayerLineView;

    open spec fn deep_view(&self) -> PlayerLineView {
        self@
    }
}

/// The icon for a track's save state.
pub open spec fn like_icon(state: SaveState) -> Seq<char> {
    match state {
        SaveState::SAVED | SaveState::SAVING => "❤"@,
        SaveState::UNSAVED | SaveState::UNSAVING => "♡"@,
        _ => "❓"@,
    }
}

/// The icon for playing or stopped.
pub open spec fn playing_icon(is_playing: bool) -> Seq<char> {
    if is_playing {
        "🎧"@
    } else {
        "⏹️"@
    }
}

/// The icon for shuffling or not.
pub open spec fn shuffle_icon(shuffle_state: bool) -> Seq<char> {
    if shuffle_state {
        "🔀"@
    } else {
        "❌"@
    }
}

/// The icon for the repeat mode.
pub open spec fn repeat_icon(state: RepeatState) -> Seq<char> {
    match state {
        RepeatState::Context => "🔁 💿"@,
        RepeatState::Track => "🔂 🎵"@,
        RepeatState::Off => "❌"@,
    }
}

/// The line that names the track, its first artist and its album.
pub open spec fn track_line(state: SaveState, track: TrackView) -> Seq<char> {
    "🎵  "@ + like_icon(state) + " Song: "@ + track.name + " |🎤 Artist: "@ + track.artists[0]
        + " | 💿 Album: "@ + track.album
}

/// The line that tells how far the track has played and in which modes.
pub open spec fn status_line(playback: PlaybackView, track: TrackView) -> Seq<char> {
    let progress_ms = match playback.progress_ms {
        Some(ms) => ms,
        None => 0,
    };
    "    Progress: "@ + clock(progress_ms as nat) + " / "@ + clock(track.duration_ms as nat)
        + " | Playing: "@ + playing_icon(playback.is_playing) + "  | Shuffle: "@ + shuffle_icon(
        playback.shuffle_state,
    ) + " | Repeat:  "@ + repeat_icon(playback.repeat_state)
}

/// The line that tells the volume and the device.
pub open spec fn device_line(playback: PlaybackView) -> Seq<char> {
    "🔊  Volume: "@ + decimal(playback.device.volume_percent as nat) + " | 💻 Device: "@
        + playback.device.name
}

/// The lines of the player pane for a playback: with a track, the track and
/// the status; always the device. `state` is the track's save state.
pub open spec fn player_lines(playback: PlaybackView, state: SaveState) -> Seq<PlayerLineView> {
    match playback.item {
        Some(track) => seq![
            PlayerLineView { text: track_line(state, track), highlighted: true },
            PlayerLineView { text: status_line(playback, track), highlighted: false },
            PlayerLineView { text: device_line(playback), highlighted: false },
        ],
        None => seq![PlayerLineView { text: device_line(playback), highlighted: false }],
    }
}

fn track_line_text(state: SaveState, track: &Track) -> (r: String)
    requires
        track@.artists.len() > 0,
    ensures
        r@ == track_line(state, track@),
{
    let icon = match state {
        SaveState::SAVED | SaveState::SAVING => "❤",
        SaveState::UNSAVED | SaveState::UNSAVING => "♡",
        _ => "❓",
    };
    let mut r = String::from_str("🎵  ");
    r.append(icon);
    r.append(" Song: ");
    r.append(track.name.as_str());
    r.append(" |🎤 Artist: ");
    r.append(track.artists[0].as_str());
    r.append(" | 💿 Album: ");
    r.append(track.album.as_str());
    r
}

fn status_line_text(playback: &Playback, track: &Track) -> (r: String)
    ensures
        r@ == status_line(playback@, track@),
{
    let progress_ms: u32 = match playback.progress_ms {
        Some(ms) => ms,
        None => 0,
    };
    let mut r = String::from_str("    Progress: ");
    push_clock(&mut r, progress_ms);
    r.append(" / ");
    push_clock(&mut r, track.duration_ms);
    r.append(" | Playing: ");
    r.append(
        if playback.is_playing {
            "🎧"
        } else {
            "⏹️"
        },
    );
    r.append("  | Shuffle: ");
    r.append(
        if playback.shuffle_state {
            "🔀"
        } else {
            "❌"
        },
    );
    r.append(" | Repeat:  ");
    r.append(
        match playback.repeat_state {
            RepeatState::Context => "🔁 💿",
            RepeatState::Track => "🔂 🎵",
            RepeatState::Off => "❌",
        },
    );
    r
}

fn device_line_text(playback: &Playback) -> (r: String)
    ensures
        r@ == device_line(playback@),
{
    let mut r = String::from_str("🔊  Volume: ");
    push_decimal(&mut r, playback.device.volume_percent);
    r.append(" | 💻 Device: ");
    r.append(playback.device.name.as_str());
    r
}

/// The lines of the player pane for a playback whose track, if it has one,
/// is in the given save state.
pub fn player_lines_of(playback: &Playback, state: SaveState) -> (lines: Vec<PlayerLine>)
    requires
        playback@.item is Some ==> playback@.item->0.artists.len() > 0,
    ensures
        lines.deep_view() == player_lines(playback@, state),
{
    let mut lines: Vec<PlayerLine> = Vec::new();
    match &playback.item {
        Some(track) => {
            lines.push(PlayerLine { text: track_line_text(state, track), highlighted: true });
            lines.push(PlayerLine { text: status_line_text(playback, track), highlighted: false });
        },
        None => {},
    }
    lines.push(PlayerLine { text: device_line_text(playback), highlighted: false });
    assert(lines.deep_view() =~= player_lines(playback@, state));
    lines
}

} // verus!
