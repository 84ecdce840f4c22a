//! The two vocabularies between the client and the service: the commands the
//! client issues and the results that come back.

use vstd::prelude::*;
use crate::model::Device;
use crate::model::DeviceView;
use crate::model::PlayHistory;
use crate::model::PlayHistoryView;
use crate::model::Playback;
use crate::model::PlaybackView;
use crate::model::RepeatState;
use crate::model::SavedTracksPage;
use crate::model::SavedTracksPageView;
use crate::model::Track;
use crate::model::TrackView;

verus! {

/// A command for the service. Where a command names a device, `None` leaves
/// the choice to the service.
#[derive(Debug, PartialEq, Eq)]
pub enum SpotifyAPIEvent {
    Shuffle(bool, Option<String>),
    Pause(Option<String>),
    Device,
    Volume(u8, Option<String>),
    Repeat(RepeatState, Option<String>),
    SeekTrack(u32, Option<String>),
    NextTrack(Option<String>),
    PreviousTrack(Option<String>),
    CurrentPlayBack,
    CurrentUserRecentlyPlayed,
    DeleteCurrentUserSavedTracks(Vec<String>),
    AddCurrentUserSavedTracks(Vec<String>),
    CheckCurrentUserSavedTracks(Vec<String>),
    /// A page of the library, from the given offset or from the start.
    CurrentUserSavedTracks(Option<u32>),
    /// Start playing on a device; with a list, these track URIs.
    StartPlayBack((Option<String>, Option<Vec<String>>)),
}

/// The view of a [`SpotifyAPIEvent`]: the same with sequences for strings and vectors.
pub enum SpotifyAPIEventView {
    Shuffle(bool, Option<Seq<char>>),
    Pause(Option<Seq<char>>),
    Device,
    Volume(u8, Option<Seq<char>>),
    Repeat(RepeatState, Option<Seq<char>>),
    SeekTrack(u32, Option<Seq<char>>),
    NextTrack(Option<Seq<char>>),
    PreviousTrack(Option<Seq<char>>),
    CurrentPlayBack,
    CurrentUserRecentlyPlayed,
    DeleteCurrentUserSavedTracks(Seq<Seq<char>>),
    AddCurrentUserSavedTracks(Seq<Seq<char>>),
    CheckCurrentUserSavedTracks(Seq<Seq<char>>),
    CurrentUserSavedTracks(Option<u32>),
    StartPlayBack(Option<Seq<char>>, Option<Seq<Seq<char>>>),
}

impl View for SpotifyAPIEvent {
    type V = SpotifyAPIEventView;

    open spec fn view(&self) -> SpotifyAPIEventView {
        match *self {
            SpotifyAPIEvent::Shuffle(state, device) => SpotifyAPIEventView::Shuffle(
                state,
                device.deep_view(),
            ),
            SpotifyAPIEvent::Pause(device) => SpotifyAPIEventView::Pause(device.deep_view()),
            SpotifyAPIEvent::Device => SpotifyAPIEventView::Device,
            SpotifyAPIEvent::Volume(percent, device) => SpotifyAPIEventView::Volume(
                percent,
                device.deep_view(),
            ),
            SpotifyAPIEvent::Repeat(state, device) => SpotifyAPIEventView::Repeat(
                state,
                device.deep_view(),
            ),
            SpotifyAPIEvent::SeekTrack(position, device) => SpotifyAPIEventView::SeekTrack(
                position,
                device.deep_view(),
            ),
            SpotifyAPIEvent::NextTrack(device) => {
                SpotifyAPIEventView::NextTrack(device.deep_view())
            },
            SpotifyAPIEvent::PreviousTrack(device) => {
                SpotifyAPIEventView::PreviousTrack(device.deep_view())
            },
            SpotifyAPIEvent::CurrentPlayBack => SpotifyAPIEventView::CurrentPlayBack,
            SpotifyAPIEvent::CurrentUserRecentlyPlayed => {
                SpotifyAPIEventView::CurrentUserRecentlyPlayed
            },
            SpotifyAPIEvent::DeleteCurrentUserSavedTracks(ids) => {
                SpotifyAPIEventView::DeleteCurrentUserSavedTracks(ids.deep_view())
            },
            SpotifyAPIEvent::AddCurrentUserSavedTracks(ids) => {
                SpotifyAPIEventView::AddCurrentUserSavedTracks(ids.deep_view())
            },
            SpotifyAPIEvent::CheckCurrentUserSavedTracks(ids) => {
                SpotifyAPIEventView::CheckCurrentUserSavedTracks(ids.deep_view())
            },
            SpotifyAPIEvent::CurrentUserSavedTracks(offset) => {
                SpotifyAPIEventView::CurrentUserSavedTracks(offset)
            },
            SpotifyAPIEvent::StartPlayBack(target) => {
                SpotifyAPIEventView::StartPlayBack(target.0.deep_view(), target.1.deep_view())
            },
        }
    }
}

impl DeepView for SpotifyAPIEvent {
    type V = SpotifyAPIEventView;

    open spec fn deep_view(&self) -> SpotifyAPIEventView {
        self@
    }
}

/// What the service answered.
#[derive(Debug, PartialEq, Eq)]
pub enum SpotifyAPIResult {
    CurrentPlayBack(Option<Playback>),
    CurrentUserPlayingTrack(Option<Track>),
    CurrentUserRecentlyPlayed(Vec<PlayHistory>),
    /// For each track id that was asked about, whether it is in the library.
    CheckCurrentUserSavedTracks(Vec<(String, bool)>),
    CurrentUserSavedTracks(SavedTracksPage),
    Device(Vec<Device>),
    SuccessAddCurrentUserSavedTracks(Vec<String>),
    SuccessDeleteCurrentUserSavedTracks(Vec<String>),
}

/// The view of a [`SpotifyAPIResult`]: the same with sequences for strings and vectors.
pub enum SpotifyAPIResultView {
    CurrentPlayBack(Option<PlaybackView>),
    CurrentUserPlayingTrack(Option<TrackView>),
    CurrentUserRecentlyPlayed(Seq<PlayHistoryView>),
    CheckCurrentUserSavedTracks(Seq<(Seq<char>, bool)>),
    CurrentUserSavedTracks(SavedTracksPageView),
    Device(Seq<DeviceView>),
    SuccessAddCurrentUserSavedTracks(Seq<Seq<char>>),
    SuccessDeleteCurrentUserSavedTracks(Seq<Seq<char>>),
}

impl View for SpotifyAPIResult {
    type V = SpotifyAPIResultView;

    open spec fn view(&self) -> SpotifyAPIResultView {
        match *self {
            SpotifyAPIResult::CurrentPlayBack(playback) => {
                SpotifyAPIResultView::CurrentPlayBack(playback.deep_view())
            },
            SpotifyAPIResult::CurrentUserPlayingTrack(track) => {
                SpotifyAPIResultView::CurrentUserPlayingTrack(track.deep_view())
            },
            SpotifyAPIResult::CurrentUserRecentlyPlayed(histories) => {
                SpotifyAPIResultView::CurrentUserRecentlyPlayed(histories.deep_view())
            },
            SpotifyAPIResult::CheckCurrentUserSavedTracks(checks) => {
                SpotifyAPIResultView::CheckCurrentUserSavedTracks(checks.deep_view())
            },
            SpotifyAPIResult::CurrentUserSavedTracks(page) => {
                SpotifyAPIResultView::CurrentUserSavedTracks(page@)
            },
            SpotifyAPIResult::Device(devices) => SpotifyAPIResultView::Device(devices.deep_view()),
            SpotifyAPIResult::SuccessAddCurrentUserSavedTracks(ids) => {
                SpotifyAPIResultView::SuccessAddCurrentUserSavedTracks(ids.deep_view())
            },
            SpotifyAPIResult::SuccessDeleteCurrentUserSavedTracks(ids) => {
                SpotifyAPIResultView::SuccessDeleteCurrentUserSavedTracks(ids.deep_view())
            },
        }
    }
}

impl DeepView for SpotifyAPIResult {
    type V = SpotifyAPIResultView;

    open spec fn deep_view(&self) -> SpotifyAPIResultView {
        self@
    }
}

/// The command that asks for the devices.
pub fn device_command() -> (command: SpotifyAPIEvent)
    ensures
        command@ == SpotifyAPIEventView::Device,
{
    SpotifyAPIEvent::Device
}

/// The command that asks for the playback state.
pub fn current_playback_command() -> (command: SpotifyAPIEvent)
    ensures
        command@ == SpotifyAPIEventView::CurrentPlayBack,
{
    SpotifyAPIEvent::CurrentPlayBack
}

/// The command that asks for the listening history.
pub fn recently_played_command() -> (command: SpotifyAPIEvent)
    ensures
        command@ == SpotifyAPIEventView::CurrentUserRecentlyPlayed,
{
    SpotifyAPIEvent::CurrentUserRecentlyPlayed
}

/// The command that asks for the library from its start.
pub fn saved_tracks_command() -> (command: SpotifyAPIEvent)
    ensures
        command@ == SpotifyAPIEventView::CurrentUserSavedTracks(None),
{
    SpotifyAPIEvent::CurrentUserSavedTracks(None)
}

/// How many entries of the listening history the client asks for.
pub const RECENTLY_PLAYED_LIMIT: u32 = 50;

/// How many entries of the library the client asks for at a time.
pub const SAVED_TRACKS_LIMIT: u32 = 50;

/// Whether an access token that expires at `expires_at` has to be renewed at
/// `now`, both in seconds since the Unix epoch: from the moment it expires.
pub fn token_expired(expires_at: i64, now: i64) -> (expired: bool)
    ensures
        expired == (expires_at <= now),
{
    expires_at <= now
}

/// The service's answers put beside the track ids that were asked about: the
/// first answer with the first id, and so on as far as both lists go.
pub open spec fn paired(track_ids: Seq<Seq<char>>, saved: Seq<bool>) -> Seq<(Seq<char>, bool)> {
    Seq::new(
        if track_ids.len() <= saved.len() {
            track_ids.len()
        } else {
            saved.len()
        },
        |i: int| (track_ids[i], saved[i]),
    )
}

/// Puts the service's answers beside the track ids that were asked about.
pub fn pair_saved_tracks(track_ids: &Vec<String>, saved: &Vec<bool>) -> (checks: Vec<
    (String, bool),
>)
    ensures
        checks.deep_view() == paired(track_ids.deep_view(), saved@),
{
    let mut checks: Vec<(String, bool)> = Vec::new();
    let mut i: usize = 0;
    while i < track_ids.len() && i < saved.len()
        invariant
            i <= track_ids.len(),
            i <= saved.len(),
            checks.len() == i,
            forall|k: int|
                0 <= k < i ==> checks.deep_view()[k] == (track_ids.deep_view()[k], saved@[k]),
        decreases track_ids.len() - i,
    {
        let ghost before = checks.deep_view();
        let id = track_ids[i].clone();
        checks.push((id, saved[i]));
        assert(checks.deep_view() =~= before.push((track_ids.deep_view()[i as int], saved@[i as int])));
        i += 1;
    }
    assert(checks.deep_view() =~= paired(track_ids.deep_view(), saved@));
    checks
}

} // verus!
