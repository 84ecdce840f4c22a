//! The view model: what the client knows of the service's state, the commands
//! that follow from it, and how the service's results are merged into it.

use vstd::prelude::*;
pub use crate::client::SpotermClient;
use crate::model::Device;
use crate::model::DeviceView;
use crate::model::PlayHistory;
use crate::model::PlayHistoryView;
use crate::model::Playback;
use crate::model::PlaybackView;
use crate::model::RepeatState;
use crate::model::SavedTrack;
use crate::model::SavedTrackView;
use crate::model::SavedTracksPageView;
use crate::library::all_have_ids;
use crate::library::collect_track_ids;
use crate::library::has_track_ids;
use crate::library::have_ids;
use crate::library::merge_saved_tracks;
use crate::library::remove_saved_tracks;
use crate::library::merged_saved_tracks;
use crate::library::track_ids;
use crate::library::without_ids;
use crate::player::player_lines;
use crate::player::player_lines_of;
use crate::player::PlayerLine;
use crate::player::PlayerLineView;
use crate::spotify::SpotifyAPIEvent;
use crate::spotify::SpotifyAPIEventView;
use crate::spotify::SpotifyAPIResult;
use crate::spotify::SpotifyAPIResultView;

verus! {

/// What the client knows about whether a track is in the user's library.
#[allow(non_camel_case_types)]
#[derive(Clone, Copy, Debug, PartialEq, Eq, Structural)]
pub enum SaveState {
    SAVED,
    UNSAVED,
    SAVING,
    UNSAVING,
    CHECKING,
    UNKNOWN,
}

impl DeepView for SaveState {
    type V = SaveState;

    open spec fn deep_view(&self) -> SaveState {
        *self
    }
}

/// Whether no track id occurs twice among the recorded save states.
pub open spec fn keys_distinct(entries: Seq<(Seq<char>, SaveState)>) -> bool {
    forall|i: int, j: int| 0 <= i < j < entries.len() ==> entries[i].0 != entries[j].0
}

/// Whether a save state is recorded for the track id.
pub open spec fn has_key(entries: Seq<(Seq<char>, SaveState)>, id: Seq<char>) -> bool {
    exists|i: int| 0 <= i < entries.len() && #[trigger] entries[i].0 == id
}

/// Where the track id's save state is recorded.
pub open spec fn key_index(entries: Seq<(Seq<char>, SaveState)>, id: Seq<char>) -> int {
    choose|i: int| 0 <= i < entries.len() && #[trigger] entries[i].0 == id
}

/// The save state recorded for the track id.
pub open spec fn state_of(entries: Seq<(Seq<char>, SaveState)>, id: Seq<char>) -> Option<
    SaveState,
> {
    if has_key(entries, id) {
        Some(entries[key_index(entries, id)].1)
    } else {
        None
    }
}

/// The recorded save states after `state` is recorded for the track id: in
/// the place of the id's earlier state, or else at the end.
pub open spec fn with_state(
    entries: Seq<(Seq<char>, SaveState)>,
    id: Seq<char>,
    state: SaveState,
) -> Seq<(Seq<char>, SaveState)> {
    if has_key(entries, id) {
        entries.update(key_index(entries, id), (id, state))
    } else {
        entries.push((id, state))
    }
}

/// With distinct keys, an id is recorded at one place only.
pub proof fn lemma_key_index_unique(entries: Seq<(Seq<char>, SaveState)>, id: Seq<char>, i: int)
    requires
        keys_distinct(entries),
        0 <= i < entries.len(),
        entries[i].0 == id,
    ensures
        has_key(entries, id),
        key_index(entries, id) == i,
{
    let k = key_index(entries, id);
    assert(0 <= k < entries.len() && entries[k].0 == id);
    if k < i {
        assert(entries[k].0 != entries[i].0);
    } else if i < k {
        assert(entries[i].0 != entries[k].0);
    }
}

/// Recording a state keeps the keys distinct, and is what a lookup of that id
/// then finds; other ids keep their state.
pub proof fn lemma_with_state(
    entries: Seq<(Seq<char>, SaveState)>,
    id: Seq<char>,
    state: SaveState,
)
    requires
        keys_distinct(entries),
    ensures
        keys_distinct(with_state(entries, id, state)),
        state_of(with_state(entries, id, state), id) == Some(state),
        forall|other: Seq<char>|
            other != id ==> #[trigger] state_of(with_state(entries, id, state), other) == state_of(
                entries,
                other,
            ),
{
    let after = with_state(entries, id, state);
    if has_key(entries, id) {
        let k = key_index(entries, id);
        assert(0 <= k < entries.len() && entries[k].0 == id);
        assert forall|i: int, j: int| 0 <= i < j < after.len() implies after[i].0 != after[j].0 by {
            assert(after[i].0 == entries[i].0);
            assert(after[j].0 == entries[j].0);
        }
        assert(after[k].0 == id);
        lemma_key_index_unique(after, id, k);
        assert forall|other: Seq<char>| other != id implies #[trigger] state_of(after, other)
            == state_of(entries, other) by {
            if has_key(entries, other) {
                let m = key_index(entries, other);
                assert(0 <= m < entries.len() && entries[m].0 == other);
                assert(after[m].0 == other);
                lemma_key_index_unique(after, other, m);
            } else {
                if has_key(after, other) {
                    let m = key_index(after, other);
                    assert(0 <= m < after.len() && after[m].0 == other);
                    assert(entries[m].0 == other);
                }
            }
        }
    } else {
        let n = entries.len() as int;
        assert forall|i: int, j: int| 0 <= i < j < after.len() implies after[i].0 != after[j].0 by {
            if j == n {
                assert(after[i].0 == entries[i].0);
            } else {
                assert(after[i].0 == entries[i].0);
                assert(after[j].0 == entries[j].0);
            }
        }
        assert(after[n].0 == id);
        lemma_key_index_unique(after, id, n);
        assert forall|other: Seq<char>| other != id implies #[trigger] state_of(after, other)
            == state_of(entries, other) by {
            if has_key(entries, other) {
                let m = key_index(entries, other);
                assert(0 <= m < entries.len() && entries[m].0 == other);
                assert(after[m].0 == other);
                lemma_key_index_unique(after, other, m);
            } else {
                if has_key(after, other) {
                    let m = key_index(after, other);
                    assert(0 <= m < after.len() && after[m].0 == other);
                    assert(m < n);
                    assert(entries[m].0 == other);
                }
            }
        }
    }
}

/// The save state that an answer of the service stands for.
pub open spec fn checked_state(saved: bool) -> SaveState {
    if saved {
        SaveState::SAVED
    } else {
        SaveState::UNSAVED
    }
}

/// The recorded save states after the service's answers are recorded, one
/// after another.
pub open spec fn with_checks(
    entries: Seq<(Seq<char>, SaveState)>,
    checks: Seq<(Seq<char>, bool)>,
) -> Seq<(Seq<char>, SaveState)>
    decreases checks.len(),
{
    if checks.len() == 0 {
        entries
    } else {
        with_state(
            with_checks(entries, checks.drop_last()),
            checks.last().0,
            checked_state(checks.last().1),
        )
    }
}

/// The recorded save states after each of `ids` is recorded as saved, one
/// after another.
pub open spec fn with_saved(entries: Seq<(Seq<char>, SaveState)>, ids: Seq<Seq<char>>) -> Seq<
    (Seq<char>, SaveState),
>
    decreases ids.len(),
{
    if ids.len() == 0 {
        entries
    } else {
        with_state(with_saved(entries, ids.drop_last()), ids.last(), SaveState::SAVED)
    }
}

/// Recording answers keeps the keys distinct.
pub proof fn lemma_with_checks_distinct(
    entries: Seq<(Seq<char>, SaveState)>,
    checks: Seq<(Seq<char>, bool)>,
)
    requires
        keys_distinct(entries),
    ensures
        keys_distinct(with_checks(entries, checks)),
    decreases checks.len(),
{
    if checks.len() > 0 {
        lemma_with_checks_distinct(entries, checks.drop_last());
        lemma_with_state(
            with_checks(entries, checks.drop_last()),
            checks.last().0,
            checked_state(checks.last().1),
        );
    }
}

/// Recording ids as saved keeps the keys distinct.
pub proof fn lemma_with_saved_distinct(entries: Seq<(Seq<char>, SaveState)>, ids: Seq<Seq<char>>)
    requires
        keys_distinct(entries),
    ensures
        keys_distinct(with_saved(entries, ids)),
    decreases ids.len(),
{
    if ids.len() > 0 {
        lemma_with_saved_distinct(entries, ids.drop_last());
        lemma_with_state(with_saved(entries, ids.drop_last()), ids.last(), SaveState::SAVED);
    }
}

/// What the client holds of the service's state.
#[derive(Debug)]
pub struct SpotifyData {
    pub devices: Option<Vec<Device>>,
    /// The user's library as far as it is known, newest first.
    pub saved_tracks: Vec<SavedTrack>,
    pub recent_play_histories: Option<Vec<PlayHistory>>,
    pub current_playback: Option<Playback>,
    /// The device that commands are addressed to.
    pub selected_device: Option<Device>,
    /// For each track id that was asked about, what is known of it; no id
    /// occurs twice. The records stand in the order in which the ids were
    /// first asked about, which is the order in which the service is asked
    /// about them.
    pub save_state_track_ids: Vec<(String, SaveState)>,
}

/// The view of a [`SpotifyData`]: the same with sequences for strings and vectors.
pub struct SpotifyDataView {
    pub devices: Option<Seq<DeviceView>>,
    pub saved_tracks: Seq<SavedTrackView>,
    pub recent_play_histories: Option<Seq<PlayHistoryView>>,
    pub current_playback: Option<PlaybackView>,
    pub selected_device: Option<DeviceView>,
    pub save_state_track_ids: Seq<(Seq<char>, SaveState)>,
}

impl View for SpotifyData {
    type V = SpotifyDataView;

    open spec fn view(&self) -> SpotifyDataView {
        SpotifyDataView {
            devices: self.devices.deep_view(),
            saved_tracks: self.saved_tracks.deep_view(),
            recent_play_histories: self.recent_play_histories.deep_view(),
            current_playback: self.current_playback.deep_view(),
            selected_device: self.selected_device.deep_view(),
            save_state_track_ids: self.save_state_track_ids.deep_view(),
        }
    }
}

/// The volume that a device reports, as the byte that a volume command
/// carries: its value modulo 256.
pub open spec fn volume_byte(percent: u32) -> u8 {
    (percent % 256) as u8
}

/// The volume one step up or down: six points, within 0 and 100.
pub open spec fn next_volume(percent: u8, up: bool) -> u8 {
    if up {
        if percent + 6 <= 100 {
            (percent + 6) as u8
        } else {
            100
        }
    } else {
        if percent >= 6 {
            (percent - 6) as u8
        } else {
            0
        }
    }
}

/// The repeat mode after the current one: off, track, context, and off again.
pub open spec fn next_repeat(state: RepeatState) -> RepeatState {
    match state {
        RepeatState::Off => RepeatState::Track,
        RepeatState::Track => RepeatState::Context,
        RepeatState::Context => RepeatState::Off,
    }
}

/// At or below this progress, stepping back goes to the previous track;
/// above it, to the start of the current one.
pub const RESTART_THRESHOLD_MS: u32 = 3000;

/// The track ids whose save state is unknown, in the order of their records.
pub open spec fn unknown_ids(entries: Seq<(Seq<char>, SaveState)>) -> Seq<Seq<char>>
    decreases entries.len(),
{
    if entries.len() == 0 {
        Seq::empty()
    } else {
        let head = unknown_ids(entries.drop_last());
        if entries.last().1 == SaveState::UNKNOWN {
            head.push(entries.last().0)
        } else {
            head
        }
    }
}

/// The recorded save states with every unknown one marked as being checked.
pub open spec fn checking(entries: Seq<(Seq<char>, SaveState)>) -> Seq<(Seq<char>, SaveState)> {
    Seq::new(
        entries.len(),
        |i: int|
            if entries[i].1 == SaveState::UNKNOWN {
                (entries[i].0, SaveState::CHECKING)
            } else {
                entries[i]
            },
    )
}

/// Once the unknown save states are being checked, none is unknown.
pub proof fn lemma_checking_leaves_none_unknown(entries: Seq<(Seq<char>, SaveState)>)
    ensures
        unknown_ids(checking(entries)).len() == 0,
        forall|id: Seq<char>|
            state_of(checking(entries), id) != Some(SaveState::UNKNOWN),
    decreases entries.len(),
{
    let c = checking(entries);
    if entries.len() > 0 {
        lemma_checking_leaves_none_unknown(entries.drop_last());
        assert(c.drop_last() =~= checking(entries.drop_last()));
    }
    assert forall|id: Seq<char>| state_of(c, id) != Some(SaveState::UNKNOWN) by {
        if has_key(c, id) {
            let k = key_index(c, id);
            assert(0 <= k < c.len());
        }
    }
}

/// The repeat modes go round in three steps.
pub proof fn lemma_next_repeat_cycles(state: RepeatState)
    ensures
        next_repeat(state) != state,
        next_repeat(next_repeat(next_repeat(state))) == state,
{
}

/// A volume step up ends at 100 at most, a step from within 0 and 100 stays
/// there, and a step moves by six points where there is room.
pub proof fn lemma_next_volume_bounds(percent: u8, up: bool)
    ensures
        up || percent <= 100 ==> next_volume(percent, up) <= 100,
        up && percent <= 94 ==> next_volume(percent, up) == percent + 6,
        !up && percent >= 6 ==> next_volume(percent, up) == percent - 6,
        percent <= 100 && up ==> next_volume(percent, up) >= percent,
        !up ==> next_volume(percent, up) <= percent,
{
}

/// The first device of the list that has the given name.
pub open spec fn first_named(devices: Seq<DeviceView>, name: Seq<char>) -> Option<DeviceView>
    decreases devices.len(),
{
    if devices.len() == 0 {
        None
    } else if devices[0].name == name {
        Some(devices[0])
    } else {
        first_named(devices.drop_first(), name)
    }
}

impl SpotifyAPIResultView {
    /// Whether the result can be merged: a page of the library has a track id
    /// on every entry, and where it has a successor, the successor's offset
    /// is a `u32`.
    pub open spec fn well_formed(self) -> bool {
        match self {
            SpotifyAPIResultView::CurrentUserSavedTracks(page) => {
                &&& all_have_ids(page.items)
                &&& page.has_next ==> page.offset + page.limit <= u32::MAX
            },
            _ => true,
        }
    }
}

impl SpotifyAPIResult {
    /// Whether the result can be merged.
    pub fn is_well_formed(&self) -> (r: bool)
        ensures
            r == self@.well_formed(),
    {
        match self {
            SpotifyAPIResult::CurrentUserSavedTracks(page) => {
                have_ids(&page.items) && (!page.has_next || page.limit <= u32::MAX - page.offset)
            },
            _ => true,
        }
    }
}

impl SpotifyDataView {
    /// The view model that knows nothing yet.
    pub open spec fn empty() -> SpotifyDataView {
        SpotifyDataView {
            devices: None,
            saved_tracks: Seq::empty(),
            recent_play_histories: None,
            current_playback: None,
            selected_device: None,
            save_state_track_ids: Seq::empty(),
        }
    }

    /// The view model with other save states.
    pub open spec fn with_save_states(
        self,
        entries: Seq<(Seq<char>, SaveState)>,
    ) -> SpotifyDataView {
        SpotifyDataView { save_state_track_ids: entries, ..self }
    }

    /// The view model with another list of saved tracks.
    pub open spec fn with_saved_tracks(self, tracks: Seq<SavedTrackView>) -> SpotifyDataView {
        SpotifyDataView { saved_tracks: tracks, ..self }
    }

    /// The save state shown for a track id: the recorded one, or unknown.
    pub open spec fn shown_state(self, id: Seq<char>) -> SaveState {
        match state_of(self.save_state_track_ids, id) {
            Some(state) => state,
            None => SaveState::UNKNOWN,
        }
    }

    /// The view model after the save state of a track id was looked at: an id
    /// without a record gets one, as unknown.
    pub open spec fn looked_at(self, id: Seq<char>) -> SpotifyDataView {
        if has_key(self.save_state_track_ids, id) {
            self
        } else {
            self.with_save_states(self.save_state_track_ids.push((id, SaveState::UNKNOWN)))
        }
    }

    /// The save state that toggling moves the playing track to: towards
    /// unsaved from saved, towards saved from unsaved. None where no track
    /// with an id plays, or its state is not settled either way.
    pub open spec fn toggled_state(self) -> Option<SaveState> {
        match self.playing_track_id() {
            Some(id) => match state_of(self.save_state_track_ids, id) {
                Some(SaveState::SAVED) | Some(SaveState::SAVING) => Some(SaveState::UNSAVING),
                Some(SaveState::UNSAVED) | Some(SaveState::UNSAVING) => Some(SaveState::SAVING),
                _ => None,
            },
            None => None,
        }
    }

    /// The command that toggles whether the playing track is saved.
    pub open spec fn save_command(self) -> Option<SpotifyAPIEventView> {
        match self.toggled_state() {
            Some(SaveState::UNSAVING) => Some(
                SpotifyAPIEventView::DeleteCurrentUserSavedTracks(seq![self.playing_track_id()->0]),
            ),
            Some(_) => Some(
                SpotifyAPIEventView::AddCurrentUserSavedTracks(seq![self.playing_track_id()->0]),
            ),
            None => None,
        }
    }

    /// The view model after the toggle was asked for.
    pub open spec fn save_toggled(self) -> SpotifyDataView {
        match self.toggled_state() {
            Some(state) => self.with_save_states(
                with_state(self.save_state_track_ids, self.playing_track_id()->0, state),
            ),
            None => self,
        }
    }

    /// The view model once a device is selected by name: a selection stands;
    /// without one, and with the devices known, it is the first device of
    /// that name, if there is one.
    pub open spec fn with_device_named(self, name: Seq<char>) -> SpotifyDataView {
        match (self.selected_device, self.devices) {
            (None, Some(devices)) => SpotifyDataView {
                selected_device: first_named(devices, name),
                ..self
            },
            _ => self,
        }
    }

    /// The view model after a result of the service is merged into it.
    pub open spec fn applied(self, result: SpotifyAPIResultView) -> SpotifyDataView {
        match result {
            SpotifyAPIResultView::Device(devices) => SpotifyDataView {
                devices: Some(devices),
                ..self
            },
            SpotifyAPIResultView::CurrentUserRecentlyPlayed(histories) => SpotifyDataView {
                recent_play_histories: Some(histories),
                ..self
            },
            SpotifyAPIResultView::CurrentPlayBack(playback) => SpotifyDataView {
                current_playback: playback,
                ..self
            },
            SpotifyAPIResultView::CheckCurrentUserSavedTracks(checks) => self.with_save_states(
                with_checks(self.save_state_track_ids, checks),
            ),
            SpotifyAPIResultView::SuccessAddCurrentUserSavedTracks(ids) => self.with_save_states(
                with_saved(self.save_state_track_ids, ids),
            ),
            SpotifyAPIResultView::SuccessDeleteCurrentUserSavedTracks(ids) => self.with_saved_tracks(
                without_ids(self.saved_tracks, ids),
            ),
            SpotifyAPIResultView::CurrentUserSavedTracks(page) => self.with_saved_tracks(
                merged_saved_tracks(self.saved_tracks, page.items),
            ),
            SpotifyAPIResultView::CurrentUserPlayingTrack(_) => self,
        }
    }

    /// The command that a result of the service calls for: after tracks were
    /// added, the library from its start; after a page of the library that
    /// changed the list's track ids and has a successor, the page behind it.
    pub open spec fn follow_up(self, result: SpotifyAPIResultView) -> Option<SpotifyAPIEventView> {
        match result {
            SpotifyAPIResultView::SuccessAddCurrentUserSavedTracks(_) => Some(
                SpotifyAPIEventView::CurrentUserSavedTracks(None),
            ),
            SpotifyAPIResultView::CurrentUserSavedTracks(page) => if page.has_next && track_ids(
                merged_saved_tracks(self.saved_tracks, page.items),
            ) != track_ids(self.saved_tracks) {
                Some(
                    SpotifyAPIEventView::CurrentUserSavedTracks(
                        Some((page.offset + page.limit) as u32),
                    ),
                )
            } else {
                None
            },
            _ => None,
        }
    }

    /// Whether the view model is well formed: every library entry has a track
    /// id, and no track id has two save states.
    pub open spec fn wf(self) -> bool {
        &&& forall|i: int|
            0 <= i < self.saved_tracks.len() ==> (#[trigger] self.saved_tracks[i]).track.id is Some
        &&& keys_distinct(self.save_state_track_ids)
    }

    /// The command that toggles shuffling: owed when a device is selected and
    /// a playback is known.
    pub open spec fn shuffle_command(self) -> Option<SpotifyAPIEventView> {
        match (self.selected_device, self.current_playback) {
            (Some(device), Some(playback)) => Some(
                SpotifyAPIEventView::Shuffle(!playback.shuffle_state, Some(device.id)),
            ),
            _ => None,
        }
    }

    /// The command that pauses or resumes: owed when a device is selected.
    /// With no playback known it pauses.
    pub open spec fn pause_command(self) -> Option<SpotifyAPIEventView> {
        match self.selected_device {
            Some(device) => match self.current_playback {
                Some(playback) => if playback.is_playing {
                    Some(SpotifyAPIEventView::Pause(Some(device.id)))
                } else {
                    Some(SpotifyAPIEventView::StartPlayBack(Some(device.id), None))
                },
                None => Some(SpotifyAPIEventView::Pause(Some(device.id))),
            },
            None => None,
        }
    }

    /// The command that skips to the next track: owed when a device is
    /// selected.
    pub open spec fn next_track_command(self) -> Option<SpotifyAPIEventView> {
        match self.selected_device {
            Some(device) => Some(SpotifyAPIEventView::NextTrack(Some(device.id))),
            None => None,
        }
    }

    /// The command that goes to the previous track: owed when a device is
    /// selected.
    pub open spec fn previous_track_command(self) -> Option<SpotifyAPIEventView> {
        match self.selected_device {
            Some(device) => Some(SpotifyAPIEventView::PreviousTrack(Some(device.id))),
            None => None,
        }
    }

    /// The command that steps back: owed when a device is selected and a
    /// playback is known. Early in a track it goes to the previous track,
    /// later to the start of the current one.
    pub open spec fn seek_to_zero_or_previous_track_command(self) -> Option<SpotifyAPIEventView> {
        match (self.selected_device, self.current_playback) {
            (Some(device), Some(playback)) => {
                let progress_ms = match playback.progress_ms {
                    Some(ms) => ms,
                    None => 0,
                };
                if progress_ms <= RESTART_THRESHOLD_MS {
                    Some(SpotifyAPIEventView::PreviousTrack(Some(device.id)))
                } else {
                    Some(SpotifyAPIEventView::SeekTrack(0, Some(device.id)))
                }
            },
            _ => None,
        }
    }

    /// The command that changes the volume: owed when a playback is known, and
    /// addressed to the device that plays.
    pub open spec fn volume_command(self, up: bool) -> Option<SpotifyAPIEventView> {
        match self.current_playback {
            Some(playback) => Some(
                SpotifyAPIEventView::Volume(
                    next_volume(volume_byte(playback.device.volume_percent), up),
                    Some(playback.device.id),
                ),
            ),
            None => None,
        }
    }

    /// The command that moves to the next repeat mode: owed when a playback is
    /// known, and addressed to the device that plays.
    pub open spec fn repeat_command(self) -> Option<SpotifyAPIEventView> {
        match self.current_playback {
            Some(playback) => Some(
                SpotifyAPIEventView::Repeat(
                    next_repeat(playback.repeat_state),
                    Some(playback.device.id),
                ),
            ),
            None => None,
        }
    }

    /// The track id under which the playing track's save state is kept: its
    /// id, or the empty text where it has none. None where no track plays.
    pub open spec fn shown_track_id(self) -> Option<Seq<char>> {
        match self.current_playback {
            Some(playback) => match playback.item {
                Some(track) => Some(
                    match track.id {
                        Some(id) => id,
                        None => Seq::empty(),
                    },
                ),
                None => None,
            },
            None => None,
        }
    }

    /// Whether the player pane can be written: a playing track names an
    /// artist.
    pub open spec fn playable(self) -> bool {
        match self.current_playback {
            Some(playback) => match playback.item {
                Some(track) => track.artists.len() > 0,
                None => true,
            },
            None => true,
        }
    }

    /// The lines of the player pane: none without a playback.
    pub open spec fn player_items(self) -> Seq<PlayerLineView> {
        match self.current_playback {
            Some(playback) => player_lines(
                playback,
                match self.shown_track_id() {
                    Some(id) => self.shown_state(id),
                    None => SaveState::UNKNOWN,
                },
            ),
            None => Seq::empty(),
        }
    }

    /// The view model after the player pane was written: the playing track
    /// has a save state on record.
    pub open spec fn after_player_items(self) -> SpotifyDataView {
        match self.shown_track_id() {
            Some(id) => self.looked_at(id),
            None => self,
        }
    }

    /// The id of the track that plays, where one plays and has an id.
    pub open spec fn playing_track_id(self) -> Option<Seq<char>> {
        match self.current_playback {
            Some(playback) => match playback.item {
                Some(track) => track.id,
                None => None,
            },
            None => None,
        }
    }
}

/// A page of the library that comes a second time changes nothing and calls
/// for no command: asking for pages comes to an end.
pub proof fn lemma_page_again_is_settled(data: SpotifyDataView, page: SavedTracksPageView)
    ensures
        ({
            let result = SpotifyAPIResultView::CurrentUserSavedTracks(page);
            let once = data.applied(result);
            once.applied(result) == once && once.follow_up(result) is None
        }),
{
    crate::library::lemma_merge_again_changes_nothing(data.saved_tracks, page.items);
}

/// Where the track id's save state is recorded, if it is.
fn find_state(entries: &Vec<(String, SaveState)>, id: &String) -> (r: Option<usize>)
    ensures
        match r {
            Some(i) => i < entries.len() && entries.deep_view()[i as int].0 == id@,
            None => !has_key(entries.deep_view(), id@),
        },
{
    let mut i: usize = 0;
    while i < entries.len()
        invariant
            i <= entries.len(),
            forall|k: int| 0 <= k < i ==> (#[trigger] entries.deep_view()[k]).0 != id@,
        decreases entries.len() - i,
    {
        if entries[i].0 == *id {
            assert(entries.deep_view()[i as int].0 == id@);
            return Some(i);
        }
        i += 1;
    }
    None
}

/// Records a save state for a track id.
fn record_state(entries: &mut Vec<(String, SaveState)>, id: String, state: SaveState)
    requires
        keys_distinct(old(entries).deep_view()),
    ensures
        final(entries).deep_view() == with_state(old(entries).deep_view(), id@, state),
        keys_distinct(final(entries).deep_view()),
{
    proof {
        lemma_with_state(entries.deep_view(), id@, state);
    }
    match find_state(entries, &id) {
        Some(i) => {
            proof {
                lemma_key_index_unique(entries.deep_view(), id@, i as int);
            }
            entries[i] = (id, state);
            assert(entries.deep_view() =~= old(entries).deep_view().update(
                i as int,
                (id@, state),
            ));
        },
        None => {
            entries.push((id, state));
            assert(entries.deep_view() =~= old(entries).deep_view().push((id@, state)));
        },
    }
}

/// Whether no track id occurs twice among the recorded save states.
fn has_distinct_keys(entries: &Vec<(String, SaveState)>) -> (r: bool)
    ensures
        r == keys_distinct(entries.deep_view()),
{
    let mut j: usize = 0;
    while j < entries.len()
        invariant
            j <= entries.len(),
            forall|a: int, b: int|
                0 <= a < b < j ==> entries.deep_view()[a].0 != entries.deep_view()[b].0,
        decreases entries.len() - j,
    {
        let mut i: usize = 0;
        while i < j
            invariant
                i <= j < entries.len(),
                forall|a: int|
                    0 <= a < i ==> entries.deep_view()[a].0 != entries.deep_view()[j as int].0,
            decreases j - i,
        {
            if entries[i].0 == entries[j].0 {
                assert(entries.deep_view()[i as int].0 == entries.deep_view()[j as int].0);
                return false;
            }
            i += 1;
        }
        j += 1;
    }
    true
}

impl SpotifyData {
    /// Whether the view model is well formed.
    pub fn is_well_formed(&self) -> (r: bool)
        ensures
            r == self@.wf(),
    {
        have_ids(&self.saved_tracks) && has_distinct_keys(&self.save_state_track_ids)
    }

    /// The save state recorded for a track id.
    pub fn save_state(&self, id: &String) -> (r: Option<SaveState>)
        requires
            self@.wf(),
        ensures
            r == state_of(self@.save_state_track_ids, id@),
    {
        match find_state(&self.save_state_track_ids, id) {
            Some(i) => {
                proof {
                    lemma_key_index_unique(self@.save_state_track_ids, id@, i as int);
                }
                Some(self.save_state_track_ids[i].1)
            },
            None => None,
        }
    }

    /// Records a save state for a track id.
    pub fn set_save_state(&mut self, id: String, state: SaveState)
        requires
            old(self)@.wf(),
        ensures
            final(self)@ == old(self)@.with_save_states(
                with_state(old(self)@.save_state_track_ids, id@, state),
            ),
            final(self)@.wf(),
    {
        record_state(&mut self.save_state_track_ids, id, state);
    }

    /// The save state to show for a track id. An id that has no record yet
    /// gets one, as unknown, so that the next check asks about it.
    pub fn save_state_track(&mut self, id: String) -> (state: SaveState)
        requires
            old(self)@.wf(),
        ensures
            state == old(self)@.shown_state(id@),
            final(self)@ == old(self)@.looked_at(id@),
            final(self)@.wf(),
    {
        match self.save_state(&id) {
            Some(state) => state,
            None => {
                proof {
                    lemma_with_state(self@.save_state_track_ids, id@, SaveState::UNKNOWN);
                }
                record_state(&mut self.save_state_track_ids, id, SaveState::UNKNOWN);
                SaveState::UNKNOWN
            },
        }
    }

    /// Toggles whether the playing track is saved: marks the track as on its
    /// way and returns the command that the service is owed, if any.
    pub fn toggle_save(&mut self) -> (command: Option<SpotifyAPIEvent>)
        requires
            old(self)@.wf(),
        ensures
            command.deep_view() == old(self)@.save_command(),
            final(self)@ == old(self)@.save_toggled(),
            final(self)@.wf(),
    {
        let id: String = match &self.current_playback {
            Some(playback) => match &playback.item {
                Some(track) => match &track.id {
                    Some(id) => id.clone(),
                    None => {
                        return None;
                    },
                },
                None => {
                    return None;
                },
            },
            None => {
                return None;
            },
        };
        match self.save_state(&id) {
            Some(SaveState::SAVED) | Some(SaveState::SAVING) => {
                let mut ids: Vec<String> = Vec::new();
                ids.push(id.clone());
                assert(ids.deep_view() =~= seq![id@]);
                record_state(&mut self.save_state_track_ids, id, SaveState::UNSAVING);
                Some(SpotifyAPIEvent::DeleteCurrentUserSavedTracks(ids))
            },
            Some(SaveState::UNSAVED) | Some(SaveState::UNSAVING) => {
                let mut ids: Vec<String> = Vec::new();
                ids.push(id.clone());
                assert(ids.deep_view() =~= seq![id@]);
                record_state(&mut self.save_state_track_ids, id, SaveState::SAVING);
                Some(SpotifyAPIEvent::AddCurrentUserSavedTracks(ids))
            },
            _ => None,
        }
    }

    /// Marks every unknown save state as being checked and returns the
    /// command that asks the service about those tracks. The command is owed
    /// even when it names no track.
    pub fn check_unknown_saved_tracks(&mut self) -> (command: SpotifyAPIEvent)
        requires
            old(self)@.wf(),
        ensures
            command@ == SpotifyAPIEventView::CheckCurrentUserSavedTracks(
                unknown_ids(old(self)@.save_state_track_ids),
            ),
            final(self)@ == old(self)@.with_save_states(
                checking(old(self)@.save_state_track_ids),
            ),
            final(self)@.wf(),
    {
        let ghost given = self@.save_state_track_ids;
        let mut ids: Vec<String> = Vec::new();
        let mut i: usize = 0;
        while i < self.save_state_track_ids.len()
            invariant
                i <= self.save_state_track_ids.len(),
                self.save_state_track_ids.len() == given.len(),
                ids.deep_view() == unknown_ids(given.take(i as int)),
                forall|k: int| 0 <= k < i ==> self@.save_state_track_ids[k] == checking(given)[k],
                forall|k: int| i <= k < given.len() ==> self@.save_state_track_ids[k] == given[k],
                self@.with_save_states(given) == old(self)@,
            decreases self.save_state_track_ids.len() - i,
        {
            proof {
                assert(given.take(i + 1).drop_last() =~= given.take(i as int));
                assert(given.take(i + 1).last() == given[i as int]);
            }
            if self.save_state_track_ids[i].1 == SaveState::UNKNOWN {
                let ghost before = ids.deep_view();
                let id = self.save_state_track_ids[i].0.clone();
                ids.push(id);
                assert(ids.deep_view() =~= before.push(given[i as int].0));
                let ghost entries = self@.save_state_track_ids;
                self.save_state_track_ids[i].1 = SaveState::CHECKING;
                assert(self@.save_state_track_ids =~= entries.update(
                    i as int,
                    (given[i as int].0, SaveState::CHECKING),
                ));
            }
            i += 1;
        }
        proof {
            assert(given.take(given.len() as int) =~= given);
            assert(self@.save_state_track_ids =~= checking(given));
            assert forall|a: int, b: int| 0 <= a < b < checking(given).len() implies checking(
                given,
            )[a].0 != checking(given)[b].0 by {
                assert(checking(given)[a].0 == given[a].0);
                assert(checking(given)[b].0 == given[b].0);
            }
        }
        SpotifyAPIEvent::CheckCurrentUserSavedTracks(ids)
    }

    /// Selects the device that has the given name, unless one is selected
    /// already or the devices are not known yet.
    pub fn select_device(&mut self, name: &String)
        ensures
            final(self)@ == old(self)@.with_device_named(name@),
            old(self)@.wf() ==> final(self)@.wf(),
    {
        if self.selected_device.is_some() {
            return ;
        }
        let mut found: Option<Device> = None;
        match &self.devices {
            Some(devices) => {
                let ghost all = devices.deep_view();
                let mut i: usize = 0;
                assert(all.skip(0) =~= all);
                while i < devices.len()
                    invariant_except_break
                        found is None,
                        first_named(all, name@) == first_named(all.skip(i as int), name@),
                    invariant
                        i <= devices.len(),
                        all == devices.deep_view(),
                    ensures
                        found.deep_view() == first_named(all, name@),
                    decreases devices.len() - i,
                {
                    proof {
                        assert(all.skip(i as int)[0] == all[i as int]);
                        assert(all.skip(i as int).drop_first() =~= all.skip(i + 1));
                    }
                    if devices[i].name == *name {
                        found = Some(devices[i].clone());
                        break ;
                    }
                    i += 1;
                }
            },
            None => {
                return ;
            },
        }
        self.selected_device = found;
    }

    /// Merges a result of the service into the view model and returns the
    /// command that the result calls for, if any.
    pub fn apply_result(&mut self, result: SpotifyAPIResult) -> (command: Option<SpotifyAPIEvent>)
        requires
            old(self)@.wf(),
            result@.well_formed(),
        ensures
            final(self)@ == old(self)@.applied(result@),
            command.deep_view() == old(self)@.follow_up(result@),
            final(self)@.wf(),
    {
        match result {
            SpotifyAPIResult::Device(devices) => {
                self.devices = Some(devices);
                None
            },
            SpotifyAPIResult::CurrentUserRecentlyPlayed(histories) => {
                self.recent_play_histories = Some(histories);
                None
            },
            SpotifyAPIResult::CurrentPlayBack(playback) => {
                self.current_playback = playback;
                None
            },
            SpotifyAPIResult::CurrentUserPlayingTrack(_) => None,
            SpotifyAPIResult::CheckCurrentUserSavedTracks(checks) => {
                let ghost given = checks.deep_view();
                let ghost start = self@.save_state_track_ids;
                for check in it: checks
                    invariant
                        Seq::new(it.seq().len(), |k: int| it.seq()[k].deep_view()) == given,
                        self@.save_state_track_ids == with_checks(
                            start,
                            given.take(it.index()),
                        ),
                        keys_distinct(self@.save_state_track_ids),
                        self@.with_save_states(start) == old(self)@,
                {
                    proof {
                        let k = it.index();
                        assert(given.take(k + 1).drop_last() =~= given.take(k));
                        assert(given.take(k + 1).last() == check.deep_view());
                    }
                    let state = if check.1 {
                        SaveState::SAVED
                    } else {
                        SaveState::UNSAVED
                    };
                    record_state(&mut self.save_state_track_ids, check.0, state);
                }
                assert(given.take(given.len() as int) =~= given);
                None
            },
            SpotifyAPIResult::SuccessAddCurrentUserSavedTracks(ids) => {
                let ghost given = ids.deep_view();
                let ghost start = self@.save_state_track_ids;
                for id in it: ids
                    invariant
                        Seq::new(it.seq().len(), |k: int| it.seq()[k]@) == given,
                        self@.save_state_track_ids == with_saved(start, given.take(it.index())),
                        keys_distinct(self@.save_state_track_ids),
                        self@.with_save_states(start) == old(self)@,
                {
                    proof {
                        let k = it.index();
                        assert(given.take(k + 1).drop_last() =~= given.take(k));
                        assert(given.take(k + 1).last() == id@);
                    }
                    record_state(&mut self.save_state_track_ids, id, SaveState::SAVED);
                }
                assert(given.take(given.len() as int) =~= given);
                Some(SpotifyAPIEvent::CurrentUserSavedTracks(None))
            },
            SpotifyAPIResult::SuccessDeleteCurrentUserSavedTracks(ids) => {
                let mut known: Vec<SavedTrack> = Vec::new();
                std::mem::swap(&mut known, &mut self.saved_tracks);
                self.saved_tracks = remove_saved_tracks(known, &ids);
                proof {
                    crate::library::lemma_without_ids_have_ids(
                        old(self)@.saved_tracks,
                        ids.deep_view(),
                    );
                }
                None
            },
            SpotifyAPIResult::CurrentUserSavedTracks(page) => {
                let prior = collect_track_ids(&self.saved_tracks);
                let mut known: Vec<SavedTrack> = Vec::new();
                std::mem::swap(&mut known, &mut self.saved_tracks);
                let ghost before = known.deep_view();
                let merged = merge_saved_tracks(known, page.items);
                proof {
                    crate::library::lemma_merged_have_ids(before, page@.items);
                }
                let changed = !has_track_ids(&merged, &prior);
                self.saved_tracks = merged;
                if changed && page.has_next {
                    Some(SpotifyAPIEvent::CurrentUserSavedTracks(Some(page.offset + page.limit)))
                } else {
                    None
                }
            },
        }
    }

    /// Whether the player pane can be written.
    pub fn is_playable(&self) -> (r: bool)
        ensures
            r == self@.playable(),
    {
        match &self.current_playback {
            Some(playback) => match &playback.item {
                Some(track) => track.artists.len() > 0,
                None => true,
            },
            None => true,
        }
    }

    /// The lines of the player pane. Writing them puts the playing track's
    /// save state on record, as unknown where nothing is known of it.
    pub fn player_items(&mut self) -> (items: Vec<PlayerLine>)
        requires
            old(self)@.wf(),
            old(self)@.playable(),
        ensures
            items.deep_view() == old(self)@.player_items(),
            final(self)@ == old(self)@.after_player_items(),
            final(self)@.wf(),
    {
        let id: Option<String> = match &self.current_playback {
            Some(playback) => match &playback.item {
                Some(track) => match &track.id {
                    Some(id) => Some(id.clone()),
                    None => Some(String::new()),
                },
                None => None,
            },
            None => None,
        };
        let state = match id {
            Some(id) => self.save_state_track(id),
            None => SaveState::UNKNOWN,
        };
        match &self.current_playback {
            Some(playback) => player_lines_of(playback, state),
            None => {
                let items: Vec<PlayerLine> = Vec::new();
                assert(items.deep_view() =~= Seq::<PlayerLineView>::empty());
                items
            },
        }
    }

    /// A view model that knows nothing yet.
    pub fn new() -> (data: SpotifyData)
        ensures
            data@ == SpotifyDataView::empty(),
            data@.wf(),
    {
        let data = SpotifyData {
            devices: None,
            saved_tracks: Vec::new(),
            recent_play_histories: None,
            current_playback: None,
            selected_device: None,
            save_state_track_ids: Vec::new(),
        };
        assert(data@.saved_tracks =~= Seq::empty());
        assert(data@.save_state_track_ids =~= Seq::empty());
        data
    }

    /// The command that toggles shuffling, if one is owed.
    pub fn shuffle_command(&self) -> (command: Option<SpotifyAPIEvent>)
        ensures
            command.deep_view() == self@.shuffle_command(),
    {
        match &self.selected_device {
            Some(device) => match &self.current_playback {
                Some(playback) => Some(
                    SpotifyAPIEvent::Shuffle(!playback.shuffle_state, Some(device.id.clone())),
                ),
                None => None,
            },
            None => None,
        }
    }

    /// The command that pauses or resumes, if one is owed.
    pub fn pause_command(&self) -> (command: Option<SpotifyAPIEvent>)
        ensures
            command.deep_view() == self@.pause_command(),
    {
        match &self.selected_device {
            Some(device) => match &self.current_playback {
                Some(playback) => if playback.is_playing {
                    Some(SpotifyAPIEvent::Pause(Some(device.id.clone())))
                } else {
                    Some(SpotifyAPIEvent::StartPlayBack((Some(device.id.clone()), None)))
                },
                None => Some(SpotifyAPIEvent::Pause(Some(device.id.clone()))),
            },
            None => None,
        }
    }

    /// The command that skips to the next track, if one is owed.
    pub fn next_track_command(&self) -> (command: Option<SpotifyAPIEvent>)
        ensures
            command.deep_view() == self@.next_track_command(),
    {
        match &self.selected_device {
            Some(device) => Some(SpotifyAPIEvent::NextTrack(Some(device.id.clone()))),
            None => None,
        }
    }

    /// The command that goes to the previous track, if one is owed.
    pub fn previous_track_command(&self) -> (command: Option<SpotifyAPIEvent>)
        ensures
            command.deep_view() == self@.previous_track_command(),
    {
        match &self.selected_device {
            Some(device) => Some(SpotifyAPIEvent::PreviousTrack(Some(device.id.clone()))),
            None => None,
        }
    }

    /// The command that steps back, if one is owed.
    pub fn seek_to_zero_or_previous_track_command(&self) -> (command: Option<SpotifyAPIEvent>)
        ensures
            command.deep_view() == self@.seek_to_zero_or_previous_track_command(),
    {
        match &self.selected_device {
            Some(device) => match &self.current_playback {
                Some(playback) => {
                    let progress_ms: u32 = match playback.progress_ms {
                        Some(ms) => ms,
                        None => 0,
                    };
                    if progress_ms <= RESTART_THRESHOLD_MS {
                        self.previous_track_command()
                    } else {
                        Some(SpotifyAPIEvent::SeekTrack(0, Some(device.id.clone())))
                    }
                },
                None => None,
            },
            None => None,
        }
    }

    /// The command that changes the volume, if one is owed.
    pub fn volume_command(&self, up: bool) -> (command: Option<SpotifyAPIEvent>)
        ensures
            command.deep_view() == self@.volume_command(up),
    {
        match &self.current_playback {
            Some(playback) => {
                let percent: u8 = (playback.device.volume_percent % 256) as u8;
                let next: u8 = if up {
                    if percent <= 94 {
                        percent + 6
                    } else {
                        100
                    }
                } else {
                    if percent >= 6 {
                        percent - 6
                    } else {
                        0
                    }
                };
                Some(SpotifyAPIEvent::Volume(next, Some(playback.device.id.clone())))
            },
            None => None,
        }
    }

    /// The command that moves to the next repeat mode, if one is owed.
    pub fn repeat_command(&self) -> (command: Option<SpotifyAPIEvent>)
        ensures
            command.deep_view() == self@.repeat_command(),
    {
        match &self.current_playback {
            Some(playback) => {
                let next = match playback.repeat_state {
                    RepeatState::Off => RepeatState::Track,
                    RepeatState::Track => RepeatState::Context,
                    RepeatState::Context => RepeatState::Off,
                };
                Some(SpotifyAPIEvent::Repeat(next, Some(playback.device.id.clone())))
            },
            None => None,
        }
    }
}

} // verus!
