//! The content panes: the listening history and the user's library, each with
//! a selection that the keys move and that Enter plays from.

use vstd::prelude::*;
use crossbeam::channel::Sender;
use crate::channel::dispatch;
use crate::channel::ClientError;
use crate::model::clone_opt_string;
use crate::model::PlayHistory;
use crate::model::PlayHistoryView;
use crate::model::SavedTrack;
use crate::model::SavedTrackView;
use crate::model::Track;
use crate::model::TrackView;
use crate::spoterm::SpotifyData;
use crate::spotify::SpotifyAPIEvent;
use crate::spotify::SpotifyAPIEventView;
use crate::text::ascii_lowercase;
use crate::text::blanks;
use crate::text::clock;
use crate::text::contains_text;
use crate::text::decimal;
use crate::text::decimal_text;
use crate::text::format_utc;
use crate::text::join_texts;
use crate::text::joined;
use crate::text::occurs_in;
use crate::text::push_blanks;
use crate::text::push_clock;
use crate::text::text_columns;
use crate::text::text_width;
use crate::text::trim_text;
use crate::text::trimmed;
use crate::text::utc_date_time;

verus! {

/// The row below the selected one, the first row after the last; without a
/// selection, the first row.
pub open spec fn row_below(selected: Option<usize>, rows: usize) -> usize {
    match selected {
        Some(row) => if row + 1 < rows {
            (row + 1) as usize
        } else {
            0
        },
        None => 0,
    }
}

/// The number of rows, rows that are not there yet counting as none.
pub open spec fn counted(rows: Option<usize>) -> usize {
    match rows {
        Some(n) => n,
        None => 0,
    }
}

/// The row above the selected one, the last row before the first; without a
/// selection, the first row.
pub open spec fn row_above(selected: Option<usize>, rows: usize) -> usize {
    match selected {
        Some(row) => if row > 0 {
            (row - 1) as usize
        } else {
            (rows - 1) as usize
        },
        None => 0,
    }
}

/// A move stays within the rows: below the last row comes the first, above
/// the first the last.
pub proof fn lemma_rows_stay_in_range(selected: Option<usize>, rows: usize)
    requires
        rows > 0,
    ensures
        row_below(selected, rows) < rows,
        selected matches Some(row) ==> row < rows ==> row_above(selected, rows) < rows,
        selected == Some((rows - 1) as usize) ==> row_below(selected, rows) == 0,
        selected == Some(0usize) ==> row_above(selected, rows) == rows - 1,
{
}

/// The URI under which the service plays the track with this id.
pub open spec fn track_uri(id: Seq<char>) -> Seq<char> {
    "spotify:track:"@ + id
}

fn track_uri_text(id: &String) -> (uri: String)
    ensures
        uri@ == track_uri(id@),
{
    let mut uri = String::from_str("spotify:track:");
    uri.append(id.as_str());
    uri
}

fn below(selected: Option<usize>, rows: usize) -> (row: usize)
    ensures
        row == row_below(selected, rows),
{
    match selected {
        Some(row) => if rows > 0 && row < rows - 1 {
            row + 1
        } else {
            0
        },
        None => 0,
    }
}

fn above(selected: Option<usize>, rows: usize) -> (row: usize)
    requires
        selected == Some(0usize) ==> rows > 0,
    ensures
        row == row_above(selected, rows),
{
    match selected {
        Some(row) => if row > 0 {
            row - 1
        } else {
            rows - 1
        },
        None => 0,
    }
}

/// A content pane.
pub trait UI {
    /// The pane as the client holds it.
    spec fn as_pane(&self) -> PaneView;

    /// The selected row.
    fn selected_row(&self) -> (row: Option<usize>)
        ensures
            row == self.as_pane().selected(),
    ;

    /// The number of rows, once the pane's data is there.
    fn row_count(&self) -> (rows: Option<usize>)
        ensures
            rows == self.as_pane().rows(),
    ;

    /// Whether Enter can be answered: the tracks to play have what a command
    /// needs.
    fn is_enterable(&self) -> (r: bool)
        ensures
            r == self.as_pane().enterable(),
    ;

    /// Whether the rows can be written out.
    fn is_showable(&self) -> (r: bool)
        ensures
            r == self.as_pane().showable(),
    ;

    /// Moves the selection one row down, around the end.
    fn key_down(&mut self)
        requires
            old(self).as_pane().rows() is Some,
        ensures
            final(self).as_pane() == old(self).as_pane().with_selected(
                Some(row_below(old(self).as_pane().selected(), old(self).as_pane().rows()->0)),
            ),
    ;

    /// Moves the selection one row up, around the start. Only the move from
    /// the first row needs the rows: there must be one to move to.
    fn key_up(&mut self)
        requires
            old(self).as_pane().can_move_up(),
        ensures
            final(self).as_pane() == old(self).as_pane().with_selected(
                Some(
                    row_above(old(self).as_pane().selected(), counted(old(self).as_pane().rows())),
                ),
            ),
    ;

    /// Asks the service to play from the selected row on. The pane stays as
    /// it is.
    fn key_enter(&mut self) -> (r: Result<(), ClientError>)
        requires
            old(self).as_pane().enterable(),
        ensures
            final(self).as_pane() == old(self).as_pane(),
            old(self).as_pane().enter_command() is None ==> r is Ok,
            r matches Err(e) ==> e == ClientError::Disconnected,
    ;

    /// Takes over what the pane shows from the view model.
    fn set_data(&mut self, data: &SpotifyData)
        ensures
            final(self).as_pane() == old(self).as_pane().with_data(data@),
    ;

    /// Sets the text that the rows are filtered by.
    fn set_filter(&mut self, filter: String)
        ensures
            final(self).as_pane() == old(self).as_pane().with_filter(filter@),
    ;

    /// The pane's title.
    fn title(&self) -> (title: String)
        ensures
            title@ == self.as_pane().title(),
    ;

    /// The pane's rows as text.
    fn items(&self) -> (items: Vec<String>)
        requires
            self.as_pane().showable(),
        ensures
            items.deep_view() == self.as_pane().items(),
    ;

    /// The pane as one of the panes that the client holds.
    fn into_pane(self) -> (pane: Pane) where Self: Sized
        ensures
            pane@ == self.as_pane(),
    ;
}

/// The largest number of columns among the track names of a history.
pub open spec fn widest_name(histories: Seq<PlayHistoryView>) -> nat
    decreases histories.len(),
{
    if histories.len() == 0 {
        0
    } else {
        let head = widest_name(histories.drop_last());
        let last = text_columns(histories.last().track.name);
        if last > head {
            last
        } else {
            head
        }
    }
}

/// The gap between the widest track name and the artists' column.
pub const ARTIST_GAP: usize = 15;

/// A row of the history: the track's name, filled up to `width` columns and
/// the gap, and the first artist.
pub open spec fn history_line(track: TrackView, width: nat) -> Seq<char> {
    track.name + blanks((width - text_columns(track.name)) as nat) + blanks(ARTIST_GAP as nat)
        + track.artists[0]
}

/// The rows of the history: the artists stand in one column behind the
/// widest track name.
pub open spec fn history_lines(histories: Seq<PlayHistoryView>) -> Seq<Seq<char>> {
    Seq::new(
        histories.len(),
        |i: int| history_line(histories[i].track, widest_name(histories)),
    )
}

/// Whether every track of the history names an artist.
pub open spec fn all_have_artists(histories: Seq<PlayHistoryView>) -> bool {
    forall|i: int| 0 <= i < histories.len() ==> (#[trigger] histories[i]).track.artists.len() > 0
}

/// Whether every track of the history from row `from` on has an id.
pub open spec fn have_ids_from(histories: Seq<PlayHistoryView>, from: int) -> bool {
    forall|i: int| from <= i < histories.len() ==> (#[trigger] histories[i]).track.id is Some
}

/// The URIs of the tracks of the history from row `from` on.
pub open spec fn history_uris(histories: Seq<PlayHistoryView>, from: int) -> Seq<Seq<char>> {
    if 0 <= from <= histories.len() {
        Seq::new(
            (histories.len() - from) as nat,
            |i: int| track_uri(histories[from + i].track.id->0),
        )
    } else {
        Seq::empty()
    }
}

proof fn lemma_widest_name_bounds(histories: Seq<PlayHistoryView>, i: int)
    requires
        0 <= i < histories.len(),
    ensures
        text_columns(histories[i].track.name) <= widest_name(histories),
    decreases histories.len(),
{
    if i < histories.len() - 1 {
        lemma_widest_name_bounds(histories.drop_last(), i);
    }
}

/// The listening history.
pub struct RecentPlayed {
    pub selected_id: Option<usize>,
    /// The device that Enter plays on.
    pub device_id: Option<String>,
    pub recent_play_histories: Option<Vec<PlayHistory>>,
    pub filter: String,
    pub tx: Sender<SpotifyAPIEvent>,
}

/// The view of a [`RecentPlayed`]: the same with sequences for strings and vectors,
/// and without the channels.
pub struct RecentPlayedView {
    pub selected_id: Option<usize>,
    pub device_id: Option<Seq<char>>,
    pub recent_play_histories: Option<Seq<PlayHistoryView>>,
    pub filter: Seq<char>,
}

impl View for RecentPlayed {
    type V = RecentPlayedView;

    open spec fn view(&self) -> RecentPlayedView {
        RecentPlayedView {
            selected_id: self.selected_id,
            device_id: self.device_id.deep_view(),
            recent_play_histories: self.recent_play_histories.deep_view(),
            filter: self.filter@,
        }
    }
}

impl RecentPlayedView {
    /// The pane without a selection, a device, a history or a filter.
    pub open spec fn empty() -> RecentPlayedView {
        RecentPlayedView {
            selected_id: None,
            device_id: None,
            recent_play_histories: None,
            filter: Seq::empty(),
        }
    }

    /// The command that Enter gives: with a selection and a history, play the
    /// tracks from the selected row on.
    pub open spec fn enter_command(self) -> Option<SpotifyAPIEventView> {
        match (self.selected_id, self.recent_play_histories) {
            (Some(row), Some(histories)) => Some(
                SpotifyAPIEventView::StartPlayBack(
                    self.device_id,
                    Some(history_uris(histories, row as int)),
                ),
            ),
            _ => None,
        }
    }

    /// Whether the tracks that Enter would play all have an id.
    pub open spec fn enterable(self) -> bool {
        match (self.selected_id, self.recent_play_histories) {
            (Some(row), Some(histories)) => have_ids_from(histories, row as int),
            _ => true,
        }
    }

    /// The pane after it took over the view model's history and device.
    pub open spec fn with_data(self, data: crate::spoterm::SpotifyDataView) -> RecentPlayedView {
        RecentPlayedView {
            recent_play_histories: data.recent_play_histories,
            device_id: match data.selected_device {
                Some(device) => Some(device.id),
                None => self.device_id,
            },
            ..self
        }
    }
}

fn clone_histories(list: &Vec<PlayHistory>) -> (r: Vec<PlayHistory>)
    ensures
        r.deep_view() == list.deep_view(),
{
    let mut r: Vec<PlayHistory> = Vec::new();
    let mut i: usize = 0;
    while i < list.len()
        invariant
            i <= list.len(),
            r.len() == i,
            forall|k: int| 0 <= k < i ==> r.deep_view()[k] == list.deep_view()[k],
        decreases list.len() - i,
    {
        let ghost before = r.deep_view();
        r.push(list[i].clone());
        assert(r.deep_view() =~= before.push(list.deep_view()[i as int]));
        i += 1;
    }
    assert(r.deep_view() =~= list.deep_view());
    r
}

fn clone_saved_tracks(list: &Vec<SavedTrack>) -> (r: Vec<SavedTrack>)
    ensures
        r.deep_view() == list.deep_view(),
{
    let mut r: Vec<SavedTrack> = Vec::new();
    let mut i: usize = 0;
    while i < list.len()
        invariant
            i <= list.len(),
            r.len() == i,
            forall|k: int| 0 <= k < i ==> r.deep_view()[k] == list.deep_view()[k],
        decreases list.len() - i,
    {
        let ghost before = r.deep_view();
        r.push(list[i].clone());
        assert(r.deep_view() =~= before.push(list.deep_view()[i as int]));
        i += 1;
    }
    assert(r.deep_view() =~= list.deep_view());
    r
}

impl RecentPlayed {
    /// An empty pane that sends its commands through `tx`.
    pub fn new(tx: Sender<SpotifyAPIEvent>) -> (pane: RecentPlayed)
        ensures
            pane@ == RecentPlayedView::empty(),
            pane.tx == tx,
    {
        RecentPlayed {
            selected_id: None,
            device_id: None,
            recent_play_histories: None,
            filter: String::new(),
            tx,
        }
    }

    /// The rows of a history as text; none without a history.
    pub fn items_from_play_history(play_histories: &Option<Vec<PlayHistory>>) -> (items: Vec<
        String,
    >)
        requires
            play_histories.deep_view() matches Some(histories) ==> all_have_artists(histories),
        ensures
            items.deep_view() == match play_histories.deep_view() {
                Some(histories) => history_lines(histories),
                None => Seq::empty(),
            },
    {
        let mut items: Vec<String> = Vec::new();
        match play_histories {
            Some(histories) => {
                let ghost given = histories.deep_view();
                let mut widest: usize = 0;
                let mut i: usize = 0;
                while i < histories.len()
                    invariant
                        i <= histories.len(),
                        given == histories.deep_view(),
                        widest as nat == widest_name(given.take(i as int)),
                    decreases histories.len() - i,
                {
                    proof {
                        assert(given.take(i + 1).drop_last() =~= given.take(i as int));
                        assert(given.take(i + 1).last() == given[i as int]);
                    }
                    let width = text_width(histories[i].track.name.as_str());
                    if width > widest {
                        widest = width;
                    }
                    i += 1;
                }
                assert(given.take(given.len() as int) =~= given);
                let mut k: usize = 0;
                while k < histories.len()
                    invariant
                        k <= histories.len(),
                        given == histories.deep_view(),
                        all_have_artists(given),
                        widest as nat == widest_name(given),
                        items.len() == k,
                        forall|j: int|
                            0 <= j < k ==> items.deep_view()[j] == history_lines(given)[j],
                    decreases histories.len() - k,
                {
                    let track = &histories[k].track;
                    proof {
                        lemma_widest_name_bounds(given, k as int);
                        assert(given[k as int].track.artists.len() > 0);
                    }
                    let width = text_width(track.name.as_str());
                    let mut line = track.name.clone();
                    push_blanks(&mut line, widest - width);
                    push_blanks(&mut line, ARTIST_GAP);
                    line.append(track.artists[0].as_str());
                    let ghost before = items.deep_view();
                    items.push(line);
                    assert(items.deep_view() =~= before.push(line@));
                    k += 1;
                }
                assert(items.deep_view() =~= history_lines(given));
            },
            None => {
                assert(items.deep_view() =~= Seq::<Seq<char>>::empty());
            },
        }
        items
    }

    /// The command that Enter gives, if any.
    pub fn enter_command(&self) -> (command: Option<SpotifyAPIEvent>)
        requires
            self@.enterable(),
        ensures
            command.deep_view() == self@.enter_command(),
    {
        match self.selected_id {
            Some(row) => match &self.recent_play_histories {
                Some(histories) => {
                    let ghost given = histories.deep_view();
                    let mut uris: Vec<String> = Vec::new();
                    let mut i: usize = row;
                    if row > histories.len() {
                        assert(uris.deep_view() =~= history_uris(given, row as int));
                    } else {
                        while i < histories.len()
                            invariant
                                row <= i <= histories.len(),
                                given == histories.deep_view(),
                                have_ids_from(given, row as int),
                                uris.len() == i - row,
                                forall|j: int|
                                    0 <= j < i - row ==> uris.deep_view()[j] == history_uris(
                                        given,
                                        row as int,
                                    )[j],
                            decreases histories.len() - i,
                        {
                            assert(given[i as int].track.id is Some);
                            let uri = match &histories[i].track.id {
                                Some(id) => track_uri_text(id),
                                None => String::new(),
                            };
                            let ghost before = uris.deep_view();
                            uris.push(uri);
                            assert(uris.deep_view() =~= before.push(uri@));
                            i += 1;
                        }
                        assert(uris.deep_view() =~= history_uris(given, row as int));
                    }
                    Some(
                        SpotifyAPIEvent::StartPlayBack(
                            (clone_opt_string(&self.device_id), Some(uris)),
                        ),
                    )
                },
                None => None,
            },
            None => None,
        }
    }
}

impl UI for RecentPlayed {
    open spec fn as_pane(&self) -> PaneView {
        PaneView::Recent(self@)
    }

    fn selected_row(&self) -> (row: Option<usize>) {
        self.selected_id
    }

    fn row_count(&self) -> (rows: Option<usize>) {
        match &self.recent_play_histories {
            Some(histories) => Some(histories.len()),
            None => None,
        }
    }

    fn is_enterable(&self) -> (r: bool) {
        match self.selected_id {
            Some(row) => match &self.recent_play_histories {
                Some(histories) => {
                    let mut i: usize = row;
                    while i < histories.len()
                        invariant
                            row <= i,
                            self.selected_id == Some(row),
                            self@.recent_play_histories == Some(histories.deep_view()),
                            forall|j: int|
                                row <= j < i && j < histories.len() ==> (
                                #[trigger] histories.deep_view()[j]).track.id is Some,
                        decreases histories.len() - i,
                    {
                        if histories[i].track.id.is_none() {
                            assert(histories.deep_view()[i as int].track.id is None);
                            return false;
                        }
                        i += 1;
                    }
                    true
                },
                None => true,
            },
            None => true,
        }
    }

    fn is_showable(&self) -> (r: bool) {
        match &self.recent_play_histories {
            Some(histories) => {
                let mut i: usize = 0;
                while i < histories.len()
                    invariant
                        i <= histories.len(),
                        self@.recent_play_histories == Some(histories.deep_view()),
                        forall|j: int|
                            0 <= j < i ==> (#[trigger] histories.deep_view()[j]).track.artists.len()
                                > 0,
                    decreases histories.len() - i,
                {
                    if histories[i].track.artists.len() == 0 {
                        assert(histories.deep_view()[i as int].track.artists.len() == 0);
                        return false;
                    }
                    i += 1;
                }
                true
            },
            None => true,
        }
    }

    fn key_down(&mut self) {
        let rows: usize = match &self.recent_play_histories {
            Some(histories) => histories.len(),
            None => 0,
        };
        self.selected_id = Some(below(self.selected_id, rows));
    }

    fn key_up(&mut self) {
        let rows: usize = match &self.recent_play_histories {
            Some(histories) => histories.len(),
            None => 0,
        };
        self.selected_id = Some(above(self.selected_id, rows));
    }

    fn key_enter(&mut self) -> (r: Result<(), ClientError>) {
        let command = self.enter_command();
        dispatch(&self.tx, command)
    }

    fn set_data(&mut self, data: &SpotifyData) {
        self.recent_play_histories = match &data.recent_play_histories {
            Some(histories) => Some(clone_histories(histories)),
            None => None,
        };
        match &data.selected_device {
            Some(device) => {
                self.device_id = Some(device.id.clone());
            },
            None => {},
        }
    }

    fn set_filter(&mut self, filter: String) {
        self.filter = filter;
    }

    fn title(&self) -> (title: String) {
        String::from_str("Recently Played")
    }

    fn items(&self) -> (items: Vec<String>) {
        RecentPlayed::items_from_play_history(&self.recent_play_histories)
    }

    fn into_pane(self) -> (pane: Pane) {
        Pane::Recent(self)
    }
}

/// Whether a track is shown under a filter: always under the empty filter;
/// else if the filter, with its ASCII capitals made small, occurs in the
/// track's name, in its album's name, or in its artists' names joined by
/// blanks, each taken the same way.
pub open spec fn track_matches(track: TrackView, filter: Seq<char>) -> bool {
    let wanted = ascii_lowercase(filter);
    ||| filter.len() == 0
    ||| occurs_in(wanted, ascii_lowercase(track.name))
    ||| occurs_in(wanted, ascii_lowercase(track.album))
    ||| occurs_in(wanted, joined(lowered(track.artists), " "@))
}

/// Each text with its ASCII capitals made small.
pub open spec fn lowered(parts: Seq<Seq<char>>) -> Seq<Seq<char>> {
    Seq::new(parts.len(), |i: int| ascii_lowercase(parts[i]))
}

/// The positions of the tracks that are shown under a filter, in order.
pub open spec fn shown_rows(tracks: Seq<SavedTrackView>, filter: Seq<char>) -> Seq<int>
    decreases tracks.len(),
{
    if tracks.len() == 0 {
        Seq::empty()
    } else {
        let head = shown_rows(tracks.drop_last(), filter);
        if track_matches(tracks.last().track, filter) {
            head.push(tracks.len() - 1)
        } else {
            head
        }
    }
}

/// The tracks that are shown under a filter, in order.
pub open spec fn shown_tracks(tracks: Seq<SavedTrackView>, filter: Seq<char>) -> Seq<
    SavedTrackView,
> {
    Seq::new(shown_rows(tracks, filter).len(), |i: int| tracks[shown_rows(tracks, filter)[i]])
}

/// How a track's name, its artists and its album are cut, in columns.
pub const NAME_COLUMNS: usize = 30;

pub const ARTIST_COLUMNS: usize = 20;

pub const ALBUM_COLUMNS: usize = 20;

pub const POPULARITY_COLUMNS: usize = 3;

/// The date column of a row: the time the track was added, or nothing where
/// that time cannot be written.
pub open spec fn date_column(added_at: i64) -> Seq<char> {
    match utc_date_time(added_at) {
        Some(text) => text,
        None => Seq::empty(),
    }
}

/// A row of the library: name, artists, album, duration, popularity and the
/// time the track was added, each in its column.
pub open spec fn saved_track_line(entry: SavedTrackView) -> Seq<char> {
    "❤   "@ + trimmed(entry.track.name, NAME_COLUMNS as nat) + "     "@ + trimmed(
        joined(entry.track.artists, " "@),
        ARTIST_COLUMNS as nat,
    ) + "     "@ + trimmed(entry.track.album, ALBUM_COLUMNS as nat) + "     "@ + clock(
        entry.track.duration_ms as nat,
    ) + "     "@ + trimmed(decimal(entry.track.popularity as nat), POPULARITY_COLUMNS as nat)
        + "     "@ + date_column(entry.added_at)
}

/// The rows of the library under a filter.
pub open spec fn saved_track_lines(tracks: Seq<SavedTrackView>, filter: Seq<char>) -> Seq<
    Seq<char>,
> {
    Seq::new(
        shown_tracks(tracks, filter).len(),
        |i: int| saved_track_line(shown_tracks(tracks, filter)[i]),
    )
}

/// The URIs of the tracks that have an id, in order.
pub open spec fn saved_track_uris(tracks: Seq<SavedTrackView>) -> Seq<Seq<char>>
    decreases tracks.len(),
{
    if tracks.len() == 0 {
        Seq::empty()
    } else {
        let head = saved_track_uris(tracks.drop_last());
        match tracks.last().track.id {
            Some(id) => head.push(track_uri(id)),
            None => head,
        }
    }
}

/// The entries of a list from row `from` on.
pub open spec fn rows_from(tracks: Seq<SavedTrackView>, from: int) -> Seq<SavedTrackView> {
    if 0 <= from <= tracks.len() {
        tracks.skip(from)
    } else {
        Seq::empty()
    }
}

/// The rows that a filter shows are positions of the list, and no more than
/// the list has.
pub proof fn lemma_shown_rows_in_range(tracks: Seq<SavedTrackView>, filter: Seq<char>)
    ensures
        shown_rows(tracks, filter).len() <= tracks.len(),
        forall|i: int|
            0 <= i < shown_rows(tracks, filter).len() ==> 0 <= #[trigger] shown_rows(
                tracks,
                filter,
            )[i] < tracks.len(),
    decreases tracks.len(),
{
    if tracks.len() > 0 {
        lemma_shown_rows_in_range(tracks.drop_last(), filter);
    }
}

/// The user's library.
pub struct LikedSongs {
    pub selected_id: Option<usize>,
    /// The device that Enter plays on.
    pub device_id: Option<String>,
    pub saved_tracks: Vec<SavedTrack>,
    pub filter: String,
    pub tx: Sender<SpotifyAPIEvent>,
}

/// The view of a [`LikedSongs`]: the same with sequences for strings and vectors,
/// and without the channels.
pub struct LikedSongsView {
    pub selected_id: Option<usize>,
    pub device_id: Option<Seq<char>>,
    pub saved_tracks: Seq<SavedTrackView>,
    pub filter: Seq<char>,
}

impl View for LikedSongs {
    type V = LikedSongsView;

    open spec fn view(&self) -> LikedSongsView {
        LikedSongsView {
            selected_id: self.selected_id,
            device_id: self.device_id.deep_view(),
            saved_tracks: self.saved_tracks.deep_view(),
            filter: self.filter@,
        }
    }
}

impl LikedSongsView {
    /// The pane without a selection, a device, tracks or a filter.
    pub open spec fn empty() -> LikedSongsView {
        LikedSongsView {
            selected_id: None,
            device_id: None,
            saved_tracks: Seq::empty(),
            filter: Seq::empty(),
        }
    }

    /// The tracks that the pane shows.
    pub open spec fn shown(self) -> Seq<SavedTrackView> {
        shown_tracks(self.saved_tracks, self.filter)
    }

    /// The command that Enter gives: with a selection and at least one row,
    /// play the shown tracks from the selected row on, as far as they have
    /// an id.
    pub open spec fn enter_command(self) -> Option<SpotifyAPIEventView> {
        match self.selected_id {
            Some(row) => if self.shown().len() > 0 {
                Some(
                    SpotifyAPIEventView::StartPlayBack(
                        self.device_id,
                        Some(saved_track_uris(rows_from(self.shown(), row as int))),
                    ),
                )
            } else {
                None
            },
            None => None,
        }
    }

    /// The pane after it took over the view model's library and device.
    pub open spec fn with_data(self, data: crate::spoterm::SpotifyDataView) -> LikedSongsView {
        LikedSongsView {
            saved_tracks: data.saved_tracks,
            device_id: match data.selected_device {
                Some(device) => Some(device.id),
                None => self.device_id,
            },
            ..self
        }
    }
}

fn lowered_artists(track: &Track) -> (r: String)
    ensures
        r@ == joined(lowered(track@.artists), " "@),
{
    let mut names: Vec<String> = Vec::new();
    let mut i: usize = 0;
    while i < track.artists.len()
        invariant
            i <= track.artists.len(),
            names.len() == i,
            forall|k: int|
                0 <= k < i ==> names.deep_view()[k] == ascii_lowercase(track@.artists[k]),
        decreases track.artists.len() - i,
    {
        let ghost before = names.deep_view();
        let name = track.artists[i].as_str().to_ascii_lowercase();
        names.push(name);
        assert(names.deep_view() =~= before.push(name@));
        i += 1;
    }
    assert(names.deep_view() =~= lowered(track@.artists));
    join_texts(&names, " ")
}

fn is_shown(track: &Track, filter: &String, wanted: &String) -> (r: bool)
    requires
        wanted@ == ascii_lowercase(filter@),
    ensures
        r == track_matches(track@, filter@),
{
    if filter.as_str().unicode_len() == 0 {
        return true;
    }
    if contains_text(track.name.as_str().to_ascii_lowercase().as_str(), wanted.as_str()) {
        return true;
    }
    if contains_text(track.album.as_str().to_ascii_lowercase().as_str(), wanted.as_str()) {
        return true;
    }
    contains_text(lowered_artists(track).as_str(), wanted.as_str())
}

fn saved_track_line_text(entry: &SavedTrack) -> (line: String)
    ensures
        line@ == saved_track_line(entry@),
{
    let track = trim_text(&entry.track.name, NAME_COLUMNS);
    let artist = trim_text(&join_texts(&entry.track.artists, " "), ARTIST_COLUMNS);
    let album = trim_text(&entry.track.album, ALBUM_COLUMNS);
    let popularity = trim_text(&decimal_text(entry.track.popularity), POPULARITY_COLUMNS);
    let mut line = String::from_str("❤   ");
    line.append(track.as_str());
    line.append("     ");
    line.append(artist.as_str());
    line.append("     ");
    line.append(album.as_str());
    line.append("     ");
    push_clock(&mut line, entry.track.duration_ms);
    line.append("     ");
    line.append(popularity.as_str());
    line.append("     ");
    match format_utc(entry.added_at) {
        Some(text) => {
            line.append(text.as_str());
        },
        None => {
            assert(line@ + Seq::<char>::empty() =~= line@);
        },
    }
    line
}

impl LikedSongs {
    /// An empty pane that sends its commands through `tx`.
    pub fn new(tx: Sender<SpotifyAPIEvent>) -> (pane: LikedSongs)
        ensures
            pane@ == LikedSongsView::empty(),
            pane.tx == tx,
    {
        let pane = LikedSongs {
            selected_id: None,
            device_id: None,
            saved_tracks: Vec::new(),
            filter: String::new(),
            tx,
        };
        assert(pane@.saved_tracks =~= Seq::empty());
        pane
    }

    /// Cuts and pads a text to exactly `width_max_limit` columns.
    pub fn trim_text(text: &String, width_max_limit: usize) -> (r: String)
        ensures
            r@ == trimmed(text@, width_max_limit as nat),
            text_columns(r@) == width_max_limit,
    {
        trim_text(text, width_max_limit)
    }

    /// The positions of the tracks that the filter lets through.
    pub fn filter_saved_tracks(&self) -> (rows: Vec<usize>)
        ensures
            rows.len() == self@.shown().len(),
            forall|i: int|
                0 <= i < rows.len() ==> rows[i] as int == shown_rows(
                    self@.saved_tracks,
                    self@.filter,
                )[i],
            forall|i: int| 0 <= i < rows.len() ==> rows[i] < self.saved_tracks.len(),
    {
        let ghost tracks = self@.saved_tracks;
        let ghost filter = self@.filter;
        let wanted = self.filter.as_str().to_ascii_lowercase();
        let mut rows: Vec<usize> = Vec::new();
        let mut i: usize = 0;
        while i < self.saved_tracks.len()
            invariant
                i <= self.saved_tracks.len(),
                tracks == self@.saved_tracks,
                filter == self@.filter,
                wanted@ == ascii_lowercase(filter),
                rows.len() == shown_rows(tracks.take(i as int), filter).len(),
                forall|k: int|
                    0 <= k < rows.len() ==> rows[k] as int == shown_rows(
                        tracks.take(i as int),
                        filter,
                    )[k],
                forall|k: int| 0 <= k < rows.len() ==> rows[k] < i,
            decreases self.saved_tracks.len() - i,
        {
            proof {
                assert(tracks.take(i + 1).drop_last() =~= tracks.take(i as int));
                assert(tracks.take(i + 1).last() == tracks[i as int]);
            }
            if is_shown(&self.saved_tracks[i].track, &self.filter, &wanted) {
                rows.push(i);
            }
            i += 1;
        }
        assert(tracks.take(tracks.len() as int) =~= tracks);
        rows
    }

    /// The rows of the library as text.
    pub fn items_from_saved_tracks(&self) -> (items: Vec<String>)
        ensures
            items.deep_view() == saved_track_lines(self@.saved_tracks, self@.filter),
    {
        let rows = self.filter_saved_tracks();
        let mut items: Vec<String> = Vec::new();
        let mut i: usize = 0;
        while i < rows.len()
            invariant
                i <= rows.len(),
                rows.len() == self@.shown().len(),
                forall|k: int|
                    0 <= k < rows.len() ==> rows[k] as int == shown_rows(
                        self@.saved_tracks,
                        self@.filter,
                    )[k],
                forall|k: int| 0 <= k < rows.len() ==> rows[k] < self.saved_tracks.len(),
                items.len() == i,
                forall|k: int|
                    0 <= k < i ==> items.deep_view()[k] == saved_track_lines(
                        self@.saved_tracks,
                        self@.filter,
                    )[k],
            decreases rows.len() - i,
        {
            let line = saved_track_line_text(&self.saved_tracks[rows[i]]);
            let ghost before = items.deep_view();
            items.push(line);
            assert(items.deep_view() =~= before.push(line@));
            i += 1;
        }
        assert(items.deep_view() =~= saved_track_lines(self@.saved_tracks, self@.filter));
        items
    }

    /// The command that Enter gives, if any.
    pub fn enter_command(&self) -> (command: Option<SpotifyAPIEvent>)
        ensures
            command.deep_view() == self@.enter_command(),
    {
        match self.selected_id {
            Some(row) => {
                let rows = self.filter_saved_tracks();
                if rows.len() == 0 {
                    return None;
                }
                let ghost shown = self@.shown();
                let mut uris: Vec<String> = Vec::new();
                if row > rows.len() {
                    assert(uris.deep_view() =~= saved_track_uris(rows_from(shown, row as int)));
                } else {
                    let ghost rest = shown.skip(row as int);
                    let mut i: usize = row;
                    while i < rows.len()
                        invariant
                            row <= i <= rows.len(),
                            rows.len() == shown.len(),
                            shown == self@.shown(),
                            rest == shown.skip(row as int),
                            forall|k: int|
                                0 <= k < rows.len() ==> rows[k] as int == shown_rows(
                                    self@.saved_tracks,
                                    self@.filter,
                                )[k],
                            forall|k: int|
                                0 <= k < rows.len() ==> rows[k] < self.saved_tracks.len(),
                            uris.deep_view() == saved_track_uris(rest.take(i - row)),
                        decreases rows.len() - i,
                    {
                        proof {
                            assert(rest.take(i - row + 1).drop_last() =~= rest.take(i - row));
                            assert(rest.take(i - row + 1).last() == shown[i as int]);
                        }
                        match &self.saved_tracks[rows[i]].track.id {
                            Some(id) => {
                                let uri = track_uri_text(id);
                                let ghost before = uris.deep_view();
                                uris.push(uri);
                                assert(uris.deep_view() =~= before.push(uri@));
                            },
                            None => {},
                        }
                        i += 1;
                    }
                    assert(rest.take(rest.len() as int) =~= rest);
                }
                Some(
                    SpotifyAPIEvent::StartPlayBack((clone_opt_string(&self.device_id), Some(uris))),
                )
            },
            None => None,
        }
    }
}

impl UI for LikedSongs {
    open spec fn as_pane(&self) -> PaneView {
        PaneView::Liked(self@)
    }

    fn selected_row(&self) -> (row: Option<usize>) {
        self.selected_id
    }

    fn row_count(&self) -> (rows: Option<usize>) {
        Some(self.filter_saved_tracks().len())
    }

    fn is_enterable(&self) -> (r: bool) {
        true
    }

    fn is_showable(&self) -> (r: bool) {
        true
    }

    fn key_down(&mut self) {
        let rows: usize = self.filter_saved_tracks().len();
        self.selected_id = Some(below(self.selected_id, rows));
    }

    fn key_up(&mut self) {
        let rows: usize = self.filter_saved_tracks().len();
        self.selected_id = Some(above(self.selected_id, rows));
    }

    fn key_enter(&mut self) -> (r: Result<(), ClientError>) {
        let command = self.enter_command();
        dispatch(&self.tx, command)
    }

    fn set_data(&mut self, data: &SpotifyData) {
        self.saved_tracks = clone_saved_tracks(&data.saved_tracks);
        match &data.selected_device {
            Some(device) => {
                self.device_id = Some(device.id.clone());
            },
            None => {},
        }
    }

    fn set_filter(&mut self, filter: String) {
        self.filter = filter;
    }

    fn title(&self) -> (title: String) {
        String::from_str("Liked Songs")
    }

    fn items(&self) -> (items: Vec<String>) {
        self.items_from_saved_tracks()
    }

    fn into_pane(self) -> (pane: Pane) {
        Pane::Liked(self)
    }
}

/// One of the client's panes.
pub enum Pane {
    Recent(RecentPlayed),
    Liked(LikedSongs),
}

/// The view of a [`Pane`]: the same with sequences for strings and vectors.
pub enum PaneView {
    Recent(RecentPlayedView),
    Liked(LikedSongsView),
}

impl View for Pane {
    type V = PaneView;

    open spec fn view(&self) -> PaneView {
        match self {
            Pane::Recent(pane) => PaneView::Recent(pane@),
            Pane::Liked(pane) => PaneView::Liked(pane@),
        }
    }
}

impl DeepView for Pane {
    type V = PaneView;

    open spec fn deep_view(&self) -> PaneView {
        self@
    }
}

impl Pane {
    /// The selected row.
    pub fn selected_row(&self) -> (row: Option<usize>)
        ensures
            row == self@.selected(),
    {
        match self {
            Pane::Recent(pane) => pane.selected_row(),
            Pane::Liked(pane) => pane.selected_row(),
        }
    }

    /// The number of rows, once the pane's data is there.
    pub fn row_count(&self) -> (rows: Option<usize>)
        ensures
            rows == self@.rows(),
    {
        match self {
            Pane::Recent(pane) => pane.row_count(),
            Pane::Liked(pane) => pane.row_count(),
        }
    }

    /// Whether Enter can be answered.
    pub fn is_enterable(&self) -> (r: bool)
        ensures
            r == self@.enterable(),
    {
        match self {
            Pane::Recent(pane) => pane.is_enterable(),
            Pane::Liked(pane) => pane.is_enterable(),
        }
    }

    /// Whether the rows can be written out.
    pub fn is_showable(&self) -> (r: bool)
        ensures
            r == self@.showable(),
    {
        match self {
            Pane::Recent(pane) => pane.is_showable(),
            Pane::Liked(pane) => pane.is_showable(),
        }
    }

    /// Moves the selection one row down, around the end.
    pub fn key_down(&mut self)
        requires
            old(self)@.rows() is Some,
        ensures
            final(self)@ == old(self)@.with_selected(
                Some(row_below(old(self)@.selected(), old(self)@.rows()->0)),
            ),
    {
        match self {
            Pane::Recent(pane) => pane.key_down(),
            Pane::Liked(pane) => pane.key_down(),
        }
    }

    /// Moves the selection one row up, around the start. Only the move from
    /// the first row needs the rows: there must be one to move to.
    pub fn key_up(&mut self)
        requires
            old(self)@.can_move_up(),
        ensures
            final(self)@ == old(self)@.with_selected(
                Some(row_above(old(self)@.selected(), counted(old(self)@.rows()))),
            ),
    {
        match self {
            Pane::Recent(pane) => pane.key_up(),
            Pane::Liked(pane) => pane.key_up(),
        }
    }

    /// Asks the service to play from the selected row on.
    pub fn key_enter(&mut self) -> (r: Result<(), ClientError>)
        requires
            old(self)@.enterable(),
        ensures
            final(self)@ == old(self)@,
            old(self)@.enter_command() is None ==> r is Ok,
            r matches Err(e) ==> e == ClientError::Disconnected,
    {
        match self {
            Pane::Recent(pane) => pane.key_enter(),
            Pane::Liked(pane) => pane.key_enter(),
        }
    }

    /// The command that Enter gives, if any.
    pub fn enter_command(&self) -> (command: Option<SpotifyAPIEvent>)
        requires
            self@.enterable(),
        ensures
            command.deep_view() == self@.enter_command(),
    {
        match self {
            Pane::Recent(pane) => pane.enter_command(),
            Pane::Liked(pane) => pane.enter_command(),
        }
    }

    /// Takes over what the pane shows from the view model.
    pub fn set_data(&mut self, data: &SpotifyData)
        ensures
            final(self)@ == old(self)@.with_data(data@),
    {
        match self {
            Pane::Recent(pane) => pane.set_data(data),
            Pane::Liked(pane) => pane.set_data(data),
        }
    }

    /// Sets the text that the rows are filtered by.
    pub fn set_filter(&mut self, filter: String)
        ensures
            final(self)@ == old(self)@.with_filter(filter@),
    {
        match self {
            Pane::Recent(pane) => pane.set_filter(filter),
            Pane::Liked(pane) => pane.set_filter(filter),
        }
    }

    /// The pane's title.
    pub fn title(&self) -> (title: String)
        ensures
            title@ == self@.title(),
    {
        match self {
            Pane::Recent(pane) => pane.title(),
            Pane::Liked(pane) => pane.title(),
        }
    }

    /// The pane's rows as text.
    pub fn items(&self) -> (items: Vec<String>)
        requires
            self@.showable(),
        ensures
            items.deep_view() == self@.items(),
    {
        match self {
            Pane::Recent(pane) => pane.items(),
            Pane::Liked(pane) => pane.items(),
        }
    }
}

impl PaneView {
    /// The selected row.
    pub open spec fn selected(self) -> Option<usize> {
        match self {
            PaneView::Recent(pane) => pane.selected_id,
            PaneView::Liked(pane) => pane.selected_id,
        }
    }

    /// The number of rows, once the pane's data is there.
    pub open spec fn rows(self) -> Option<usize> {
        match self {
            PaneView::Recent(pane) => match pane.recent_play_histories {
                Some(histories) => Some(histories.len() as usize),
                None => None,
            },
            PaneView::Liked(pane) => Some(pane.shown().len() as usize),
        }
    }

    /// Whether the selection can move up: from the first row only if the
    /// rows are there and there is one; from any other row, or without a
    /// selection, always.
    pub open spec fn can_move_up(self) -> bool {
        self.selected() == Some(0usize) ==> self.rows() is Some && self.rows()->0 > 0
    }

    /// Whether Enter can be answered.
    pub open spec fn enterable(self) -> bool {
        match self {
            PaneView::Recent(pane) => pane.enterable(),
            PaneView::Liked(_) => true,
        }
    }

    /// Whether the rows can be written out.
    pub open spec fn showable(self) -> bool {
        match self {
            PaneView::Recent(pane) => match pane.recent_play_histories {
                Some(histories) => all_have_artists(histories),
                None => true,
            },
            PaneView::Liked(_) => true,
        }
    }

    /// The pane with another selection.
    pub open spec fn with_selected(self, selected: Option<usize>) -> PaneView {
        match self {
            PaneView::Recent(pane) => PaneView::Recent(
                RecentPlayedView { selected_id: selected, ..pane },
            ),
            PaneView::Liked(pane) => PaneView::Liked(
                LikedSongsView { selected_id: selected, ..pane },
            ),
        }
    }

    /// The pane with another filter.
    pub open spec fn with_filter(self, filter: Seq<char>) -> PaneView {
        match self {
            PaneView::Recent(pane) => PaneView::Recent(RecentPlayedView { filter, ..pane }),
            PaneView::Liked(pane) => PaneView::Liked(LikedSongsView { filter, ..pane }),
        }
    }

    /// The pane after it took over what it shows from the view model.
    pub open spec fn with_data(self, data: crate::spoterm::SpotifyDataView) -> PaneView {
        match self {
            PaneView::Recent(pane) => PaneView::Recent(pane.with_data(data)),
            PaneView::Liked(pane) => PaneView::Liked(pane.with_data(data)),
        }
    }

    /// The command that Enter gives.
    pub open spec fn enter_command(self) -> Option<SpotifyAPIEventView> {
        match self {
            PaneView::Recent(pane) => pane.enter_command(),
            PaneView::Liked(pane) => pane.enter_command(),
        }
    }

    /// The pane's title.
    pub open spec fn title(self) -> Seq<char> {
        match self {
            PaneView::Recent(_) => "Recently Played"@,
            PaneView::Liked(_) => "Liked Songs"@,
        }
    }

    /// The pane's rows as text.
    pub open spec fn items(self) -> Seq<Seq<char>> {
        match self {
            PaneView::Recent(pane) => match pane.recent_play_histories {
                Some(histories) => history_lines(histories),
                None => Seq::empty(),
            },
            PaneView::Liked(pane) => saved_track_lines(pane.saved_tracks, pane.filter),
        }
    }
}

/// The panes and what is common to them.
pub struct Contents {
    pub uis: Vec<Pane>,
    pub filter: String,
    /// Whether keys are typed into the filter.
    pub input_mode: bool,
}

/// The view of a [`Contents`]: the same with sequences for strings and vectors.
pub struct ContentsView {
    pub uis: Seq<PaneView>,
    pub filter: Seq<char>,
    pub input_mode: bool,
}

impl View for Contents {
    type V = ContentsView;

    open spec fn view(&self) -> ContentsView {
        ContentsView {
            uis: self.uis.deep_view(),
            filter: self.filter@,
            input_mode: self.input_mode,
        }
    }
}

impl ContentsView {
    /// No panes, no filter.
    pub open spec fn empty() -> ContentsView {
        ContentsView { uis: Seq::empty(), filter: Seq::empty(), input_mode: false }
    }
}

impl Contents {
    /// No panes, no filter.
    pub fn new() -> (contents: Contents)
        ensures
            contents@ == ContentsView::empty(),
    {
        let contents = Contents { uis: Vec::new(), filter: String::new(), input_mode: false };
        assert(contents@.uis =~= Seq::empty());
        contents
    }

    /// The same with one more pane at the end.
    pub fn ui<T: 'static + UI>(self, ui: T) -> (contents: Contents)
        ensures
            contents@.uis == self@.uis.push(ui.as_pane()),
            contents@.filter == self@.filter,
            contents@.input_mode == self@.input_mode,
    {
        let mut contents = self;
        contents.uis.push(ui.into_pane());
        assert(contents@.uis =~= self@.uis.push(ui.as_pane()));
        contents
    }
}

} // verus!
