//! Plain data standing for what the streaming service reports: devices,
//! tracks, library entries, listening history and the playback state.
//!
//! Every type has a view that replaces strings and vectors by sequences;
//! contracts throughout the crate are stated over these views.

use vstd::prelude::*;

verus! {

/// How playback repeats.
#[derive(Clone, Copy, Debug, PartialEq, Eq, Structural)]
pub enum RepeatState {
    Off,
    Track,
    Context,
}

/// A playback device known to the service.
#[derive(Debug, PartialEq, Eq)]
pub struct Device {
    pub id: String,
    pub name: String,
    pub volume_percent: u32,
}

/// The view of a [`Device`]: the same with sequences for strings and vectors.
pub struct DeviceView {
    pub id: Seq<char>,
    pub name: Seq<char>,
    pub volume_percent: u32,
}

impl View for Device {
    type V = DeviceView;

    open spec fn view(&self) -> DeviceView {
        DeviceView { id: self.id@, name: self.name@, volume_percent: self.volume_percent }
    }
}

impl DeepView for Device {
    type V = DeviceView;

    open spec fn deep_view(&self) -> DeviceView {
        self@
    }
}

impl Clone for Device {
    fn clone(&self) -> (r: Self)
        ensures
            r@ == self@,
    {
        Device {
            id: self.id.clone(),
            name: self.name.clone(),
            volume_percent: self.volume_percent,
        }
    }
}

/// A track: what the client reads of the service's full track object.
#[derive(Debug, PartialEq, Eq)]
pub struct Track {
    /// The service's id; local files have none.
    pub id: Option<String>,
    pub name: String,
    /// The artists' names, in the service's order.
    pub artists: Vec<String>,
    /// The album's name.
    pub album: String,
    pub duration_ms: u32,
    pub popularity: u32,
}

/// The view of a [`Track`]: the same with sequences for strings and vectors.
pub struct TrackView {
    pub id: Option<Seq<char>>,
    pub name: Seq<char>,
    pub artists: Seq<Seq<char>>,
    pub album: Seq<char>,
    pub duration_ms: u32,
    pub popularity: u32,
}

impl View for Track {
    type V = TrackView;

    open spec fn view(&self) -> TrackView {
        TrackView {
            id: self.id.deep_view(),
            name: self.name@,
            artists: self.artists.deep_view(),
            album: self.album@,
            duration_ms: self.duration_ms,
            popularity: self.popularity,
        }
    }
}

impl DeepView for Track {
    type V = TrackView;

    open spec fn deep_view(&self) -> TrackView {
        self@
    }
}

/// A copy of an optional string.
pub fn clone_opt_string(o: &Option<String>) -> (r: Option<String>)
    ensures
        r.deep_view() == o.deep_view(),
{
    match o {
        Some(s) => Some(s.clone()),
        None => None,
    }
}

/// Whether two optional strings hold the same.
pub fn same_opt_string(a: &Option<String>, b: &Option<String>) -> (r: bool)
    ensures
        r == (a.deep_view() == b.deep_view()),
{
    match a {
        Some(x) => match b {
            Some(y) => *x == *y,
            None => false,
        },
        None => match b {
            Some(_) => false,
            None => true,
        },
    }
}

/// Whether a list of strings holds a given one.
pub fn holds_string(list: &Vec<String>, s: &String) -> (r: bool)
    ensures
        r == list.deep_view().contains(s@),
{
    let mut i: usize = 0;
    while i < list.len()
        invariant
            i <= list.len(),
            forall|k: int| 0 <= k < i ==> list.deep_view()[k] != s@,
        decreases list.len() - i,
    {
        if list[i] == *s {
            assert(list.deep_view()[i as int] == s@);
            return true;
        }
        i += 1;
    }
    false
}

/// A copy of a list of strings.
pub fn clone_strings(v: &Vec<String>) -> (r: Vec<String>)
    ensures
        r.deep_view() == v.deep_view(),
{
    let mut r: Vec<String> = Vec::new();
    let mut i: usize = 0;
    while i < v.len()
        invariant
            i <= v.len(),
            r.len() == i,
            forall|k: int| 0 <= k < i ==> r[k]@ == v[k]@,
        decreases v.len() - i,
    {
        r.push(v[i].clone());
        i += 1;
    }
    assert(r.deep_view() =~= v.deep_view());
    r
}

impl Clone for Track {
    fn clone(&self) -> (r: Self)
        ensures
            r@ == self@,
    {
        Track {
            id: clone_opt_string(&self.id),
            name: self.name.clone(),
            artists: clone_strings(&self.artists),
            album: self.album.clone(),
            duration_ms: self.duration_ms,
            popularity: self.popularity,
        }
    }
}


/// An entry of the user's library: a track and when it was added.
#[derive(Debug, PartialEq, Eq)]
pub struct SavedTrack {
    /// When the track was added, in seconds since the Unix epoch.
    pub added_at: i64,
    pub track: Track,
}

/// The view of a [`SavedTrack`]: the same with sequences for strings and vectors.
pub struct SavedTrackView {
    pub added_at: i64,
    pub track: TrackView,
}

impl View for SavedTrack {
    type V = SavedTrackView;

    open spec fn view(&self) -> SavedTrackView {
        SavedTrackView { added_at: self.added_at, track: self.track@ }
    }
}

impl DeepView for SavedTrack {
    type V = SavedTrackView;

    open spec fn deep_view(&self) -> SavedTrackView {
        self@
    }
}

impl Clone for SavedTrack {
    fn clone(&self) -> (r: Self)
        ensures
            r@ == self@,
    {
        SavedTrack { added_at: self.added_at, track: self.track.clone() }
    }
}

/// An entry of the listening history.
#[derive(Debug, PartialEq, Eq)]
pub struct PlayHistory {
    pub track: Track,
}

/// The view of a [`PlayHistory`]: the same with sequences for strings and vectors.
pub struct PlayHistoryView {
    pub track: TrackView,
}

impl View for PlayHistory {
    type V = PlayHistoryView;

    open spec fn view(&self) -> PlayHistoryView {
        PlayHistoryView { track: self.track@ }
    }
}

impl DeepView for PlayHistory {
    type V = PlayHistoryView;

    open spec fn deep_view(&self) -> PlayHistoryView {
        self@
    }
}

impl Clone for PlayHistory {
    fn clone(&self) -> (r: Self)
        ensures
            r@ == self@,
    {
        PlayHistory { track: self.track.clone() }
    }
}

/// What is playing, where and how.
#[derive(Debug, PartialEq, Eq)]
pub struct Playback {
    pub device: Device,
    pub repeat_state: RepeatState,
    pub shuffle_state: bool,
    pub progress_ms: Option<u32>,
    pub is_playing: bool,
    pub item: Option<Track>,
}

/// The view of a [`Playback`]: the same with sequences for strings and vectors.
pub struct PlaybackView {
    pub device: DeviceView,
    pub repeat_state: RepeatState,
    pub shuffle_state: bool,
    pub progress_ms: Option<u32>,
    pub is_playing: bool,
    pub item: Option<TrackView>,
}

impl View for Playback {
    type V = PlaybackView;

    open spec fn view(&self) -> PlaybackView {
        PlaybackView {
            device: self.device@,
            repeat_state: self.repeat_state,
            shuffle_state: self.shuffle_state,
            progress_ms: self.progress_ms,
            is_playing: self.is_playing,
            item: self.item.deep_view(),
        }
    }
}

impl DeepView for Playback {
    type V = PlaybackView;

    open spec fn deep_view(&self) -> PlaybackView {
        self@
    }
}

/// One page of the user's library as the service hands it out.
#[derive(Debug, PartialEq, Eq)]
pub struct SavedTracksPage {
    pub items: Vec<SavedTrack>,
    /// The page size that was asked for.
    pub limit: u32,
    /// The position of the page's first entry in the library.
    pub offset: u32,
    /// Whether the service names a page after this one.
    pub has_next: bool,
}

/// The view of a [`SavedTracksPage`]: the same with sequences for strings and vectors.
pub struct SavedTracksPageView {
    pub items: Seq<SavedTrackView>,
    pub limit: u32,
    pub offset: u32,
    pub has_next: bool,
}

impl View for SavedTracksPage {
    type V = SavedTracksPageView;

    open spec fn view(&self) -> SavedTracksPageView {
        SavedTracksPageView {
            items: self.items.deep_view(),
            limit: self.limit,
            offset: self.offset,
            has_next: self.has_next,
        }
    }
}

impl DeepView for SavedTracksPage {
    type V = SavedTracksPageView;

    open spec fn deep_view(&self) -> SavedTracksPageView {
        self@
    }
}

} // verus!
