//! The client: the view model between the two channels, the menu and the
//! panes.

use vstd::prelude::*;
use crossbeam::channel::Receiver;
use crossbeam::channel::Sender;
use crate::channel::dispatch;
use crate::channel::local_hostname;
use crate::channel::share;
use crate::channel::take_result;
use crate::channel::ClientError;
use crate::player::PlayerLine;
use crate::spoterm::checking;
use crate::spoterm::SpotifyData;
use crate::spoterm::SpotifyDataView;
use crate::spotify::current_playback_command;
use crate::spotify::device_command;
use crate::spotify::recently_played_command;
use crate::spotify::saved_tracks_command;
use crate::spotify::SpotifyAPIEvent;
use crate::spotify::SpotifyAPIEventView;
use crate::spotify::SpotifyAPIResult;
use crate::spotify::SpotifyAPIResultView;
use crate::ui::Contents;
use crate::ui::ContentsView;
use crate::ui::LikedSongs;
use crate::ui::LikedSongsView;
use crate::ui::PaneView;
use crate::ui::RecentPlayedView;
use crate::ui::RecentPlayed;

verus! {

/// The client.
pub struct SpotermClient {
    /// Commands leave through this channel.
    pub tx: Sender<SpotifyAPIEvent>,
    /// Results arrive through this channel.
    pub rx: Receiver<SpotifyAPIResult>,
    pub spotify_data: SpotifyData,
    pub menu_tabs: Vec<String>,
    pub selected_menu_tab_id: usize,
    pub contents: Contents,
}

/// The view of a [`SpotermClient`]: the same with sequences for strings and vectors,
/// and without the channels.
pub struct SpotermClientView {
    pub spotify_data: SpotifyDataView,
    pub menu_tabs: Seq<Seq<char>>,
    pub selected_menu_tab_id: usize,
    pub contents: ContentsView,
}

impl View for SpotermClient {
    type V = SpotermClientView;

    open spec fn view(&self) -> SpotermClientView {
        SpotermClientView {
            spotify_data: self.spotify_data@,
            menu_tabs: self.menu_tabs.deep_view(),
            selected_menu_tab_id: self.selected_menu_tab_id,
            contents: self.contents@,
        }
    }
}

/// The menu tab behind the selected one, the first behind the last.
pub open spec fn next_tab(selected: usize, tabs: nat) -> usize {
    if selected + 1 < tabs {
        (selected + 1) as usize
    } else {
        0
    }
}

/// The menu tab before the selected one, the last before the first.
pub open spec fn previous_tab(selected: usize, tabs: nat) -> usize {
    if selected > 0 {
        (selected - 1) as usize
    } else {
        (tabs - 1) as usize
    }
}

/// Whether `after` is `before` itself or `before` with one well-formed result
/// of the service merged into it.
pub open spec fn may_follow_merge(before: SpotifyDataView, after: SpotifyDataView) -> bool {
    after == before || exists|result: SpotifyAPIResultView|
        result.well_formed() && after == #[trigger] before.applied(result)
}

/// Whether `after` is `before` itself or `before` with a device selected by
/// some name.
pub open spec fn may_follow_selection(before: SpotifyDataView, after: SpotifyDataView) -> bool {
    after == before || exists|name: Seq<char>| after == #[trigger] before.with_device_named(name)
}

impl SpotermClientView {
    /// The client at its start: nothing known, the history and the library as
    /// its panes, the first of them selected.
    pub open spec fn initial() -> SpotermClientView {
        SpotermClientView {
            spotify_data: SpotifyDataView::empty(),
            menu_tabs: seq!["📝 Recently Played 📝"@, "❤ Liked Songs ❤"@],
            selected_menu_tab_id: 0,
            contents: ContentsView {
                uis: seq![
                    PaneView::Recent(RecentPlayedView::empty()),
                    PaneView::Liked(LikedSongsView::empty()),
                ],
                filter: Seq::empty(),
                input_mode: false,
            },
        }
    }

    /// Whether the client is well formed: its view model is, each menu tab has
    /// its pane, and a tab is selected.
    pub open spec fn wf(self) -> bool {
        &&& self.spotify_data.wf()
        &&& self.menu_tabs.len() == self.contents.uis.len()
        &&& self.selected_menu_tab_id < self.menu_tabs.len()
    }

    /// The client with another view model.
    pub open spec fn with_data(self, data: SpotifyDataView) -> SpotermClientView {
        SpotermClientView { spotify_data: data, ..self }
    }

    /// The client with another menu tab selected.
    pub open spec fn with_tab(self, selected: usize) -> SpotermClientView {
        SpotermClientView { selected_menu_tab_id: selected, ..self }
    }

    /// The client after it looked for a result of the service and found
    /// `taken`: a result that can be merged is merged, anything else leaves
    /// the client as it is.
    pub open spec fn with_result(self, taken: Option<SpotifyAPIResultView>) -> SpotermClientView {
        match taken {
            Some(result) => if result.well_formed() {
                self.with_data(self.spotify_data.applied(result))
            } else {
                self
            },
            None => self,
        }
    }

    /// What follows from `taken`: the command that a merged result calls for,
    /// if it calls for one, or the report that the result could not be
    /// merged.
    pub open spec fn result_command(self, taken: Option<SpotifyAPIResultView>) -> Result<
        Option<SpotifyAPIEventView>,
        ClientError,
    > {
        match taken {
            Some(result) => if result.well_formed() {
                Ok(self.spotify_data.follow_up(result))
            } else {
                Err(ClientError::MalformedResult)
            },
            None => Ok(None),
        }
    }

    /// Whether `after` and `r` are what looking for a result gives when
    /// `taken` is found: the client is `with_result(taken)`; a result that
    /// cannot be merged is reported; a result that calls for no command
    /// succeeds; one that calls for a command succeeds unless the service
    /// does not take the command.
    pub open spec fn fetched(
        self,
        taken: Option<SpotifyAPIResultView>,
        after: SpotermClientView,
        r: Result<(), ClientError>,
    ) -> bool {
        &&& after == self.with_result(taken)
        &&& match self.result_command(taken) {
            Ok(Some(_)) => r is Ok || r == Err::<(), ClientError>(ClientError::Disconnected),
            Ok(None) => r is Ok,
            Err(e) => r == Err::<(), ClientError>(e),
        }
    }

    /// Whether a device is still to be selected: none is selected, and the
    /// devices are known.
    pub open spec fn wants_device(self) -> bool {
        self.spotify_data.selected_device is None && self.spotify_data.devices is Some
    }

    /// The client after the machine gave its name, or none: with a name, the
    /// first device of that name is selected where one is still to be
    /// selected; without a name nothing changes.
    pub open spec fn with_hostname(self, hostname: Option<Seq<char>>) -> SpotermClientView {
        match hostname {
            Some(name) => self.with_data(self.spotify_data.with_device_named(name)),
            None => self,
        }
    }

    /// Whether `after` and `r` are what selecting a device gives when the
    /// machine says `hostname`: the client is `with_hostname(hostname)`, and
    /// a missing name is reported.
    pub open spec fn device_set(
        self,
        hostname: Option<Seq<char>>,
        after: SpotermClientView,
        r: Result<(), ClientError>,
    ) -> bool {
        &&& after == self.with_hostname(hostname)
        &&& r == hostname_outcome(hostname)
    }
}

/// What asking the machine for its name comes to: success with a name, a
/// report without one.
pub open spec fn hostname_outcome(hostname: Option<Seq<char>>) -> Result<(), ClientError> {
    match hostname {
        Some(_) => Ok(()),
        None => Err(ClientError::HostnameUnavailable),
    }
}

impl SpotermClient {
    /// A client between the two channels, with the history and the library
    /// as its panes and nothing known yet.
    pub fn new(rx: Receiver<SpotifyAPIResult>, tx: Sender<SpotifyAPIEvent>) -> (client:
        SpotermClient)
        ensures
            client@ == SpotermClientView::initial(),
            client@.wf(),
            client.tx == tx,
            client.rx == rx,
    {
        let contents = Contents::new().ui(RecentPlayed::new(share(&tx))).ui(
            LikedSongs::new(share(&tx)),
        );
        let mut menu_tabs: Vec<String> = Vec::new();
        menu_tabs.push(String::from_str("📝 Recently Played 📝"));
        menu_tabs.push(String::from_str("❤ Liked Songs ❤"));
        assert(menu_tabs.deep_view() =~= seq!["📝 Recently Played 📝"@, "❤ Liked Songs ❤"@]);
        assert(contents@.uis =~= seq![
            PaneView::Recent(RecentPlayedView::empty()),
            PaneView::Liked(LikedSongsView::empty()),
        ]);
        SpotermClient {
            tx,
            rx,
            spotify_data: SpotifyData::new(),
            menu_tabs,
            selected_menu_tab_id: 0,
            contents,
        }
    }

    /// Whether the client is well formed.
    pub fn is_well_formed(&self) -> (r: bool)
        ensures
            r == self@.wf(),
    {
        assert(self.menu_tabs.deep_view().len() == self.menu_tabs.len());
        assert(self.contents.uis.deep_view().len() == self.contents.uis.len());
        self.spotify_data.is_well_formed() && self.menu_tabs.len() == self.contents.uis.len()
            && self.selected_menu_tab_id < self.menu_tabs.len()
    }

    /// Takes one result of the service, if one waits, and merges it into the
    /// view model; the command that the result calls for is handed to the
    /// service. A result that cannot be merged is dropped and reported.
    /// Which result waits is the service's doing: the client and the outcome
    /// are those of `merge_taken` for what was found.
    pub fn fetch_api_result(&mut self) -> (r: Result<(), ClientError>)
        requires
            old(self)@.wf(),
        ensures
            final(self)@.wf(),
            exists|taken: Option<SpotifyAPIResultView>| #[trigger]
                old(self)@.fetched(taken, final(self)@, r),
            final(self)@ == old(self)@.with_data(final(self)@.spotify_data),
            may_follow_merge(old(self)@.spotify_data, final(self)@.spotify_data),
            r matches Err(e) ==> if e == ClientError::MalformedResult {
                final(self)@ == old(self)@
            } else {
                e == ClientError::Disconnected
            },
    {
        let taken = take_result(&self.rx);
        let ghost found = taken.deep_view();
        match self.merge_taken(taken) {
            Ok(command) => {
                let r = dispatch(&self.tx, command);
                assert(old(self)@.fetched(found, self@, r));
                r
            },
            Err(e) => {
                assert(old(self)@.fetched(found, self@, Err::<(), ClientError>(e)));
                Err(e)
            },
        }
    }

    /// Merges what was found when the client looked for a result of the
    /// service, and returns the command that the result calls for. Nothing
    /// found changes nothing; a result that cannot be merged changes nothing
    /// and is reported.
    pub fn merge_taken(&mut self, taken: Option<SpotifyAPIResult>) -> (r: Result<
        Option<SpotifyAPIEvent>,
        ClientError,
    >)
        requires
            old(self)@.wf(),
        ensures
            final(self)@.wf(),
            final(self)@ == old(self)@.with_result(taken.deep_view()),
            match old(self)@.result_command(taken.deep_view()) {
                Ok(owed) => r matches Ok(command) && command.deep_view() == owed,
                Err(e) => r matches Err(reported) && reported == e,
            },
    {
        match taken {
            Some(result) => {
                if !result.is_well_formed() {
                    return Err(ClientError::MalformedResult);
                }
                Ok(self.spotify_data.apply_result(result))
            },
            None => Ok(None),
        }
    }

    /// Selects the menu tab behind the selected one.
    pub fn move_to_next_menu_tab(&mut self)
        requires
            old(self)@.wf(),
        ensures
            final(self)@ == old(self)@.with_tab(
                next_tab(old(self)@.selected_menu_tab_id, old(self)@.menu_tabs.len()),
            ),
            final(self)@.wf(),
    {
        assert(self.menu_tabs.deep_view().len() == self.menu_tabs.len());
        if self.selected_menu_tab_id < self.menu_tabs.len() - 1 {
            self.selected_menu_tab_id += 1;
        } else {
            self.selected_menu_tab_id = 0;
        }
    }

    /// Selects the menu tab before the selected one.
    pub fn move_to_previous_menu_tab(&mut self)
        requires
            old(self)@.wf(),
        ensures
            final(self)@ == old(self)@.with_tab(
                previous_tab(old(self)@.selected_menu_tab_id, old(self)@.menu_tabs.len()),
            ),
            final(self)@.wf(),
    {
        assert(self.menu_tabs.deep_view().len() == self.menu_tabs.len());
        if self.selected_menu_tab_id > 0 {
            self.selected_menu_tab_id -= 1;
        } else {
            self.selected_menu_tab_id = self.menu_tabs.len() - 1;
        }
    }

    /// Asks the service for the library from its start: hands it
    /// `saved_tracks_command()`.
    pub fn request_current_user_saved_tracks(&self) -> (r: Result<(), ClientError>)
        ensures
            r matches Err(e) ==> e == ClientError::Disconnected,
    {
        dispatch(&self.tx, Some(saved_tracks_command()))
    }

    /// Asks the service for the playback state: hands it
    /// `current_playback_command()`.
    pub fn request_current_playback(&self) -> (r: Result<(), ClientError>)
        ensures
            r matches Err(e) ==> e == ClientError::Disconnected,
    {
        dispatch(&self.tx, Some(current_playback_command()))
    }

    /// Asks the service for the listening history: hands it
    /// `recently_played_command()`.
    pub fn request_current_user_recently_played(&self) -> (r: Result<(), ClientError>)
        ensures
            r matches Err(e) ==> e == ClientError::Disconnected,
    {
        dispatch(&self.tx, Some(recently_played_command()))
    }

    /// Asks the service for the devices: hands it `device_command()`.
    pub fn request_device(&self) -> (r: Result<(), ClientError>)
        ensures
            r matches Err(e) ==> e == ClientError::Disconnected,
    {
        dispatch(&self.tx, Some(device_command()))
    }

    /// Toggles shuffling, where a device is selected and a playback is known.
    pub fn shuffle(&self) -> (r: Result<(), ClientError>)
        ensures
            self@.spotify_data.shuffle_command() is None ==> r is Ok,
            r matches Err(e) ==> e == ClientError::Disconnected,
    {
        dispatch(&self.tx, self.spotify_data.shuffle_command())
    }

    /// Toggles whether the playing track is saved. The track is marked as on
    /// its way whether or not the service takes the command.
    pub fn request_save_current_playback(&mut self) -> (r: Result<(), ClientError>)
        requires
            old(self)@.wf(),
        ensures
            final(self)@ == old(self)@.with_data(old(self)@.spotify_data.save_toggled()),
            final(self)@.wf(),
            old(self)@.spotify_data.save_command() is None ==> r is Ok,
            r matches Err(e) ==> e == ClientError::Disconnected,
    {
        let command = self.spotify_data.toggle_save();
        dispatch(&self.tx, command)
    }

    /// Skips to the next track, where a device is selected.
    pub fn request_next_track(&self) -> (r: Result<(), ClientError>)
        ensures
            self@.spotify_data.next_track_command() is None ==> r is Ok,
            r matches Err(e) ==> e == ClientError::Disconnected,
    {
        dispatch(&self.tx, self.spotify_data.next_track_command())
    }

    /// Steps back, where a device is selected and a playback is known.
    pub fn request_seek_to_zero_or_previous_track(&self) -> (r: Result<(), ClientError>)
        ensures
            self@.spotify_data.seek_to_zero_or_previous_track_command() is None ==> r is Ok,
            r matches Err(e) ==> e == ClientError::Disconnected,
    {
        dispatch(&self.tx, self.spotify_data.seek_to_zero_or_previous_track_command())
    }

    /// Goes to the previous track, where a device is selected.
    pub fn request_previous_track(&self) -> (r: Result<(), ClientError>)
        ensures
            self@.spotify_data.previous_track_command() is None ==> r is Ok,
            r matches Err(e) ==> e == ClientError::Disconnected,
    {
        dispatch(&self.tx, self.spotify_data.previous_track_command())
    }

    /// Turns the volume up or down, where a playback is known.
    pub fn request_volume(&self, up: bool) -> (r: Result<(), ClientError>)
        ensures
            self@.spotify_data.volume_command(up) is None ==> r is Ok,
            r matches Err(e) ==> e == ClientError::Disconnected,
    {
        dispatch(&self.tx, self.spotify_data.volume_command(up))
    }

    /// Asks the service about every track whose save state is unknown, and
    /// marks those tracks as being checked, whether or not the service takes
    /// the command.
    pub fn request_check_unknown_saved_tracks(&mut self) -> (r: Result<(), ClientError>)
        requires
            old(self)@.wf(),
        ensures
            final(self)@ == old(self)@.with_data(
                old(self)@.spotify_data.with_save_states(
                    checking(old(self)@.spotify_data.save_state_track_ids),
                ),
            ),
            final(self)@.wf(),
            r matches Err(e) ==> e == ClientError::Disconnected,
    {
        let command = self.spotify_data.check_unknown_saved_tracks();
        dispatch(&self.tx, Some(command))
    }

    /// Moves to the next repeat mode, where a playback is known.
    pub fn request_repeat(&self) -> (r: Result<(), ClientError>)
        ensures
            self@.spotify_data.repeat_command() is None ==> r is Ok,
            r matches Err(e) ==> e == ClientError::Disconnected,
    {
        dispatch(&self.tx, self.spotify_data.repeat_command())
    }

    /// The lines of the player pane.
    pub fn player_items(&mut self) -> (items: Vec<PlayerLine>)
        requires
            old(self)@.wf(),
            old(self)@.spotify_data.playable(),
        ensures
            items.deep_view() == old(self)@.spotify_data.player_items(),
            final(self)@ == old(self)@.with_data(old(self)@.spotify_data.after_player_items()),
            final(self)@.wf(),
    {
        self.spotify_data.player_items()
    }

    /// Pauses or resumes, where a device is selected.
    pub fn pause(&self) -> (r: Result<(), ClientError>)
        ensures
            self@.spotify_data.pause_command() is None ==> r is Ok,
            r matches Err(e) ==> e == ClientError::Disconnected,
    {
        dispatch(&self.tx, self.spotify_data.pause_command())
    }

    /// Selects the device that is named as this machine, unless a device is
    /// selected already or the devices are not known yet. The machine is asked
    /// for its name only where a selection is to be made; the client and the
    /// outcome are then those of `select_device_of` for what the machine
    /// said.
    pub fn set_selected_device(&mut self) -> (r: Result<(), ClientError>)
        requires
            old(self)@.wf(),
        ensures
            final(self)@.wf(),
            !old(self)@.wants_device() ==> r is Ok && final(self)@ == old(self)@,
            old(self)@.wants_device() ==> exists|hostname: Option<Seq<char>>| #[trigger]
                old(self)@.device_set(hostname, final(self)@, r),
            final(self)@ == old(self)@.with_data(final(self)@.spotify_data),
            may_follow_selection(old(self)@.spotify_data, final(self)@.spotify_data),
            r matches Err(e) ==> e == ClientError::HostnameUnavailable && final(self)@ == old(self)@,
    {
        if self.spotify_data.selected_device.is_some() || self.spotify_data.devices.is_none() {
            return Ok(());
        }
        let hostname = local_hostname();
        let ghost said = hostname.deep_view();
        let r = self.select_device_of(hostname);
        assert(old(self)@.device_set(said, self@, r));
        r
    }

    /// Selects the device that has the name that the machine gave, unless a
    /// device is selected already or the devices are not known yet. A machine
    /// that gave no name is reported, and nothing changes.
    pub fn select_device_of(&mut self, hostname: Option<String>) -> (r: Result<(), ClientError>)
        requires
            old(self)@.wf(),
        ensures
            final(self)@.wf(),
            final(self)@ == old(self)@.with_hostname(hostname.deep_view()),
            r == hostname_outcome(hostname.deep_view()),
    {
        match hostname {
            Some(name) => {
                self.spotify_data.select_device(&name);
                Ok(())
            },
            None => Err(ClientError::HostnameUnavailable),
        }
    }
}

} // verus!
