//! What drives the client: keys, the tick on which results are merged, and
//! the beat on which the service is polled.

use vstd::prelude::*;
use crossbeam::channel::Sender;
use crate::channel::dispatch;
use crate::channel::ClientError;
use crate::spoterm::unknown_ids;
use crate::spotify::current_playback_command;
use crate::spotify::device_command;
use crate::spotify::recently_played_command;
use crate::spotify::saved_tracks_command;
use crate::spotify::SpotifyAPIEvent;
use crate::spotify::SpotifyAPIEventView;
use crate::client::may_follow_merge;
use crate::client::may_follow_selection;
use crate::client::next_tab;
use crate::client::previous_tab;
use crate::client::SpotermClient;
use crate::client::SpotermClientView;
use crate::spoterm::checking;
use crate::spoterm::SpotifyDataView;
use crate::spotify::SpotifyAPIResultView;
use crate::ui::counted;
use crate::ui::row_above;
use crate::ui::row_below;
use crate::ui::ContentsView;

verus! {

/// A key, as far as the client tells keys apart.
#[derive(Clone, Copy, Debug, PartialEq, Eq, Structural)]
pub enum Key {
    Backspace,
    Left,
    Right,
    Up,
    Down,
    Esc,
    Char(char),
    /// Any other key.
    Other,
}

/// What the client reacts to.
#[derive(Clone, Copy, Debug, PartialEq, Eq, Structural)]
pub enum Event {
    KeyInput(Key),
    /// Time to merge what the service has sent.
    Tick,
    /// Time to poll the service.
    APIUpdate,
}

/// Whether the client goes on after an event.
#[derive(Clone, Copy, Debug, PartialEq, Eq, Structural)]
pub enum Flow {
    Continue,
    Quit,
}

/// The time between two ticks, in milliseconds.
pub const TICK_INTERVAL_MS: u64 = 100;

/// The time between two polls of the service, in milliseconds.
pub const API_UPDATE_INTERVAL_MS: u64 = 1000;

/// What a key does outside the filter.
#[derive(Clone, Copy, Debug, PartialEq, Eq, Structural)]
pub enum Action {
    Quit,
    Pause,
    EnterFilter,
    RowDown,
    RowUp,
    ToggleSave,
    VolumeUp,
    VolumeDown,
    Shuffle,
    Repeat,
    NextTrack,
    StepBack,
    Play,
    NextTab,
    PreviousTab,
    Nothing,
}

/// The action of a key outside the filter.
pub open spec fn action_of(key: Key) -> Action {
    match key {
        Key::Char(c) => if c == 'q' {
            Action::Quit
        } else if c == 'p' || c == ' ' {
            Action::Pause
        } else if c == '/' {
            Action::EnterFilter
        } else if c == 'j' {
            Action::RowDown
        } else if c == 'k' {
            Action::RowUp
        } else if c == 'f' {
            Action::ToggleSave
        } else if c == '+' {
            Action::VolumeUp
        } else if c == '-' {
            Action::VolumeDown
        } else if c == 'S' {
            Action::Shuffle
        } else if c == 'r' {
            Action::Repeat
        } else if c == '>' {
            Action::NextTrack
        } else if c == '<' {
            Action::StepBack
        } else if c == '\n' {
            Action::Play
        } else if c == 'l' {
            Action::NextTab
        } else if c == 'h' {
            Action::PreviousTab
        } else {
            Action::Nothing
        },
        Key::Down => Action::RowDown,
        Key::Up => Action::RowUp,
        Key::Right => Action::NextTab,
        Key::Left => Action::PreviousTab,
        _ => Action::Nothing,
    }
}

/// The action of a key outside the filter.
pub fn key_action(key: Key) -> (action: Action)
    ensures
        action == action_of(key),
{
    match key {
        Key::Char(c) => if c == 'q' {
            Action::Quit
        } else if c == 'p' || c == ' ' {
            Action::Pause
        } else if c == '/' {
            Action::EnterFilter
        } else if c == 'j' {
            Action::RowDown
        } else if c == 'k' {
            Action::RowUp
        } else if c == 'f' {
            Action::ToggleSave
        } else if c == '+' {
            Action::VolumeUp
        } else if c == '-' {
            Action::VolumeDown
        } else if c == 'S' {
            Action::Shuffle
        } else if c == 'r' {
            Action::Repeat
        } else if c == '>' {
            Action::NextTrack
        } else if c == '<' {
            Action::StepBack
        } else if c == '\n' {
            Action::Play
        } else if c == 'l' {
            Action::NextTab
        } else if c == 'h' {
            Action::PreviousTab
        } else {
            Action::Nothing
        },
        Key::Down => Action::RowDown,
        Key::Up => Action::RowUp,
        Key::Right => Action::NextTab,
        Key::Left => Action::PreviousTab,
        _ => Action::Nothing,
    }
}

/// The filter after a key was typed into it: a character is added at the
/// end, Backspace takes the last one away.
pub open spec fn typed(filter: Seq<char>, key: Key) -> Seq<char> {
    match key {
        Key::Char(c) => filter.push(c),
        Key::Backspace => if filter.len() > 0 {
            filter.drop_last()
        } else {
            filter
        },
        _ => filter,
    }
}

/// Whether a key ends the typing of the filter.
pub open spec fn ends_typing(key: Key) -> bool {
    key == Key::Char('\n') || key == Key::Esc
}

/// A command, if there is one, as a list.
pub open spec fn listed(command: Option<SpotifyAPIEventView>) -> Seq<SpotifyAPIEventView> {
    match command {
        Some(command) => seq![command],
        None => Seq::empty(),
    }
}

fn listed_command(command: Option<SpotifyAPIEvent>) -> (commands: Vec<SpotifyAPIEvent>)
    ensures
        commands.deep_view() == listed(command.deep_view()),
{
    let mut commands: Vec<SpotifyAPIEvent> = Vec::new();
    match command {
        Some(command) => {
            commands.push(command);
            assert(commands.deep_view() =~= seq![command@]);
        },
        None => {
            assert(commands.deep_view() =~= Seq::<SpotifyAPIEventView>::empty());
        },
    }
    commands
}

fn then_playback(commands: Vec<SpotifyAPIEvent>) -> (all: Vec<SpotifyAPIEvent>)
    ensures
        all.deep_view() == commands.deep_view().push(SpotifyAPIEventView::CurrentPlayBack),
{
    let mut all = commands;
    all.push(SpotifyAPIEvent::CurrentPlayBack);
    assert(all.deep_view() =~= commands.deep_view().push(SpotifyAPIEventView::CurrentPlayBack));
    all
}

/// Hands commands to the service one after another, up to the first that the
/// service does not take.
fn send_all(tx: &Sender<SpotifyAPIEvent>, commands: Vec<SpotifyAPIEvent>) -> (r: Result<
    (),
    ClientError,
>)
    ensures
        commands.len() == 0 ==> r is Ok,
        r matches Err(e) ==> e == ClientError::Disconnected,
{
    for command in it: commands {
        match dispatch(tx, Some(command)) {
            Ok(()) => {},
            Err(e) => {
                return Err(e);
            },
        }
    }
    Ok(())
}

impl SpotermClientView {
    /// The client with other panes and filter.
    pub open spec fn with_contents(self, contents: ContentsView) -> SpotermClientView {
        SpotermClientView { contents, ..self }
    }

    /// The client after the selected pane took over the view model and the
    /// filter.
    pub open spec fn synced(self) -> SpotermClientView {
        let tab = self.selected_menu_tab_id as int;
        self.with_contents(
            ContentsView {
                uis: self.contents.uis.update(
                    tab,
                    self.contents.uis[tab].with_data(self.spotify_data).with_filter(
                        self.contents.filter,
                    ),
                ),
                ..self.contents
            },
        )
    }

    /// The client with the selection of the selected pane moved.
    pub open spec fn with_row(self, row: usize) -> SpotermClientView {
        let tab = self.selected_menu_tab_id as int;
        self.with_contents(
            ContentsView {
                uis: self.contents.uis.update(tab, self.contents.uis[tab].with_selected(Some(row))),
                ..self.contents
            },
        )
    }

    /// The selected pane.
    pub open spec fn pane(self) -> crate::ui::PaneView {
        self.contents.uis[self.selected_menu_tab_id as int]
    }

    /// Whether the selected pane can answer the key: the selection moves
    /// down only once the rows are there, up from the first row only if
    /// there is a row, and Enter needs tracks that a command can name.
    pub open spec fn pane_ready(self, key: Key) -> bool {
        match action_of(key) {
            Action::RowDown => self.pane().rows() is Some,
            Action::RowUp => self.pane().can_move_up(),
            Action::Play => self.pane().enterable(),
            _ => true,
        }
    }

    /// Whether the key can be answered: always inside the filter, and outside
    /// it if the selected pane is ready for it.
    pub open spec fn answers(self, key: Key) -> bool {
        self.contents.input_mode || self.pane_ready(key)
    }

    /// The client after a key, as far as the key changes it.
    pub open spec fn after_key(self, key: Key) -> SpotermClientView {
        if self.contents.input_mode {
            if ends_typing(key) {
                self.with_contents(ContentsView { input_mode: false, ..self.contents })
            } else {
                self.with_contents(
                    ContentsView { filter: typed(self.contents.filter, key), ..self.contents },
                )
            }
        } else {
            match action_of(key) {
                Action::EnterFilter => self.with_contents(
                    ContentsView { input_mode: true, ..self.contents },
                ),
                Action::RowDown => self.with_row(
                    row_below(self.pane().selected(), self.pane().rows()->0),
                ),
                Action::RowUp => self.with_row(
                    row_above(self.pane().selected(), counted(self.pane().rows())),
                ),
                Action::ToggleSave => self.with_data(self.spotify_data.save_toggled()),
                Action::NextTab => self.with_tab(
                    next_tab(self.selected_menu_tab_id, self.menu_tabs.len()),
                ),
                Action::PreviousTab => self.with_tab(
                    previous_tab(self.selected_menu_tab_id, self.menu_tabs.len()),
                ),
                _ => self,
            }
        }
    }

    /// Whether the client goes on after a key: it ends on the quit key
    /// outside the filter.
    pub open spec fn key_flow(self, key: Key) -> Flow {
        if !self.contents.input_mode && action_of(key) == Action::Quit {
            Flow::Quit
        } else {
            Flow::Continue
        }
    }

    /// The commands that a key owes the service, in the order in which they
    /// are sent. A key that changes what plays is followed by a question for
    /// the playback.
    pub open spec fn key_commands(self, key: Key) -> Seq<SpotifyAPIEventView> {
        if self.contents.input_mode {
            Seq::empty()
        } else {
            match action_of(key) {
                Action::Pause => listed(self.spotify_data.pause_command()).push(
                    SpotifyAPIEventView::CurrentPlayBack,
                ),
                Action::Shuffle => listed(self.spotify_data.shuffle_command()).push(
                    SpotifyAPIEventView::CurrentPlayBack,
                ),
                Action::NextTrack => listed(self.spotify_data.next_track_command()).push(
                    SpotifyAPIEventView::CurrentPlayBack,
                ),
                Action::StepBack => listed(
                    self.spotify_data.seek_to_zero_or_previous_track_command(),
                ).push(SpotifyAPIEventView::CurrentPlayBack),
                Action::ToggleSave => listed(self.spotify_data.save_command()),
                Action::VolumeUp => listed(self.spotify_data.volume_command(true)),
                Action::VolumeDown => listed(self.spotify_data.volume_command(false)),
                Action::Repeat => listed(self.spotify_data.repeat_command()),
                Action::Play => listed(self.pane().enter_command()),
                _ => Seq::empty(),
            }
        }
    }

    /// The commands that polling owes the service, in the order in which they
    /// are sent.
    pub open spec fn poll_commands(self) -> Seq<SpotifyAPIEventView> {
        seq![
            SpotifyAPIEventView::Device,
            SpotifyAPIEventView::CurrentPlayBack,
            SpotifyAPIEventView::CurrentUserRecentlyPlayed,
            SpotifyAPIEventView::CurrentUserSavedTracks(None),
            SpotifyAPIEventView::CheckCurrentUserSavedTracks(
                unknown_ids(self.spotify_data.save_state_track_ids),
            ),
        ]
    }

    /// Whether `after` is a view model that a tick can leave behind: a result
    /// of the service may have been merged, and then a device may have been
    /// selected by name.
    pub open spec fn ticked(self, after: SpotifyDataView) -> bool {
        exists|merged: SpotifyDataView| #[trigger]
            may_follow_merge(self.spotify_data, merged) && may_follow_selection(merged, after)
    }

    /// The client after the service was polled: every unknown save state is
    /// being checked.
    pub open spec fn polled(self) -> SpotermClientView {
        self.with_data(
            self.spotify_data.with_save_states(checking(self.spotify_data.save_state_track_ids)),
        )
    }
}

impl SpotermClient {
    /// Lets the selected pane take over the view model and the filter.
    pub fn sync_contents(&mut self)
        requires
            old(self)@.wf(),
        ensures
            final(self)@ == old(self)@.synced(),
            final(self)@.wf(),
    {
        let tab = self.selected_menu_tab_id;
        assert(self.contents.uis.deep_view().len() == self.contents.uis.len());
        let ghost panes = self.contents.uis.deep_view();
        let filter = self.contents.filter.clone();
        self.contents.uis[tab].set_data(&self.spotify_data);
        self.contents.uis[tab].set_filter(filter);
        assert(self.contents.uis.deep_view() =~= panes.update(
            tab as int,
            panes[tab as int].with_data(old(self)@.spotify_data).with_filter(
                old(self)@.contents.filter,
            ),
        ));
    }

    /// Decides what a key does. Outside the filter a key is a command to the
    /// player, a move in the selected pane or in the menu, or the end of the
    /// program; inside, it edits the filter or leaves it. The client is
    /// changed as the key asks; the commands that the service is owed are
    /// returned, in the order in which they are to be sent. A key that the
    /// selected pane cannot answer changes nothing and is reported.
    pub fn react_to_key(&mut self, key: Key) -> (r: Result<
        (Flow, Vec<SpotifyAPIEvent>),
        ClientError,
    >)
        requires
            old(self)@.wf(),
        ensures
            final(self)@.wf(),
            r is Ok <==> old(self)@.answers(key),
            r matches Err(e) ==> e == ClientError::PaneNotReady && final(self)@ == old(self)@,
            r matches Ok(plan) ==> {
                &&& final(self)@ == old(self)@.after_key(key)
                &&& plan.1.deep_view() == old(self)@.key_commands(key)
                &&& plan.0 == old(self)@.key_flow(key)
            },
    {
        let tab = self.selected_menu_tab_id;
        assert(self.contents.uis.deep_view().len() == self.contents.uis.len());
        let ghost panes = self.contents.uis.deep_view();
        let nothing: Vec<SpotifyAPIEvent> = Vec::new();
        assert(nothing.deep_view() =~= Seq::<SpotifyAPIEventView>::empty());
        if self.contents.input_mode {
            match key {
                Key::Esc => {
                    self.contents.input_mode = false;
                },
                Key::Char(c) => {
                    if c == '\n' {
                        self.contents.input_mode = false;
                    } else {
                        self.contents.filter.push(c);
                    }
                },
                Key::Backspace => {
                    self.contents.filter.pop();
                },
                _ => {},
            }
            return Ok((Flow::Continue, nothing));
        }
        match key_action(key) {
            Action::Quit => Ok((Flow::Quit, nothing)),
            Action::Pause => Ok(
                (Flow::Continue, then_playback(listed_command(self.spotify_data.pause_command()))),
            ),
            Action::EnterFilter => {
                self.contents.input_mode = true;
                Ok((Flow::Continue, nothing))
            },
            Action::RowDown => {
                match self.contents.uis[tab].row_count() {
                    Some(_) => {
                        self.contents.uis[tab].key_down();
                        assert(self.contents.uis.deep_view() =~= panes.update(
                            tab as int,
                            panes[tab as int].with_selected(
                                Some(
                                    row_below(
                                        panes[tab as int].selected(),
                                        panes[tab as int].rows()->0,
                                    ),
                                ),
                            ),
                        ));
                        Ok((Flow::Continue, nothing))
                    },
                    None => Err(ClientError::PaneNotReady),
                }
            },
            Action::RowUp => {
                let rows = self.contents.uis[tab].row_count();
                let selected = self.contents.uis[tab].selected_row();
                let ready = match selected {
                    Some(row) => row != 0 || match rows {
                        Some(n) => n > 0,
                        None => false,
                    },
                    None => true,
                };
                if ready {
                    self.contents.uis[tab].key_up();
                    assert(self.contents.uis.deep_view() =~= panes.update(
                        tab as int,
                        panes[tab as int].with_selected(
                            Some(
                                row_above(
                                    panes[tab as int].selected(),
                                    counted(panes[tab as int].rows()),
                                ),
                            ),
                        ),
                    ));
                    Ok((Flow::Continue, nothing))
                } else {
                    Err(ClientError::PaneNotReady)
                }
            },
            Action::ToggleSave => {
                let command = self.spotify_data.toggle_save();
                Ok((Flow::Continue, listed_command(command)))
            },
            Action::VolumeUp => Ok(
                (Flow::Continue, listed_command(self.spotify_data.volume_command(true))),
            ),
            Action::VolumeDown => Ok(
                (Flow::Continue, listed_command(self.spotify_data.volume_command(false))),
            ),
            Action::Shuffle => Ok(
                (
                    Flow::Continue,
                    then_playback(listed_command(self.spotify_data.shuffle_command())),
                ),
            ),
            Action::Repeat => Ok(
                (Flow::Continue, listed_command(self.spotify_data.repeat_command())),
            ),
            Action::NextTrack => Ok(
                (
                    Flow::Continue,
                    then_playback(listed_command(self.spotify_data.next_track_command())),
                ),
            ),
            Action::StepBack => Ok(
                (
                    Flow::Continue,
                    then_playback(
                        listed_command(
                            self.spotify_data.seek_to_zero_or_previous_track_command(),
                        ),
                    ),
                ),
            ),
            Action::Play => {
                if self.contents.uis[tab].is_enterable() {
                    Ok((Flow::Continue, listed_command(self.contents.uis[tab].enter_command())))
                } else {
                    Err(ClientError::PaneNotReady)
                }
            },
            Action::NextTab => {
                self.move_to_next_menu_tab();
                Ok((Flow::Continue, nothing))
            },
            Action::PreviousTab => {
                self.move_to_previous_menu_tab();
                Ok((Flow::Continue, nothing))
            },
            Action::Nothing => Ok((Flow::Continue, nothing)),
        }
    }

    /// Answers a key: decides what it does and hands the commands that follow
    /// to the service, up to the first that the service does not take.
    pub fn handle_key(&mut self, key: Key) -> (r: Result<Flow, ClientError>)
        requires
            old(self)@.wf(),
        ensures
            final(self)@.wf(),
            old(self)@.answers(key) ==> final(self)@ == old(self)@.after_key(key),
            !old(self)@.answers(key) ==> final(self)@ == old(self)@ && r is Err,
            r matches Ok(flow) ==> flow == old(self)@.key_flow(key),
            r matches Err(e) ==> if old(self)@.answers(key) {
                e == ClientError::Disconnected
            } else {
                e == ClientError::PaneNotReady
            },
            old(self)@.answers(key) && old(self)@.key_commands(key).len() == 0 ==> r is Ok,
    {
        match self.react_to_key(key) {
            Ok(plan) => match send_all(&self.tx, plan.1) {
                Ok(()) => Ok(plan.0),
                Err(e) => Err(e),
            },
            Err(e) => Err(e),
        }
    }

    /// Merges what the service has sent and, where none is selected yet,
    /// selects this machine's device.
    pub fn handle_tick(&mut self) -> (r: Result<(), ClientError>)
        requires
            old(self)@.wf(),
        ensures
            final(self)@.wf(),
            final(self)@ == old(self)@.with_data(final(self)@.spotify_data),
            old(self)@.ticked(final(self)@.spotify_data),
            r matches Err(e) ==> e != ClientError::PaneNotReady,
    {
        match self.fetch_api_result() {
            Ok(()) => self.set_selected_device(),
            Err(e) => Err(e),
        }
    }

    /// Decides what polling the service takes: the commands that ask for the
    /// devices, the playback, the history, the library, and the save states
    /// that are unknown, which are marked as being checked.
    pub fn poll(&mut self) -> (commands: Vec<SpotifyAPIEvent>)
        requires
            old(self)@.wf(),
        ensures
            final(self)@.wf(),
            final(self)@ == old(self)@.polled(),
            commands.deep_view() == old(self)@.poll_commands(),
    {
        let mut commands: Vec<SpotifyAPIEvent> = Vec::new();
        commands.push(device_command());
        commands.push(current_playback_command());
        commands.push(recently_played_command());
        commands.push(saved_tracks_command());
        commands.push(self.spotify_data.check_unknown_saved_tracks());
        assert(commands.deep_view() =~= old(self)@.poll_commands());
        commands
    }

    /// Polls the service: marks the unknown save states as being checked and
    /// hands the polling commands to the service, up to the first that the
    /// service does not take.
    pub fn handle_api_update(&mut self) -> (r: Result<(), ClientError>)
        requires
            old(self)@.wf(),
        ensures
            final(self)@.wf(),
            final(self)@ == old(self)@.polled(),
            r matches Err(e) ==> e == ClientError::Disconnected,
    {
        let commands = self.poll();
        send_all(&self.tx, commands)
    }

    /// Answers an event and tells whether the client goes on.
    pub fn handle_event(&mut self, event: Event) -> (r: Result<Flow, ClientError>)
        requires
            old(self)@.wf(),
        ensures
            final(self)@.wf(),
            match event {
                Event::KeyInput(key) => {
                    &&& old(self)@.answers(key) ==> final(self)@ == old(self)@.after_key(key)
                    &&& !old(self)@.answers(key) ==> final(self)@ == old(self)@ && r is Err
                    &&& r matches Ok(flow) ==> flow == old(self)@.key_flow(key)
                    &&& r matches Err(e) ==> if old(self)@.answers(key) {
                        e == ClientError::Disconnected
                    } else {
                        e == ClientError::PaneNotReady
                    }
                    &&& old(self)@.answers(key) && old(self)@.key_commands(key).len() == 0 ==> r
                        is Ok
                },
                Event::Tick => {
                    &&& final(self)@ == old(self)@.with_data(final(self)@.spotify_data)
                    &&& old(self)@.ticked(final(self)@.spotify_data)
                    &&& r matches Ok(flow) ==> flow == Flow::Continue
                    &&& r matches Err(e) ==> e != ClientError::PaneNotReady
                },
                Event::APIUpdate => {
                    &&& final(self)@ == old(self)@.polled()
                    &&& r matches Ok(flow) ==> flow == Flow::Continue
                    &&& r matches Err(e) ==> e == ClientError::Disconnected
                },
            },
    {
        match event {
            Event::KeyInput(key) => self.handle_key(key),
            Event::Tick => match self.handle_tick() {
                Ok(()) => Ok(Flow::Continue),
                Err(e) => Err(e),
            },
            Event::APIUpdate => match self.handle_api_update() {
                Ok(()) => Ok(Flow::Continue),
                Err(e) => Err(e),
            },
        }
    }
}

} // verus!
