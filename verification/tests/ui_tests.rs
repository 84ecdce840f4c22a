use crossbeam::channel::unbounded;
use crossbeam::channel::Receiver;
use spoterm::channel::ClientError;
use spoterm::model::Device;
use spoterm::model::PlayHistory;
use spoterm::model::SavedTrack;
use spoterm::model::Track;
use spoterm::spoterm::SpotifyData;
use spoterm::spotify::SpotifyAPIEvent;
use spoterm::ui::Contents;
use spoterm::ui::LikedSongs;
use spoterm::ui::Pane;
use spoterm::ui::RecentPlayed;
use spoterm::ui::UI;

fn track(id: Option<&str>, name: &str, artists: &[&str], album: &str) -> Track {
    Track {
        id: id.map(|s| s.to_string()),
        name: name.to_string(),
        artists: artists.iter().map(|s| s.to_string()).collect(),
        album: album.to_string(),
        duration_ms: 185_000,
        popularity: 42,
    }
}

fn history(id: Option<&str>, name: &str, artist: &str) -> PlayHistory {
    PlayHistory { track: track(id, name, &[artist], "Album") }
}

fn saved(id: Option<&str>, name: &str, artists: &[&str], album: &str, added_at: i64) -> SavedTrack {
    SavedTrack { added_at, track: track(id, name, artists, album) }
}

fn recent() -> (RecentPlayed, Receiver<SpotifyAPIEvent>) {
    let (tx, rx) = unbounded();
    (RecentPlayed::new(tx), rx)
}

fn liked() -> (LikedSongs, Receiver<SpotifyAPIEvent>) {
    let (tx, rx) = unbounded();
    (LikedSongs::new(tx), rx)
}

fn library() -> Vec<SavedTrack> {
    vec![
        saved(Some("s1"), "Song One", &["First", "Second"], "Blue Album", 1431648000),
        saved(None, "Local File", &["Nobody"], "Tapes", 0),
        saved(Some("s3"), "Another", &["Third"], "Red Album", 86399),
    ]
}

#[test]
fn recent_played_starts_empty() {
    let (pane, _rx) = recent();
    assert_eq!(pane.selected_id, None);
    assert_eq!(pane.device_id, None);
    assert!(pane.recent_play_histories.is_none());
    assert_eq!(pane.filter, "");
    assert_eq!(pane.row_count(), None);
    assert_eq!(pane.selected_row(), None);
    assert_eq!(pane.title(), "Recently Played");
}

#[test]
fn history_lines_put_the_artists_in_one_column() {
    let histories = Some(vec![
        history(Some("a"), "Song", "Band"),
        history(Some("b"), "Longer name", "Singer"),
        history(Some("c"), "漢字", "Artist"),
    ]);
    let lines = RecentPlayed::items_from_play_history(&histories);
    assert_eq!(
        lines,
        vec![
            format!("Song{}Band", " ".repeat(7 + 15)),
            format!("Longer name{}Singer", " ".repeat(15)),
            format!("漢字{}Artist", " ".repeat(7 + 15)),
        ]
    );
}

#[test]
fn history_lines_of_no_history_are_none() {
    assert!(RecentPlayed::items_from_play_history(&None).is_empty());
    assert!(RecentPlayed::items_from_play_history(&Some(Vec::new())).is_empty());
}

#[test]
fn history_line_of_one_track_has_the_gap_only() {
    let histories = Some(vec![history(Some("a"), "Song", "Band")]);
    assert_eq!(
        RecentPlayed::items_from_play_history(&histories),
        vec![format!("Song{}Band", " ".repeat(15))]
    );
}

#[test]
fn recent_played_moves_around_its_rows() {
    let (mut pane, _rx) = recent();
    pane.recent_play_histories = Some(vec![
        history(Some("a"), "A", "x"),
        history(Some("b"), "B", "x"),
        history(Some("c"), "C", "x"),
    ]);
    assert_eq!(pane.row_count(), Some(3));
    pane.key_down();
    assert_eq!(pane.selected_id, Some(0));
    pane.key_down();
    assert_eq!(pane.selected_id, Some(1));
    pane.key_down();
    assert_eq!(pane.selected_id, Some(2));
    pane.key_down();
    assert_eq!(pane.selected_id, Some(0));
    pane.key_up();
    assert_eq!(pane.selected_id, Some(2));
    pane.key_up();
    assert_eq!(pane.selected_id, Some(1));
}

#[test]
fn key_up_without_selection_selects_the_first_row() {
    let (mut pane, _rx) = recent();
    pane.recent_play_histories = Some(Vec::new());
    pane.key_up();
    assert_eq!(pane.selected_id, Some(0));
}

#[test]
fn key_down_on_an_empty_history_selects_the_first_row() {
    let (mut pane, _rx) = recent();
    pane.recent_play_histories = Some(Vec::new());
    pane.key_down();
    assert_eq!(pane.selected_id, Some(0));
    pane.key_down();
    assert_eq!(pane.selected_id, Some(0));
}

#[test]
fn recent_played_enter_plays_from_the_selected_row() {
    let (mut pane, rx) = recent();
    pane.recent_play_histories = Some(vec![
        history(Some("a"), "A", "x"),
        history(Some("b"), "B", "x"),
        history(Some("c"), "C", "x"),
    ]);
    pane.selected_id = Some(1);
    pane.device_id = Some("dev".to_string());
    assert!(pane.is_enterable());
    assert_eq!(pane.key_enter(), Ok(()));
    assert_eq!(
        rx.try_recv(),
        Ok(SpotifyAPIEvent::StartPlayBack((
            Some("dev".to_string()),
            Some(vec!["spotify:track:b".to_string(), "spotify:track:c".to_string()]),
        )))
    );
    assert!(rx.try_recv().is_err());
    assert_eq!(pane.selected_id, Some(1));
}

#[test]
fn recent_played_enter_without_selection_or_history_sends_nothing() {
    let (mut pane, rx) = recent();
    assert_eq!(pane.enter_command(), None);
    assert_eq!(pane.key_enter(), Ok(()));
    pane.selected_id = Some(0);
    assert_eq!(pane.key_enter(), Ok(()));
    pane.selected_id = None;
    pane.recent_play_histories = Some(vec![history(Some("a"), "A", "x")]);
    assert_eq!(pane.key_enter(), Ok(()));
    assert!(rx.try_recv().is_err());
}

#[test]
fn recent_played_enter_behind_the_last_row_plays_nothing() {
    let (mut pane, _rx) = recent();
    pane.recent_play_histories = Some(vec![history(Some("a"), "A", "x")]);
    pane.selected_id = Some(1);
    assert_eq!(
        pane.enter_command(),
        Some(SpotifyAPIEvent::StartPlayBack((None, Some(Vec::new()))))
    );
    pane.selected_id = Some(7);
    assert_eq!(
        pane.enter_command(),
        Some(SpotifyAPIEvent::StartPlayBack((None, Some(Vec::new()))))
    );
}

#[test]
fn recent_played_is_not_enterable_with_a_track_without_id_ahead() {
    let (mut pane, _rx) = recent();
    pane.recent_play_histories = Some(vec![
        history(None, "A", "x"),
        history(Some("b"), "B", "x"),
    ]);
    pane.selected_id = Some(0);
    assert!(!pane.is_enterable());
    pane.selected_id = Some(1);
    assert!(pane.is_enterable());
    pane.selected_id = None;
    assert!(pane.is_enterable());
}

#[test]
fn recent_played_is_showable_if_every_track_names_an_artist() {
    let (mut pane, _rx) = recent();
    assert!(pane.is_showable());
    pane.recent_play_histories = Some(vec![history(Some("a"), "A", "x")]);
    assert!(pane.is_showable());
    assert_eq!(pane.items(), vec![format!("A{}x", " ".repeat(15))]);
    pane.recent_play_histories.as_mut().unwrap()[0].track.artists.clear();
    assert!(!pane.is_showable());
}

#[test]
fn recent_played_enter_reports_a_closed_channel() {
    let (mut pane, rx) = recent();
    pane.recent_play_histories = Some(vec![history(Some("a"), "A", "x")]);
    pane.selected_id = Some(0);
    drop(rx);
    assert_eq!(pane.key_enter(), Err(ClientError::Disconnected));
}

#[test]
fn recent_played_takes_over_history_and_device() {
    let (mut pane, _rx) = recent();
    let mut data = SpotifyData::new();
    data.recent_play_histories = Some(vec![history(Some("a"), "A", "x")]);
    pane.set_data(&data);
    assert_eq!(pane.recent_play_histories, data.recent_play_histories);
    assert_eq!(pane.device_id, None);
    data.selected_device =
        Some(Device { id: "dev".to_string(), name: "n".to_string(), volume_percent: 1 });
    data.recent_play_histories = None;
    pane.set_data(&data);
    assert_eq!(pane.device_id, Some("dev".to_string()));
    assert!(pane.recent_play_histories.is_none());
    data.selected_device = None;
    pane.set_data(&data);
    assert_eq!(pane.device_id, Some("dev".to_string()));
    pane.set_filter("abc".to_string());
    assert_eq!(pane.filter, "abc");
}

#[test]
fn liked_songs_starts_empty() {
    let (pane, _rx) = liked();
    assert_eq!(pane.selected_id, None);
    assert_eq!(pane.device_id, None);
    assert!(pane.saved_tracks.is_empty());
    assert_eq!(pane.filter, "");
    assert_eq!(pane.row_count(), Some(0));
    assert_eq!(pane.title(), "Liked Songs");
    assert!(pane.is_enterable());
    assert!(pane.is_showable());
    assert!(pane.items().is_empty());
}

#[test]
fn liked_songs_shows_all_under_the_empty_filter() {
    let (mut pane, _rx) = liked();
    pane.saved_tracks = library();
    assert_eq!(pane.filter_saved_tracks(), vec![0, 1, 2]);
}

#[test]
fn liked_songs_filters_by_name_album_and_artists() {
    let (mut pane, _rx) = liked();
    pane.saved_tracks = library();
    pane.filter = "SONG".to_string();
    assert_eq!(pane.filter_saved_tracks(), vec![0]);
    pane.filter = "album".to_string();
    assert_eq!(pane.filter_saved_tracks(), vec![0, 2]);
    pane.filter = "nobody".to_string();
    assert_eq!(pane.filter_saved_tracks(), vec![1]);
    pane.filter = "t s".to_string();
    assert_eq!(pane.filter_saved_tracks(), vec![0]);
    pane.filter = "o".to_string();
    assert_eq!(pane.filter_saved_tracks(), vec![0, 1, 2]);
    pane.filter = "zzz".to_string();
    assert_eq!(pane.filter_saved_tracks(), Vec::<usize>::new());
    assert_eq!(pane.row_count(), Some(0));
}

#[test]
fn liked_songs_filter_lowers_ascii_only() {
    let (mut pane, _rx) = liked();
    pane.saved_tracks = vec![
        saved(Some("a"), "Ärger", &["x"], "y", 0),
        saved(Some("b"), "ärger", &["x"], "y", 0),
    ];
    pane.filter = "ärger".to_string();
    assert_eq!(pane.filter_saved_tracks(), vec![1]);
    pane.filter = "ÄRGER".to_string();
    assert_eq!(pane.filter_saved_tracks(), vec![0]);
}

#[test]
fn liked_songs_lines_have_their_columns() {
    let (mut pane, _rx) = liked();
    pane.saved_tracks = library();
    let lines = pane.items_from_saved_tracks();
    assert_eq!(lines.len(), 3);
    assert_eq!(
        lines[0],
        format!(
            "❤   {:<30}     {:<20}     {:<20}     03:05     42      2015-05-15 00:00:00",
            "Song One", "First Second", "Blue Album"
        )
    );
    assert_eq!(
        lines[1],
        format!(
            "❤   {:<30}     {:<20}     {:<20}     03:05     42      1970-01-01 00:00:00",
            "Local File", "Nobody", "Tapes"
        )
    );
    assert!(lines[2].ends_with("1970-01-01 23:59:59"));
}

#[test]
fn liked_songs_lines_cut_long_texts() {
    let (mut pane, _rx) = liked();
    let mut entry = saved(
        Some("a"),
        "A name that is longer than thirty columns",
        &["An artist", "and another one"],
        "An album with a long title",
        -1,
    );
    entry.track.popularity = 1000;
    entry.track.duration_ms = 59_000;
    pane.saved_tracks = vec![entry];
    assert_eq!(
        pane.items_from_saved_tracks(),
        vec![
            "❤   A name that is longer than thi     An artist and anothe     An album with a long     00:59     100     1969-12-31 23:59:59"
                .to_string()
        ]
    );
}

#[test]
fn liked_songs_line_without_a_date_ends_with_the_gap() {
    let (mut pane, _rx) = liked();
    pane.saved_tracks = vec![saved(Some("a"), "N", &["A"], "L", i64::MAX)];
    let lines = pane.items_from_saved_tracks();
    assert!(lines[0].ends_with("03:05     42      "));
}

#[test]
fn liked_songs_lines_follow_the_filter() {
    let (mut pane, _rx) = liked();
    pane.saved_tracks = library();
    pane.filter = "red".to_string();
    let lines = pane.items();
    assert_eq!(lines.len(), 1);
    assert!(lines[0].starts_with("❤   Another "));
}

#[test]
fn liked_songs_moves_around_the_shown_rows() {
    let (mut pane, _rx) = liked();
    pane.saved_tracks = library();
    pane.filter = "album".to_string();
    pane.key_down();
    assert_eq!(pane.selected_id, Some(0));
    pane.key_down();
    assert_eq!(pane.selected_id, Some(1));
    pane.key_down();
    assert_eq!(pane.selected_id, Some(0));
    pane.key_up();
    assert_eq!(pane.selected_id, Some(1));
    pane.key_up();
    assert_eq!(pane.selected_id, Some(0));
}

#[test]
fn liked_songs_enter_plays_the_shown_tracks_that_have_an_id() {
    let (mut pane, rx) = liked();
    pane.saved_tracks = library();
    pane.selected_id = Some(0);
    assert_eq!(pane.key_enter(), Ok(()));
    assert_eq!(
        rx.try_recv(),
        Ok(SpotifyAPIEvent::StartPlayBack((
            None,
            Some(vec!["spotify:track:s1".to_string(), "spotify:track:s3".to_string()]),
        )))
    );
    pane.selected_id = Some(1);
    pane.device_id = Some("dev".to_string());
    assert_eq!(
        pane.enter_command(),
        Some(SpotifyAPIEvent::StartPlayBack((
            Some("dev".to_string()),
            Some(vec!["spotify:track:s3".to_string()]),
        )))
    );
    pane.filter = "song".to_string();
    pane.selected_id = Some(0);
    assert_eq!(
        pane.enter_command(),
        Some(SpotifyAPIEvent::StartPlayBack((
            Some("dev".to_string()),
            Some(vec!["spotify:track:s1".to_string()]),
        )))
    );
}

#[test]
fn liked_songs_enter_needs_a_selection_and_a_row() {
    let (mut pane, rx) = liked();
    pane.saved_tracks = library();
    assert_eq!(pane.enter_command(), None);
    pane.selected_id = Some(0);
    pane.filter = "zzz".to_string();
    assert_eq!(pane.enter_command(), None);
    assert_eq!(pane.key_enter(), Ok(()));
    assert!(rx.try_recv().is_err());
    pane.filter = String::new();
    pane.selected_id = Some(3);
    assert_eq!(
        pane.enter_command(),
        Some(SpotifyAPIEvent::StartPlayBack((None, Some(Vec::new()))))
    );
    pane.selected_id = Some(9);
    assert_eq!(
        pane.enter_command(),
        Some(SpotifyAPIEvent::StartPlayBack((None, Some(Vec::new()))))
    );
}

#[test]
fn liked_songs_takes_over_library_and_device() {
    let (mut pane, _rx) = liked();
    let mut data = SpotifyData::new();
    data.saved_tracks = library();
    data.selected_device =
        Some(Device { id: "dev".to_string(), name: "n".to_string(), volume_percent: 1 });
    pane.set_data(&data);
    assert_eq!(pane.saved_tracks, library());
    assert_eq!(pane.device_id, Some("dev".to_string()));
    pane.set_filter("x".to_string());
    assert_eq!(pane.filter, "x");
}

#[test]
fn contents_collect_panes_in_order() {
    let (tx, _rx) = unbounded();
    let contents = Contents::new();
    assert!(contents.uis.is_empty());
    assert_eq!(contents.filter, "");
    assert!(!contents.input_mode);
    let contents = contents.ui(RecentPlayed::new(tx.clone())).ui(LikedSongs::new(tx));
    assert_eq!(contents.uis.len(), 2);
    assert!(matches!(contents.uis[0], Pane::Recent(_)));
    assert!(matches!(contents.uis[1], Pane::Liked(_)));
    assert_eq!(contents.uis[0].title(), "Recently Played");
    assert_eq!(contents.uis[1].title(), "Liked Songs");
}

#[test]
fn a_pane_answers_as_what_it_holds() {
    let (tx, rx) = unbounded();
    drop(rx);
    let mut pane = LikedSongs::new(tx).into_pane();
    pane.set_filter("tapes".to_string());
    let mut data = SpotifyData::new();
    data.saved_tracks = library();
    pane.set_data(&data);
    assert_eq!(pane.row_count(), Some(1));
    assert!(pane.is_enterable());
    assert!(pane.is_showable());
    pane.key_down();
    assert_eq!(pane.selected_row(), Some(0));
    pane.key_up();
    assert_eq!(pane.selected_row(), Some(0));
    assert_eq!(pane.items().len(), 1);
    assert_eq!(pane.key_enter(), Err(ClientError::Disconnected));
}

#[test]
fn recent_played_sends_through_the_channel_it_was_given() {
    let (tx, rx) = unbounded();
    let (other_tx, other_rx) = unbounded::<SpotifyAPIEvent>();
    let mut pane = RecentPlayed::new(tx);
    pane.recent_play_histories = Some(vec![history(Some("a"), "A", "x")]);
    pane.selected_id = Some(0);
    assert_eq!(pane.key_enter(), Ok(()));
    assert!(rx.try_recv().is_ok());
    assert!(other_rx.try_recv().is_err());
    drop(other_tx);
}

#[test]
fn key_up_above_the_first_row_needs_no_history() {
    let (mut pane, _rx) = recent();
    pane.selected_id = Some(2);
    pane.key_up();
    assert_eq!(pane.selected_id, Some(1));
    pane.key_up();
    assert_eq!(pane.selected_id, Some(0));
    let (mut pane, _rx) = recent();
    pane.key_up();
    assert_eq!(pane.selected_id, Some(0));
}

#[test]
fn liked_songs_sends_through_the_channel_it_was_given() {
    let (tx, rx) = unbounded();
    let (other_tx, other_rx) = unbounded::<SpotifyAPIEvent>();
    let mut pane = LikedSongs::new(tx);
    pane.saved_tracks = library();
    pane.selected_id = Some(0);
    assert_eq!(pane.key_enter(), Ok(()));
    assert!(rx.try_recv().is_ok());
    assert!(other_rx.try_recv().is_err());
    drop(other_tx);
}
