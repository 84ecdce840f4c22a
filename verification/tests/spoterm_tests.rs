use spoterm::model::Device;
use spoterm::model::PlayHistory;
use spoterm::model::Playback;
use spoterm::model::RepeatState;
use spoterm::model::SavedTrack;
use spoterm::model::SavedTracksPage;
use spoterm::model::Track;
use spoterm::spoterm::SaveState;
use spoterm::spoterm::SpotifyData;
use spoterm::spotify::SpotifyAPIEvent;
use spoterm::spotify::SpotifyAPIResult;

fn device(id: &str, name: &str, volume: u32) -> Device {
    Device { id: id.to_string(), name: name.to_string(), volume_percent: volume }
}

fn track(id: Option<&str>, name: &str) -> Track {
    Track {
        id: id.map(|s| s.to_string()),
        name: name.to_string(),
        artists: vec!["First".to_string(), "Second".to_string()],
        album: "Album".to_string(),
        duration_ms: 185_000,
        popularity: 42,
    }
}

fn playback(volume: u32) -> Playback {
    Playback {
        device: device("playing-device", "Speaker", volume),
        repeat_state: RepeatState::Off,
        shuffle_state: false,
        progress_ms: Some(5000),
        is_playing: true,
        item: Some(track(Some("t1"), "Song")),
    }
}

fn saved(id: &str, added_at: i64) -> SavedTrack {
    SavedTrack { added_at, track: track(Some(id), id) }
}

fn with_device_and_playback() -> SpotifyData {
    let mut data = SpotifyData::new();
    data.selected_device = Some(device("dev1", "laptop", 10));
    data.current_playback = Some(playback(50));
    data
}

#[test]
fn new_data_knows_nothing() {
    let data = SpotifyData::new();
    assert!(data.devices.is_none());
    assert!(data.saved_tracks.is_empty());
    assert!(data.recent_play_histories.is_none());
    assert!(data.current_playback.is_none());
    assert!(data.selected_device.is_none());
    assert!(data.save_state_track_ids.is_empty());
}

#[test]
fn no_commands_without_device_or_playback() {
    let data = SpotifyData::new();
    assert_eq!(data.shuffle_command(), None);
    assert_eq!(data.pause_command(), None);
    assert_eq!(data.next_track_command(), None);
    assert_eq!(data.previous_track_command(), None);
    assert_eq!(data.seek_to_zero_or_previous_track_command(), None);
    assert_eq!(data.volume_command(true), None);
    assert_eq!(data.repeat_command(), None);
}

#[test]
fn shuffle_toggles_on_the_selected_device() {
    let mut data = with_device_and_playback();
    assert_eq!(
        data.shuffle_command(),
        Some(SpotifyAPIEvent::Shuffle(true, Some("dev1".to_string())))
    );
    data.current_playback.as_mut().unwrap().shuffle_state = true;
    assert_eq!(
        data.shuffle_command(),
        Some(SpotifyAPIEvent::Shuffle(false, Some("dev1".to_string())))
    );
    data.current_playback = None;
    assert_eq!(data.shuffle_command(), None);
}

#[test]
fn shuffle_needs_a_selected_device() {
    let mut data = with_device_and_playback();
    data.selected_device = None;
    assert_eq!(data.shuffle_command(), None);
}

#[test]
fn pause_pauses_what_plays_and_resumes_what_does_not() {
    let mut data = with_device_and_playback();
    assert_eq!(data.pause_command(), Some(SpotifyAPIEvent::Pause(Some("dev1".to_string()))));
    data.current_playback.as_mut().unwrap().is_playing = false;
    assert_eq!(
        data.pause_command(),
        Some(SpotifyAPIEvent::StartPlayBack((Some("dev1".to_string()), None)))
    );
    data.current_playback = None;
    assert_eq!(data.pause_command(), Some(SpotifyAPIEvent::Pause(Some("dev1".to_string()))));
    data.selected_device = None;
    assert_eq!(data.pause_command(), None);
}

#[test]
fn next_and_previous_track_need_only_a_device() {
    let mut data = SpotifyData::new();
    data.selected_device = Some(device("dev1", "laptop", 10));
    assert_eq!(
        data.next_track_command(),
        Some(SpotifyAPIEvent::NextTrack(Some("dev1".to_string())))
    );
    assert_eq!(
        data.previous_track_command(),
        Some(SpotifyAPIEvent::PreviousTrack(Some("dev1".to_string())))
    );
}

#[test]
fn step_back_goes_to_previous_track_early_in_a_track() {
    let mut data = with_device_and_playback();
    data.current_playback.as_mut().unwrap().progress_ms = Some(3000);
    assert_eq!(
        data.seek_to_zero_or_previous_track_command(),
        Some(SpotifyAPIEvent::PreviousTrack(Some("dev1".to_string())))
    );
    data.current_playback.as_mut().unwrap().progress_ms = None;
    assert_eq!(
        data.seek_to_zero_or_previous_track_command(),
        Some(SpotifyAPIEvent::PreviousTrack(Some("dev1".to_string())))
    );
}

#[test]
fn step_back_restarts_the_track_later_on() {
    let mut data = with_device_and_playback();
    data.current_playback.as_mut().unwrap().progress_ms = Some(3001);
    assert_eq!(
        data.seek_to_zero_or_previous_track_command(),
        Some(SpotifyAPIEvent::SeekTrack(0, Some("dev1".to_string())))
    );
}

#[test]
fn step_back_needs_device_and_playback() {
    let mut data = with_device_and_playback();
    data.current_playback = None;
    assert_eq!(data.seek_to_zero_or_previous_track_command(), None);
    let mut data = with_device_and_playback();
    data.selected_device = None;
    assert_eq!(data.seek_to_zero_or_previous_track_command(), None);
}

#[test]
fn volume_moves_by_six_on_the_playing_device() {
    let data = with_device_and_playback();
    assert_eq!(
        data.volume_command(true),
        Some(SpotifyAPIEvent::Volume(56, Some("playing-device".to_string())))
    );
    assert_eq!(
        data.volume_command(false),
        Some(SpotifyAPIEvent::Volume(44, Some("playing-device".to_string())))
    );
}

#[test]
fn volume_stays_within_zero_and_hundred() {
    let mut data = with_device_and_playback();
    data.current_playback = Some(playback(94));
    assert_eq!(
        data.volume_command(true),
        Some(SpotifyAPIEvent::Volume(100, Some("playing-device".to_string())))
    );
    data.current_playback = Some(playback(95));
    assert_eq!(
        data.volume_command(true),
        Some(SpotifyAPIEvent::Volume(100, Some("playing-device".to_string())))
    );
    data.current_playback = Some(playback(100));
    assert_eq!(
        data.volume_command(true),
        Some(SpotifyAPIEvent::Volume(100, Some("playing-device".to_string())))
    );
    data.current_playback = Some(playback(5));
    assert_eq!(
        data.volume_command(false),
        Some(SpotifyAPIEvent::Volume(0, Some("playing-device".to_string())))
    );
    data.current_playback = Some(playback(6));
    assert_eq!(
        data.volume_command(false),
        Some(SpotifyAPIEvent::Volume(0, Some("playing-device".to_string())))
    );
    data.current_playback = Some(playback(0));
    assert_eq!(
        data.volume_command(false),
        Some(SpotifyAPIEvent::Volume(0, Some("playing-device".to_string())))
    );
}

#[test]
fn volume_reads_the_reported_volume_as_a_byte() {
    let mut data = with_device_and_playback();
    data.current_playback = Some(playback(256 + 20));
    assert_eq!(
        data.volume_command(false),
        Some(SpotifyAPIEvent::Volume(14, Some("playing-device".to_string())))
    );
    data.current_playback = Some(playback(255));
    assert_eq!(
        data.volume_command(true),
        Some(SpotifyAPIEvent::Volume(100, Some("playing-device".to_string())))
    );
}

#[test]
fn repeat_goes_round_off_track_context() {
    let mut data = with_device_and_playback();
    assert_eq!(
        data.repeat_command(),
        Some(SpotifyAPIEvent::Repeat(RepeatState::Track, Some("playing-device".to_string())))
    );
    data.current_playback.as_mut().unwrap().repeat_state = RepeatState::Track;
    assert_eq!(
        data.repeat_command(),
        Some(SpotifyAPIEvent::Repeat(RepeatState::Context, Some("playing-device".to_string())))
    );
    data.current_playback.as_mut().unwrap().repeat_state = RepeatState::Context;
    assert_eq!(
        data.repeat_command(),
        Some(SpotifyAPIEvent::Repeat(RepeatState::Off, Some("playing-device".to_string())))
    );
}

#[test]
fn save_states_are_recorded_once_per_track() {
    let mut data = SpotifyData::new();
    assert_eq!(data.save_state(&"a".to_string()), None);
    data.set_save_state("a".to_string(), SaveState::SAVED);
    data.set_save_state("b".to_string(), SaveState::UNKNOWN);
    data.set_save_state("a".to_string(), SaveState::UNSAVED);
    assert_eq!(data.save_state(&"a".to_string()), Some(SaveState::UNSAVED));
    assert_eq!(data.save_state(&"b".to_string()), Some(SaveState::UNKNOWN));
    assert_eq!(data.save_state_track_ids.len(), 2);
    assert_eq!(data.save_state_track_ids[0], ("a".to_string(), SaveState::UNSAVED));
}

#[test]
fn looking_at_an_unrecorded_track_records_it_as_unknown() {
    let mut data = SpotifyData::new();
    assert_eq!(data.save_state_track("a".to_string()), SaveState::UNKNOWN);
    assert_eq!(data.save_state_track_ids, vec![("a".to_string(), SaveState::UNKNOWN)]);
    data.set_save_state("a".to_string(), SaveState::SAVING);
    assert_eq!(data.save_state_track("a".to_string()), SaveState::SAVING);
    assert_eq!(data.save_state_track_ids.len(), 1);
}

#[test]
fn toggle_save_unsaves_a_saved_track() {
    let mut data = with_device_and_playback();
    data.set_save_state("t1".to_string(), SaveState::SAVED);
    assert_eq!(
        data.toggle_save(),
        Some(SpotifyAPIEvent::DeleteCurrentUserSavedTracks(vec!["t1".to_string()]))
    );
    assert_eq!(data.save_state(&"t1".to_string()), Some(SaveState::UNSAVING));
    assert_eq!(
        data.toggle_save(),
        Some(SpotifyAPIEvent::AddCurrentUserSavedTracks(vec!["t1".to_string()]))
    );
    assert_eq!(data.save_state(&"t1".to_string()), Some(SaveState::SAVING));
    assert_eq!(
        data.toggle_save(),
        Some(SpotifyAPIEvent::DeleteCurrentUserSavedTracks(vec!["t1".to_string()]))
    );
    assert_eq!(data.save_state(&"t1".to_string()), Some(SaveState::UNSAVING));
}

#[test]
fn toggle_save_saves_an_unsaved_track() {
    let mut data = with_device_and_playback();
    data.set_save_state("t1".to_string(), SaveState::UNSAVED);
    assert_eq!(
        data.toggle_save(),
        Some(SpotifyAPIEvent::AddCurrentUserSavedTracks(vec!["t1".to_string()]))
    );
    assert_eq!(data.save_state(&"t1".to_string()), Some(SaveState::SAVING));
}

#[test]
fn toggle_save_waits_while_the_state_is_open() {
    let mut data = with_device_and_playback();
    assert_eq!(data.toggle_save(), None);
    assert!(data.save_state_track_ids.is_empty());
    data.set_save_state("t1".to_string(), SaveState::UNKNOWN);
    assert_eq!(data.toggle_save(), None);
    data.set_save_state("t1".to_string(), SaveState::CHECKING);
    assert_eq!(data.toggle_save(), None);
    assert_eq!(data.save_state(&"t1".to_string()), Some(SaveState::CHECKING));
}

#[test]
fn toggle_save_needs_a_playing_track_with_an_id() {
    let mut data = with_device_and_playback();
    data.set_save_state("t1".to_string(), SaveState::SAVED);
    data.current_playback.as_mut().unwrap().item = Some(track(None, "local"));
    assert_eq!(data.toggle_save(), None);
    data.current_playback.as_mut().unwrap().item = None;
    assert_eq!(data.toggle_save(), None);
    data.current_playback = None;
    assert_eq!(data.toggle_save(), None);
    assert_eq!(data.save_state(&"t1".to_string()), Some(SaveState::SAVED));
}

#[test]
fn check_unknown_asks_about_every_unknown_track_in_order() {
    let mut data = SpotifyData::new();
    data.set_save_state("a".to_string(), SaveState::UNKNOWN);
    data.set_save_state("b".to_string(), SaveState::SAVED);
    data.set_save_state("c".to_string(), SaveState::UNKNOWN);
    data.set_save_state("d".to_string(), SaveState::CHECKING);
    assert_eq!(
        data.check_unknown_saved_tracks(),
        SpotifyAPIEvent::CheckCurrentUserSavedTracks(vec!["a".to_string(), "c".to_string()])
    );
    assert_eq!(
        data.save_state_track_ids,
        vec![
            ("a".to_string(), SaveState::CHECKING),
            ("b".to_string(), SaveState::SAVED),
            ("c".to_string(), SaveState::CHECKING),
            ("d".to_string(), SaveState::CHECKING),
        ]
    );
    assert_eq!(
        data.check_unknown_saved_tracks(),
        SpotifyAPIEvent::CheckCurrentUserSavedTracks(Vec::new())
    );
}

#[test]
fn select_device_takes_the_first_device_of_the_name() {
    let mut data = SpotifyData::new();
    data.devices = Some(vec![
        device("d0", "phone", 1),
        device("d1", "laptop", 2),
        device("d2", "laptop", 3),
    ]);
    data.select_device(&"laptop".to_string());
    assert_eq!(data.selected_device, Some(device("d1", "laptop", 2)));
}

#[test]
fn select_device_leaves_a_selection_alone() {
    let mut data = SpotifyData::new();
    data.devices = Some(vec![device("d1", "laptop", 2)]);
    data.selected_device = Some(device("d0", "phone", 1));
    data.select_device(&"laptop".to_string());
    assert_eq!(data.selected_device, Some(device("d0", "phone", 1)));
}

#[test]
fn select_device_finds_nothing_without_a_match() {
    let mut data = SpotifyData::new();
    data.select_device(&"laptop".to_string());
    assert_eq!(data.selected_device, None);
    data.devices = Some(vec![device("d1", "Laptop", 2)]);
    data.select_device(&"laptop".to_string());
    assert_eq!(data.selected_device, None);
    data.devices = Some(Vec::new());
    data.select_device(&"laptop".to_string());
    assert_eq!(data.selected_device, None);
}

#[test]
fn apply_devices_history_and_playback() {
    let mut data = SpotifyData::new();
    assert_eq!(data.apply_result(SpotifyAPIResult::Device(vec![device("d", "n", 1)])), None);
    assert_eq!(data.devices, Some(vec![device("d", "n", 1)]));
    let history = vec![PlayHistory { track: track(Some("h"), "H") }];
    assert_eq!(data.apply_result(SpotifyAPIResult::CurrentUserRecentlyPlayed(history)), None);
    assert_eq!(data.recent_play_histories.as_ref().unwrap().len(), 1);
    assert_eq!(data.apply_result(SpotifyAPIResult::CurrentPlayBack(Some(playback(9)))), None);
    assert_eq!(data.current_playback, Some(playback(9)));
    assert_eq!(data.apply_result(SpotifyAPIResult::CurrentPlayBack(None)), None);
    assert_eq!(data.current_playback, None);
}

#[test]
fn apply_playing_track_changes_nothing() {
    let mut data = with_device_and_playback();
    let r = data.apply_result(SpotifyAPIResult::CurrentUserPlayingTrack(Some(track(None, "x"))));
    assert_eq!(r, None);
    assert_eq!(data.current_playback, Some(playback(50)));
}

#[test]
fn apply_checks_records_saved_and_unsaved() {
    let mut data = SpotifyData::new();
    data.set_save_state("a".to_string(), SaveState::CHECKING);
    let r = data.apply_result(SpotifyAPIResult::CheckCurrentUserSavedTracks(vec![
        ("a".to_string(), true),
        ("b".to_string(), false),
        ("a".to_string(), false),
    ]));
    assert_eq!(r, None);
    assert_eq!(
        data.save_state_track_ids,
        vec![("a".to_string(), SaveState::UNSAVED), ("b".to_string(), SaveState::UNSAVED)]
    );
}

#[test]
fn apply_added_tracks_marks_them_saved_and_asks_for_the_library() {
    let mut data = SpotifyData::new();
    data.set_save_state("a".to_string(), SaveState::SAVING);
    let r = data.apply_result(SpotifyAPIResult::SuccessAddCurrentUserSavedTracks(vec![
        "a".to_string(),
        "b".to_string(),
    ]));
    assert_eq!(r, Some(SpotifyAPIEvent::CurrentUserSavedTracks(None)));
    assert_eq!(data.save_state(&"a".to_string()), Some(SaveState::SAVED));
    assert_eq!(data.save_state(&"b".to_string()), Some(SaveState::SAVED));
}

#[test]
fn apply_added_nothing_still_asks_for_the_library() {
    let mut data = SpotifyData::new();
    let r = data.apply_result(SpotifyAPIResult::SuccessAddCurrentUserSavedTracks(Vec::new()));
    assert_eq!(r, Some(SpotifyAPIEvent::CurrentUserSavedTracks(None)));
}

#[test]
fn apply_deleted_tracks_drops_them_from_the_library() {
    let mut data = SpotifyData::new();
    data.saved_tracks = vec![saved("c", 3), saved("b", 2), saved("a", 1)];
    data.set_save_state("b".to_string(), SaveState::UNSAVING);
    let r = data.apply_result(SpotifyAPIResult::SuccessDeleteCurrentUserSavedTracks(vec![
        "b".to_string(),
    ]));
    assert_eq!(r, None);
    let ids: Vec<String> = data.saved_tracks.iter().map(|e| e.track.id.clone().unwrap()).collect();
    assert_eq!(ids, vec!["c", "a"]);
    assert_eq!(data.save_state(&"b".to_string()), Some(SaveState::UNSAVING));
}

#[test]
fn apply_a_page_merges_it_and_asks_for_the_next() {
    let mut data = SpotifyData::new();
    let page = SavedTracksPage {
        items: vec![saved("a", 1), saved("b", 2)],
        limit: 50,
        offset: 0,
        has_next: true,
    };
    let r = data.apply_result(SpotifyAPIResult::CurrentUserSavedTracks(page));
    assert_eq!(r, Some(SpotifyAPIEvent::CurrentUserSavedTracks(Some(50))));
    let ids: Vec<String> = data.saved_tracks.iter().map(|e| e.track.id.clone().unwrap()).collect();
    assert_eq!(ids, vec!["b", "a"]);
    let page = SavedTracksPage {
        items: vec![saved("c", 0)],
        limit: 50,
        offset: 50,
        has_next: true,
    };
    let r = data.apply_result(SpotifyAPIResult::CurrentUserSavedTracks(page));
    assert_eq!(r, Some(SpotifyAPIEvent::CurrentUserSavedTracks(Some(100))));
    assert_eq!(data.saved_tracks.len(), 3);
}

#[test]
fn apply_a_page_that_brings_nothing_new_asks_for_nothing() {
    let mut data = SpotifyData::new();
    data.saved_tracks = vec![saved("b", 2), saved("a", 1)];
    let page = SavedTracksPage {
        items: vec![saved("a", 1), saved("b", 2)],
        limit: 50,
        offset: 0,
        has_next: true,
    };
    assert_eq!(data.apply_result(SpotifyAPIResult::CurrentUserSavedTracks(page)), None);
    assert_eq!(data.saved_tracks.len(), 2);
}

#[test]
fn apply_the_last_page_asks_for_nothing() {
    let mut data = SpotifyData::new();
    let page = SavedTracksPage {
        items: vec![saved("a", 1)],
        limit: 50,
        offset: 100,
        has_next: false,
    };
    assert_eq!(data.apply_result(SpotifyAPIResult::CurrentUserSavedTracks(page)), None);
    assert_eq!(data.saved_tracks.len(), 1);
}

#[test]
fn results_are_well_formed_unless_a_page_is_not() {
    assert!(SpotifyAPIResult::Device(Vec::new()).is_well_formed());
    assert!(SpotifyAPIResult::CurrentPlayBack(None).is_well_formed());
    let good = SavedTracksPage { items: vec![saved("a", 1)], limit: 50, offset: 0, has_next: true };
    assert!(SpotifyAPIResult::CurrentUserSavedTracks(good).is_well_formed());
    let mut nameless = saved("a", 1);
    nameless.track.id = None;
    let bad = SavedTracksPage { items: vec![nameless], limit: 50, offset: 0, has_next: true };
    assert!(!SpotifyAPIResult::CurrentUserSavedTracks(bad).is_well_formed());
    let far = SavedTracksPage { items: Vec::new(), limit: 50, offset: u32::MAX - 49, has_next: true };
    assert!(!SpotifyAPIResult::CurrentUserSavedTracks(far).is_well_formed());
    let edge = SavedTracksPage { items: Vec::new(), limit: 50, offset: u32::MAX - 50, has_next: true };
    assert!(SpotifyAPIResult::CurrentUserSavedTracks(edge).is_well_formed());
    let last = SavedTracksPage { items: Vec::new(), limit: 50, offset: u32::MAX, has_next: false };
    assert!(SpotifyAPIResult::CurrentUserSavedTracks(last).is_well_formed());
}

#[test]
fn the_view_model_is_well_formed_with_ids_and_distinct_records() {
    let mut data = SpotifyData::new();
    assert!(data.is_well_formed());
    data.saved_tracks = vec![saved("a", 1), saved("b", 2)];
    data.set_save_state("a".to_string(), SaveState::SAVED);
    data.set_save_state("b".to_string(), SaveState::UNKNOWN);
    assert!(data.is_well_formed());
    data.saved_tracks[1].track.id = None;
    assert!(!data.is_well_formed());
    data.saved_tracks[1].track.id = Some("b".to_string());
    data.save_state_track_ids.push(("c".to_string(), SaveState::SAVED));
    assert!(data.is_well_formed());
    data.save_state_track_ids.push(("a".to_string(), SaveState::UNSAVED));
    assert!(!data.is_well_formed());
}


#[test]
fn a_page_that_comes_again_asks_for_nothing() {
    let mut data = SpotifyData::new();
    let page = || SavedTracksPage {
        items: vec![saved("a", 1), saved("b", 2)],
        limit: 50,
        offset: 0,
        has_next: true,
    };
    assert!(data.apply_result(SpotifyAPIResult::CurrentUserSavedTracks(page())).is_some());
    let after = data.saved_tracks.clone();
    assert_eq!(data.apply_result(SpotifyAPIResult::CurrentUserSavedTracks(page())), None);
    assert_eq!(data.saved_tracks, after);
}
