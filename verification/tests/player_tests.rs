use spoterm::model::Device;
use spoterm::model::Playback;
use spoterm::model::RepeatState;
use spoterm::model::Track;
use spoterm::player::player_lines_of;
use spoterm::player::PlayerLine;
use spoterm::spoterm::SaveState;
use spoterm::spoterm::SpotifyData;

fn playback() -> Playback {
    Playback {
        device: Device { id: "d".to_string(), name: "Speaker".to_string(), volume_percent: 55 },
        repeat_state: RepeatState::Off,
        shuffle_state: false,
        progress_ms: Some(65_000),
        is_playing: true,
        item: Some(Track {
            id: Some("t1".to_string()),
            name: "Song".to_string(),
            artists: vec!["First".to_string(), "Second".to_string()],
            album: "Album".to_string(),
            duration_ms: 185_999,
            popularity: 42,
        }),
    }
}

#[test]
fn player_lines_of_a_playing_track() {
    let lines = player_lines_of(&playback(), SaveState::SAVED);
    assert_eq!(
        lines,
        vec![
            PlayerLine {
                text: "🎵  ❤ Song: Song |🎤 Artist: First | 💿 Album: Album".to_string(),
                highlighted: true,
            },
            PlayerLine {
                text: "    Progress: 01:05 / 03:05 | Playing: 🎧  | Shuffle: ❌ | Repeat:  ❌"
                    .to_string(),
                highlighted: false,
            },
            PlayerLine { text: "🔊  Volume: 55 | 💻 Device: Speaker".to_string(), highlighted: false },
        ]
    );
}

#[test]
fn player_lines_show_the_save_state() {
    let p = playback();
    assert!(player_lines_of(&p, SaveState::SAVING)[0].text.starts_with("🎵  ❤ Song"));
    assert!(player_lines_of(&p, SaveState::UNSAVED)[0].text.starts_with("🎵  ♡ Song"));
    assert!(player_lines_of(&p, SaveState::UNSAVING)[0].text.starts_with("🎵  ♡ Song"));
    assert!(player_lines_of(&p, SaveState::UNKNOWN)[0].text.starts_with("🎵  ❓ Song"));
    assert!(player_lines_of(&p, SaveState::CHECKING)[0].text.starts_with("🎵  ❓ Song"));
}

#[test]
fn player_lines_show_the_modes() {
    let mut p = playback();
    p.is_playing = false;
    p.shuffle_state = true;
    p.repeat_state = RepeatState::Context;
    p.progress_ms = None;
    assert_eq!(
        player_lines_of(&p, SaveState::SAVED)[1].text,
        "    Progress: 00:00 / 03:05 | Playing: ⏹️  | Shuffle: 🔀 | Repeat:  🔁 💿"
    );
    p.repeat_state = RepeatState::Track;
    assert_eq!(
        player_lines_of(&p, SaveState::SAVED)[1].text,
        "    Progress: 00:00 / 03:05 | Playing: ⏹️  | Shuffle: 🔀 | Repeat:  🔂 🎵"
    );
}

#[test]
fn player_lines_without_a_track_name_the_device_only() {
    let mut p = playback();
    p.item = None;
    p.device.volume_percent = 0;
    assert_eq!(
        player_lines_of(&p, SaveState::UNKNOWN),
        vec![PlayerLine { text: "🔊  Volume: 0 | 💻 Device: Speaker".to_string(), highlighted: false }]
    );
}

#[test]
fn player_items_without_playback_are_empty() {
    let mut data = SpotifyData::new();
    assert!(data.is_playable());
    assert!(data.player_items().is_empty());
    assert!(data.save_state_track_ids.is_empty());
}

#[test]
fn player_items_record_the_playing_track() {
    let mut data = SpotifyData::new();
    data.current_playback = Some(playback());
    let lines = data.player_items();
    assert_eq!(lines.len(), 3);
    assert!(lines[0].text.starts_with("🎵  ❓ Song"));
    assert_eq!(data.save_state_track_ids, vec![("t1".to_string(), SaveState::UNKNOWN)]);
    data.set_save_state("t1".to_string(), SaveState::SAVED);
    let lines = data.player_items();
    assert!(lines[0].text.starts_with("🎵  ❤ Song"));
    assert_eq!(data.save_state_track_ids.len(), 1);
}

#[test]
fn player_items_record_a_track_without_id_under_the_empty_id() {
    let mut data = SpotifyData::new();
    let mut p = playback();
    p.item.as_mut().unwrap().id = None;
    data.current_playback = Some(p);
    let lines = data.player_items();
    assert_eq!(lines.len(), 3);
    assert_eq!(data.save_state_track_ids, vec![(String::new(), SaveState::UNKNOWN)]);
}

#[test]
fn a_track_without_artists_is_not_playable() {
    let mut data = SpotifyData::new();
    let mut p = playback();
    p.item.as_mut().unwrap().artists = Vec::new();
    data.current_playback = Some(p);
    assert!(!data.is_playable());
}
