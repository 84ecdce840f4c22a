use spoterm::spotify::current_playback_command;
use spoterm::spotify::device_command;
use spoterm::spotify::pair_saved_tracks;
use spoterm::spotify::recently_played_command;
use spoterm::spotify::saved_tracks_command;
use spoterm::spotify::SpotifyAPIEvent;
use spoterm::spotify::token_expired;
use spoterm::spotify::RECENTLY_PLAYED_LIMIT;
use spoterm::spotify::SAVED_TRACKS_LIMIT;

#[test]
fn a_token_expires_at_its_time() {
    assert!(token_expired(100, 100));
    assert!(token_expired(100, 101));
    assert!(!token_expired(100, 99));
    assert!(!token_expired(i64::MAX, 0));
    assert!(token_expired(i64::MIN, 0));
}

#[test]
fn answers_are_paired_with_the_ids() {
    let ids = vec!["a".to_string(), "b".to_string()];
    assert_eq!(
        pair_saved_tracks(&ids, &vec![true, false]),
        vec![("a".to_string(), true), ("b".to_string(), false)]
    );
}

#[test]
fn pairing_stops_with_the_shorter_list() {
    let ids = vec!["a".to_string(), "b".to_string()];
    assert_eq!(pair_saved_tracks(&ids, &vec![true]), vec![("a".to_string(), true)]);
    assert_eq!(
        pair_saved_tracks(&ids, &vec![false, true, true]),
        vec![("a".to_string(), false), ("b".to_string(), true)]
    );
    assert!(pair_saved_tracks(&Vec::new(), &vec![true]).is_empty());
}

#[test]
fn page_sizes() {
    assert_eq!(RECENTLY_PLAYED_LIMIT, 50);
    assert_eq!(SAVED_TRACKS_LIMIT, 50);
}

#[test]
fn the_plain_commands() {
    assert_eq!(device_command(), SpotifyAPIEvent::Device);
    assert_eq!(current_playback_command(), SpotifyAPIEvent::CurrentPlayBack);
    assert_eq!(recently_played_command(), SpotifyAPIEvent::CurrentUserRecentlyPlayed);
    assert_eq!(saved_tracks_command(), SpotifyAPIEvent::CurrentUserSavedTracks(None));
}
