use spoterm::library::collect_track_ids;
use spoterm::library::has_track_ids;
use spoterm::library::have_ids;
use spoterm::library::merge_saved_tracks;
use spoterm::library::remove_saved_tracks;
use spoterm::model::SavedTrack;
use spoterm::model::Track;

fn entry(id: &str, added_at: i64, name: &str) -> SavedTrack {
    SavedTrack {
        added_at,
        track: Track {
            id: Some(id.to_string()),
            name: name.to_string(),
            artists: vec!["Artist".to_string()],
            album: "Album".to_string(),
            duration_ms: 1000,
            popularity: 1,
        },
    }
}

fn ids(list: &Vec<SavedTrack>) -> Vec<String> {
    list.iter().map(|e| e.track.id.clone().unwrap()).collect()
}

#[test]
fn merge_into_empty_list_orders_newest_first() {
    let page = vec![entry("a", 100, "A"), entry("b", 300, "B"), entry("c", 200, "C")];
    let out = merge_saved_tracks(Vec::new(), page);
    assert_eq!(ids(&out), vec!["b", "c", "a"]);
}

#[test]
fn merge_of_nothing_is_nothing() {
    let out = merge_saved_tracks(Vec::new(), Vec::new());
    assert!(out.is_empty());
}

#[test]
fn merge_keeps_the_known_entry_of_a_track() {
    let known = vec![entry("a", 100, "known")];
    let page = vec![entry("a", 500, "from page"), entry("b", 50, "B")];
    let out = merge_saved_tracks(known, page);
    assert_eq!(ids(&out), vec!["a", "b"]);
    assert_eq!(out[0].track.name, "known");
    assert_eq!(out[0].added_at, 100);
}

#[test]
fn merge_keeps_the_first_of_two_page_entries() {
    let page = vec![entry("a", 100, "first"), entry("a", 900, "second")];
    let out = merge_saved_tracks(Vec::new(), page);
    assert_eq!(out.len(), 1);
    assert_eq!(out[0].track.name, "first");
}

#[test]
fn merge_puts_the_greater_id_first_among_equal_times() {
    let page = vec![entry("a", 200, "A"), entry("c", 200, "C"), entry("b", 200, "B")];
    let out = merge_saved_tracks(Vec::new(), page);
    assert_eq!(ids(&out), vec!["c", "b", "a"]);
}

#[test]
fn merge_orders_ids_by_their_text() {
    let page = vec![
        entry("ab", 1, ""),
        entry("a", 1, ""),
        entry("b", 1, ""),
        entry("B", 1, ""),
        entry("é", 1, ""),
    ];
    let out = merge_saved_tracks(Vec::new(), page);
    assert_eq!(ids(&out), vec!["é", "b", "ab", "a", "B"]);
}

#[test]
fn merge_reorders_a_known_list_that_was_out_of_order() {
    let known = vec![entry("a", 1, ""), entry("b", 2, ""), entry("c", 3, "")];
    let out = merge_saved_tracks(known, Vec::new());
    assert_eq!(ids(&out), vec!["c", "b", "a"]);
}

#[test]
fn merge_twice_changes_nothing() {
    let page = vec![entry("a", 100, "A"), entry("b", 300, "B")];
    let once = merge_saved_tracks(Vec::new(), page);
    let again = vec![entry("a", 100, "A"), entry("b", 300, "B")];
    let twice = merge_saved_tracks(once, again);
    assert_eq!(ids(&twice), vec!["b", "a"]);
}

#[test]
fn merge_handles_negative_times() {
    let page = vec![entry("a", -5, ""), entry("b", i64::MIN, ""), entry("c", i64::MAX, "")];
    let out = merge_saved_tracks(Vec::new(), page);
    assert_eq!(ids(&out), vec!["c", "a", "b"]);
}

#[test]
fn remove_drops_the_listed_tracks() {
    let known = vec![entry("c", 3, ""), entry("b", 2, ""), entry("a", 1, "")];
    let out = remove_saved_tracks(known, &vec!["b".to_string(), "zzz".to_string()]);
    assert_eq!(ids(&out), vec!["c", "a"]);
}

#[test]
fn remove_of_nothing_keeps_all() {
    let known = vec![entry("c", 3, ""), entry("a", 1, "")];
    let out = remove_saved_tracks(known, &Vec::new());
    assert_eq!(ids(&out), vec!["c", "a"]);
}

#[test]
fn remove_keeps_a_track_without_id() {
    let mut nameless = entry("x", 1, "local");
    nameless.track.id = None;
    let out = remove_saved_tracks(vec![nameless], &vec!["x".to_string()]);
    assert_eq!(out.len(), 1);
}

#[test]
fn track_ids_are_collected_and_compared() {
    let list = vec![entry("c", 3, ""), entry("a", 1, "")];
    let ids = collect_track_ids(&list);
    assert_eq!(ids, vec![Some("c".to_string()), Some("a".to_string())]);
    assert!(has_track_ids(&list, &ids));
    assert!(!has_track_ids(&list, &vec![Some("a".to_string()), Some("c".to_string())]));
    assert!(!has_track_ids(&list, &vec![Some("c".to_string())]));
}

#[test]
fn have_ids_finds_a_track_without_id() {
    let mut list = vec![entry("c", 3, ""), entry("a", 1, "")];
    assert!(have_ids(&list));
    list[1].track.id = None;
    assert!(!have_ids(&list));
    assert!(have_ids(&Vec::new()));
}

#[test]
fn pages_merge_to_the_same_list_in_either_order() {
    let a = || vec![entry("a", 100, "A"), entry("b", 300, "B")];
    let b = || vec![entry("c", 200, "C"), entry("a", 100, "A")];
    let known = || vec![entry("d", 300, "D")];
    let one = merge_saved_tracks(merge_saved_tracks(known(), a()), b());
    let other = merge_saved_tracks(merge_saved_tracks(known(), b()), a());
    assert_eq!(one, other);
    assert_eq!(ids(&one), vec!["d", "b", "c", "a"]);
}
