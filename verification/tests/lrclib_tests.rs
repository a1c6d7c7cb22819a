use vitune_core::keyword::keyword;
use vitune_core::lrclib::{best_index, best_lyrics, best_matching_for, search_params, Flavor, Track};

fn track(id: i64, name: &str, duration: u64) -> Track {
    Track {
        id,
        track_name: name.to_string(),
        artist_name: "Artist".to_string(),
        duration,
        plain_lyrics: None,
        synced_lyrics: None,
    }
}

#[test]
fn test_best_matching_for() {
    let tracks = vec![
        track(1, "Song Title", 180),
        track(2, "Song Title (Remix)", 240),
        track(3, "Song", 185),
    ];

    let title = "Song Title";

    assert_eq!(best_matching_for(&tracks, title, 180).unwrap().id, 1);
    assert_eq!(best_matching_for(&tracks, title, 190).unwrap().id, 1);
}

#[test]
fn test_best_matching_for_utf8() {
    let tracks = vec![track(1, "Beyoncé", 180), track(2, "A", 240)];

    let title = "Beyonce";
    assert_eq!(best_matching_for(&tracks, title, 190).unwrap().id, 1);
}

#[test]
fn best_matching_for_nothing() {
    let tracks: Vec<Track> = Vec::new();
    assert!(best_matching_for(&tracks, "x", 1).is_none());
}

#[test]
fn exact_duration_beats_exact_title() {
    let tracks = vec![track(1, "Exact Title", 200), track(2, "Something else entirely", 212)];
    assert_eq!(best_matching_for(&tracks, "Exact Title", 212).unwrap().id, 2);
    assert_eq!(best_index(&tracks, Flavor::Any, 11, 212), Some(1));
}

#[test]
fn ties_go_to_the_first() {
    let tracks = vec![track(1, "abcd", 1), track(2, "ab", 2), track(3, "abcd", 3), track(4, "ab", 2)];
    assert_eq!(best_matching_for(&tracks, "abc", 9).unwrap().id, 1);
    assert_eq!(best_matching_for(&tracks, "abc", 2).unwrap().id, 2);
}

#[test]
fn best_lyrics_leaves_out_tracks_without_the_flavor() {
    let mut a = track(1, "Song", 100);
    a.plain_lyrics = Some("plain a".to_string());
    let mut b = track(2, "Song (Live at the hall)", 100);
    b.synced_lyrics = Some("[00:01.00]synced b".to_string());
    let tracks = vec![a, b];
    let plain = best_lyrics(&tracks, "Song", 100_999, false).unwrap();
    assert_eq!(plain.text, "plain a");
    assert!(!plain.synced);
    let synced = best_lyrics(&tracks, "Song", 100_999, true).unwrap();
    assert_eq!(synced.text, "[00:01.00]synced b");
    assert!(synced.synced);
    assert_eq!(tracks[1].lrc().unwrap().lines.get(&1000), Some(&"synced b".to_string()));
    assert!(tracks[0].lrc().is_none());
    let none = vec![track(3, "Song", 100)];
    assert_eq!(best_lyrics(&none, "Song", 100_000, true), None);
    assert_eq!(best_lyrics(&none, "Song", 100_000, false), None);
}

#[test]
fn end_to_end_exact_duration_track_is_returned() {
    let artist = "Rick Astley";
    let title = "Never Gonna Give You Up (feat. Nobody)";
    assert_eq!(keyword(artist, title), "Rick Astley、Nobody - Never Gonna Give You Up");
    let mut first = track(1, "Some Other Name", (212.0f64) as u64);
    first.plain_lyrics = Some("the 212 text".to_string());
    let mut second = track(2, title, (200.0f64) as u64);
    second.plain_lyrics = Some("the 200 text".to_string());
    let tracks = vec![first, second];
    let found = best_lyrics(&tracks, title, 212_000, false).unwrap();
    assert_eq!(found.text, "the 212 text");
}

#[test]
fn search_params_wire_shape() {
    let pair = |a: &str, b: &str| (a.to_string(), b.to_string());
    assert_eq!(
        search_params("Ar", "Ti", None),
        vec![pair("track_name", "Ti"), pair("artist_name", "Ar")]
    );
    assert_eq!(
        search_params("Ar", "Ti", Some("Al")),
        vec![pair("track_name", "Ti"), pair("artist_name", "Ar"), pair("album_name", "Al")]
    );
}
