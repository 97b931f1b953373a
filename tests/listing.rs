use tunes::history::{record_play, HISTORY_LIMIT};
use tunes::listing::group_by_artist;
use tunes::metadata::{listed_track, Track};

fn track(filename: &str, artist: &str) -> Track {
    listed_track(filename.to_string(), filename.to_string(), Some(artist.to_string()))
}

#[test]
fn groups_keep_artists_with_two_tracks() {
    let tracks = vec![
        track("1.mp3", "A, B"),
        track("2.mp3", "C"),
        track("3.mp3", "A"),
        track("4.mp3", "D"),
        track("5.mp3", "D, A"),
    ];
    let mut groups = group_by_artist(tracks);
    groups.sort_by(|x, y| x.artist.cmp(&y.artist));
    assert_eq!(groups.len(), 2);
    assert_eq!(groups[0].artist, "A");
    let names: Vec<&str> = groups[0].tracks.iter().map(|t| t.filename.as_str()).collect();
    assert_eq!(names, vec!["1.mp3", "3.mp3"]);
    assert_eq!(groups[1].artist, "D");
    assert_eq!(groups[1].tracks.len(), 2);
}

#[test]
fn no_groups_from_single_tracks() {
    assert!(group_by_artist(vec![track("1.mp3", "A"), track("2.mp3", "B")]).is_empty());
    assert!(group_by_artist(vec![]).is_empty());
}

#[test]
fn replay_moves_track_to_front() {
    let mut h = vec![track("a", "x"), track("b", "x"), track("c", "x")];
    record_play(&mut h, track("b", "y"));
    let names: Vec<&str> = h.iter().map(|t| t.filename.as_str()).collect();
    assert_eq!(names, vec!["b", "a", "c"]);
    assert_eq!(h[0].artist, "y");
}

#[test]
fn history_is_capped() {
    let mut h = Vec::new();
    for i in 0..HISTORY_LIMIT + 3 {
        record_play(&mut h, track(&format!("t{i}"), "x"));
    }
    assert_eq!(h.len(), 10);
    assert_eq!(h[0].filename, "t12");
    assert_eq!(h[9].filename, "t3");
}
