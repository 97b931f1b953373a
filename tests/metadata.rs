use tunes::metadata::{
    is_topic_upload, listed_track, parse_decimal, parse_duration, primary_artist, split_artists,
    summarize, upsized_thumbnail, Acquired, Artist, Track,
};

fn artist(a: Option<&str>, u: Option<&str>, c: Option<&str>) -> Artist {
    Artist {
        artist: a.map(|s| s.to_string()),
        uploader: u.map(|s| s.to_string()),
        channel: c.map(|s| s.to_string()),
    }
}

#[test]
fn artist_resolution_priority() {
    assert_eq!(artist(None, Some("U"), Some("C")).get(), "U");
    assert_eq!(artist(None, None, None).get(), "Unknown");
    assert_eq!(artist(Some("A"), Some("U"), Some("C")).get(), "A");
    assert_eq!(artist(None, None, Some("C")).get(), "C");
}

#[test]
fn duration_two_parts() {
    assert_eq!(parse_duration("3:45"), Some(225));
    assert_eq!(parse_duration("0:00"), Some(0));
    assert_eq!(parse_duration("10:5"), Some(605));
}

#[test]
fn duration_other_shapes_are_absent() {
    assert_eq!(parse_duration("1:02:30"), None);
    assert_eq!(parse_duration("345"), None);
    assert_eq!(parse_duration(":45"), None);
    assert_eq!(parse_duration("3:"), None);
    assert_eq!(parse_duration("a:45"), None);
    assert_eq!(parse_duration("+3:45"), None);
    assert_eq!(parse_duration("307445734561825860:16"), None);
}

#[test]
fn decimal_parsing() {
    assert_eq!(parse_decimal("x123y", 1, 4), Some(123));
    assert_eq!(parse_decimal("18446744073709551615", 0, 20), Some(u64::MAX));
    assert_eq!(parse_decimal("18446744073709551616", 0, 20), None);
    assert_eq!(parse_decimal("12", 1, 1), None);
}

#[test]
fn topic_marker() {
    assert!(is_topic_upload(&Some("Provided to YouTube by Label\n\nSong".to_string())));
    assert!(!is_topic_upload(&Some("provided to YouTube by".to_string())));
    assert!(!is_topic_upload(&None));
}

#[test]
fn summary_of_topic_upload() {
    let s = summarize(Acquired {
        title: "Song".to_string(),
        description: Some("Provided to YouTube by X".to_string()),
        thumbnail: "https://i.example/t.jpg".to_string(),
        artist: artist(None, Some("Up"), None),
    });
    assert_eq!(s.title, "Song");
    assert_eq!(s.artist, "Up");
    assert_eq!(s.thumbnail, "img/Song.jpeg");
    let f = s.finishing.unwrap();
    assert_eq!(f.music_path, "music/Song.mp3");
    assert_eq!(f.image_path, "img/Song.jpeg");
}

#[test]
fn summary_of_plain_upload() {
    let s = summarize(Acquired {
        title: "Clip".to_string(),
        description: None,
        thumbnail: "https://i.example/t.jpg".to_string(),
        artist: artist(None, None, None),
    });
    assert_eq!(s.artist, "Unknown");
    assert_eq!(s.thumbnail, "https://i.example/t.jpg");
    assert!(s.finishing.is_none());
}

#[test]
fn tracks_are_equal_by_filename() {
    let a = listed_track("A.mp3".to_string(), "A".to_string(), None);
    let mut b = listed_track("A.mp3".to_string(), "Other".to_string(), Some("X".to_string()));
    assert!(a == b);
    b.filename = "B.mp3".to_string();
    assert!(a != b);
}

#[test]
fn listed_track_fields() {
    let t: Track = listed_track("A.mp3".to_string(), "A".to_string(), None);
    assert_eq!(t.artist, "Unknown");
    assert_eq!(t.thumbnail, Some("/img/A.jpeg".to_string()));
    assert_eq!(t.duration, None);
}

#[test]
fn artist_list_is_split_and_trimmed() {
    assert_eq!(split_artists("A & B, C"), vec!["A", "B", "C"]);
    assert_eq!(split_artists("Solo"), vec!["Solo"]);
    assert_eq!(split_artists("A,,B&"), vec!["A", "B"]);
    assert_eq!(split_artists("A, ,B"), vec!["A", "", "B"]);
    assert_eq!(split_artists(""), Vec::<String>::new());
}

#[test]
fn thumbnail_is_upsized() {
    assert_eq!(
        upsized_thumbnail("https://lh3.example/abc=w120-h120-l90"),
        "https://lh3.example/abc=w300-h300-l90"
    );
    assert_eq!(upsized_thumbnail("https://x/y.jpg"), "https://x/y.jpg");
}

#[test]
fn primary_artist_is_first_of_list() {
    assert_eq!(primary_artist("A, B, C"), "A");
    assert_eq!(primary_artist("A & B"), "A & B");
    assert_eq!(primary_artist("A,B"), "A,B");
    assert_eq!(primary_artist(""), "");
}
