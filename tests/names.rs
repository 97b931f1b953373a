use tunes::names::{
    artwork_path, artwork_url, classify_entry, container_kind, find_last, renamed_filename,
    split_filename, starts_with, str_equal, track_path, without_extension, ContainerKind,
};

#[test]
fn without_extension_drops_last_suffix() {
    assert_eq!(without_extension("song.mp3"), "song");
    assert_eq!(without_extension("a.b.m4a"), "a.b");
    assert_eq!(without_extension("noext"), "noext");
    assert_eq!(without_extension(""), "");
    assert_eq!(without_extension(".hidden"), "");
}

#[test]
fn split_filename_defaults_to_mp3() {
    assert_eq!(split_filename("Hello World.m4a"), ("Hello World".to_string(), "m4a".to_string()));
    assert_eq!(split_filename("Plain"), ("Plain".to_string(), "mp3".to_string()));
    assert_eq!(split_filename("x.y.z"), ("x.y".to_string(), "z".to_string()));
}

#[test]
fn container_kind_by_extension() {
    assert_eq!(container_kind("mp3"), Some(ContainerKind::Mp3));
    assert_eq!(container_kind("mp4"), Some(ContainerKind::Mp4));
    assert_eq!(container_kind("m4a"), Some(ContainerKind::Mp4));
    assert_eq!(container_kind("flac"), None);
    assert_eq!(container_kind("MP3"), None);
}

#[test]
fn classify_entry_skips_unknown_extensions() {
    let e = classify_entry("Tune.m4a").unwrap();
    assert_eq!(e.title, "Tune");
    assert_eq!(e.kind, ContainerKind::Mp4);
    let e = classify_entry("NoDot").unwrap();
    assert_eq!(e.title, "NoDot");
    assert_eq!(e.kind, ContainerKind::Mp3);
    assert!(classify_entry("cover.png").is_none());
}

#[test]
fn store_paths() {
    assert_eq!(artwork_path("A b"), "img/A b.jpeg");
    assert_eq!(artwork_url("A b"), "/img/A b.jpeg");
    assert_eq!(track_path("A.mp3"), "music/A.mp3");
}

#[test]
fn renamed_filename_keeps_extension() {
    assert_eq!(renamed_filename("A.mp3", "B"), Some("B.mp3".to_string()));
    assert_eq!(renamed_filename("x.y.m4a", "New.Title"), Some("New.Title.m4a".to_string()));
    assert_eq!(renamed_filename("plain", "B"), None);
}

#[test]
fn string_helpers() {
    assert!(str_equal("abc", "abc"));
    assert!(!str_equal("abc", "abd"));
    assert!(!str_equal("abc", "ab"));
    assert!(starts_with("Provided to you", "Provided"));
    assert!(!starts_with("Pro", "Provided"));
    assert_eq!(find_last("a:b:c", ':'), Some(3));
    assert_eq!(find_last("abc", ':'), None);
}
