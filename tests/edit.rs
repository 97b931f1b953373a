use tunes::artwork::CoverFormat;
use tunes::edit::{plan_delete, plan_edit, EditError, EditRequest, Upload};

fn request(filename: &str, title: Option<&str>) -> EditRequest {
    EditRequest {
        filename: filename.to_string(),
        title: title.map(|s| s.to_string()),
        artist: None,
        thumbnail: None,
    }
}

#[test]
fn rename_on_title_edit() {
    let p = plan_edit(request("A.mp3", Some("B"))).ok().unwrap();
    assert_eq!(p.path, "music/A.mp3");
    assert_eq!(p.title, Some("B".to_string()));
    assert_eq!(p.artist, None);
    assert_eq!(p.rename_to, Some("music/B.mp3".to_string()));
}

#[test]
fn same_title_changes_nothing() {
    let p = plan_edit(request("A.mp3", Some("A"))).ok().unwrap();
    assert_eq!(p.title, None);
    assert_eq!(p.rename_to, None);
}

#[test]
fn artist_only_edit() {
    let mut r = request("A.m4a", None);
    r.artist = Some("New Artist".to_string());
    let p = plan_edit(r).ok().unwrap();
    assert_eq!(p.artist, Some("New Artist".to_string()));
    assert_eq!(p.rename_to, None);
}

#[test]
fn thumbnail_upload_becomes_cover() {
    let mut r = request("A.mp3", Some("B"));
    r.thumbnail = Some(Upload { content_type: Some("image/png".to_string()), data: vec![1, 2] });
    let p = plan_edit(r).ok().unwrap();
    let c = p.cover.unwrap();
    assert_eq!(c.format, CoverFormat::Png);
    assert_eq!(c.data, vec![1, 2]);
    assert_eq!(p.cover_path, Some("img/B.png".to_string()));
}

#[test]
fn non_image_upload_is_rejected() {
    let mut r = request("A.mp3", Some("B"));
    r.thumbnail = Some(Upload { content_type: Some("text/plain".to_string()), data: vec![1] });
    assert!(matches!(plan_edit(r), Err(EditError::InvalidContentType)));
    let mut r = request("A.mp3", None);
    r.thumbnail = Some(Upload { content_type: Some("image/webp".to_string()), data: vec![1] });
    assert!(matches!(plan_edit(r), Err(EditError::InvalidContentType)));
}

#[test]
fn empty_or_untyped_upload_is_ignored() {
    let mut r = request("A.mp3", None);
    r.thumbnail = Some(Upload { content_type: Some("text/plain".to_string()), data: vec![] });
    let p = plan_edit(r).ok().unwrap();
    assert!(p.cover.is_none());
    let mut r = request("A.mp3", None);
    r.thumbnail = Some(Upload { content_type: None, data: vec![1] });
    let p = plan_edit(r).ok().unwrap();
    assert!(p.cover.is_none());
    assert!(p.cover_path.is_none());
}

#[test]
fn retitle_without_extension_is_refused() {
    assert!(matches!(plan_edit(request("A", Some("B"))), Err(EditError::MissingExtension)));
}

#[test]
fn delete_removes_cover_and_track() {
    let p = plan_delete("Song.mp3", Some(CoverFormat::Jpeg));
    assert_eq!(p.track, "music/Song.mp3");
    assert_eq!(p.artwork, Some("img/Song.jpeg".to_string()));
    let p = plan_delete("Song.mp3", Some(CoverFormat::Tiff));
    assert_eq!(p.artwork, Some("img/Song.tiff".to_string()));
    let p = plan_delete("Song.mp3", None);
    assert_eq!(p.artwork, None);
}
