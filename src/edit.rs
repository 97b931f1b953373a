//! Tag edits and deletions: which tag fields change, which files are
//! written, renamed or removed. The tag is persisted before the rename.
use vstd::prelude::*;
use vstd::string::*;
use crate::artwork::{CoverFormat, CoverImage, format_of_mime, format_of_mime_name, mime_name_of, mime_of_format};
use crate::names::{
    lemma_last_index_bounds, last_dot, renamed_filename, renamed_of, stem, str_equal, track_path,
    track_path_of, without_extension,
};

verus! {

/// An uploaded image: the content type it was sent with, and its bytes.
pub struct Upload {
    pub content_type: Option<String>,
    pub data: Vec<u8>,
}

/// A request to edit a track's tag. Absent fields stay as they are.
pub struct EditRequest {
    /// The track's current filename in the store.
    pub filename: String,
    pub title: Option<String>,
    pub artist: Option<String>,
    pub thumbnail: Option<Upload>,
}

/// Why an edit was refused. Nothing is changed then.
#[derive(Clone, Copy, Debug, PartialEq, Eq, Structural)]
pub enum EditError {
    /// The uploaded thumbnail's content type names no supported image format.
    InvalidContentType,
    /// The title changes, but the filename has no extension to carry over.
    MissingExtension,
}

/// The changes an edit makes, in the order they are to be applied: tag
/// fields set and persisted to `path`, the uploaded cover saved to
/// `cover_path`, then the file renamed to `rename_to`.
pub struct EditPlan {
    pub path: String,
    pub title: Option<String>,
    pub artist: Option<String>,
    pub cover: Option<CoverImage>,
    pub cover_path: Option<String>,
    pub rename_to: Option<String>,
}

/// How an uploaded thumbnail is treated.
pub enum UploadCheck {
    /// Nothing usable was sent (no upload, no bytes, or no content type).
    Ignored,
    /// The content type names no supported image format.
    Rejected,
    /// A cover of this format.
    Accepted(CoverFormat),
}

/// How an edit treats its thumbnail upload.
pub open spec fn upload_check_of(thumbnail: &Option<Upload>) -> UploadCheck {
    match thumbnail {
        None => UploadCheck::Ignored,
        Some(u) => if u.data@.len() == 0 {
            UploadCheck::Ignored
        } else {
            match &u.content_type {
                None => UploadCheck::Ignored,
                Some(ct) => match format_of_mime_name(ct@) {
                    None => UploadCheck::Rejected,
                    Some(f) => UploadCheck::Accepted(f),
                },
            }
        },
    }
}

/// The new title of an edit, when it differs from the current one.
pub open spec fn title_change_of(filename: Seq<char>, title: Option<Seq<char>>) -> Option<
    Seq<char>,
> {
    match title {
        Some(t) => if t == stem(filename) {
            None
        } else {
            Some(t)
        },
        None => None,
    }
}

/// The title a track has after an edit.
pub open spec fn title_after(filename: Seq<char>, title: Option<Seq<char>>) -> Seq<char> {
    match title {
        Some(t) => t,
        None => stem(filename),
    }
}

/// The view of an optional string.
pub open spec fn opt_chars(o: &Option<String>) -> Option<Seq<char>> {
    match o {
        Some(s) => Some(s@),
        None => None,
    }
}

/// The extension that a MIME type name gives a saved image: what follows `image/`.
pub open spec fn mime_suffix(f: CoverFormat) -> Seq<char> {
    mime_name_of(f).subrange(6, mime_name_of(f).len() as int)
}

proof fn lemma_mime_names()
    ensures
        forall|f: CoverFormat| (#[trigger] mime_name_of(f)).len() >= 6,
{
    reveal_strlit("image/jpeg");
    reveal_strlit("image/png");
    reveal_strlit("image/bmp");
    reveal_strlit("image/gif");
    reveal_strlit("image/tiff");
}

/// The extension for an image saved in `f`: `jpeg`, `png`, `bmp`, `gif` or `tiff`.
fn suffix_of(f: CoverFormat) -> (r: String)
    ensures
        r@ == mime_suffix(f),
{
    proof {
        lemma_mime_names();
    }
    let m = mime_of_format(f);
    let n = m.as_str().unicode_len();
    String::from_str(m.as_str().substring_char(6, n))
}

/// `img/<name>.<suffix of f>`: where an image of a track is saved.
pub open spec fn image_file_of(name: Seq<char>, f: CoverFormat) -> Seq<char> {
    "img/"@ + name + "."@ + mime_suffix(f)
}

/// Where an image of format `f` named `name` is saved.
fn image_file(name: &str, f: CoverFormat) -> (r: String)
    ensures
        r@ == image_file_of(name@, f),
{
    let suffix = suffix_of(f);
    let mut s = String::from_str("img/");
    s.append(name);
    s.append(".");
    s.append(suffix.as_str());
    s
}

/// Plans a tag edit. A title equal to the current one changes nothing; a
/// new title is set in the tag and the file is renamed after it. An uploaded
/// thumbnail with a supported image content type becomes the cover, and is
/// saved under the track's title; one with another content type refuses
/// the whole edit.
pub fn plan_edit(req: EditRequest) -> (r: Result<EditPlan, EditError>)
    ensures
        ({
            let change = title_change_of(req.filename@, opt_chars(&req.title));
            &&& r is Err <==> upload_check_of(&req.thumbnail) is Rejected || (change is Some
                && last_dot(req.filename@) < 0)
            &&& (r == Err::<EditPlan, EditError>(EditError::InvalidContentType)) <==> upload_check_of(
                &req.thumbnail,
            ) is Rejected
            &&& (r == Err::<EditPlan, EditError>(EditError::MissingExtension)) <==> !(upload_check_of(
                &req.thumbnail,
            ) is Rejected) && change is Some && last_dot(req.filename@) < 0
            &&& r matches Ok(p) ==> {
                &&& p.path@ == track_path_of(req.filename@)
                &&& opt_chars(&p.title) == change
                &&& opt_chars(&p.artist) == opt_chars(&req.artist)
                &&& p.cover is Some <==> upload_check_of(&req.thumbnail) is Accepted
                &&& p.cover is Some <==> p.cover_path is Some
                &&& p.cover matches Some(c) ==> {
                    &&& upload_check_of(&req.thumbnail) == UploadCheck::Accepted(c.format)
                    &&& req.thumbnail matches Some(u) && c.data@ == u.data@
                    &&& p.cover_path matches Some(cp) && cp@ == image_file_of(
                        title_after(req.filename@, opt_chars(&req.title)),
                        c.format,
                    )
                }
                &&& p.rename_to is Some <==> change is Some
                &&& p.rename_to matches Some(n) ==> change matches Some(t) && n@ == track_path_of(
                    renamed_of(req.filename@, t),
                )
            }
        }),
{
    let stem_now = without_extension(req.filename.as_str());
    let change: Option<String> = match &req.title {
        Some(t) => if str_equal(t.as_str(), stem_now) {
            None
        } else {
            Some(t.clone())
        },
        None => None,
    };
    let title_now: String = match &req.title {
        Some(t) => t.clone(),
        None => String::from_str(stem_now),
    };
    let mut cover: Option<CoverImage> = None;
    let mut cover_path: Option<String> = None;
    match req.thumbnail {
        None => {},
        Some(u) => {
            if u.data.len() > 0 {
                match &u.content_type {
                    None => {},
                    Some(ct) => match format_of_mime(ct.as_str()) {
                        None => return Err(EditError::InvalidContentType),
                        Some(f) => {
                            cover_path = Some(image_file(title_now.as_str(), f));
                            cover = Some(CoverImage { data: u.data, format: f });
                        },
                    },
                }
            }
        },
    }
    let rename_to: Option<String> = match &change {
        Some(t) => match renamed_filename(req.filename.as_str(), t.as_str()) {
            Some(n) => Some(track_path(n.as_str())),
            None => return Err(EditError::MissingExtension),
        },
        None => None,
    };
    let path = track_path(req.filename.as_str());
    Ok(EditPlan { path, title: change, artist: req.artist, cover, cover_path, rename_to })
}

/// The files a deletion removes: the cached artwork first, then the track.
pub struct DeletePlan {
    pub artwork: Option<String>,
    pub track: String,
}

/// Plans the deletion of a track, given the format of its embedded cover
/// if it has one: that cover's cached image goes too, named after the
/// track's title with the format's extension.
pub fn plan_delete(filename: &str, cover: Option<CoverFormat>) -> (r: DeletePlan)
    ensures
        r.track@ == track_path_of(filename@),
        r.artwork is Some <==> cover is Some,
        r.artwork matches Some(a) ==> cover matches Some(f) && a@ == image_file_of(
            stem(filename@),
            f,
        ),
{
    let artwork = match cover {
        Some(f) => Some(image_file(without_extension(filename), f)),
        None => None,
    };
    DeletePlan { artwork, track: track_path(filename) }
}

} // verus!
