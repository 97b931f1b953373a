//! Cover art: decoding to RGB pixels, center-cropping to a square,
//! re-encoding as JPEG, and the lazily filled on-disk artwork cache.
use vstd::prelude::*;
use crate::geometry::{CropRegion, center_square, center_square_of};

verus! {

#[verifier::external_type_specification]
#[verifier::external_body]
pub struct ExImageError(image::ImageError);

/// The image formats a tag container may declare for its embedded cover.
#[derive(Clone, Copy, Debug, PartialEq, Eq, Structural)]
pub enum CoverFormat {
    Jpeg,
    Png,
    Bmp,
    Gif,
    Tiff,
}

/// The MIME type name of a cover format.
pub open spec fn mime_name_of(f: CoverFormat) -> Seq<char> {
    match f {
        CoverFormat::Jpeg => "image/jpeg"@,
        CoverFormat::Png => "image/png"@,
        CoverFormat::Bmp => "image/bmp"@,
        CoverFormat::Gif => "image/gif"@,
        CoverFormat::Tiff => "image/tiff"@,
    }
}

/// The cover format that a MIME type names, if it names one.
pub open spec fn format_of_mime_name(s: Seq<char>) -> Option<CoverFormat> {
    if s == "image/jpeg"@ {
        Some(CoverFormat::Jpeg)
    } else if s == "image/png"@ {
        Some(CoverFormat::Png)
    } else if s == "image/bmp"@ {
        Some(CoverFormat::Bmp)
    } else if s == "image/gif"@ {
        Some(CoverFormat::Gif)
    } else if s == "image/tiff"@ {
        Some(CoverFormat::Tiff)
    } else {
        None
    }
}

/// Relies on audiotags' `TryFrom<&str> for MimeType`: it accepts exactly
/// `image/jpeg`, `image/png`, `image/tiff`, `image/bmp` and `image/gif`.
#[verifier::external_body]
pub(crate) fn format_of_mime(content_type: &str) -> (r: Option<CoverFormat>)
    ensures
        r == format_of_mime_name(content_type@),
{
    match audiotags::MimeType::try_from(content_type) {
        Ok(audiotags::MimeType::Jpeg) => Some(CoverFormat::Jpeg),
        Ok(audiotags::MimeType::Png) => Some(CoverFormat::Png),
        Ok(audiotags::MimeType::Bmp) => Some(CoverFormat::Bmp),
        Ok(audiotags::MimeType::Gif) => Some(CoverFormat::Gif),
        Ok(audiotags::MimeType::Tiff) => Some(CoverFormat::Tiff),
        Err(_) => None,
    }
}

/// Relies on audiotags' `From<MimeType> for String`: the MIME type's name.
#[verifier::external_body]
pub(crate) fn mime_of_format(f: CoverFormat) -> (r: String)
    ensures
        r@ == mime_name_of(f),
{
    let m = match f {
        CoverFormat::Jpeg => audiotags::MimeType::Jpeg,
        CoverFormat::Png => audiotags::MimeType::Png,
        CoverFormat::Bmp => audiotags::MimeType::Bmp,
        CoverFormat::Gif => audiotags::MimeType::Gif,
        CoverFormat::Tiff => audiotags::MimeType::Tiff,
    };
    String::from(m)
}

/// An embedded cover: its bytes and the format its container declares.
pub struct CoverImage {
    pub data: Vec<u8>,
    pub format: CoverFormat,
}

/// An uncompressed image: three bytes (red, green, blue) per pixel, row by row.
pub struct RgbPixels {
    pub width: u32,
    pub height: u32,
    pub pixels: Vec<u8>,
}

impl RgbPixels {
    /// The buffer holds at least every pixel of the image.
    pub open spec fn wf(&self) -> bool {
        self.pixels@.len() >= 3 * self.width * self.height
    }
}

/// Why cover art could not be normalized.
#[derive(Debug)]
pub enum ArtworkError {
    /// The track has no embedded cover to work on.
    MissingCover,
    /// The cover's bytes do not decode as its declared format.
    Decode(image::ImageError),
    /// The pixels could not be encoded as JPEG.
    Encode(image::ImageError),
}

/// The RGB pixels (width, height, samples) that `data` decodes to in `format`.
pub uninterp spec fn decoded_rgb_of(data: Seq<u8>, format: CoverFormat) -> Option<(u32, u32, Seq<u8>)>;

/// The JPEG encoding of a `width` x `height` RGB image.
pub uninterp spec fn jpeg_encoding_of(width: u32, height: u32, pixels: Seq<u8>) -> Option<Seq<u8>>;

/// Relies on image::load_from_memory_with_format, then DynamicImage::into_rgb8:
/// the image's pixels as RGB, alpha dropped; an error when `data` does not
/// decode. An ImageBuffer's samples always cover its width times its height.
#[verifier::external_body]
fn decode_rgb(data: &[u8], format: CoverFormat) -> (r: Result<RgbPixels, image::ImageError>)
    ensures
        r matches Ok(p) ==> p.wf() && decoded_rgb_of(data@, format) == Some(
            (p.width, p.height, p.pixels@),
        ),
        r is Err ==> decoded_rgb_of(data@, format) is None,
{
    let f = match format {
        CoverFormat::Jpeg => image::ImageFormat::Jpeg,
        CoverFormat::Png => image::ImageFormat::Png,
        CoverFormat::Bmp => image::ImageFormat::Bmp,
        CoverFormat::Gif => image::ImageFormat::Gif,
        CoverFormat::Tiff => image::ImageFormat::Tiff,
    };
    let img = image::load_from_memory_with_format(data, f)?.into_rgb8();
    let (width, height) = img.dimensions();
    Ok(RgbPixels { width, height, pixels: img.into_raw() })
}

/// The samples of the square window `c` of an image `width` pixels wide,
/// row by row.
pub open spec fn cropped_pixels(width: u32, pixels: Seq<u8>, c: CropRegion) -> Seq<u8> {
    Seq::new(
        (3 * c.side * c.side) as nat,
        |k: int|
            pixels[3 * ((c.y + (k / 3) / c.side as int) * width + c.x + (k / 3) % c.side as int)
                + k % 3],
    )
}

/// Relies on image::imageops::crop, then SubImage::to_image: a new buffer
/// holding the window's pixels, row by row. The window lies inside the image,
/// so the crate does not shrink it.
#[verifier::external_body]
fn crop_rgb(img: &RgbPixels, c: CropRegion) -> (r: RgbPixels)
    requires
        img.wf(),
        c.x + c.side <= img.width,
        c.y + c.side <= img.height,
    ensures
        r.width == c.side,
        r.height == c.side,
        r.pixels@ == cropped_pixels(img.width, img.pixels@, c),
{
    let mut buf = image::RgbImage::from_raw(img.width, img.height, img.pixels.clone()).unwrap();
    let out = image::imageops::crop(&mut buf, c.x, c.y, c.side, c.side).to_image();
    RgbPixels { width: c.side, height: c.side, pixels: out.into_raw() }
}

/// Relies on ImageBuffer::write_to with ImageFormat::Jpeg: the JPEG encoding
/// of the pixels, or an error when the encoder refuses the image.
#[verifier::external_body]
fn encode_jpeg(img: &RgbPixels) -> (r: Result<Vec<u8>, image::ImageError>)
    requires
        img.wf(),
    ensures
        r matches Ok(b) ==> jpeg_encoding_of(img.width, img.height, img.pixels@) == Some(b@),
        r is Err ==> jpeg_encoding_of(img.width, img.height, img.pixels@) is None,
{
    let buf = image::RgbImage::from_raw(img.width, img.height, img.pixels.clone()).unwrap();
    let mut out: Vec<u8> = Vec::new();
    buf.write_to(&mut std::io::Cursor::new(&mut out), image::ImageFormat::Jpeg)?;
    Ok(out)
}

/// An image cut to its centered square: unchanged when already square.
pub open spec fn square_pixels_of(width: u32, height: u32, pixels: Seq<u8>) -> (u32, u32, Seq<u8>) {
    match center_square_of(width, height) {
        None => (width, height, pixels),
        Some(c) => (c.side, c.side, cropped_pixels(width, pixels, c)),
    }
}

/// Cuts an image to its centered square; a square image is handed back as it is.
pub fn crop_to_square(img: RgbPixels) -> (r: RgbPixels)
    requires
        img.wf(),
    ensures
        r.wf(),
        (r.width, r.height, r.pixels@) == square_pixels_of(img.width, img.height, img.pixels@),
{
    match center_square(img.width, img.height) {
        None => img,
        Some(c) => {
            let r = crop_rgb(&img, c);
            assert(r.pixels@.len() == 3 * r.width * r.height);
            r
        },
    }
}

/// What normalizing a cover yields: a JPEG cover as it is, any other cover
/// decoded and re-encoded as JPEG; `None` when that fails.
pub open spec fn normalized_of(data: Seq<u8>, format: CoverFormat) -> Option<Seq<u8>> {
    if format == CoverFormat::Jpeg {
        Some(data)
    } else {
        match decoded_rgb_of(data, format) {
            Some((w, h, p)) => jpeg_encoding_of(w, h, p),
            None => None,
        }
    }
}

/// Brings a cover to the stored form, JPEG. A JPEG cover passes through
/// byte for byte, without decoding; any other is decoded and re-encoded.
pub fn normalize_cover(cover: &CoverImage) -> (r: Result<Vec<u8>, ArtworkError>)
    ensures
        r matches Ok(b) ==> normalized_of(cover.data@, cover.format) == Some(b@),
        r is Err <==> normalized_of(cover.data@, cover.format) is None,
        r matches Err(e) ==> (e is Decode <==> decoded_rgb_of(cover.data@, cover.format) is None),
        !(r matches Err(ArtworkError::MissingCover)),
{
    if cover.format == CoverFormat::Jpeg {
        return Ok(cover.data.clone());
    }
    let img = match decode_rgb(cover.data.as_slice(), cover.format) {
        Ok(img) => img,
        Err(e) => return Err(ArtworkError::Decode(e)),
    };
    match encode_jpeg(&img) {
        Ok(b) => Ok(b),
        Err(e) => Err(ArtworkError::Encode(e)),
    }
}

/// What squaring a cover yields: `Some(None)` for a square image (nothing to
/// do), `Some(Some(jpeg))` for the re-encoded centered square of any other,
/// `None` when decoding or encoding fails.
pub open spec fn squared_of(data: Seq<u8>, format: CoverFormat) -> Option<Option<Seq<u8>>> {
    match decoded_rgb_of(data, format) {
        None => None,
        Some((w, h, p)) => if w == h {
            Some(None)
        } else {
            let (a, b, q) = square_pixels_of(w, h, p);
            match jpeg_encoding_of(a, b, q) {
                Some(e) => Some(Some(e)),
                None => None,
            }
        },
    }
}

/// Re-crops a cover to its centered square as JPEG. `Ok(None)` when the cover
/// is already square: nothing is to be rewritten then.
pub fn square_cover(cover: &CoverImage) -> (r: Result<Option<Vec<u8>>, ArtworkError>)
    ensures
        r matches Ok(o) ==> squared_of(cover.data@, cover.format) == Some(
            match o {
                Some(b) => Some(b@),
                None => None::<Seq<u8>>,
            },
        ),
        r is Err <==> squared_of(cover.data@, cover.format) is None,
        r matches Err(e) ==> (e is Decode <==> decoded_rgb_of(cover.data@, cover.format) is None),
        !(r matches Err(ArtworkError::MissingCover)),
{
    let img = match decode_rgb(cover.data.as_slice(), cover.format) {
        Ok(img) => img,
        Err(e) => return Err(ArtworkError::Decode(e)),
    };
    if img.width == img.height {
        return Ok(None);
    }
    let sq = crop_to_square(img);
    match encode_jpeg(&sq) {
        Ok(b) => Ok(Some(b)),
        Err(e) => Err(ArtworkError::Encode(e)),
    }
}

/// The post-download finishing step on a track's embedded cover: the cover
/// re-cropped to a square JPEG, `Ok(None)` when it is square already, and
/// an error when the track has no cover at all.
pub fn finish_cover(cover: Option<CoverImage>) -> (r: Result<Option<Vec<u8>>, ArtworkError>)
    ensures
        cover is None ==> r matches Err(ArtworkError::MissingCover),
        cover matches Some(c) ==> {
            &&& r matches Ok(o) ==> squared_of(c.data@, c.format) == Some(
                match o {
                    Some(b) => Some(b@),
                    None => None::<Seq<u8>>,
                },
            )
            &&& r is Err <==> squared_of(c.data@, c.format) is None
            &&& !(r matches Err(ArtworkError::MissingCover))
        },
{
    match cover {
        None => Err(ArtworkError::MissingCover),
        Some(c) => square_cover(&c),
    }
}

/// Cutting a square image to its centered square changes nothing, so its
/// re-encoding is byte for byte that of the image itself.
pub proof fn lemma_square_crop_identity(side: u32, pixels: Seq<u8>)
    ensures
        square_pixels_of(side, side, pixels) == (side, side, pixels),
        jpeg_encoding_of(side, side, pixels) == ({
            let (a, b, q) = square_pixels_of(side, side, pixels);
            jpeg_encoding_of(a, b, q)
        }),
{
}

/// A cover whose image is square is left untouched by squaring: there is
/// nothing to rewrite.
pub proof fn lemma_square_cover_untouched(data: Seq<u8>, format: CoverFormat)
    requires
        decoded_rgb_of(data, format) matches Some((w, h, _)) && w == h,
    ensures
        squared_of(data, format) == Some(None::<Seq<u8>>),
{
}

/// One pass of cache population over one track, as a value.
pub enum CacheStep {
    /// Nothing is written.
    Skip,
    /// The bytes go to the cache path; the embedded tag is not touched.
    Store(Seq<u8>),
    /// The bytes go to the cache path and replace the embedded cover.
    StoreAndRetag(Seq<u8>),
}

/// What populating the artwork cache for one track does.
pub enum CacheAction {
    /// Nothing: the cache entry exists already, or the track has no cover.
    Skip,
    /// Write these bytes to the cache path; leave the embedded tag alone.
    Store(Vec<u8>),
    /// Write these bytes to the cache path and embed them as the track's
    /// cover, declared JPEG.
    StoreAndRetag(Vec<u8>),
}

impl View for CacheAction {
    type V = CacheStep;

    open spec fn view(&self) -> CacheStep {
        match self {
            CacheAction::Skip => CacheStep::Skip,
            CacheAction::Store(b) => CacheStep::Store(b@),
            CacheAction::StoreAndRetag(b) => CacheStep::StoreAndRetag(b@),
        }
    }
}

/// The cover of a track as plain values.
pub open spec fn cover_view(cover: &Option<CoverImage>) -> Option<(Seq<u8>, CoverFormat)> {
    match cover {
        Some(c) => Some((c.data@, c.format)),
        None => None,
    }
}

/// The cache step for a track: nothing when its entry exists or it has no
/// cover; else its normalized cover is stored, and only a cover that was not
/// JPEG is also written back into the tag. `None` when normalizing fails.
pub open spec fn cache_step_of(cache_exists: bool, cover: Option<(Seq<u8>, CoverFormat)>) -> Option<
    CacheStep,
> {
    if cache_exists {
        Some(CacheStep::Skip)
    } else {
        match cover {
            None => Some(CacheStep::Skip),
            Some((data, format)) => match normalized_of(data, format) {
                None => None,
                Some(b) => if format == CoverFormat::Jpeg {
                    Some(CacheStep::Store(b))
                } else {
                    Some(CacheStep::StoreAndRetag(b))
                },
            },
        }
    }
}

/// Decides how to populate the artwork cache for a track, given whether its
/// entry exists and the cover embedded in it. An existing entry settles the
/// matter before the cover is looked at.
pub fn plan_artwork(cache_exists: bool, cover: &Option<CoverImage>) -> (r: Result<
    CacheAction,
    ArtworkError,
>)
    ensures
        r matches Ok(a) ==> cache_step_of(cache_exists, cover_view(cover)) == Some(a@),
        r is Err <==> cache_step_of(cache_exists, cover_view(cover)) is None,
        !(r matches Err(ArtworkError::MissingCover)),
{
    if cache_exists {
        return Ok(CacheAction::Skip);
    }
    match cover {
        None => Ok(CacheAction::Skip),
        Some(c) => {
            let b = normalize_cover(c)?;
            if c.format == CoverFormat::Jpeg {
                Ok(CacheAction::Store(b))
            } else {
                Ok(CacheAction::StoreAndRetag(b))
            }
        },
    }
}

/// The titles with a cache entry after a step for `title`.
pub open spec fn cached_after(cached: Set<Seq<char>>, title: Seq<char>, step: CacheStep) -> Set<
    Seq<char>,
> {
    match step {
        CacheStep::Skip => cached,
        _ => cached.insert(title),
    }
}

/// A JPEG cover is never written back into its tag: the cache receives its
/// bytes unchanged, and only a cover of another format is retagged.
pub proof fn lemma_jpeg_cover_never_retagged(
    cache_exists: bool,
    data: Seq<u8>,
    format: CoverFormat,
)
    ensures
        format == CoverFormat::Jpeg ==> (cache_step_of(cache_exists, Some((data, format))) matches Some(
            s,
        ) && !(s is StoreAndRetag)),
        format == CoverFormat::Jpeg && !cache_exists ==> cache_step_of(
            cache_exists,
            Some((data, format)),
        ) == Some(CacheStep::Store(data)),
        cache_step_of(cache_exists, Some((data, format))) matches Some(CacheStep::StoreAndRetag(_))
            ==> format != CoverFormat::Jpeg,
{
}

/// Populating the cache twice for an untouched track does the work once:
/// after a first pass that succeeded, the second finds the entry (or, for a
/// track without cover, again nothing to do) and skips, without looking at
/// the cover; after one that failed, nothing was written. A track with a
/// cover has its entry once a pass has succeeded.
pub proof fn lemma_cache_population_idempotent(
    cached: Set<Seq<char>>,
    title: Seq<char>,
    cover: Option<(Seq<u8>, CoverFormat)>,
)
    ensures
        cache_step_of(cached.contains(title), cover) matches Some(first) ==> {
            let after = cached_after(cached, title, first);
            &&& cache_step_of(after.contains(title), cover) == Some(CacheStep::Skip)
            &&& cached_after(after, title, CacheStep::Skip) == after
        },
        cache_step_of(cached.contains(title), cover) is None ==> !cached.contains(title),
        cover is Some ==> (cache_step_of(cached.contains(title), cover) matches Some(first)
            ==> cached_after(cached, title, first).contains(title)),
{
}

} // verus!
