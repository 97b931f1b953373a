//! Track records, and how the acquisition tool's result is resolved into
//! one: the artist by priority, the duration from `minutes:seconds`, and
//! whether the cover needs finishing.
use vstd::prelude::*;
use vstd::string::*;
use crate::names::{
    artwork_path, artwork_path_of, artwork_url, find_last, last_index, lemma_last_index_bounds, starts_with,
    track_path, track_path_of,
};

verus! {

/// A track of the library, as listings and searches report it.
#[derive(Clone)]
pub struct Track {
    pub filename: String,
    pub title: String,
    pub artist: String,
    pub artists: Option<Vec<String>>,
    pub thumbnail: Option<String>,
    pub duration: Option<u64>,
    pub artist_thumbnail: Option<String>,
}

/// Two tracks are the same track when their filenames are equal.
impl PartialEq for Track {
    fn eq(&self, other: &Track) -> (r: bool) {
        self.filename == other.filename
    }
}

impl vstd::std_specs::cmp::PartialEqSpecImpl for Track {
    open spec fn obeys_eq_spec() -> bool {
        true
    }

    open spec fn eq_spec(&self, other: &Track) -> bool {
        self.filename@ == other.filename@
    }
}

/// A track as a listing of the store reports it: its cached artwork as
/// thumbnail, and `Unknown` when its tag names no artist.
pub fn listed_track(filename: String, title: String, artist: Option<String>) -> (r: Track)
    ensures
        r.filename@ == filename@,
        r.title@ == title@,
        r.artist@ == (match artist {
            Some(a) => a@,
            None => "Unknown"@,
        }),
        r.thumbnail matches Some(t) && t@ == seq!['/'] + artwork_path_of(title@),
        r.artists is None,
        r.duration is None,
        r.artist_thumbnail is None,
{
    let thumbnail = artwork_url(title.as_str());
    let artist = match artist {
        Some(a) => a,
        None => String::from_str("Unknown"),
    };
    Track {
        filename,
        title,
        artist,
        artists: None,
        thumbnail: Some(thumbnail),
        duration: None,
        artist_thumbnail: None,
    }
}

/// Index of the first `, ` in `s`, or -1.
pub open spec fn first_separator(s: Seq<char>) -> int
    decreases s.len(),
{
    if s.len() < 2 {
        -1
    } else if s[0] == ',' && s[1] == ' ' {
        0
    } else {
        let r = first_separator(s.drop_first());
        if r < 0 {
            -1
        } else {
            r + 1
        }
    }
}

proof fn lemma_first_separator(s: Seq<char>, i: int)
    requires
        0 <= i,
        i + 1 <= s.len(),
        forall|j: int| 0 <= j < i ==> !(#[trigger] s[j] == ',' && s[j + 1] == ' '),
    ensures
        i + 1 < s.len() && s[i] == ',' && s[i + 1] == ' ' ==> first_separator(s) == i,
        i + 1 == s.len() ==> first_separator(s) == -1,
    decreases s.len(),
{
    if s.len() >= 2 && i > 0 {
        let t = s.drop_first();
        assert forall|j: int| 0 <= j < i - 1 implies !(#[trigger] t[j] == ',' && t[j + 1] == ' ') by {
            assert(t[j] == s[j + 1]);
            assert(t[j + 1] == s[j + 2]);
        }
        lemma_first_separator(t, i - 1);
    }
}

/// The first name of an artist list written `A, B, C`: all before the first `, `.
pub open spec fn primary_artist_of(s: Seq<char>) -> Seq<char> {
    if first_separator(s) >= 0 {
        s.subrange(0, first_separator(s))
    } else {
        s
    }
}

/// The first name of an artist list, by which listings group tracks.
pub fn primary_artist(artist: &str) -> (r: String)
    ensures
        r@ == primary_artist_of(artist@),
{
    let n = artist.unicode_len();
    if n < 2 {
        return String::from_str(artist);
    }
    let mut i: usize = 0;
    while i + 1 < n
        invariant
            n == artist@.len(),
            n >= 2,
            i + 1 <= n,
            forall|j: int| 0 <= j < i ==> !(#[trigger] artist@[j] == ',' && artist@[j + 1] == ' '),
        decreases n - i,
    {
        if artist.get_char(i) == ',' && artist.get_char(i + 1) == ' ' {
            proof {
                lemma_first_separator(artist@, i as int);
            }
            return String::from_str(artist.substring_char(0, i));
        }
        i = i + 1;
    }
    proof {
        lemma_first_separator(artist@, i as int);
    }
    String::from_str(artist)
}

/// Whether a character separates the names of an artist list.
pub open spec fn is_name_separator(c: char) -> bool {
    c == '&' || c == ','
}

/// The pieces of `s` between separators, empty pieces included, read
/// from left to right: a separator closes the current piece and opens an
/// empty one; any other character extends the current piece.
pub open spec fn pieces_of(s: Seq<char>) -> Seq<Seq<char>>
    decreases s.len(),
{
    if s.len() == 0 {
        seq![Seq::<char>::empty()]
    } else {
        let p = pieces_of(s.drop_last());
        if is_name_separator(s.last()) {
            p.push(Seq::<char>::empty())
        } else {
            p.drop_last().push(p.last().push(s.last()))
        }
    }
}

/// `s` without its leading and trailing whitespace.
pub uninterp spec fn trimmed_of(s: Seq<char>) -> Seq<char>;

/// `s` with every `from` replaced by `to`.
pub uninterp spec fn replaced_of(s: Seq<char>, from: Seq<char>, to: Seq<char>) -> Seq<char>;

/// Relies on str::trim: leading and trailing whitespace removed.
#[verifier::external_body]
fn trim(s: &str) -> (r: String)
    ensures
        r@ == trimmed_of(s@),
{
    s.trim().to_string()
}

/// Relies on str::replace: every occurrence of `from` replaced by `to`.
#[verifier::external_body]
fn replace(s: &str, from: &str, to: &str) -> (r: String)
    ensures
        r@ == replaced_of(s@, from@, to@),
{
    s.replace(from, to)
}

/// The names of the non-empty pieces, trimmed.
pub open spec fn artist_names_of(pieces: Seq<Seq<char>>) -> Seq<Seq<char>>
    decreases pieces.len(),
{
    if pieces.len() == 0 {
        seq![]
    } else {
        let rest = artist_names_of(pieces.drop_last());
        if pieces.last().len() == 0 {
            rest
        } else {
            rest.push(trimmed_of(pieces.last()))
        }
    }
}

/// The views of a list of strings.
pub open spec fn views_of(v: Seq<String>) -> Seq<Seq<char>> {
    v.map_values(|s: String| s@)
}

/// Splits an artist list such as `A & B, C` into its names: pieces between
/// `&` and `,`, empty ones left out, each trimmed.
pub fn split_artists(s: &str) -> (r: Vec<String>)
    ensures
        views_of(r@) == artist_names_of(pieces_of(s@)),
{
    let n = s.unicode_len();
    let mut out: Vec<String> = Vec::new();
    let mut start: usize = 0;
    let mut i: usize = 0;
    let ghost mut done: Seq<Seq<char>> = seq![];
    assert(s@.subrange(0, 0) =~= Seq::<char>::empty());
    assert(pieces_of(s@.subrange(0, 0)) =~= done.push(s@.subrange(0, 0)));
    while i < n
        invariant
            n == s@.len(),
            start <= i <= n,
            pieces_of(s@.subrange(0, i as int)) == done.push(s@.subrange(start as int, i as int)),
            views_of(out@) == artist_names_of(done),
        decreases n - i,
    {
        let c = s.get_char(i);
        let ghost p = s@.subrange(0, i as int);
        let ghost q = s@.subrange(0, i + 1);
        assert(q.drop_last() =~= p);
        if c == '&' || c == ',' {
            assert(s@.subrange(i + 1, i + 1) =~= Seq::<char>::empty());
            let piece = s.substring_char(start, i);
            proof {
                let old_done = done;
                done = done.push(piece@);
                assert(done.drop_last() =~= old_done);
            }
            if i > start {
                let name = trim(piece);
                out.push(name);
            }
            assert(views_of(out@) =~= artist_names_of(done));
            start = i + 1;
        } else {
            proof {
                let cur = s@.subrange(start as int, i as int);
                assert(done.push(cur).drop_last() =~= done);
                assert(s@.subrange(start as int, i + 1) =~= cur.push(c));
                assert(pieces_of(q) =~= done.push(s@.subrange(start as int, i + 1)));
            }
        }
        i = i + 1;
    }
    assert(s@.subrange(0, n as int) =~= s@);
    let last = s.substring_char(start, n);
    proof {
        let old_done = done;
        done = done.push(last@);
        assert(done.drop_last() =~= old_done);
    }
    if n > start {
        out.push(trim(last));
    }
    assert(views_of(out@) =~= artist_names_of(done));
    out
}

/// The larger rendition of a music-search thumbnail: its address with the
/// size `w120-h120` asked as `w300-h300`.
pub fn upsized_thumbnail(url: &str) -> (r: String)
    ensures
        r@ == replaced_of(url@, "w120-h120"@, "w300-h300"@),
{
    replace(url, "w120-h120", "w300-h300")
}

/// An entry of a saved play queue.
#[derive(Clone)]
pub struct QueueItem {
    pub filename: String,
    pub title: String,
    pub artist: String,
    pub artists: Option<Vec<String>>,
    pub thumbnail: Option<String>,
    pub duration: Option<u64>,
    pub artist_thumbnail: Option<String>,
    pub url: String,
}

/// The view of an optional string.
pub open spec fn opt_view(o: Option<String>) -> Option<Seq<char>> {
    match o {
        Some(s) => Some(s@),
        None => None,
    }
}

/// The artist of a result: the first present of artist, uploader and
/// channel, in that order, else `Unknown`.
pub open spec fn resolved_artist_of(
    artist: Option<Seq<char>>,
    uploader: Option<Seq<char>>,
    channel: Option<Seq<char>>,
) -> Seq<char> {
    match artist {
        Some(a) => a,
        None => match uploader {
            Some(u) => u,
            None => match channel {
                Some(c) => c,
                None => "Unknown"@,
            },
        },
    }
}

/// The fields of the acquisition tool's result that name an artist.
pub struct Artist {
    pub artist: Option<String>,
    pub channel: Option<String>,
    pub uploader: Option<String>,
}

impl Artist {
    /// Resolves the artist: artist, else uploader, else channel, else `Unknown`.
    pub fn get(self) -> (r: String)
        ensures
            r@ == resolved_artist_of(
                opt_view(self.artist),
                opt_view(self.uploader),
                opt_view(self.channel),
            ),
    {
        match self.artist {
            Some(a) => a,
            None => match self.uploader {
                Some(u) => u,
                None => match self.channel {
                    Some(c) => c,
                    None => String::from_str("Unknown"),
                },
            },
        }
    }
}

/// Whether a character is a decimal digit.
pub open spec fn is_digit(c: char) -> bool {
    '0' <= c <= '9'
}

/// A non-empty run of decimal digits.
pub open spec fn is_digits(s: Seq<char>) -> bool {
    s.len() > 0 && forall|i: int| 0 <= i < s.len() ==> is_digit(#[trigger] s[i])
}

/// The number that a run of decimal digits writes.
pub open spec fn digits_value(s: Seq<char>) -> nat
    decreases s.len(),
{
    if s.len() == 0 {
        0
    } else {
        digits_value(s.drop_last()) * 10 + (s.last() as u32 - '0' as u32) as nat
    }
}

proof fn lemma_digits_monotone(t: Seq<char>, j: int)
    requires
        0 <= j <= t.len(),
        forall|i: int| 0 <= i < t.len() ==> is_digit(#[trigger] t[i]),
    ensures
        digits_value(t.subrange(0, j)) <= digits_value(t),
    decreases t.len(),
{
    if j < t.len() {
        let d = t.drop_last();
        assert forall|i: int| 0 <= i < d.len() implies is_digit(#[trigger] d[i]) by {
            assert(d[i] == t[i]);
        }
        lemma_digits_monotone(d, j);
        assert(d.subrange(0, j) =~= t.subrange(0, j));
    } else {
        assert(t.subrange(0, j) =~= t);
    }
}

/// The number written by the characters `from..to` of `s`; `None` when they
/// are not a non-empty run of digits, or when it exceeds `u64`.
pub fn parse_decimal(s: &str, from: usize, to: usize) -> (r: Option<u64>)
    requires
        from <= to <= s@.len(),
    ensures
        ({
            let t = s@.subrange(from as int, to as int);
            &&& r is Some <==> is_digits(t) && digits_value(t) <= u64::MAX
            &&& r matches Some(v) ==> v == digits_value(t)
        }),
{
    let ghost t = s@.subrange(from as int, to as int);
    if from == to {
        return None;
    }
    let mut acc: u64 = 0;
    let mut i: usize = from;
    while i < to
        invariant
            from <= i <= to <= s@.len(),
            t == s@.subrange(from as int, to as int),
            forall|j: int| from <= j < i ==> is_digit(#[trigger] s@[j]),
            acc == digits_value(s@.subrange(from as int, i as int)),
        decreases to - i,
    {
        let c = s.get_char(i);
        if !('0' <= c && c <= '9') {
            assert(!is_digit(t[i - from]));
            return None;
        }
        let d = (c as u32 - '0' as u32) as u64;
        let ghost p = s@.subrange(from as int, i + 1);
        assert(p.drop_last() =~= s@.subrange(from as int, i as int));
        if acc > (u64::MAX - d) / 10 {
            proof {
                assert(digits_value(p) > u64::MAX) by (nonlinear_arith)
                    requires
                        digits_value(p) == acc * 10 + d,
                        acc > (u64::MAX - d) / 10,
                        d <= 9,
                ;
                if is_digits(t) {
                    lemma_digits_monotone(t, i + 1 - from);
                    assert(t.subrange(0, i + 1 - from) =~= p);
                }
            }
            return None;
        }
        acc = acc * 10 + d;
        i = i + 1;
    }
    assert(s@.subrange(from as int, to as int) =~= t);
    assert forall|j: int| 0 <= j < t.len() implies is_digit(#[trigger] t[j]) by {
        assert(t[j] == s@[from + j]);
    }
    Some(acc)
}

/// A duration written `minutes:seconds`, in seconds: both parts runs of
/// digits, and the total within `u64`. Anything else (no colon, more than
/// one, an empty or non-numeric part) has no duration.
pub open spec fn duration_of(s: Seq<char>) -> Option<nat> {
    let k = last_index(s, ':');
    if k < 0 {
        None
    } else {
        let m = s.subrange(0, k);
        let sec = s.subrange(k + 1, s.len() as int);
        if is_digits(m) && is_digits(sec) && digits_value(m) * 60 + digits_value(sec) <= u64::MAX {
            Some(digits_value(m) * 60 + digits_value(sec))
        } else {
            None
        }
    }
}

/// Parses a `minutes:seconds` duration into seconds; `None` when the text
/// is not exactly two colon-separated numbers.
pub fn parse_duration(s: &str) -> (r: Option<u64>)
    ensures
        r matches Some(v) ==> duration_of(s@) == Some(v as nat),
        r is None ==> duration_of(s@) is None,
{
    proof {
        lemma_last_index_bounds(s@, ':');
    }
    let k = match find_last(s, ':') {
        Some(k) => k,
        None => return None,
    };
    let n = s.unicode_len();
    let m = match parse_decimal(s, 0, k) {
        Some(m) => m,
        None => return None,
    };
    let sec = match parse_decimal(s, k + 1, n) {
        Some(sec) => sec,
        None => return None,
    };
    if m > (u64::MAX - sec) / 60 {
        assert(m * 60 + sec > u64::MAX) by (nonlinear_arith)
            requires
                m > (u64::MAX - sec) / 60,
                sec <= u64::MAX,
        ;
        return None;
    }
    assert(m * 60 + sec <= u64::MAX) by (nonlinear_arith)
        requires
            m <= (u64::MAX - sec) / 60,
            sec <= u64::MAX,
    ;
    Some(m * 60 + sec)
}

/// The text that opens the description of a machine-generated "topic"
/// upload, whose thumbnail is not a clean square cover.
pub open spec fn topic_marker() -> Seq<char> {
    "Provided to YouTube by"@
}

/// Whether a description marks a topic upload.
pub open spec fn is_topic_of(description: Option<Seq<char>>) -> bool {
    match description {
        Some(d) => d.len() >= topic_marker().len() && d.subrange(
            0,
            topic_marker().len() as int,
        ) == topic_marker(),
        None => false,
    }
}

/// Whether a downloaded track is a topic upload, whose cover is to be
/// re-cropped to a square.
pub fn is_topic_upload(description: &Option<String>) -> (r: bool)
    ensures
        r == is_topic_of(opt_view(*description)),
{
    match description {
        Some(d) => starts_with(d.as_str(), "Provided to YouTube by"),
        None => false,
    }
}

/// The files that finishing a topic upload works on.
pub struct Finishing {
    /// The downloaded audio file: `music/<title>.mp3`.
    pub music_path: String,
    /// Where the cropped cover is cached: `img/<title>.jpeg`.
    pub image_path: String,
}

/// What the acquisition tool reported of a download.
pub struct Acquired {
    pub title: String,
    pub description: Option<String>,
    pub thumbnail: String,
    pub artist: Artist,
}

/// A download's summary for its caller, and the finishing it needs.
pub struct Summary {
    pub title: String,
    pub artist: String,
    /// The cached cover for a topic upload, else the tool's thumbnail address.
    pub thumbnail: String,
    pub finishing: Option<Finishing>,
}

/// Resolves the acquisition tool's result into a summary: the artist by
/// priority, and for a topic upload the paths of its cover's finishing,
/// whose cached cover then stands as the thumbnail.
pub fn summarize(acquired: Acquired) -> (r: Summary)
    ensures
        r.title@ == acquired.title@,
        r.artist@ == resolved_artist_of(
            opt_view(acquired.artist.artist),
            opt_view(acquired.artist.uploader),
            opt_view(acquired.artist.channel),
        ),
        r.finishing is Some <==> is_topic_of(opt_view(acquired.description)),
        r.finishing matches Some(f) ==> {
            &&& f.music_path@ == track_path_of(acquired.title@ + ".mp3"@)
            &&& f.image_path@ == artwork_path_of(acquired.title@)
            &&& r.thumbnail@ == f.image_path@
        },
        r.finishing is None ==> r.thumbnail@ == acquired.thumbnail@,
{
    let topic = is_topic_upload(&acquired.description);
    let artist = acquired.artist.get();
    if topic {
        let mut name = acquired.title.clone();
        name.append(".mp3");
        let music_path = track_path(name.as_str());
        let image_path = artwork_path(acquired.title.as_str());
        let thumbnail = image_path.clone();
        Summary {
            title: acquired.title,
            artist,
            thumbnail,
            finishing: Some(Finishing { music_path, image_path }),
        }
    } else {
        Summary { title: acquired.title, artist, thumbnail: acquired.thumbnail, finishing: None }
    }
}

} // verus!
