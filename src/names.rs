//! Filename rules of the track store: a track file is `<title>.<extension>`,
//! and the extension selects the tag container kind.
use vstd::prelude::*;
use vstd::string::*;

verus! {

/// Index of the last `c` in `s`, or -1 when there is none.
pub open spec fn last_index(s: Seq<char>, c: char) -> int
    decreases s.len(),
{
    if s.len() == 0 {
        -1
    } else if s.last() == c {
        s.len() - 1
    } else {
        last_index(s.drop_last(), c)
    }
}

/// Index of the last `.` in `s`, or -1 when there is none.
pub open spec fn last_dot(s: Seq<char>) -> int {
    last_index(s, '.')
}

/// `s` without its last `.` and what follows it.
pub open spec fn stem(s: Seq<char>) -> Seq<char> {
    if last_dot(s) >= 0 {
        s.subrange(0, last_dot(s))
    } else {
        s
    }
}

pub proof fn lemma_last_index_bounds(s: Seq<char>, c: char)
    ensures
        -1 <= last_index(s, c) < s.len(),
        last_index(s, c) >= 0 ==> s[last_index(s, c)] == c,
        forall|j: int| last_index(s, c) < j < s.len() ==> s[j] != c,
    decreases s.len(),
{
    if s.len() > 0 && s.last() != c {
        lemma_last_index_bounds(s.drop_last(), c);
        assert forall|j: int| last_index(s, c) < j < s.len() implies s[j] != c by {
            if j < s.len() - 1 {
                assert(s[j] == s.drop_last()[j]);
            }
        }
    }
}

/// Appending text that holds `c` moves the last `c` into that text.
pub proof fn lemma_last_index_append(a: Seq<char>, b: Seq<char>, c: char)
    requires
        last_index(b, c) >= 0,
    ensures
        last_index(a + b, c) == a.len() + last_index(b, c),
    decreases b.len(),
{
    if b.last() != c {
        assert((a + b).drop_last() =~= a + b.drop_last());
        lemma_last_index_append(a, b.drop_last(), c);
    }
}

/// Whether two string slices hold the same characters.
pub fn str_equal(a: &str, b: &str) -> (r: bool)
    ensures
        r == (a@ == b@),
{
    let n = a.unicode_len();
    if n != b.unicode_len() {
        return false;
    }
    let mut i: usize = 0;
    while i < n
        invariant
            n == a@.len(),
            n == b@.len(),
            i <= n,
            forall|j: int| 0 <= j < i ==> a@[j] == b@[j],
        decreases n - i,
    {
        if a.get_char(i) != b.get_char(i) {
            return false;
        }
        i = i + 1;
    }
    assert(a@ =~= b@);
    true
}

/// Whether `s` begins with `prefix`.
pub fn starts_with(s: &str, prefix: &str) -> (r: bool)
    ensures
        r == (prefix@.len() <= s@.len() && s@.subrange(0, prefix@.len() as int) == prefix@),
{
    let n = prefix.unicode_len();
    if n > s.unicode_len() {
        return false;
    }
    let mut i: usize = 0;
    while i < n
        invariant
            n == prefix@.len(),
            n <= s@.len(),
            i <= n,
            forall|j: int| 0 <= j < i ==> s@[j] == prefix@[j],
        decreases n - i,
    {
        if s.get_char(i) != prefix.get_char(i) {
            assert(s@.subrange(0, n as int)[i as int] != prefix@[i as int]);
            return false;
        }
        i = i + 1;
    }
    assert(s@.subrange(0, n as int) =~= prefix@);
    true
}

/// Position of the last `c` in `s`.
pub fn find_last(s: &str, c: char) -> (r: Option<usize>)
    ensures
        r matches Some(i) ==> last_index(s@, c) == i,
        r is None ==> last_index(s@, c) == -1,
{
    let n = s.unicode_len();
    let mut i: usize = n;
    assert(s@.subrange(0, n as int) =~= s@);
    while i > 0
        invariant
            n == s@.len(),
            i <= n,
            last_index(s@, c) == last_index(s@.subrange(0, i as int), c),
        decreases i,
    {
        proof {
            let p = s@.subrange(0, i as int);
            assert(p.drop_last() =~= s@.subrange(0, i - 1));
        }
        if s.get_char(i - 1) == c {
            return Some(i - 1);
        }
        i = i - 1;
    }
    None
}

/// The filename without its extension: everything before the last `.`,
/// or the whole name when it has no `.`.
pub fn without_extension(filename: &str) -> (r: &str)
    ensures
        r@ == stem(filename@),
{
    proof {
        lemma_last_index_bounds(filename@, '.');
    }
    match find_last(filename, '.') {
        Some(i) => filename.substring_char(0, i),
        None => filename,
    }
}

/// The extension of `s` (after its last `.`), or `mp3` for a name without one.
pub open spec fn extension_or_default(s: Seq<char>) -> Seq<char> {
    if last_dot(s) >= 0 {
        s.subrange(last_dot(s) + 1, s.len() as int)
    } else {
        seq!['m', 'p', '3']
    }
}

/// Splits a track filename into its title and its extension. A name without
/// a `.` is taken whole as the title, with the extension `mp3`.
pub fn split_filename(filename: &str) -> (r: (String, String))
    ensures
        r.0@ == stem(filename@),
        r.1@ == extension_or_default(filename@),
{
    proof {
        lemma_last_index_bounds(filename@, '.');
    }
    match find_last(filename, '.') {
        Some(i) => {
            let n = filename.unicode_len();
            let title = String::from_str(filename.substring_char(0, i));
            let ext = String::from_str(filename.substring_char(i + 1, n));
            (title, ext)
        },
        None => {
            proof {
                reveal_strlit("mp3");
            }
            (String::from_str(filename), String::from_str("mp3"))
        },
    }
}

/// The two families of tag containers in the track store.
#[derive(Clone, Copy, Debug, PartialEq, Eq, Structural)]
pub enum ContainerKind {
    /// The lossy-audio (ID3) container.
    Mp3,
    /// The MP4-family container.
    Mp4,
}

/// Which container kind a file extension selects, if any.
pub open spec fn kind_of_extension(ext: Seq<char>) -> Option<ContainerKind> {
    if ext == seq!['m', 'p', '3'] {
        Some(ContainerKind::Mp3)
    } else if ext == seq!['m', 'p', '4'] || ext == seq!['m', '4', 'a'] {
        Some(ContainerKind::Mp4)
    } else {
        None
    }
}

/// The container kind for an extension: `mp3`, or `mp4` and `m4a`; `None`
/// for any other extension, whose file is skipped.
pub fn container_kind(ext: &str) -> (r: Option<ContainerKind>)
    ensures
        r == kind_of_extension(ext@),
{
    proof {
        reveal_strlit("mp3");
        reveal_strlit("mp4");
        reveal_strlit("m4a");
        assert("mp3"@ =~= seq!['m', 'p', '3']);
        assert("mp4"@ =~= seq!['m', 'p', '4']);
        assert("m4a"@ =~= seq!['m', '4', 'a']);
    }
    if str_equal(ext, "mp3") {
        Some(ContainerKind::Mp3)
    } else if str_equal(ext, "mp4") || str_equal(ext, "m4a") {
        Some(ContainerKind::Mp4)
    } else {
        None
    }
}

/// A file of the track store as a listing sees it.
pub struct TrackEntry {
    pub title: String,
    pub kind: ContainerKind,
}

/// Classifies a directory entry of the track store: its title and container
/// kind, or `None` when its extension is not recognised.
pub fn classify_entry(filename: &str) -> (r: Option<TrackEntry>)
    ensures
        r is Some <==> kind_of_extension(extension_or_default(filename@)) is Some,
        r matches Some(e) ==> e.title@ == stem(filename@) && Some(e.kind) == kind_of_extension(
            extension_or_default(filename@),
        ),
{
    let (title, ext) = split_filename(filename);
    match container_kind(ext.as_str()) {
        Some(kind) => Some(TrackEntry { title, kind }),
        None => None,
    }
}

/// `a` followed by `b` and `c`.
fn join3(a: &str, b: &str, c: &str) -> (r: String)
    ensures
        r@ == a@ + b@ + c@,
{
    let mut s = String::from_str(a);
    s.append(b);
    s.append(c);
    s
}

/// Path of the cached artwork of a title: `img/<title>.jpeg`.
pub open spec fn artwork_path_of(title: Seq<char>) -> Seq<char> {
    seq!['i', 'm', 'g', '/'] + title + seq!['.', 'j', 'p', 'e', 'g']
}

/// Path of the cached artwork of a title, relative to the server's root.
pub fn artwork_path(title: &str) -> (r: String)
    ensures
        r@ == artwork_path_of(title@),
{
    proof {
        reveal_strlit("img/");
        reveal_strlit(".jpeg");
    }
    join3("img/", title, ".jpeg")
}

/// Address under which the cached artwork of a title is served: `/img/<title>.jpeg`.
pub fn artwork_url(title: &str) -> (r: String)
    ensures
        r@ == seq!['/'] + artwork_path_of(title@),
{
    proof {
        reveal_strlit("/img/");
        reveal_strlit(".jpeg");
    }
    let r = join3("/img/", title, ".jpeg");
    assert(r@ =~= seq!['/'] + artwork_path_of(title@));
    r
}

/// Path of a track file in the store: `music/<filename>`.
pub open spec fn track_path_of(filename: Seq<char>) -> Seq<char> {
    seq!['m', 'u', 's', 'i', 'c', '/'] + filename
}

/// Path of a track file in the store.
pub fn track_path(filename: &str) -> (r: String)
    ensures
        r@ == track_path_of(filename@),
{
    proof {
        reveal_strlit("music/");
    }
    let mut s = String::from_str("music/");
    s.append(filename);
    s
}

/// The filename that a track gets when its title changes: the new title
/// followed by the old name's extension, dot included.
pub open spec fn renamed_of(filename: Seq<char>, title: Seq<char>) -> Seq<char> {
    title + filename.subrange(last_dot(filename), filename.len() as int)
}

/// The new filename of a retitled track; `None` when the old name has no
/// extension to carry over.
pub fn renamed_filename(filename: &str, title: &str) -> (r: Option<String>)
    ensures
        r is Some <==> last_dot(filename@) >= 0,
        r matches Some(n) ==> n@ == renamed_of(filename@, title@),
{
    proof {
        lemma_last_index_bounds(filename@, '.');
    }
    match find_last(filename, '.') {
        Some(i) => {
            let mut s = String::from_str(title);
            s.append(filename.substring_char(i, filename.unicode_len()));
            Some(s)
        },
        None => None,
    }
}

/// The file that an artwork address points at: the address without its
/// query (from the last `?`) and without its leading `/`; `None` when it
/// does not start with `/`.
pub open spec fn local_path_of(url: Seq<char>) -> Option<Seq<char>> {
    let q = last_index(url, '?');
    let base = if q >= 0 {
        url.subrange(0, q)
    } else {
        url
    };
    if base.len() > 0 && base[0] == '/' {
        Some(base.subrange(1, base.len() as int))
    } else {
        None
    }
}

/// The local file behind an artwork address such as `/img/x.jpeg?v=2`.
pub fn local_image_path(url: &str) -> (r: Option<String>)
    ensures
        r matches Some(p) ==> local_path_of(url@) == Some(p@),
        r is None ==> local_path_of(url@) is None,
{
    proof {
        lemma_last_index_bounds(url@, '?');
    }
    let end = match find_last(url, '?') {
        Some(q) => q,
        None => url.unicode_len(),
    };
    if end == 0 || url.get_char(0) != '/' {
        return None;
    }
    Some(String::from_str(url.substring_char(1, end)))
}

/// A retitled track's new name has the new title as its stem and keeps
/// the old extension: the filename reflects the title after an edit.
pub proof fn lemma_renamed_reflects_title(filename: Seq<char>, title: Seq<char>)
    requires
        last_dot(filename) >= 0,
    ensures
        stem(renamed_of(filename, title)) == title,
        extension_or_default(renamed_of(filename, title)) == extension_or_default(filename),
{
    lemma_last_index_bounds(filename, '.');
    let k = last_dot(filename);
    let tail = filename.subrange(k, filename.len() as int);
    assert(last_index(tail, '.') == 0) by {
        lemma_last_index_bounds(tail, '.');
        assert(tail[0] == '.');
        if last_index(tail, '.') > 0 {
            assert(filename[k + last_index(tail, '.')] == '.');
        }
    }
    lemma_last_index_append(title, tail, '.');
    let r = renamed_of(filename, title);
    assert(r.subrange(0, title.len() as int) =~= title);
    assert(r.subrange(title.len() + 1int, r.len() as int) =~= filename.subrange(k + 1, filename.len() as int));
}

} // verus!
