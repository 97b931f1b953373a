//! Grouping the track store by artist, for automatic per-artist playlists.
use vstd::prelude::*;
use crate::metadata::{Track, primary_artist, primary_artist_of};
use crate::names::str_equal;

verus! {

/// The tracks of one artist, in listing order.
pub struct ArtistGroup {
    pub artist: String,
    pub tracks: Vec<Track>,
}

/// The artist a track is grouped under: the first name of its artist list.
pub open spec fn key_of(t: Track) -> Seq<char> {
    primary_artist_of(t.artist@)
}

/// Whether a track is grouped under `k`.
pub open spec fn with_key(k: Seq<char>) -> spec_fn(Track) -> bool {
    |t: Track| key_of(t) == k
}

/// The tracks of `ts` grouped under `k`, in order.
pub open spec fn tracks_of(ts: Seq<Track>, k: Seq<char>) -> Seq<Track> {
    ts.filter(with_key(k))
}

/// Index of the group named `key`.
fn find_group(groups: &Vec<ArtistGroup>, key: &str) -> (r: Option<usize>)
    ensures
        r matches Some(g) ==> g < groups@.len() && groups@[g as int].artist@ == key@,
        r is None ==> forall|g: int| 0 <= g < groups@.len() ==> groups@[g].artist@ != key@,
{
    let mut i: usize = 0;
    while i < groups.len()
        invariant
            i <= groups@.len(),
            forall|g: int| 0 <= g < i ==> groups@[g].artist@ != key@,
        decreases groups@.len() - i,
    {
        if str_equal(groups[i].artist.as_str(), key) {
            return Some(i);
        }
        i = i + 1;
    }
    None
}

/// Every artist of `ts`, once, with all of its tracks.
fn collect_groups(tracks: Vec<Track>) -> (r: Vec<ArtistGroup>)
    ensures
        forall|g: int| 0 <= g < r@.len() ==> (#[trigger] r@[g]).tracks@ == tracks_of(tracks@, r@[g].artist@),
        forall|a: int, b: int|
            0 <= a < r@.len() && 0 <= b < r@.len() && a != b ==> (#[trigger] r@[a]).artist@ != (
            #[trigger] r@[b]).artist@,
        forall|k: Seq<char>|
            (forall|g: int| 0 <= g < r@.len() ==> (#[trigger] r@[g]).artist@ != k) ==> (
            #[trigger] tracks_of(tracks@, k)).len() == 0,
{
    let ghost orig = tracks@;
    let n = tracks.len();
    let mut rest = tracks;
    let mut groups: Vec<ArtistGroup> = Vec::new();
    let mut idx: usize = 0;
    proof {
        assert forall|k: Seq<char>| #[trigger] tracks_of(orig.subrange(0, 0), k).len() == 0 by {
            reveal(Seq::filter);
        }
    }
    while idx < n
        invariant
            n == orig.len(),
            idx <= n,
            rest@ == orig.subrange(idx as int, n as int),
            forall|g: int|
                0 <= g < groups@.len() ==> (#[trigger] groups@[g]).tracks@ == tracks_of(
                    orig.subrange(0, idx as int),
                    groups@[g].artist@,
                ),
            forall|a: int, b: int|
                0 <= a < groups@.len() && 0 <= b < groups@.len() && a != b ==> (
                #[trigger] groups@[a]).artist@ != (#[trigger] groups@[b]).artist@,
            forall|k: Seq<char>|
                (forall|g: int| 0 <= g < groups@.len() ==> (#[trigger] groups@[g]).artist@ != k)
                    ==> (#[trigger] tracks_of(orig.subrange(0, idx as int), k)).len() == 0,
        decreases n - idx,
    {
        let ghost prefix = orig.subrange(0, idx as int);
        let ghost old_groups = groups@;
        let t = rest.remove(0);
        assert(t == orig[idx as int]);
        assert(orig.subrange(0, idx + 1) =~= prefix.push(t));
        assert(rest@ =~= orig.subrange(idx + 1, n as int));
        let key = primary_artist(t.artist.as_str());
        let ghost tk = key@;
        assert(key_of(t) == tk);
        proof {
            assert forall|k: Seq<char>| #[trigger] tracks_of(prefix.push(t), k) == if k == tk {
                tracks_of(prefix, k).push(t)
            } else {
                tracks_of(prefix, k)
            } by {
                prefix.lemma_filter_push(t, with_key(k));
            }
        }
        let ghost mut at: int = 0;
        match find_group(&groups, key.as_str()) {
            Some(gi) => {
                let mut g = groups.remove(gi);
                g.tracks.push(t);
                groups.insert(gi, g);
                assert(groups@ =~= old_groups.update(gi as int, g));
                proof {
                    at = gi as int;
                }
            },
            None => {
                let mut v: Vec<Track> = Vec::new();
                v.push(t);
                assert(v@ =~= tracks_of(prefix, tk).push(t)) by {
                    assert(tracks_of(prefix, tk).len() == 0);
                }
                groups.push(ArtistGroup { artist: key, tracks: v });
                proof {
                    at = old_groups.len() as int;
                }
            },
        }
        assert(groups@[at].artist@ == tk);
        assert forall|g: int| 0 <= g < old_groups.len() implies (#[trigger] groups@[g]).artist@
            == old_groups[g].artist@ by {}
        assert forall|k: Seq<char>|
            (forall|g: int| 0 <= g < groups@.len() ==> (#[trigger] groups@[g]).artist@ != k) implies (
            #[trigger] tracks_of(orig.subrange(0, idx + 1), k)).len() == 0 by {
            assert(groups@[at].artist@ != k);
            assert forall|g: int| 0 <= g < old_groups.len() implies (#[trigger] old_groups[g]).artist@
                != k by {
                assert(groups@[g].artist@ != k);
            }
            assert(tracks_of(prefix.push(t), k) == tracks_of(prefix, k));
        }
        idx = idx + 1;
    }
    assert(orig.subrange(0, n as int) =~= orig);
    groups
}

/// Groups the listed tracks by primary artist, keeping the artists with two
/// tracks or more: each group holds all of its artist's tracks in listing
/// order, and no artist appears twice.
pub fn group_by_artist(tracks: Vec<Track>) -> (r: Vec<ArtistGroup>)
    ensures
        forall|g: int|
            0 <= g < r@.len() ==> (#[trigger] r@[g]).tracks@ == tracks_of(tracks@, r@[g].artist@)
                && r@[g].tracks@.len() > 1,
        forall|a: int, b: int|
            0 <= a < r@.len() && 0 <= b < r@.len() && a != b ==> (#[trigger] r@[a]).artist@ != (
            #[trigger] r@[b]).artist@,
        forall|k: Seq<char>|
            #[trigger] tracks_of(tracks@, k).len() > 1 ==> exists|g: int|
                0 <= g < r@.len() && (#[trigger] r@[g]).artist@ == k,
{
    let ghost ts = tracks@;
    let all = collect_groups(tracks);
    let ghost orig = all@;
    let m = all.len();
    let mut rest = all;
    let mut out: Vec<ArtistGroup> = Vec::new();
    let mut i: usize = 0;
    while i < m
        invariant
            m == orig.len(),
            i <= m,
            rest@ == orig.subrange(i as int, m as int),
            forall|g: int| 0 <= g < orig.len() ==> (#[trigger] orig[g]).tracks@ == tracks_of(ts, orig[g].artist@),
            forall|a: int, b: int|
                0 <= a < orig.len() && 0 <= b < orig.len() && a != b ==> (#[trigger] orig[a]).artist@
                    != (#[trigger] orig[b]).artist@,
            forall|k: Seq<char>|
                (forall|g: int| 0 <= g < orig.len() ==> (#[trigger] orig[g]).artist@ != k) ==> (
                #[trigger] tracks_of(ts, k)).len() == 0,
            forall|x: int|
                0 <= x < out@.len() ==> (#[trigger] out@[x]).tracks@ == tracks_of(ts, out@[x].artist@)
                    && out@[x].tracks@.len() > 1,
            forall|a: int, b: int|
                0 <= a < out@.len() && 0 <= b < out@.len() && a != b ==> (#[trigger] out@[a]).artist@
                    != (#[trigger] out@[b]).artist@,
            forall|x: int, g: int|
                0 <= x < out@.len() && i <= g < m ==> (#[trigger] out@[x]).artist@ != (
                #[trigger] orig[g]).artist@,
            forall|k: Seq<char>|
                #[trigger] tracks_of(ts, k).len() > 1 && (forall|g: int|
                    i <= g < m ==> (#[trigger] orig[g]).artist@ != k) ==> exists|x: int|
                    0 <= x < out@.len() && (#[trigger] out@[x]).artist@ == k,
        decreases m - i,
    {
        let ghost old_out = out@;
        let g = rest.remove(0);
        assert(g == orig[i as int]);
        assert(rest@ =~= orig.subrange(i + 1, m as int));
        if g.tracks.len() > 1 {
            out.push(g);
            assert(out@[old_out.len() as int] == orig[i as int]);
            assert forall|k: Seq<char>|
                #[trigger] tracks_of(ts, k).len() > 1 && (forall|h: int|
                    i + 1 <= h < m ==> (#[trigger] orig[h]).artist@ != k) implies exists|x: int|
                0 <= x < out@.len() && (#[trigger] out@[x]).artist@ == k by {
                if k == orig[i as int].artist@ {
                    assert(out@[old_out.len() as int].artist@ == k);
                } else {
                    assert(forall|h: int| i <= h < m ==> (#[trigger] orig[h]).artist@ != k);
                    let x = choose|x: int| 0 <= x < old_out.len() && (#[trigger] old_out[x]).artist@ == k;
                    assert(out@[x] == old_out[x]);
                }
            }
        } else {
            assert forall|k: Seq<char>|
                #[trigger] tracks_of(ts, k).len() > 1 && (forall|h: int|
                    i + 1 <= h < m ==> (#[trigger] orig[h]).artist@ != k) implies exists|x: int|
                0 <= x < out@.len() && (#[trigger] out@[x]).artist@ == k by {
                if k == orig[i as int].artist@ {
                    assert(tracks_of(ts, k) == orig[i as int].tracks@);
                } else {
                    assert(forall|h: int| i <= h < m ==> (#[trigger] orig[h]).artist@ != k);
                }
            }
        }
        i = i + 1;
    }
    proof {
        assert forall|k: Seq<char>| #[trigger] tracks_of(ts, k).len() > 1 implies exists|g: int|
            0 <= g < out@.len() && (#[trigger] out@[g]).artist@ == k by {
            assert(forall|h: int| m <= h < m ==> (#[trigger] orig[h]).artist@ != k);
        }
    }
    out
}

} // verus!
