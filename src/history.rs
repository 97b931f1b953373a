//! The "recently played" list: most recent first, each track once, at most
//! a fixed number of entries.
use vstd::prelude::*;
use crate::metadata::Track;

verus! {

/// How many tracks the list keeps.
pub const HISTORY_LIMIT: usize = 10;

/// Index of the first track in `h` with filename `f`, or -1.
pub open spec fn first_match(h: Seq<Track>, f: Seq<char>) -> int
    decreases h.len(),
{
    if h.len() == 0 {
        -1
    } else if h[0].filename@ == f {
        0
    } else {
        let r = first_match(h.drop_first(), f);
        if r < 0 {
            -1
        } else {
            r + 1
        }
    }
}

proof fn lemma_first_match(h: Seq<Track>, f: Seq<char>, i: int)
    requires
        0 <= i <= h.len(),
        forall|j: int| 0 <= j < i ==> (#[trigger] h[j]).filename@ != f,
    ensures
        i < h.len() && h[i].filename@ == f ==> first_match(h, f) == i,
        i == h.len() ==> first_match(h, f) == -1,
    decreases h.len(),
{
    if h.len() > 0 && i > 0 {
        let t = h.drop_first();
        assert forall|j: int| 0 <= j < i - 1 implies (#[trigger] t[j]).filename@ != f by {
            assert(t[j] == h[j + 1]);
        }
        lemma_first_match(t, f, i - 1);
        if i < h.len() {
            assert(t[i - 1] == h[i]);
        }
    }
}

/// The list after playing `t`: `t` moves to the front, out of its old
/// place if it was there; otherwise it is added at the front, the oldest
/// entry dropping out when the list is full.
pub open spec fn history_after(h: Seq<Track>, t: Track) -> Seq<Track> {
    let k = first_match(h, t.filename@);
    if k >= 0 {
        seq![t] + h.remove(k)
    } else if h.len() >= HISTORY_LIMIT {
        seq![t] + h.drop_last()
    } else {
        seq![t] + h
    }
}

/// Records that `track` was played.
pub fn record_play(history: &mut Vec<Track>, track: Track)
    ensures
        final(history)@ == history_after(old(history)@, track),
{
    let ghost h = history@;
    let n = history.len();
    let mut i: usize = 0;
    while i < n
        invariant
            n == history@.len(),
            history@ == h,
            h == old(history)@,
            i <= n,
            forall|j: int| 0 <= j < i ==> (#[trigger] h[j]).filename@ != track.filename@,
        decreases n - i,
    {
        if history[i].filename == track.filename {
            proof {
                lemma_first_match(h, track.filename@, i as int);
            }
            history.remove(i);
            history.insert(0, track);
            assert(history@ =~= history_after(h, track));
            return;
        }
        i = i + 1;
    }
    proof {
        lemma_first_match(h, track.filename@, n as int);
    }
    if n >= HISTORY_LIMIT {
        history.pop();
    }
    history.insert(0, track);
    assert(history@ =~= history_after(h, track));
}

/// No two entries share a filename.
pub open spec fn filenames_unique(h: Seq<Track>) -> bool {
    forall|i: int, j: int|
        0 <= i < h.len() && 0 <= j < h.len() && i != j ==> (#[trigger] h[i]).filename@ != (
        #[trigger] h[j]).filename@
}

/// Playing keeps the list within its limit, with each track once and the
/// played track in front.
pub proof fn lemma_history_invariant(h: Seq<Track>, t: Track)
    requires
        h.len() <= HISTORY_LIMIT,
        filenames_unique(h),
    ensures
        history_after(h, t).len() <= HISTORY_LIMIT,
        filenames_unique(history_after(h, t)),
        history_after(h, t)[0] == t,
{
    let k = first_match(h, t.filename@);
    lemma_first_match_bounds(h, t.filename@);
    let r = history_after(h, t);
    let rest = if k >= 0 {
        h.remove(k)
    } else if h.len() >= HISTORY_LIMIT {
        h.drop_last()
    } else {
        h
    };
    assert(r =~= seq![t] + rest);
    assert forall|j: int| 0 <= j < rest.len() implies (#[trigger] rest[j]).filename@ != t.filename@ by {
        if k >= 0 {
            if j < k {
                assert(rest[j] == h[j]);
            } else {
                assert(rest[j] == h[j + 1]);
            }
        } else {
            assert(rest[j] == h[j]);
        }
    }
    assert forall|a: int, b: int|
        0 <= a < r.len() && 0 <= b < r.len() && a != b implies (#[trigger] r[a]).filename@ != (
        #[trigger] r[b]).filename@ by {
        if a > 0 && b > 0 {
            let (x, y) = if k >= 0 {
                (if a - 1 < k { a - 1 } else { a }, if b - 1 < k { b - 1 } else { b })
            } else {
                (a - 1, b - 1)
            };
            assert(r[a] == rest[a - 1]);
            assert(r[b] == rest[b - 1]);
            assert(rest[a - 1] == h[x]);
            assert(rest[b - 1] == h[y]);
        } else if a == 0 {
            assert(r[b] == rest[b - 1]);
        } else {
            assert(r[a] == rest[a - 1]);
        }
    }
}

proof fn lemma_first_match_bounds(h: Seq<Track>, f: Seq<char>)
    ensures
        -1 <= first_match(h, f) < h.len(),
        first_match(h, f) >= 0 ==> h[first_match(h, f)].filename@ == f,
        forall|j: int| 0 <= j < h.len() && first_match(h, f) < 0 ==> (#[trigger] h[j]).filename@ != f,
    decreases h.len(),
{
    if h.len() > 0 {
        let t = h.drop_first();
        lemma_first_match_bounds(t, f);
        assert forall|j: int| 0 <= j < h.len() && first_match(h, f) < 0 implies (
        #[trigger] h[j]).filename@ != f by {
            if j > 0 {
                assert(h[j] == t[j - 1]);
            }
        }
        if first_match(h, f) > 0 {
            assert(h[first_match(h, f)] == t[first_match(t, f)]);
        }
    }
}

} // verus!
