//! Leaderboards: ranking chapters by their visits, and cutting the
//! ranking into pages of 50.

use vstd::prelude::*;
use vstd::relations::sorted_by;
use vstd::relations::total_ordering;
use vstd::seq_lib::lemma_sorted_unique;

verus! {

pub const PAGE_SIZE: i32 = 50;

/// The windows of the leaderboard of recent visits.
#[allow(non_camel_case_types)]
#[derive(Clone, Copy, Debug, PartialEq, Eq, Structural)]
pub enum TimeFrame {
    HOUR,
    DAY,
    WEEK,
    MONTH,
    YEAR,
}

impl TimeFrame {
    /// The length of the window in milliseconds. A month is 30 days and a
    /// year 365, whatever the calendar says.
    pub open spec fn milliseconds(self) -> i64 {
        match self {
            TimeFrame::HOUR => (1000 * 3600int) as i64,
            TimeFrame::DAY => (1000 * 3600 * 24int) as i64,
            TimeFrame::WEEK => (1000 * 3600 * 24 * 7int) as i64,
            TimeFrame::MONTH => (1000 * 3600 * 24 * 30int) as i64,
            TimeFrame::YEAR => (1000 * 3600 * 24 * 365int) as i64,
        }
    }

    pub fn get_milliseconds(self) -> (ms: i64)
        ensures
            ms == self.milliseconds(),
    {
        match self {
            TimeFrame::HOUR => 3_600_000,
            TimeFrame::DAY => 86_400_000,
            TimeFrame::WEEK => 604_800_000,
            TimeFrame::MONTH => 2_592_000_000,
            TimeFrame::YEAR => 31_536_000_000,
        }
    }
}

/// A chapter's place in a ranking is decided by its number of visits, the
/// higher the earlier, and among equals by its id, the lower the earlier.
/// A key is the pair of the two.
pub open spec fn key_leq(a: (i64, i32), b: (i64, i32)) -> bool {
    a.0 > b.0 || (a.0 == b.0 && a.1 <= b.1)
}

pub open spec fn ranking_order() -> spec_fn((i64, i32), (i64, i32)) -> bool {
    |a: (i64, i32), b: (i64, i32)| key_leq(a, b)
}

/// The keys in the order of the ranking.
pub open spec fn ranked(keys: Seq<(i64, i32)>) -> Seq<(i64, i32)> {
    keys.sort_by(ranking_order())
}

/// Page `page` of a list, pages counting from 1 and holding 50 items: the
/// items from offset `(page - 1) * 50` on, 50 of them or as many as are
/// left.
pub open spec fn page_of<T>(s: Seq<T>, page: int) -> Seq<T> {
    let offset = (page - 1) * 50;
    if page < 1 || offset >= s.len() {
        Seq::empty()
    } else if offset + 50 >= s.len() {
        s.subrange(offset, s.len() as int)
    } else {
        s.subrange(offset, offset + 50)
    }
}

/// The order of the ranking is a total order of the keys.
pub proof fn lemma_ranking_order_total()
    ensures
        total_ordering(ranking_order()),
{
    let r = ranking_order();
    assert forall|x: (i64, i32), y: (i64, i32)| #[trigger] r(x, y) && #[trigger] r(y, x) implies x
        == y by {
        assert(x.0 == y.0 && x.1 == y.1);
    }
}

/// A ranking holds the keys it was made of, each as often as it was
/// given, and no key stands behind one that it beats.
pub proof fn lemma_ranked(keys: Seq<(i64, i32)>)
    ensures
        ranked(keys).to_multiset() == keys.to_multiset(),
        ranked(keys).len() == keys.len(),
        forall|i: int, j: int|
            0 <= i < j < ranked(keys).len() ==> key_leq(
                #[trigger] ranked(keys)[i],
                #[trigger] ranked(keys)[j],
            ),
        forall|i: int| 0 <= i < ranked(keys).len() ==> keys.contains(#[trigger] ranked(keys)[i]),
{
    lemma_ranking_order_total();
    keys.lemma_sort_by_ensures(ranking_order());
    let out = ranked(keys);
    vstd::seq_lib::to_multiset_len(keys);
    vstd::seq_lib::to_multiset_len(out);
    assert forall|i: int, j: int| 0 <= i < j < out.len() implies key_leq(
        #[trigger] out[i],
        #[trigger] out[j],
    ) by {
        assert(ranking_order()(out[i], out[j]));
    }
    assert forall|i: int| 0 <= i < out.len() implies keys.contains(#[trigger] out[i]) by {
        assert(out.contains(out[i]));
    }
}

fn before(a: (i64, i32), b: (i64, i32)) -> (r: bool)
    ensures
        r == key_leq(a, b),
{
    a.0 > b.0 || (a.0 == b.0 && a.1 <= b.1)
}

/// Puts keys in the order of the ranking.
pub fn rank_keys(keys: &Vec<(i64, i32)>) -> (out: Vec<(i64, i32)>)
    ensures
        out@ == ranked(keys@),
{
    let mut out: Vec<(i64, i32)> = Vec::new();
    let mut i: usize = 0;
    assert(keys@.take(0) =~= out@);
    while i < keys.len()
        invariant
            i <= keys.len(),
            out@.len() == i,
            out@.to_multiset() == keys@.take(i as int).to_multiset(),
            forall|a: int, b: int|
                0 <= a < b < out@.len() ==> key_leq(#[trigger] out@[a], #[trigger] out@[b]),
        decreases keys.len() - i,
    {
        let k = keys[i];
        let mut p: usize = 0;
        while p < out.len() && before(out[p], k)
            invariant
                p <= out@.len(),
                forall|a: int| 0 <= a < p ==> key_leq(#[trigger] out@[a], k),
            decreases out@.len() - p,
        {
            p += 1;
        }
        let ghost prev = out@;
        out.insert(p, k);
        proof {
            assert(keys@.take(i + 1) =~= keys@.take(i as int).push(k));
            assert(out@ == prev.insert(p as int, k));
            vstd::seq_lib::to_multiset_insert(prev, p as int, k);
            vstd::seq_lib::to_multiset_build(keys@.take(i as int), k);
            assert(out@.to_multiset() =~= keys@.take(i + 1).to_multiset());
            assert forall|a: int, b: int| 0 <= a < b < out@.len() implies key_leq(
                #[trigger] out@[a],
                #[trigger] out@[b],
            ) by {
                if a < p && b > p {
                    assert(key_leq(prev[a], prev[b - 1]));
                } else if a < p && b == p {
                    assert(key_leq(prev[a], k));
                } else if a == p {
                    assert(!key_leq(prev[p as int], k));
                    if b - 1 > p {
                        assert(key_leq(prev[p as int], prev[b - 1]));
                    }
                } else if a > p {
                    assert(key_leq(prev[a - 1], prev[b - 1]));
                } else {
                    assert(key_leq(prev[a], prev[b]));
                }
            }
        }
        i += 1;
    }
    proof {
        assert(keys@.take(i as int) =~= keys@);
        lemma_ranking_order_total();
        keys@.lemma_sort_by_ensures(ranking_order());
        assert(sorted_by(out@, ranking_order()));
        lemma_sorted_unique(out@, ranked(keys@), ranking_order());
    }
    out
}

/// Cuts page `page` out of a list of keys.
pub fn page_keys(keys: &Vec<(i64, i32)>, page: i32) -> (out: Vec<(i64, i32)>)
    ensures
        out@ == page_of(keys@, page as int),
{
    let mut out: Vec<(i64, i32)> = Vec::new();
    if page < 1 {
        return out;
    }
    let offset: u64 = ((page - 1) as u64) * 50;
    if offset >= keys.len() as u64 {
        return out;
    }
    let start: usize = offset as usize;
    let end: usize = if keys.len() - start <= 50 {
        keys.len()
    } else {
        start + 50
    };
    let mut i: usize = start;
    while i < end
        invariant
            start <= i <= end <= keys.len(),
            out@ =~= keys@.subrange(start as int, i as int),
        decreases end - i,
    {
        out.push(keys[i]);
        i += 1;
    }
    out
}

} // verus!
