//! Finding stars: the bounded flood search, the collection of its results,
//! and the per-lane tables of shortest paths that the results fill.

use vstd::prelude::*;
use crate::paths::{keys_below, keys_distinct, lemma_below_unknown, PathTable, MAX_TABLE};
use crate::star::{StarKey, StarKeyView, StarSub};

verus! {

/// The greatest number of hops that a search may make.
pub const MAX_SEARCH_HOPS: usize = 16;

/// What a search looks for.
#[derive(Debug, PartialEq, Eq)]
pub enum StarSearchPattern {
    /// The star with the key.
    StarKey(StarKey),
    /// Every star of the kind.
    StarKind(StarSub),
}

pub enum PatternView {
    StarKey(StarKeyView),
    StarKind(StarSub),
}

impl View for StarSearchPattern {
    type V = PatternView;

    open spec fn view(&self) -> PatternView {
        match self {
            StarSearchPattern::StarKey(k) => PatternView::StarKey(k@),
            StarSearchPattern::StarKind(k) => PatternView::StarKind(*k),
        }
    }
}

impl PatternView {
    /// Whether the star with the key and the kind is what is looked for.
    pub open spec fn hits(self, key: StarKeyView, kind: StarSub) -> bool {
        match self {
            PatternView::StarKey(k) => k == key,
            PatternView::StarKind(k) => k == kind,
        }
    }
}

impl Clone for StarSearchPattern {
    fn clone(&self) -> (r: StarSearchPattern)
        ensures
            r@ == self@,
    {
        match self {
            StarSearchPattern::StarKey(k) => StarSearchPattern::StarKey(k.clone()),
            StarSearchPattern::StarKind(k) => StarSearchPattern::StarKind(*k),
        }
    }
}

impl StarSearchPattern {
    /// Whether at most one star can be what is looked for.
    pub fn is_single_match(&self) -> (r: bool)
        ensures
            r == (self@ is StarKey),
    {
        match self {
            StarSearchPattern::StarKey(_) => true,
            StarSearchPattern::StarKind(_) => false,
        }
    }

    /// Whether the star with the key and the kind is what is looked for.
    pub fn hits(&self, key: &StarKey, kind: StarSub) -> (r: bool)
        ensures
            r == self@.hits(key@, kind),
    {
        match self {
            StarSearchPattern::StarKey(k) => *k == *key,
            StarSearchPattern::StarKind(k) => *k == kind,
        }
    }
}

/// A star that a search found, with the number of hops to it.
#[derive(Debug, PartialEq, Eq)]
pub struct SearchHit {
    pub star: StarKey,
    pub hops: usize,
}

pub struct HitView {
    pub star: StarKeyView,
    pub hops: usize,
}

impl View for SearchHit {
    type V = HitView;

    open spec fn view(&self) -> HitView {
        HitView { star: self.star@, hops: self.hops }
    }
}

impl Clone for SearchHit {
    fn clone(&self) -> (r: SearchHit)
        ensures
            r@ == self@,
    {
        SearchHit { star: self.star.clone(), hops: self.hops }
    }
}

/// The views of a sequence of hits.
pub open spec fn hits_view(v: Seq<SearchHit>) -> Seq<HitView> {
    Seq::new(v.len(), |i: int| v[i]@)
}

/// The views of a sequence of keys.
pub open spec fn keys_view(v: Seq<StarKey>) -> Seq<StarKeyView> {
    Seq::new(v.len(), |i: int| v[i]@)
}

/// Copies a list of keys.
pub fn clone_keys(v: &Vec<StarKey>) -> (r: Vec<StarKey>)
    ensures
        keys_view(r@) == keys_view(v@),
{
    let mut r: Vec<StarKey> = Vec::new();
    let mut i: usize = 0;
    while i < v.len()
        invariant
            i <= v.len(),
            r@.len() == i,
            forall|j: int| 0 <= j < i ==> r@[j]@ == v@[j]@,
        decreases v.len() - i,
    {
        r.push(v[i].clone());
        i += 1;
    }
    assert(keys_view(r@) =~= keys_view(v@));
    r
}

/// Whether one of the hits is for the star.
pub open spec fn hit_for(hits: Seq<HitView>, star: StarKeyView) -> bool {
    exists|i: int| 0 <= i < hits.len() && (#[trigger] hits[i]).star == star
}

/// No star is hit twice.
pub open spec fn stars_distinct(hits: Seq<HitView>) -> bool {
    forall|i: int, j: int|
        0 <= i < hits.len() && 0 <= j < hits.len() && i != j ==> (#[trigger] hits[i]).star != (
        #[trigger] hits[j]).star
}

/// The least number of hops among the hits for the star, if there is one.
pub open spec fn least_hops(hits: Seq<HitView>, star: StarKeyView) -> Option<usize>
    decreases hits.len(),
{
    if hits.len() == 0 {
        None
    } else {
        let rest = least_hops(hits.drop_last(), star);
        let last = hits.last();
        if last.star == star {
            match rest {
                Some(h) => if last.hops < h {
                    Some(last.hops)
                } else {
                    Some(h)
                },
                None => Some(last.hops),
            }
        } else {
            rest
        }
    }
}

/// The least number of hops among the hits for a star is the number of
/// hops of one of them, and no hit for the star has fewer.
pub proof fn lemma_least_hops(hits: Seq<HitView>, star: StarKeyView)
    ensures
        least_hops(hits, star) is Some <==> hit_for(hits, star),
        least_hops(hits, star) matches Some(h) ==> (exists|i: int|
            0 <= i < hits.len() && (#[trigger] hits[i]).star == star && hits[i].hops == h)
            && forall|i: int|
            0 <= i < hits.len() && (#[trigger] hits[i]).star == star ==> h <= hits[i].hops,
    decreases hits.len(),
{
    if hits.len() > 0 {
        let front = hits.drop_last();
        lemma_least_hops(front, star);
        let last = hits.last();
        if hit_for(front, star) {
            let i = choose|i: int| 0 <= i < front.len() && (#[trigger] front[i]).star == star;
            assert(hits[i].star == star);
        }
        if hit_for(hits, star) {
            let i = choose|i: int| 0 <= i < hits.len() && (#[trigger] hits[i]).star == star;
            if i < front.len() {
                assert(front[i].star == star);
            }
        }
        match least_hops(hits, star) {
            Some(h) => {
                if least_hops(front, star) == Some(h) {
                    let i = choose|i: int|
                        0 <= i < front.len() && (#[trigger] front[i]).star == star
                            && front[i].hops == h;
                    assert(hits[i].star == star && hits[i].hops == h);
                } else {
                    assert(hits[hits.len() - 1].star == star && hits[hits.len() - 1].hops == h);
                }
                assert forall|i: int|
                    0 <= i < hits.len() && (#[trigger] hits[i]).star == star implies h
                    <= hits[i].hops by {
                    if i < front.len() {
                        assert(front[i].star == star);
                    }
                }
            },
            None => {},
        }
    }
}

/// The hits with the least number of hops for each star: no star twice,
/// each star of the given hits once.
pub fn least_per_star(hits: &Vec<SearchHit>) -> (r: Vec<SearchHit>)
    ensures
        stars_distinct(hits_view(r@)),
        forall|star: StarKeyView|
            hit_for(hits_view(r@), star) <==> #[trigger] hit_for(hits_view(hits@), star),
        forall|i: int|
            0 <= i < r@.len() ==> Some((#[trigger] r@[i]).hops) == least_hops(
                hits_view(hits@),
                r@[i]@.star,
            ),
{
    let ghost all = hits_view(hits@);
    let mut r: Vec<SearchHit> = Vec::new();
    let mut i: usize = 0;
    while i < hits.len()
        invariant
            i <= hits.len(),
            all == hits_view(hits@),
            stars_distinct(hits_view(r@)),
            forall|star: StarKeyView|
                hit_for(hits_view(r@), star) <==> #[trigger] hit_for(all.subrange(0, i as int), star),
            forall|k: int|
                0 <= k < r@.len() ==> Some((#[trigger] r@[k]).hops) == least_hops(
                    all.subrange(0, i as int),
                    r@[k]@.star,
                ),
        decreases hits.len() - i,
    {
        let hit = &hits[i];
        let ghost seen = all.subrange(0, i as int);
        let ghost next = all.subrange(0, i as int + 1);
        let ghost before = hits_view(r@);
        proof {
            assert(next.drop_last() =~= seen);
            assert(next.last() == hit@);
        }
        let mut found: Option<usize> = None;
        let mut j: usize = 0;
        while j < r.len()
            invariant
                j <= r.len(),
                before == hits_view(r@),
                found is None ==> forall|k: int| 0 <= k < j ==> (#[trigger] before[k]).star != hit@.star,
                found matches Some(f) ==> f < r.len() && before[f as int].star == hit@.star,
            decreases r.len() - j,
        {
            assert(before[j as int] == r@[j as int]@);
            if r[j].star == hit.star {
                found = Some(j);
            }
            j += 1;
        }
        let ghost slot: int;
        match found {
            Some(f) => {
                assert(before[f as int] == r@[f as int]@);
                if hit.hops < r[f].hops {
                    r[f] = hit.clone();
                }
                proof {
                    slot = f as int;
                }
            },
            None => {
                r.push(hit.clone());
                proof {
                    slot = before.len() as int;
                }
            },
        }
        proof {
            let after = hits_view(r@);
            assert(after[slot].star == hit@.star);
            assert forall|k: int| 0 <= k < after.len() && k != slot implies after[k] == before[k] by {
                assert(after[k] == r@[k]@);
            }
            assert(found is Some ==> before[slot].star == hit@.star && after.len() == before.len());
            assert forall|a: int, b: int|
                0 <= a < after.len() && 0 <= b < after.len() && a != b implies (
            #[trigger] after[a]).star != (#[trigger] after[b]).star by {
                if a != slot && b != slot {
                    assert(before[a].star != before[b].star);
                } else if found is Some {
                    if a == slot {
                        assert(before[a].star != before[b].star);
                    } else {
                        assert(before[a].star != before[b].star);
                    }
                }
            }
            assert forall|star: StarKeyView|
                hit_for(after, star) <==> #[trigger] hit_for(next, star) by {
                assert(hit_for(before, star) <==> hit_for(seen, star));
                if hit_for(after, star) {
                    let k = choose|k: int| 0 <= k < after.len() && (#[trigger] after[k]).star == star;
                    if k != slot {
                        assert(before[k].star == star);
                        let t = choose|t: int| 0 <= t < seen.len() && (#[trigger] seen[t]).star == star;
                        assert(next[t].star == star);
                    } else {
                        assert(next[i as int].star == star);
                    }
                }
                if hit_for(next, star) {
                    let t = choose|t: int| 0 <= t < next.len() && (#[trigger] next[t]).star == star;
                    if t < i {
                        assert(seen[t].star == star);
                        let k = choose|k: int|
                            0 <= k < before.len() && (#[trigger] before[k]).star == star;
                        if k == slot {
                            assert(after[slot].star == star);
                        } else {
                            assert(after[k].star == star);
                        }
                    } else {
                        assert(after[slot].star == star);
                    }
                }
            }
            assert forall|k: int| 0 <= k < r@.len() implies Some((#[trigger] r@[k]).hops)
                == least_hops(next, r@[k]@.star) by {
                assert(after[k] == r@[k]@);
                if k != slot {
                    assert(before[k] == r@[k]@) by {
                        assert(after[k] == before[k]);
                    }
                    assert(before[k].star != hit@.star) by {
                        if found is Some {
                            assert(before[k].star != before[slot].star);
                        }
                    }
                    assert(Some(before[k].hops) == least_hops(seen, before[k].star));
                } else if found is Some {
                    assert(Some(before[slot].hops) == least_hops(seen, hit@.star));
                } else {
                    lemma_least_hops(seen, hit@.star);
                    assert(!hit_for(before, hit@.star));
                }
            }
        }
        i += 1;
    }
    assert(all.subrange(0, hits.len() as int) =~= all);
    r
}

/// The hit with the least number of hops, if there is a hit; among
/// several with that number, the first.
pub fn nearest(hits: &Vec<SearchHit>) -> (r: Option<SearchHit>)
    ensures
        r is None <==> hits@.len() == 0,
        r matches Some(hit) ==> (exists|i: int|
            0 <= i < hits@.len() && (#[trigger] hits@[i])@ == hit@ && forall|k: int|
                0 <= k < i ==> hit.hops < (#[trigger] hits@[k]).hops) && forall|i: int|
            0 <= i < hits@.len() ==> hit.hops <= (#[trigger] hits@[i]).hops,
{
    if hits.len() == 0 {
        return None;
    }
    let mut best: usize = 0;
    let mut i: usize = 1;
    while i < hits.len()
        invariant
            1 <= i <= hits.len(),
            best < i,
            forall|k: int| 0 <= k < i ==> hits@[best as int].hops <= (#[trigger] hits@[k]).hops,
            forall|k: int| 0 <= k < best ==> hits@[best as int].hops < (#[trigger] hits@[k]).hops,
        decreases hits.len() - i,
    {
        if hits[i].hops < hits[best].hops {
            best = i;
        }
        i += 1;
    }
    Some(hits[best].clone())
}

/// The result of a search: the stars found, each with the least number of
/// hops to it, and the hits that each lane reported.
#[derive(Debug, PartialEq, Eq)]
pub struct SearchResult {
    pub pattern: StarSearchPattern,
    pub hits: Vec<SearchHit>,
    pub lane_hits: Vec<LaneHits>,
}

/// The hits that one lane reported, each star once.
#[derive(Debug, PartialEq, Eq)]
pub struct LaneHits {
    pub lane: StarKey,
    pub hits: Vec<SearchHit>,
}

impl SearchResult {
    /// The number of hops to a star, where the search found the star.
    pub fn hops_to(&self, star: &StarKey) -> (r: Option<usize>)
        ensures
            r is Some <==> hit_for(hits_view(self.hits@), star@),
            r matches Some(h) ==> exists|i: int|
                0 <= i < self.hits@.len() && (#[trigger] hits_view(self.hits@)[i]).star == star@
                    && hits_view(self.hits@)[i].hops == h && forall|k: int|
                    0 <= k < i ==> (#[trigger] hits_view(self.hits@)[k]).star != star@,
    {
        let mut i: usize = 0;
        while i < self.hits.len()
            invariant
                i <= self.hits.len(),
                forall|k: int| 0 <= k < i ==> (#[trigger] hits_view(self.hits@)[k]).star != star@,
            decreases self.hits.len() - i,
        {
            assert(hits_view(self.hits@)[i as int] == self.hits@[i as int]@);
            if self.hits[i].star == *star {
                return Some(self.hits[i].hops);
            }
            i += 1;
        }
        None
    }

    /// The nearest of the stars found, with the hops that the search
    /// found for it; among several that are equally near, the first.
    pub fn nearest(&self) -> (r: Option<SearchHit>)
        ensures
            r is None <==> self.hits@.len() == 0,
            r matches Some(hit) ==> (exists|i: int|
                0 <= i < self.hits@.len() && (#[trigger] self.hits@[i])@ == hit@ && forall|k: int|
                    0 <= k < i ==> hit.hops < (#[trigger] self.hits@[k]).hops) && forall|i: int|
                0 <= i < self.hits@.len() ==> hit.hops <= (#[trigger] self.hits@[i]).hops,
    {
        nearest(&self.hits)
    }
}

/// A search on its way through the fabric.
#[derive(Debug, PartialEq, Eq)]
pub struct StarSearch {
    /// The star that began the search.
    pub from: StarKey,
    pub pattern: StarSearchPattern,
    /// The stars that the search has passed, in order.
    pub hops: Vec<StarKey>,
    /// The correlators of the stars that wait for results, in order.
    pub transactions: Vec<u64>,
    pub max_hops: usize,
}

/// The results of a search on their way back.
#[derive(Debug, PartialEq, Eq)]
pub struct StarSearchResult {
    /// The stars that the search had passed when the results turned back.
    pub hops: Vec<StarKey>,
    pub hits: Vec<SearchHit>,
    pub transactions: Vec<u64>,
}

/// What a star does with a search that arrives on a lane.
#[derive(Debug, PartialEq, Eq)]
pub enum SearchStep {
    /// The results go back on the lane on which the search arrived.
    Reply(StarSearchResult),
    /// The search is refused: it asks for more hops than any search may
    /// make.
    Refuse,
    /// The search goes out on every lane but the one on which it arrived,
    /// and the star waits for as many results.
    Rebroadcast { search: StarSearch, waiting_for: usize, local_hit: bool },
}

/// What a star knows of itself when a search arrives.
#[derive(Debug)]
pub struct SearchSelf {
    pub key: StarKey,
    pub kind: StarSub,
    /// The number of lanes of the star.
    pub lanes: usize,
}

/// Copies a list of correlators.
pub fn clone_u64s(v: &Vec<u64>) -> (r: Vec<u64>)
    ensures
        r@ == v@,
{
    let mut r: Vec<u64> = Vec::new();
    let mut i: usize = 0;
    while i < v.len()
        invariant
            i <= v.len(),
            r@ == v@.subrange(0, i as int),
        decreases v.len() - i,
    {
        r.push(v[i]);
        assert(r@ =~= v@.subrange(0, i as int + 1));
        i += 1;
    }
    assert(v@.subrange(0, v.len() as int) =~= v@);
    r
}

/// Whether a search ends at a star: it has made its hops, or the star is
/// a leaf, or the star does not forward.
pub open spec fn search_ends(hops: nat, max_hops: nat, lanes: nat, kind: StarSub) -> bool {
    hops + 1 > max_hops || lanes <= 1 || !kind.spec_is_forwarder()
}

impl SearchSelf {
    /// What the star does with a search that arrived on a lane.
    ///
    /// A star that is the one star looked for answers at once with itself
    /// as the hit. A search that asks for more than sixteen hops is refused.
    /// A search that has made its hops, or that reaches a leaf or a star
    /// that does not forward, turns back: with the star as its hit where the
    /// star is of the kind looked for, else with no hit. Any other search
    /// goes on, with this star added to its hops and the correlator
    /// `transaction` added to its correlators; the star waits for the
    /// results of all lanes but the one on which the search arrived. The
    /// number of hops to the star is the number of stars that the search
    /// has passed.
    pub fn on_star_search_hop(&self, search: StarSearch, transaction: u64) -> (r: SearchStep)
        ensures
            ({
                let hit = search.pattern@.hits(self.key@, self.kind);
                let own = HitView { star: self.key@, hops: search.hops@.len() as usize };
                if hit && search.pattern@ is StarKey {
                    r matches SearchStep::Reply(result) && hits_view(result.hits@) == seq![own]
                        && keys_view(result.hops@) == keys_view(search.hops@)
                        && result.transactions@ == search.transactions@
                } else if search.max_hops > MAX_SEARCH_HOPS {
                    r == SearchStep::Refuse
                } else if search_ends(
                    search.hops@.len(),
                    search.max_hops as nat,
                    self.lanes as nat,
                    self.kind,
                ) {
                    r matches SearchStep::Reply(result) && hits_view(result.hits@) == (if hit {
                        seq![own]
                    } else {
                        Seq::empty()
                    }) && keys_view(result.hops@) == keys_view(search.hops@)
                        && result.transactions@ == search.transactions@
                } else {
                    r matches SearchStep::Rebroadcast { search: next, waiting_for, local_hit }
                        && local_hit == hit && waiting_for == self.lanes - 1 && next.pattern@
                        == search.pattern@ && next.from@ == search.from@ && next.max_hops
                        == search.max_hops && keys_view(next.hops@) == keys_view(
                        search.hops@,
                    ).push(self.key@) && next.transactions@ == search.transactions@.push(
                        transaction,
                    )
                }
            }),
    {
        let hit = search.pattern.hits(&self.key, self.kind);
        let passed = search.hops.len();
        if hit && search.pattern.is_single_match() {
            let mut hits: Vec<SearchHit> = Vec::new();
            hits.push(SearchHit { star: self.key.clone(), hops: passed });
            assert(hits_view(hits@) =~= seq![HitView { star: self.key@, hops: passed }]);
            return SearchStep::Reply(
                StarSearchResult { hops: search.hops, hits, transactions: search.transactions },
            );
        }
        if search.max_hops > MAX_SEARCH_HOPS {
            return SearchStep::Refuse;
        }
        if passed >= search.max_hops || self.lanes <= 1 || !self.kind.is_forwarder() {
            let mut hits: Vec<SearchHit> = Vec::new();
            if hit {
                hits.push(SearchHit { star: self.key.clone(), hops: passed });
                assert(hits_view(hits@) =~= seq![HitView { star: self.key@, hops: passed }]);
            } else {
                assert(hits_view(hits@) =~= Seq::<HitView>::empty());
            }
            return SearchStep::Reply(
                StarSearchResult { hops: search.hops, hits, transactions: search.transactions },
            );
        }
        let mut next = search;
        let ghost before_hops = keys_view(next.hops@);
        next.hops.push(self.key.clone());
        assert(keys_view(next.hops@) =~= before_hops.push(self.key@));
        next.transactions.push(transaction);
        SearchStep::Rebroadcast { search: next, waiting_for: self.lanes - 1, local_hit: hit }
    }
}

/// The hits of a result as the star one hop further back sees them: each
/// one hop further away.
pub fn one_hop_further(hits: &Vec<SearchHit>) -> (r: Vec<SearchHit>)
    ensures
        r@.len() == hits@.len(),
        forall|i: int|
            0 <= i < r@.len() ==> (#[trigger] r@[i])@.star == hits@[i]@.star && r@[i].hops == (
            if hits@[i].hops == usize::MAX {
                usize::MAX
            } else {
                (hits@[i].hops + 1) as usize
            }),
{
    let mut r: Vec<SearchHit> = Vec::new();
    let mut i: usize = 0;
    while i < hits.len()
        invariant
            i <= hits.len(),
            r@.len() == i,
            forall|k: int|
                0 <= k < i ==> (#[trigger] r@[k])@.star == hits@[k]@.star && r@[k].hops == (
                if hits@[k].hops == usize::MAX {
                    usize::MAX
                } else {
                    (hits@[k].hops + 1) as usize
                }),
        decreases hits.len() - i,
    {
        let hops = if hits[i].hops == usize::MAX {
            usize::MAX
        } else {
            hits[i].hops + 1
        };
        r.push(SearchHit { star: hits[i].star.clone(), hops });
        i += 1;
    }
    r
}

/// Adds copies of the hits in `more` to `all`.
pub fn append_hits(all: &mut Vec<SearchHit>, more: &Vec<SearchHit>)
    ensures
        hits_view(final(all)@) == hits_view(old(all)@) + hits_view(more@),
{
    let ghost start = hits_view(all@);
    let mut j: usize = 0;
    while j < more.len()
        invariant
            j <= more.len(),
            all@.len() == start.len() + j,
            forall|k: int| 0 <= k < start.len() ==> (#[trigger] all@[k])@ == start[k],
            forall|k: int|
                start.len() <= k < start.len() + j ==> (#[trigger] all@[k])@ == more@[k
                    - start.len()]@,
        decreases more.len() - j,
    {
        all.push(more[j].clone());
        j += 1;
    }
    assert(hits_view(all@) =~= start + hits_view(more@));
}

/// Whether the collection of the results of a search is complete.
#[derive(Clone, Copy, Debug, PartialEq, Eq, Structural, Hash)]
pub enum TransactionResult {
    Continue,
    Done,
}

/// The collection of the results of a search at a star that passed the
/// search on.
#[derive(Debug)]
pub struct StarSearchTransaction {
    pub pattern: StarSearchPattern,
    /// The number of lanes that have reported.
    pub reported_lane_count: usize,
    /// The number of lanes that are to report.
    pub lanes: usize,
    /// What the lanes reported, in the order of their reports.
    pub hits: Vec<LaneHits>,
    /// The star itself, where it is what is looked for.
    pub local_hit: Option<StarKey>,
}

/// The hits of all lanes in a row, in the order of the reports.
pub open spec fn all_lane_hits(lanes: Seq<LaneHits>, n: int) -> Seq<HitView>
    decreases n,
{
    if n <= 0 {
        Seq::empty()
    } else {
        all_lane_hits(lanes, n - 1) + hits_view(lanes[n - 1].hits@)
    }
}

impl StarSearchTransaction {
    /// A collection that waits for the reports of `lanes` lanes.
    pub fn new(pattern: StarSearchPattern, lanes: usize, local_hit: Option<StarKey>) -> (r:
        StarSearchTransaction)
        ensures
            r.pattern@ == pattern@,
            r.reported_lane_count == 0,
            r.lanes == lanes,
            r.hits@.len() == 0,
            r.local_hit == local_hit,
    {
        StarSearchTransaction {
            pattern,
            reported_lane_count: 0,
            lanes,
            hits: Vec::new(),
            local_hit,
        }
    }

    /// Takes in the report of a lane: its hits, each star once with the
    /// least number of hops that the lane reported for it. The collection
    /// is done when as many lanes have reported as were to report.
    pub fn on_result(&mut self, lane: &StarKey, hits: &Vec<SearchHit>) -> (r: TransactionResult)
        ensures
            final(self).lanes == old(self).lanes,
            final(self).pattern == old(self).pattern,
            final(self).local_hit == old(self).local_hit,
            final(self).reported_lane_count == (if old(self).reported_lane_count == usize::MAX {
                usize::MAX
            } else {
                (old(self).reported_lane_count + 1) as usize
            }),
            final(self).hits@.len() == old(self).hits@.len() + 1,
            forall|i: int|
                0 <= i < old(self).hits@.len() ==> final(self).hits@[i] == old(self).hits@[i],
            final(self).hits@.last().lane@ == lane@,
            stars_distinct(hits_view(final(self).hits@.last().hits@)),
            forall|star: StarKeyView|
                hit_for(hits_view(final(self).hits@.last().hits@), star) <==> #[trigger] hit_for(
                    hits_view(hits@),
                    star,
                ),
            forall|i: int|
                0 <= i < final(self).hits@.last().hits@.len() ==> Some(
                    (#[trigger] final(self).hits@.last().hits@[i]).hops,
                ) == least_hops(hits_view(hits@), final(self).hits@.last().hits@[i]@.star),
            r == (if final(self).reported_lane_count >= final(self).lanes {
                TransactionResult::Done
            } else {
                TransactionResult::Continue
            }),
    {
        let lane_hits = least_per_star(hits);
        self.hits.push(LaneHits { lane: lane.clone(), hits: lane_hits });
        if self.reported_lane_count < usize::MAX {
            self.reported_lane_count = self.reported_lane_count + 1;
        }
        if self.reported_lane_count >= self.lanes {
            TransactionResult::Done
        } else {
            TransactionResult::Continue
        }
    }

    /// The stars found, each once with the least number of hops that any
    /// lane reported for it; the star itself, where it is what is looked
    /// for, with no hops.
    pub fn collapse(&self) -> (r: Vec<SearchHit>)
        ensures
            stars_distinct(hits_view(r@)),
            forall|i: int|
                0 <= i < r@.len() ==> Some((#[trigger] r@[i]).hops) == least_hops(
                    self.reports(),
                    r@[i]@.star,
                ),
            forall|star: StarKeyView|
                hit_for(hits_view(r@), star) <==> #[trigger] hit_for(self.reports(), star),
    {
        let mut all: Vec<SearchHit> = Vec::new();
        assert(hits_view(all@) =~= all_lane_hits(self.hits@, 0));
        let mut i: usize = 0;
        while i < self.hits.len()
            invariant
                i <= self.hits.len(),
                hits_view(all@) == all_lane_hits(self.hits@, i as int),
            decreases self.hits.len() - i,
        {
            append_hits(&mut all, &self.hits[i].hits);
            i += 1;
        }
        match &self.local_hit {
            Some(key) => {
                let ghost before = hits_view(all@);
                all.push(SearchHit { star: key.clone(), hops: 0 });
                assert(hits_view(all@) =~= before.push(HitView { star: key@, hops: 0 }));
            },
            None => {},
        }
        assert(hits_view(all@) == self.reports());
        least_per_star(&all)
    }

    /// Every hit that counts: those of the lanes, in the order of their
    /// reports, and the star itself with no hops where it is what is looked
    /// for.
    pub open spec fn reports(&self) -> Seq<HitView> {
        let lanes = all_lane_hits(self.hits@, self.hits@.len() as int);
        match self.local_hit {
            Some(key) => lanes.push(HitView { star: key@, hops: 0 }),
            None => lanes,
        }
    }

    /// The result of the search, once the collection is done.
    pub fn commit(self) -> (r: SearchResult)
        ensures
            r.pattern == self.pattern,
            r.lane_hits == self.hits,
            stars_distinct(hits_view(r.hits@)),
            forall|i: int|
                0 <= i < r.hits@.len() ==> Some((#[trigger] r.hits@[i]).hops) == least_hops(
                    self.reports(),
                    r.hits@[i]@.star,
                ),
            forall|star: StarKeyView|
                hit_for(hits_view(r.hits@), star) <==> #[trigger] hit_for(self.reports(), star),
    {
        let hits = self.collapse();
        SearchResult { pattern: self.pattern, hits, lane_hits: self.hits }
    }
}

/// A star that was found from another star: the two stars as a pair, the
/// greater key first, and the hit.
#[derive(Debug, PartialEq, Eq)]
pub struct StarDiscovery {
    pub pair: (StarKey, StarKey),
    pub hit: SearchHit,
}

pub struct DiscoveryView {
    pub pair: (StarKeyView, StarKeyView),
    pub hit: HitView,
}

impl View for StarDiscovery {
    type V = DiscoveryView;

    open spec fn view(&self) -> DiscoveryView {
        DiscoveryView { pair: (self.pair.0@, self.pair.1@), hit: self.hit@ }
    }
}

/// The views of a sequence of discoveries.
pub open spec fn discoveries_view(v: Seq<StarDiscovery>) -> Seq<DiscoveryView> {
    Seq::new(v.len(), |i: int| v[i]@)
}

/// The discovery that a hit is for the star `own`.
pub open spec fn discovery_of(own: StarKeyView, hit: HitView) -> DiscoveryView {
    DiscoveryView {
        pair: if hit.star.less(own) {
            (own, hit.star)
        } else {
            (hit.star, own)
        },
        hit,
    }
}

/// Where a discovery with `hops` hops goes into a list: behind the last
/// discovery that has no more hops.
pub open spec fn place(list: Seq<DiscoveryView>, hops: usize) -> int
    decreases list.len(),
{
    if list.len() == 0 || list.last().hit.hops <= hops {
        list.len() as int
    } else {
        place(list.drop_last(), hops)
    }
}

/// The discoveries of a star from the hits of a search, nearest first;
/// of two that are equally near, the one that was hit first. A hit for the
/// star itself is no discovery.
pub open spec fn collated(own: StarKeyView, hits: Seq<HitView>) -> Seq<DiscoveryView>
    decreases hits.len(),
{
    if hits.len() == 0 {
        Seq::empty()
    } else {
        let rest = collated(own, hits.drop_last());
        let hit = hits.last();
        if hit.star == own {
            rest
        } else {
            rest.insert(place(rest, hit.hops), discovery_of(own, hit))
        }
    }
}

/// Whether the discoveries are in the order of their hops.
pub open spec fn nearest_first(list: Seq<DiscoveryView>) -> bool {
    forall|i: int, j: int|
        0 <= i < j < list.len() ==> (#[trigger] list[i]).hit.hops <= (#[trigger] list[j]).hit.hops
}

/// Whether the discovery is in the list.
pub open spec fn discovered(list: Seq<DiscoveryView>, d: DiscoveryView) -> bool {
    exists|j: int| 0 <= j < list.len() && #[trigger] list[j] == d
}

/// The place in a list that is in order divides it: no discovery before
/// the place has more hops, every discovery from the place on has more.
pub proof fn lemma_place(list: Seq<DiscoveryView>, hops: usize)
    requires
        nearest_first(list),
    ensures
        0 <= place(list, hops) <= list.len(),
        forall|i: int| 0 <= i < place(list, hops) ==> (#[trigger] list[i]).hit.hops <= hops,
        forall|i: int|
            place(list, hops) <= i < list.len() ==> (#[trigger] list[i]).hit.hops > hops,
    decreases list.len(),
{
    if list.len() == 0 || list.last().hit.hops <= hops {
        assert forall|i: int| 0 <= i < list.len() implies (#[trigger] list[i]).hit.hops
            <= hops by {
            if i < list.len() - 1 {
                assert(list[i].hit.hops <= list[list.len() - 1].hit.hops);
            }
        }
    } else {
        let front = list.drop_last();
        assert forall|i: int, j: int| 0 <= i < j < front.len() implies (
        #[trigger] front[i]).hit.hops <= (#[trigger] front[j]).hit.hops by {
            assert(list[i].hit.hops <= list[j].hit.hops);
        }
        lemma_place(front, hops);
        assert forall|i: int| 0 <= i < place(list, hops) implies (#[trigger] list[i]).hit.hops
            <= hops by {
            assert(front[i] == list[i]);
        }
        assert forall|i: int| place(list, hops) <= i < list.len() implies (
        #[trigger] list[i]).hit.hops > hops by {
            if i < front.len() {
                assert(front[i] == list[i]);
            }
        }
    }
}

/// The discoveries of a star are in the order of their hops; every hit
/// for another star is among them, and they hold nothing else.
pub proof fn law_collated(own: StarKeyView, hits: Seq<HitView>)
    ensures
        nearest_first(collated(own, hits)),
        forall|k: int|
            0 <= k < hits.len() && (#[trigger] hits[k]).star != own ==> discovered(
                collated(own, hits),
                discovery_of(own, hits[k]),
            ),
        forall|j: int|
            0 <= j < collated(own, hits).len() ==> exists|k: int|
                0 <= k < hits.len() && (#[trigger] hits[k]).star != own && #[trigger] collated(
                    own,
                    hits,
                )[j] == discovery_of(own, hits[k]),
    decreases hits.len(),
{
    if hits.len() > 0 {
        let front = hits.drop_last();
        let rest = collated(own, front);
        let hit = hits.last();
        let all = collated(own, hits);
        law_collated(own, front);
        if hit.star == own {
            assert forall|k: int| 0 <= k < hits.len() && (#[trigger] hits[k]).star
                != own implies discovered(all, discovery_of(own, hits[k])) by {
                assert(front[k] == hits[k]);
            }
            assert forall|j: int| 0 <= j < all.len() implies exists|k: int|
                0 <= k < hits.len() && (#[trigger] hits[k]).star != own && #[trigger] all[j]
                    == discovery_of(own, hits[k]) by {
                let k = choose|k: int|
                    0 <= k < front.len() && (#[trigger] front[k]).star != own && rest[j]
                        == discovery_of(own, front[k]);
                assert(hits[k] == front[k]);
            }
        } else {
            let p = place(rest, hit.hops);
            let d = discovery_of(own, hit);
            lemma_place(rest, hit.hops);
            assert(all == rest.insert(p, d));
            assert forall|i: int, j: int| 0 <= i < j < all.len() implies (
            #[trigger] all[i]).hit.hops <= (#[trigger] all[j]).hit.hops by {
                if i < p && j > p {
                    assert(all[i] == rest[i]);
                    assert(all[j] == rest[j - 1]);
                } else if i < p && j < p {
                    assert(all[i] == rest[i]);
                    assert(all[j] == rest[j]);
                } else if i > p {
                    assert(all[i] == rest[i - 1]);
                    assert(all[j] == rest[j - 1]);
                    assert(rest[i - 1].hit.hops <= rest[j - 1].hit.hops);
                } else if i == p {
                    assert(all[j] == rest[j - 1]);
                } else {
                    assert(all[i] == rest[i]);
                }
            }
            assert forall|k: int| 0 <= k < hits.len() && (#[trigger] hits[k]).star
                != own implies discovered(all, discovery_of(own, hits[k])) by {
                if k < front.len() {
                    assert(front[k] == hits[k]);
                    let j = choose|j: int|
                        0 <= j < rest.len() && #[trigger] rest[j] == discovery_of(own, front[k]);
                    if j < p {
                        assert(all[j] == rest[j]);
                    } else {
                        assert(all[j + 1] == rest[j]);
                    }
                } else {
                    assert(all[p] == d);
                }
            }
            assert forall|j: int| 0 <= j < all.len() implies exists|k: int|
                0 <= k < hits.len() && (#[trigger] hits[k]).star != own && #[trigger] all[j]
                    == discovery_of(own, hits[k]) by {
                if j == p {
                    assert(hits[hits.len() - 1] == hit);
                } else {
                    let r = if j < p {
                        j
                    } else {
                        j - 1
                    };
                    assert(all[j] == rest[r]);
                    let k = choose|k: int|
                        0 <= k < front.len() && (#[trigger] front[k]).star != own && rest[r]
                            == discovery_of(own, front[k]);
                    assert(hits[k] == front[k]);
                }
            }
        }
    }
}

/// The discoveries of the star `own` from the hits of a search, nearest
/// first.
pub fn collate(own: &StarKey, hits: &Vec<SearchHit>) -> (r: Vec<StarDiscovery>)
    ensures
        discoveries_view(r@) == collated(own@, hits_view(hits@)),
{
    let mut out: Vec<StarDiscovery> = Vec::new();
    let mut i: usize = 0;
    assert(hits_view(hits@).take(0) =~= Seq::<HitView>::empty());
    assert(discoveries_view(out@) =~= Seq::<DiscoveryView>::empty());
    while i < hits.len()
        invariant
            i <= hits.len(),
            discoveries_view(out@) == collated(own@, hits_view(hits@).take(i as int)),
        decreases hits.len() - i,
    {
        let ghost before = discoveries_view(out@);
        let ghost upto = hits_view(hits@).take(i + 1);
        proof {
            assert(upto.drop_last() =~= hits_view(hits@).take(i as int));
            assert(upto.last() == hits@[i as int]@);
        }
        if !(hits[i].star == *own) {
            let hops = hits[i].hops;
            let mut p: usize = out.len();
            proof {
                assert(before.take(p as int) =~= before);
            }
            while p > 0 && out[p - 1].hit.hops > hops
                invariant
                    p <= out.len(),
                    before == discoveries_view(out@),
                    place(before, hops) == place(before.take(p as int), hops),
                decreases p,
            {
                proof {
                    assert(before.take(p as int).last() == out@[p - 1]@);
                    assert(before.take(p as int).drop_last() =~= before.take(p - 1));
                }
                p -= 1;
            }
            proof {
                if p > 0 {
                    assert(before.take(p as int).last() == out@[p - 1]@);
                }
                assert(place(before, hops) == p);
            }
            let pair = if hits[i].star.precedes(own) {
                (own.clone(), hits[i].star.clone())
            } else {
                (hits[i].star.clone(), own.clone())
            };
            let found = StarDiscovery { pair, hit: hits[i].clone() };
            assert(found@ == discovery_of(own@, hits@[i as int]@));
            out.insert(p, found);
            assert(discoveries_view(out@) =~= before.insert(p as int, found@));
        }
        i += 1;
    }
    assert(hits_view(hits@).take(i as int) =~= hits_view(hits@));
    out
}

/// The stars that the lanes of a star have seen, each with a number of
/// its own under which the path tables know it.
#[derive(Debug)]
pub struct StarDirectory {
    keys: Vec<StarKey>,
}

impl View for StarDirectory {
    type V = Seq<StarKeyView>;

    closed spec fn view(&self) -> Seq<StarKeyView> {
        keys_view(self.keys@)
    }
}

/// Whether the star is in the directory.
pub open spec fn listed(dir: Seq<StarKeyView>, star: StarKeyView) -> bool {
    exists|i: int| 0 <= i < dir.len() && #[trigger] dir[i] == star
}

/// The number of the star in the directory.
pub open spec fn number_of(dir: Seq<StarKeyView>, star: StarKeyView) -> int {
    choose|i: int| 0 <= i < dir.len() && #[trigger] dir[i] == star
}

/// No star is in the directory twice.
pub open spec fn directory_wf(dir: Seq<StarKeyView>) -> bool {
    forall|i: int, j: int| 0 <= i < dir.len() && 0 <= j < dir.len() && i != j ==> #[trigger] dir[i]
        != #[trigger] dir[j]
}

impl StarDirectory {
    pub open spec fn wf(&self) -> bool {
        directory_wf(self@)
    }

    /// An empty directory.
    pub fn new() -> (r: StarDirectory)
        ensures
            r.wf(),
            r@.len() == 0,
    {
        StarDirectory { keys: Vec::new() }
    }

    /// The number of the star, where the directory has it.
    pub fn lookup(&self, star: &StarKey) -> (r: Option<u64>)
        requires
            self.wf(),
        ensures
            r is Some <==> listed(self@, star@),
            r matches Some(n) ==> n == number_of(self@, star@) && n < self@.len() && self@[n as int]
                == star@,
    {
        let mut i: usize = 0;
        while i < self.keys.len()
            invariant
                i <= self.keys.len(),
                self.wf(),
                forall|j: int| 0 <= j < i ==> #[trigger] self@[j] != star@,
            decreases self.keys.len() - i,
        {
            assert(self@[i as int] == self.keys@[i as int]@);
            if self.keys[i] == *star {
                proof {
                    let n = number_of(self@, star@);
                    assert(self@[n] == star@);
                }
                return Some(i as u64);
            }
            i += 1;
        }
        None
    }

    /// The number of the star; a star that is new to the directory gets
    /// the next number. The numbers of the other stars stay.
    pub fn intern(&mut self, star: &StarKey) -> (r: u64)
        requires
            old(self).wf(),
        ensures
            final(self).wf(),
            old(self)@.len() <= final(self)@.len(),
            forall|i: int| 0 <= i < old(self)@.len() ==> final(self)@[i] == old(self)@[i],
            r < final(self)@.len(),
            final(self)@[r as int] == star@,
            r == number_of(final(self)@, star@),
            listed(final(self)@, star@),
    {
        match self.lookup(star) {
            Some(n) => n,
            None => {
                let ghost before = self@;
                let n = self.keys.len();
                self.keys.push(star.clone());
                proof {
                    assert(self@ =~= before.push(star@));
                    assert(self@[n as int] == star@);
                    let k = number_of(self@, star@);
                    assert(self@[k] == star@);
                    if k < n {
                        assert(before[k] == star@);
                    }
                }
                n as u64
            },
        }
    }
}

/// A lane as the router sees it: the star at its other end, and the table
/// of the shortest paths found through it.
pub struct LaneMeta {
    pub remote: StarKey,
    pub paths: PathTable,
}

/// The lanes of a star.
pub struct Lanes {
    directory: StarDirectory,
    lanes: Vec<LaneMeta>,
}

impl Lanes {
    /// The number of lanes.
    pub closed spec fn count(&self) -> nat {
        self.lanes@.len()
    }

    /// The star at the other end of a lane.
    pub closed spec fn remote(&self, lane: int) -> StarKeyView {
        self.lanes@[lane].remote@
    }

    /// The number of stars that the table of a lane was made for.
    pub closed spec fn room(&self, lane: int) -> nat {
        self.lanes@[lane].paths.cap()
    }

    /// The hops to a star through a lane, as the table of the lane has
    /// them.
    pub closed spec fn hops_through(&self, lane: int, star: StarKeyView) -> Option<usize> {
        if listed(self.directory@, star) {
            self.lanes@[lane].paths.hops_to(number_of(self.directory@, star) as u64)
        } else {
            None
        }
    }

    pub closed spec fn wf(&self) -> bool {
        &&& self.directory.wf()
        &&& forall|i: int|
            0 <= i < self.lanes@.len() ==> (#[trigger] self.lanes@[i]).paths.wf() && keys_below(
                self.lanes@[i].paths@,
                self.directory@.len(),
            )
    }

    /// Whether lane `i` is the first lane to the star `remote`.
    pub open spec fn first_lane(&self, remote: StarKeyView, i: int) -> bool {
        0 <= i < self.count() && self.remote(i) == remote && forall|j: int|
            0 <= j < i ==> self.remote(j) != remote
    }

    /// Whether the table of a lane holds every one of the hits.
    pub open spec fn holds_hits(&self, lane: int, hits: Seq<HitView>) -> bool {
        forall|t: int|
            0 <= t < hits.len() ==> self.hops_through(lane, (#[trigger] hits[t]).star) == Some(
                hits[t].hops,
            )
    }

    /// No lanes.
    pub fn new() -> (r: Lanes)
        ensures
            r.wf(),
            r.count() == 0,
    {
        Lanes { directory: StarDirectory::new(), lanes: Vec::new() }
    }

    /// Adds a lane to the star `remote`, with a table for at most `room`
    /// stars.
    pub fn add_lane(&mut self, remote: StarKey, room: usize)
        requires
            old(self).wf(),
            room <= MAX_TABLE,
        ensures
            final(self).wf(),
            final(self).count() == old(self).count() + 1,
            final(self).remote(old(self).count() as int) == remote@,
            final(self).room(old(self).count() as int) == room,
            forall|star: StarKeyView|
                final(self).hops_through(old(self).count() as int, star) is None,
            forall|i: int, star: StarKeyView|
                0 <= i < old(self).count() ==> final(self).remote(i) == old(self).remote(i)
                    && final(self).room(i) == old(self).room(i) && final(self).hops_through(
                    i,
                    star,
                ) == old(self).hops_through(i, star),
    {
        let ghost before = self.lanes@;
        self.lanes.push(LaneMeta { remote, paths: PathTable::new(room) });
        proof {
            assert forall|i: int| 0 <= i < self.lanes@.len() implies (
            #[trigger] self.lanes@[i]).paths.wf() && keys_below(
                self.lanes@[i].paths@,
                self.directory@.len(),
            ) by {
                if i < before.len() {
                    assert(self.lanes@[i] == before[i]);
                }
            }
        }
    }

    /// The place of the lane to the star `remote`, if there is one.
    pub fn lane_to(&self, remote: &StarKey) -> (r: Option<usize>)
        ensures
            r matches Some(i) ==> self.first_lane(remote@, i as int),
            r is None ==> forall|i: int| 0 <= i < self.count() ==> self.remote(i) != remote@,
    {
        let mut i: usize = 0;
        while i < self.lanes.len()
            invariant
                i <= self.lanes.len(),
                forall|j: int| 0 <= j < i ==> self.lanes@[j].remote@ != remote@,
            decreases self.lanes.len() - i,
        {
            if self.lanes[i].remote == *remote {
                return Some(i);
            }
            i += 1;
        }
        None
    }

    /// Notes in the table of a lane the hops to the stars that the lane
    /// reported. Where the hits name no star twice and are no more than the
    /// table has room for, the table holds every one of them afterwards.
    /// The tables of the other lanes stay as they are.
    pub fn note_hits(&mut self, lane: usize, hits: &Vec<SearchHit>)
        requires
            old(self).wf(),
            lane < old(self).count(),
        ensures
            final(self).wf(),
            final(self).count() == old(self).count(),
            forall|i: int|
                0 <= i < old(self).count() ==> final(self).remote(i) == old(self).remote(i)
                    && final(self).room(i) == old(self).room(i),
            stars_distinct(hits_view(hits@)) && hits@.len() <= old(self).room(lane as int)
                ==> forall|t: int|
                0 <= t < hits@.len() ==> final(self).hops_through(
                    lane as int,
                    (#[trigger] hits@[t])@.star,
                ) == Some(hits@[t].hops),
            forall|i: int, star: StarKeyView|
                0 <= i < old(self).count() && i != lane ==> final(self).hops_through(i, star)
                    == old(self).hops_through(i, star),
    {
        let ghost dir0 = self.directory@;
        let ghost lanes0 = self.lanes@;
        let mut pairs: Vec<(u64, usize)> = Vec::new();
        let mut t: usize = 0;
        while t < hits.len()
            invariant
                t <= hits.len(),
                self.lanes@ == lanes0,
                self.directory.wf(),
                dir0.len() <= self.directory@.len(),
                forall|i: int| 0 <= i < dir0.len() ==> self.directory@[i] == dir0[i],
                pairs@.len() == t,
                forall|k: int|
                    0 <= k < t ==> (#[trigger] pairs@[k]).1 == hits@[k].hops && pairs@[k].0
                        < self.directory@.len() && self.directory@[pairs@[k].0 as int]
                        == hits@[k]@.star,
            decreases hits.len() - t,
        {
            let ghost dir_before = self.directory@;
            let n = self.directory.intern(&hits[t].star);
            pairs.push((n, hits[t].hops));
            proof {
                assert forall|k: int| 0 <= k < t + 1 implies (#[trigger] pairs@[k]).1
                    == hits@[k].hops && pairs@[k].0 < self.directory@.len()
                    && self.directory@[pairs@[k].0 as int] == hits@[k]@.star by {
                    if k < t {
                        assert(dir_before[pairs@[k].0 as int] == hits@[k]@.star);
                    }
                }
            }
            t += 1;
        }
        let ghost dir1 = self.directory@;
        proof {
            assert forall|star: StarKeyView| listed(dir0, star) implies listed(dir1, star)
                && number_of(dir1, star) == number_of(dir0, star) by {
                let n = number_of(dir0, star);
                assert(dir0[n] == star);
                assert(dir1[n] == star);
                let m = number_of(dir1, star);
                assert(dir1[m] == star);
            }
            assert(keys_below(pairs@, dir1.len()));
            assert forall|i: int| 0 <= i < lanes0.len() implies keys_below(
                (#[trigger] lanes0[i]).paths@,
                dir1.len(),
            ) by {
                assert(keys_below(lanes0[i].paths@, dir0.len()));
            }
        }
        let room = self.lanes[lane].paths.capacity();
        let fits = pairs.len() <= room && pairs_distinct(&pairs);
        let mut table = PathTable::new(0);
        std::mem::swap(&mut table, &mut self.lanes[lane].paths);
        let ghost table0 = table;
        if fits {
            table.put_all(&pairs);
        } else {
            let mut k: usize = 0;
            while k < pairs.len()
                invariant
                    k <= pairs.len(),
                    table.wf(),
                    table.cap() == table0.cap(),
                    keys_below(pairs@, dir1.len()),
                    keys_below(table@, dir1.len()),
                decreases pairs.len() - k,
            {
                table.put(pairs[k].0, pairs[k].1);
                k += 1;
            }
        }
        let ghost table1 = table;
        std::mem::swap(&mut table, &mut self.lanes[lane].paths);
        proof {
            assert(self.lanes@[lane as int].paths == table1);
            assert forall|i: int| 0 <= i < self.lanes@.len() implies (
            #[trigger] self.lanes@[i]).paths.wf() && keys_below(
                self.lanes@[i].paths@,
                self.directory@.len(),
            ) by {
                if i != lane {
                    assert(self.lanes@[i] == lanes0[i]);
                }
            }
            assert forall|i: int, star: StarKeyView|
                0 <= i < lanes0.len() && i != lane implies self.hops_through(i, star) == old(
                self,
            ).hops_through(i, star) by {
                assert(self.lanes@[i] == lanes0[i]);
                if listed(dir0, star) {
                    assert(listed(dir1, star));
                } else if listed(dir1, star) {
                    let n = number_of(dir1, star);
                    assert(dir1[n] == star);
                    if n < dir0.len() {
                        assert(dir0[n] == dir1[n]);
                        assert(listed(dir0, star));
                    }
                    assert(n >= dir0.len());
                    assert(keys_below(lanes0[i].paths@, dir0.len()));
                    assert(dir1.len() == self.directory.keys.len());
                    assert(self.directory.keys.len() <= usize::MAX);
                    assert(0 <= n < dir1.len());
                    lemma_below_unknown(lanes0[i].paths@, dir0.len(), n as u64);
                }
            }
            if stars_distinct(hits_view(hits@)) && hits@.len() <= old(self).room(lane as int) {
                assert forall|a: int, b: int|
                    0 <= a < pairs@.len() && 0 <= b < pairs@.len() && a != b implies (
                #[trigger] pairs@[a]).0 != (#[trigger] pairs@[b]).0 by {
                    assert(hits_view(hits@)[a].star != hits_view(hits@)[b].star);
                }
                assert(fits);
                assert forall|t: int| 0 <= t < hits@.len() implies self.hops_through(
                    lane as int,
                    (#[trigger] hits@[t])@.star,
                ) == Some(hits@[t].hops) by {
                    let star = hits@[t]@.star;
                    assert(dir1[pairs@[t].0 as int] == star);
                    let n = number_of(dir1, star);
                    assert(dir1[n] == star);
                    assert(n == pairs@[t].0);
                }
            }
        }
    }

    /// Whether the lanes have heard of the star: a lane that knows a path
    /// to a star has heard of it.
    pub closed spec fn knows(&self, star: StarKeyView) -> bool {
        listed(self.directory@, star)
    }

    /// A lane knows paths only to stars that the lanes have heard of.
    pub proof fn lemma_path_known(&self, lane: int, star: StarKeyView)
        requires
            self.hops_through(lane, star) is Some,
        ensures
            self.knows(star),
    {
    }

    /// The key of the star at the address, where the lanes have heard of
    /// such a star.
    pub fn key_at(&self, point: &crate::point::Point) -> (r: Option<StarKey>)
        ensures
            r matches Some(key) ==> self.knows(key@) && key@.to_point() == point@,
            r is None ==> forall|star: StarKeyView|
                #[trigger] self.knows(star) ==> star.to_point() != point@,
    {
        let mut i: usize = 0;
        while i < self.directory.keys.len()
            invariant
                i <= self.directory.keys.len(),
                forall|k: int| 0 <= k < i ==> (#[trigger] self.directory@[k]).to_point() != point@,
            decreases self.directory.keys.len() - i,
        {
            assert(self.directory@[i as int] == self.directory.keys@[i as int]@);
            if self.directory.keys[i].to_point() == *point {
                return Some(self.directory.keys[i].clone());
            }
            i += 1;
        }
        None
    }

    /// The hops to a star that each lane knows, lane by lane.
    pub open spec fn known_hops(&self, star: StarKeyView) -> Seq<Option<usize>> {
        Seq::new(self.count(), |i: int| self.hops_through(i, star))
    }

    /// The key of the star at the other end of a lane.
    pub fn remote_key(&self, lane: usize) -> (r: StarKey)
        requires
            lane < self.count(),
        ensures
            r@ == self.remote(lane as int),
    {
        self.lanes[lane].remote.clone()
    }

    /// The lane with the shortest path to the star that its table knows;
    /// among several with the same number of hops, the first. `None` where
    /// no table knows a path to the star.
    pub fn lane_with_shortest_path_to_star(&mut self, star: &StarKey) -> (r: Option<usize>)
        requires
            old(self).wf(),
        ensures
            final(self).wf(),
            final(self).count() == old(self).count(),
            forall|i: int, other: StarKeyView|
                0 <= i < old(self).count() ==> final(self).hops_through(i, other) == old(
                    self,
                ).hops_through(i, other) && final(self).remote(i) == old(self).remote(i)
                    && final(self).room(i) == old(self).room(i),
            shortest(
                Seq::new(old(self).count(), |i: int| old(self).hops_through(i, star@)),
                match r {
                    Some(i) => Some(i as int),
                    None => None,
                },
            ),
    {
        let ghost cached = Seq::new(self.count(), |i: int| self.hops_through(i, star@));
        let ghost lanes0 = self.lanes@;
        let number = match self.directory.lookup(star) {
            Some(n) => n,
            None => {
                return None;
            },
        };
        let mut best: Option<usize> = None;
        let mut least: usize = 0;
        let mut i: usize = 0;
        while i < self.lanes.len()
            invariant
                i <= self.lanes.len(),
                self.lanes@.len() == lanes0.len(),
                self.directory == old(self).directory,
                number == number_of(self.directory@, star@),
                listed(self.directory@, star@),
                cached.len() == lanes0.len(),
                forall|k: int|
                    0 <= k < lanes0.len() ==> #[trigger] cached[k] == lanes0[k].paths.hops_to(
                        number,
                    ),
                forall|k: int|
                    0 <= k < self.lanes@.len() ==> (#[trigger] self.lanes@[k]).paths.wf()
                        && keys_below(self.lanes@[k].paths@, self.directory@.len()),
                forall|k: int|
                    0 <= k < self.lanes@.len() ==> (#[trigger] self.lanes@[k]).remote
                        == lanes0[k].remote && self.lanes@[k].paths.cap() == lanes0[k].paths.cap(),
                forall|k: int, n: u64|
                    0 <= k < self.lanes@.len() ==> #[trigger] self.lanes@[k].paths.hops_to(n)
                        == lanes0[k].paths.hops_to(n),
                best is None ==> forall|k: int| 0 <= k < i ==> (#[trigger] cached[k]) is None,
                best matches Some(b) ==> b < i && cached[b as int] == Some(least),
                best is Some ==> forall|k: int|
                    0 <= k < i ==> (#[trigger] cached[k] matches Some(h) ==> least <= h),
                best matches Some(b) ==> forall|k: int|
                    0 <= k < b ==> (#[trigger] cached[k] matches Some(h) ==> least < h),
            decreases self.lanes.len() - i,
        {
            let ghost lanes_before = self.lanes@;
            let mut table = PathTable::new(0);
            std::mem::swap(&mut table, &mut self.lanes[i].paths);
            let hops = table.get(number);
            std::mem::swap(&mut table, &mut self.lanes[i].paths);
            proof {
                assert forall|k: int| 0 <= k < self.lanes@.len() implies (
                #[trigger] self.lanes@[k]).paths.wf() && keys_below(
                    self.lanes@[k].paths@,
                    self.directory@.len(),
                ) && self.lanes@[k].remote == lanes0[k].remote && self.lanes@[k].paths.cap()
                    == lanes0[k].paths.cap() by {
                    if k != i {
                        assert(self.lanes@[k] == lanes_before[k]);
                    }
                }
                assert forall|k: int, n: u64|
                    0 <= k < self.lanes@.len() implies #[trigger] self.lanes@[k].paths.hops_to(n)
                    == lanes0[k].paths.hops_to(n) by {
                    if k != i {
                        assert(self.lanes@[k] == lanes_before[k]);
                    }
                }
                assert(hops == cached[i as int]);
            }
            match hops {
                Some(h) => {
                    let better = match best {
                        Some(_) => h < least,
                        None => true,
                    };
                    if better {
                        best = Some(i);
                        least = h;
                    }
                },
                None => {},
            }
            i += 1;
        }
        best
    }

    /// The least number of hops to the star that the table of any lane
    /// knows.
    pub fn get_hops_to_star(&mut self, star: &StarKey) -> (r: Option<usize>)
        requires
            old(self).wf(),
        ensures
            final(self).wf(),
            final(self).count() == old(self).count(),
            forall|i: int, other: StarKeyView|
                0 <= i < old(self).count() ==> final(self).hops_through(i, other) == old(
                    self,
                ).hops_through(i, other),
            r is Some <==> exists|i: int|
                0 <= i < old(self).count() && (#[trigger] old(self).hops_through(i, star@)) is Some,
            r matches Some(h) ==> forall|i: int|
                0 <= i < old(self).count() ==> (#[trigger] old(self).hops_through(i, star@)
                    matches Some(h2) ==> h <= h2),
    {
        let ghost cached = Seq::new(self.count(), |i: int| self.hops_through(i, star@));
        let ghost me = *self;
        match self.lane_with_shortest_path_to_star(star) {
            Some(i) => {
                assert(cached[i as int] == me.hops_through(i as int, star@));
                let mut table = PathTable::new(0);
                let ghost lanes_before = self.lanes@;
                let number = self.directory.lookup(star);
                std::mem::swap(&mut table, &mut self.lanes[i].paths);
                let hops = match number {
                    Some(n) => table.get(n),
                    None => None,
                };
                std::mem::swap(&mut table, &mut self.lanes[i].paths);
                proof {
                    assert forall|k: int| 0 <= k < self.lanes@.len() implies (
                    #[trigger] self.lanes@[k]).paths.wf() && keys_below(
                        self.lanes@[k].paths@,
                        self.directory@.len(),
                    ) by {
                        if k != i {
                            assert(self.lanes@[k] == lanes_before[k]);
                        }
                    }
                    assert forall|k: int, other: StarKeyView|
                        0 <= k < me.count() implies self.hops_through(k, other)
                        == me.hops_through(k, other) by {
                        if k != i {
                            assert(self.lanes@[k] == lanes_before[k]);
                        }
                    }
                    assert forall|k: int| 0 <= k < me.count() implies (#[trigger] me.hops_through(
                        k,
                        star@,
                    ) matches Some(h2) ==> hops->Some_0 <= h2) by {
                        assert(cached[k] == me.hops_through(k, star@));
                    }
                }
                hops
            },
            None => {
                proof {
                    assert forall|k: int| 0 <= k < me.count() implies (#[trigger] me.hops_through(
                        k,
                        star@,
                    )) is None by {
                        assert(cached[k] == me.hops_through(k, star@));
                    }
                }
                None
            },
        }
    }

    /// Notes the hits of every lane of a search result in the table of the
    /// first lane to its star. The report of a star that is at the end of
    /// no lane is passed over. The table of a lane that has no report stays
    /// as it is. The table of a lane holds every hit of the last report for
    /// it, where the report names no star twice and the table has room for
    /// it.
    pub fn commit(&mut self, result: &SearchResult)
        requires
            old(self).wf(),
        ensures
            final(self).wf(),
            final(self).count() == old(self).count(),
            forall|i: int|
                0 <= i < old(self).count() ==> final(self).remote(i) == old(self).remote(i)
                    && final(self).room(i) == old(self).room(i),
            forall|i: int|
                0 <= i < old(self).count() && unreported(
                    result.lane_hits@,
                    old(self).remote(i),
                    result.lane_hits@.len() as int,
                ) ==> forall|star: StarKeyView| #[trigger]
                    final(self).hops_through(i, star) == old(self).hops_through(i, star),
            forall|l: int, i: int|
                0 <= l < result.lane_hits@.len() && #[trigger] old(self).first_lane(
                    result.lane_hits@[l].lane@,
                    i,
                ) && #[trigger] last_report(result.lane_hits@, l, result.lane_hits@.len() as int)
                    && stars_distinct(hits_view(result.lane_hits@[l].hits@))
                    && result.lane_hits@[l].hits@.len() <= old(self).room(i)
                    ==> final(self).holds_hits(i, hits_view(result.lane_hits@[l].hits@)),
    {
        let mut l: usize = 0;
        while l < result.lane_hits.len()
            invariant
                l <= result.lane_hits.len(),
                self.wf(),
                self.count() == old(self).count(),
                forall|i: int|
                    0 <= i < old(self).count() ==> self.remote(i) == old(self).remote(i)
                        && self.room(i) == old(self).room(i),
                forall|i: int|
                    0 <= i < old(self).count() && unreported(
                        result.lane_hits@,
                        old(self).remote(i),
                        l as int,
                    ) ==> forall|star: StarKeyView| #[trigger]
                        self.hops_through(i, star) == old(self).hops_through(i, star),
                forall|m: int, i: int|
                    0 <= m < l && #[trigger] old(self).first_lane(result.lane_hits@[m].lane@, i)
                        && #[trigger] last_report(result.lane_hits@, m, l as int)
                        && stars_distinct(hits_view(result.lane_hits@[m].hits@))
                        && result.lane_hits@[m].hits@.len() <= old(self).room(i)
                        ==> self.holds_hits(i, hits_view(result.lane_hits@[m].hits@)),
            decreases result.lane_hits.len() - l,
        {
            let ghost before = *self;
            match self.lane_to(&result.lane_hits[l].lane) {
                Some(lane) => {
                    self.note_hits(lane, &result.lane_hits[l].hits);
                    proof {
                        assert forall|m: int, i: int|
                            0 <= m < l + 1 && #[trigger] old(self).first_lane(
                                result.lane_hits@[m].lane@,
                                i,
                            ) && #[trigger] last_report(result.lane_hits@, m, l + 1)
                                && stars_distinct(hits_view(result.lane_hits@[m].hits@))
                                && result.lane_hits@[m].hits@.len() <= old(self).room(
                                i,
                            ) implies self.holds_hits(
                            i,
                            hits_view(result.lane_hits@[m].hits@),
                        ) by {
                            let hits = hits_view(result.lane_hits@[m].hits@);
                            if m < l {
                                assert(last_report(result.lane_hits@, m, l as int));
                                assert(before.holds_hits(i, hits));
                                assert(result.lane_hits@[l as int].lane@
                                    != result.lane_hits@[m].lane@);
                                assert(i != lane);
                                assert forall|t: int| 0 <= t < hits.len() implies self.hops_through(
                                    i,
                                    (#[trigger] hits[t]).star,
                                ) == Some(hits[t].hops) by {
                                    assert(before.hops_through(i, hits[t].star) == Some(
                                        hits[t].hops,
                                    ));
                                }
                            } else {
                                assert(i == lane) by {
                                    if i < lane {
                                        assert(before.remote(i) != result.lane_hits@[m].lane@);
                                    } else if lane < i {
                                        assert(old(self).remote(lane as int)
                                            != result.lane_hits@[m].lane@);
                                    }
                                }
                                assert forall|t: int| 0 <= t < hits.len() implies self.hops_through(
                                    i,
                                    (#[trigger] hits[t]).star,
                                ) == Some(hits[t].hops) by {
                                    assert(hits[t] == result.lane_hits@[m].hits@[t]@);
                                }
                            }
                        }
                        assert forall|i: int|
                            0 <= i < old(self).count() && unreported(
                                result.lane_hits@,
                                old(self).remote(i),
                                l + 1,
                            ) implies forall|star: StarKeyView| #[trigger]
                            self.hops_through(i, star) == old(self).hops_through(i, star) by {
                            assert(unreported(result.lane_hits@, old(self).remote(i), l as int));
                            assert(result.lane_hits@[l as int].lane@ != old(self).remote(i));
                            assert(i != lane);
                            assert forall|star: StarKeyView| #[trigger]
                                self.hops_through(i, star) == old(self).hops_through(i, star) by {
                                assert(before.hops_through(i, star) == old(self).hops_through(
                                    i,
                                    star,
                                ));
                            }
                        }
                    }
                },
                None => {
                    proof {
                        assert forall|m: int, i: int|
                            0 <= m < l + 1 && #[trigger] old(self).first_lane(
                                result.lane_hits@[m].lane@,
                                i,
                            ) && #[trigger] last_report(result.lane_hits@, m, l + 1)
                                && stars_distinct(hits_view(result.lane_hits@[m].hits@))
                                && result.lane_hits@[m].hits@.len() <= old(self).room(
                                i,
                            ) implies self.holds_hits(
                            i,
                            hits_view(result.lane_hits@[m].hits@),
                        ) by {
                            if m < l {
                                assert(last_report(result.lane_hits@, m, l as int));
                            } else {
                                assert(before.remote(i) != result.lane_hits@[m].lane@);
                            }
                        }
                        assert forall|i: int|
                            0 <= i < old(self).count() && unreported(
                                result.lane_hits@,
                                old(self).remote(i),
                                l + 1,
                            ) implies forall|star: StarKeyView| #[trigger]
                            self.hops_through(i, star) == old(self).hops_through(i, star) by {
                            assert(unreported(result.lane_hits@, old(self).remote(i), l as int));
                        }
                    }
                },
            }
            l += 1;
        }
    }
}

/// Whether none of the first `upto` reports is of the lane to `remote`.
pub open spec fn unreported(reports: Seq<LaneHits>, remote: StarKeyView, upto: int) -> bool {
    forall|m: int| 0 <= m < upto ==> (#[trigger] reports[m]).lane@ != remote
}

/// Whether none of the reports after report `l` and before `upto` is of
/// the lane that report `l` is of.
pub open spec fn last_report(reports: Seq<LaneHits>, l: int, upto: int) -> bool {
    forall|m: int| l < m < upto ==> (#[trigger] reports[m]).lane@ != reports[l].lane@
}

/// Whether `chosen` is the lane with the shortest path among the paths
/// that the lanes know: it knows one, no lane knows a shorter one, and no
/// lane before it knows one as short; or no lane knows a path and none is
/// chosen.
pub open spec fn shortest(cached: Seq<Option<usize>>, chosen: Option<int>) -> bool {
    match chosen {
        Some(c) => 0 <= c < cached.len() && cached[c] is Some && (forall|k: int|
            0 <= k < cached.len() ==> (#[trigger] cached[k] matches Some(h) ==> cached[c]->Some_0
                <= h)) && forall|k: int|
            0 <= k < c ==> (#[trigger] cached[k] matches Some(h) ==> cached[c]->Some_0 < h),
        None => forall|k: int| 0 <= k < cached.len() ==> (#[trigger] cached[k]) is None,
    }
}

/// Whether no number occurs twice among the pairs.
pub fn pairs_distinct(pairs: &Vec<(u64, usize)>) -> (r: bool)
    ensures
        r == keys_distinct(pairs@),
{
    let mut i: usize = 0;
    while i < pairs.len()
        invariant
            i <= pairs.len(),
            forall|a: int, b: int|
                0 <= a < i && 0 <= b < pairs@.len() && a != b ==> (#[trigger] pairs@[a]).0 != (
                #[trigger] pairs@[b]).0,
        decreases pairs.len() - i,
    {
        let mut j: usize = 0;
        while j < pairs.len()
            invariant
                i < pairs.len(),
                j <= pairs.len(),
                forall|b: int|
                    0 <= b < j && b != i ==> pairs@[i as int].0 != (#[trigger] pairs@[b]).0,
            decreases pairs.len() - j,
        {
            if j != i && pairs[i].0 == pairs[j].0 {
                return false;
            }
            j += 1;
        }
        i += 1;
    }
    true
}

/// After a search for a star, the lane that is chosen for the star is one
/// whose table holds the number of hops that the search found: where every
/// lane holds what it reported, and the search found the least of the
/// reported numbers, the chosen lane holds that number.
pub proof fn law_adjacency_hop_minimization(
    reported: Seq<HitView>,
    cached: Seq<Option<usize>>,
    star: StarKeyView,
    chosen: Option<int>,
)
    requires
        shortest(cached, chosen),
        forall|k: int|
            0 <= k < cached.len() ==> (#[trigger] cached[k] matches Some(h) ==> exists|i: int|
                0 <= i < reported.len() && (#[trigger] reported[i]).star == star
                    && reported[i].hops == h),
        forall|i: int|
            0 <= i < reported.len() && (#[trigger] reported[i]).star == star ==> exists|k: int|
                0 <= k < cached.len() && #[trigger] cached[k] == Some(reported[i].hops),
    ensures
        match least_hops(reported, star) {
            Some(h) => chosen matches Some(c) && cached[c] == Some(h),
            None => chosen is None,
        },
{
    lemma_least_hops(reported, star);
    match least_hops(reported, star) {
        Some(h) => {
            let i = choose|i: int|
                0 <= i < reported.len() && (#[trigger] reported[i]).star == star
                    && reported[i].hops == h;
            let k = choose|k: int| 0 <= k < cached.len() && #[trigger] cached[k] == Some(
                reported[i].hops,
            );
            assert(cached[k] is Some);
            let c = chosen->Some_0;
            let j = choose|j: int|
                0 <= j < reported.len() && (#[trigger] reported[j]).star == star
                    && reported[j].hops == cached[c]->Some_0;
            assert(h <= reported[j].hops);
        },
        None => {
            if chosen is Some {
                let c = chosen->Some_0;
                let j = choose|j: int|
                    0 <= j < reported.len() && (#[trigger] reported[j]).star == star
                        && reported[j].hops == cached[c]->Some_0;
                assert(hit_for(reported, star));
            }
        },
    }
}

} // verus!
