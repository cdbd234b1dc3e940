//! Selecting particles by pattern: the walk down the address tree, hop by
//! hop, and the filter by the whole pattern.

use vstd::prelude::*;
use crate::kind::{Kind, Status};
use crate::particle::{stubs_view, Stub, StubView};
use crate::point::{Point, PointView, Route};
use crate::query::{lemma_hierarchy_prefix, lemma_registered_is_known};
use crate::registry::{lemma_index_of, Registry, RegistryError, RegistryView};
use crate::selector::{
    hops_match, hops_view, Hop, HopView, PointHierarchy, PointKindSeg, SegView, Selector,
    SelectorView,
};

verus! {

/// Whether one of the stubs is for the address.
pub open spec fn stubs_hold(v: Seq<StubView>, q: PointView) -> bool {
    exists|j: int| 0 <= j < v.len() && (#[trigger] v[j]).point == q
}

/// No address has two of the stubs.
pub open spec fn points_distinct(v: Seq<StubView>) -> bool {
    forall|i: int, j: int|
        0 <= i < j < v.len() ==> (#[trigger] v[i]).point != (#[trigger] v[j]).point
}

/// Whether the walk down the tree reaches the particle whose segments
/// below the starting address are `suffix`, with `hops` left at the start.
/// A hop that is not recursive prunes every child that it does not accept;
/// below a recursive hop nothing is pruned.
pub open spec fn passes(hops: Seq<HopView>, suffix: Seq<SegView>) -> bool
    decreases suffix.len(),
{
    if suffix.len() == 0 || hops.len() == 0 {
        false
    } else if hops[0].segment is Recursive {
        true
    } else {
        hops[0].matches(suffix[0]) && (suffix.len() == 1 || passes(
            hops.drop_first(),
            suffix.drop_first(),
        ))
    }
}

impl RegistryView {
    /// Whether the selector accepts the address: every particle on the way
    /// to it is registered, and the hops accept its hierarchy.
    pub open spec fn in_selection(self, sel: SelectorView, q: PointView) -> bool {
        self.known(q) && sel.matches(self.hierarchy(q))
    }

    /// Whether the walk that starts at `p` with `hops` left finds `q`: a
    /// registered particle strictly below `p` that the walk reaches and that
    /// the whole pattern accepts.
    pub open spec fn sub_selected(
        self,
        pattern: SelectorView,
        hops: Seq<HopView>,
        p: PointView,
        q: PointView,
    ) -> bool {
        &&& self.registered(q)
        &&& p.is_parent_of(q)
        &&& passes(
            hops,
            self.hierarchy(q).segments.subrange(p.segments.len() as int, q.segments.len() as int),
        )
        &&& pattern.matches(self.hierarchy(q))
    }

    /// The stub that stands for an address in a selection: that of its
    /// row, or that of the root where the root is not registered.
    pub open spec fn stub_of(self, q: PointView) -> StubView {
        if self.registered(q) {
            self.row(q).stub()
        } else {
            StubView { point: q, kind: crate::selector::root_kind(), status: Status::Ready }
        }
    }
}

/// Hops that accept a non-empty run of segments let the walk through.
pub proof fn lemma_match_passes(hops: Seq<HopView>, suffix: Seq<SegView>)
    requires
        hops_match(hops, suffix),
        suffix.len() >= 1,
    ensures
        passes(hops, suffix),
    decreases suffix.len(),
{
    if !(hops[0].segment is Recursive) && suffix.len() > 1 {
        lemma_match_passes(hops.drop_first(), suffix.drop_first());
    }
}

/// Where the first `j` hops name their segments exactly, are not
/// inclusive, and are not the last, whatever the hops accept begins with
/// those segments and goes on, and the remaining hops accept the rest.
pub proof fn lemma_exact_prefix_consumed(hops: Seq<HopView>, segs: Seq<SegView>, j: int)
    requires
        0 <= j < hops.len(),
        forall|i: int| 0 <= i < j ==> (#[trigger] hops[i]).segment is Exact && !hops[i].inclusive,
        hops_match(hops, segs),
        segs.len() >= 1,
    ensures
        segs.len() > j,
        forall|i: int| 0 <= i < j ==> (#[trigger] segs[i]).segment == hops[i].segment->Exact_0,
        hops_match(hops.subrange(j, hops.len() as int), segs.subrange(j, segs.len() as int)),
    decreases j,
{
    if j == 0 {
        assert(hops.subrange(0, hops.len() as int) =~= hops);
        assert(segs.subrange(0, segs.len() as int) =~= segs);
    } else {
        lemma_exact_prefix_consumed(hops, segs, j - 1);
        let h = hops.subrange(j - 1, hops.len() as int);
        let s = segs.subrange(j - 1, segs.len() as int);
        assert(h[0] == hops[j - 1]);
        assert(s[0] == segs[j - 1]);
        assert(h.len() >= 2);
        assert(h.drop_first() =~= hops.subrange(j, hops.len() as int));
        assert(s.len() > 1);
        assert(s.drop_first() =~= segs.subrange(j, segs.len() as int));
    }
}

/// Every ancestor of a known address is known.
pub proof fn lemma_prefix_known(reg: RegistryView, q: PointView, n: int)
    requires
        reg.known(q),
        0 <= n <= q.segments.len(),
    ensures
        reg.known(q.truncate(n)),
{
    assert forall|j: int| 1 <= j <= n implies reg.registered(
        #[trigger] q.truncate(n).truncate(j),
    ) by {
        assert(q.truncate(n).truncate(j).segments =~= q.truncate(j).segments);
        assert(reg.registered(q.truncate(j)));
    }
}

/// Adds copies of the stubs in `more` to `result`.
pub fn append_stubs(result: &mut Vec<Stub>, more: &Vec<Stub>)
    ensures
        stubs_view(final(result)@) == stubs_view(old(result)@) + stubs_view(more@),
{
    let ghost start = stubs_view(result@);
    let mut j: usize = 0;
    while j < more.len()
        invariant
            j <= more.len(),
            result@.len() == start.len() + j,
            forall|k: int| 0 <= k < start.len() ==> (#[trigger] result@[k])@ == start[k],
            forall|k: int|
                start.len() <= k < start.len() + j ==> (#[trigger] result@[k])@ == more@[k
                    - start.len()]@,
        decreases more.len() - j,
    {
        result.push(more[j].clone());
        j += 1;
    }
    assert(stubs_view(result@) =~= start + stubs_view(more@));
}

impl Registry {
    /// The stubs of the registered particles strictly below `point` that
    /// the walk with the hops from `from` on reaches and that the whole
    /// pattern accepts.
    ///
    /// The children of `point` are tested against the first of the hops; a
    /// child that a hop which is not recursive does not accept is pruned
    /// with everything below it. A child that passes is kept where the
    /// whole pattern accepts its hierarchy, and the walk goes on below it:
    /// with the same hops where the hop is recursive, else with the hops
    /// that follow.
    pub fn sub_select(
        &self,
        pattern: &Selector,
        hops: &Vec<Hop>,
        from: usize,
        point: &Point,
        hierarchy: &PointHierarchy,
    ) -> (r: Vec<Stub>)
        requires
            self.wf(),
            from <= hops.len(),
            hierarchy@ == self@.hierarchy(point@),
        ensures
            forall|q: PointView|
                stubs_hold(stubs_view(r@), q) <==> self@.sub_selected(
                    pattern@,
                    hops_view(hops@).subrange(from as int, hops.len() as int),
                    point@,
                    q,
                ),
            forall|j: int|
                0 <= j < r@.len() ==> (#[trigger] r@[j])@ == self@.stub_of(r@[j]@.point),
            points_distinct(stubs_view(r@)),
        decreases self.depth_limit() - point@.segments.len(),
    {
        let ghost rest = hops_view(hops@).subrange(from as int, hops.len() as int);
        let ghost m = point@.segments.len() as int;
        let mut result: Vec<Stub> = Vec::new();
        if from >= hops.len() {
            assert forall|q: PointView| !self@.sub_selected(pattern@, rest, point@, q) by {
                assert(rest.len() == 0);
            }
            return result;
        }
        let head = &hops[from];
        assert(rest[0] == head@);
        let recursive = head.segment_selector.is_recursive();
        let depth = point.depth();
        proof {
            assert forall|q: PointView|
                self@.sub_selected(pattern@, rest, point@, q) implies self@.index_of(
                q.truncate(m + 1),
            ) >= 0 by {
                lemma_registered_is_known(self@, q);
                assert(self@.registered(q.truncate(m + 1)));
            }
        }
        let mut i: usize = 0;
        while i < self.rows.len()
            invariant
                i <= self.rows.len(),
                self.wf(),
                from < hops.len(),
                rest == hops_view(hops@).subrange(from as int, hops.len() as int),
                rest[0] == head@,
                recursive == (head@.segment is Recursive),
                m == point@.segments.len(),
                depth == m,
                hierarchy@ == self@.hierarchy(point@),
                forall|q: PointView|
                    stubs_hold(stubs_view(result@), q) <==> (self@.sub_selected(
                        pattern@,
                        rest,
                        point@,
                        q,
                    ) && self@.index_of(q.truncate(m + 1)) < i),
                forall|j: int|
                    0 <= j < result@.len() ==> (#[trigger] result@[j])@ == self@.stub_of(
                        result@[j]@.point,
                    ),
                points_distinct(stubs_view(result@)),
            decreases self.rows.len() - i,
        {
            let row = &self.rows[i];
            let ghost c = row@.point;
            let ghost before = stubs_view(result@);
            assert(self@.rows[i as int] == row@);
            proof {
                lemma_index_of(self@, i as int);
            }
            let is_child = row.point.depth() > 0 && row.point.depth() - 1 == depth
                && point.is_prefix_of(&row.point);
            let mut kept = false;
            let mut more: Vec<Stub> = Vec::new();
            if is_child {
                let seg = PointKindSeg {
                    segment: row.point.segments[depth].clone(),
                    kind: row.kind.clone(),
                };
                let ghost seg_view = seg@;
                let open = recursive || head.matches(&seg);
                let below = hierarchy.push(seg);
                proof {
                    lemma_child_hierarchy(self@, point@, c);
                    assert(seg_view.segment == c.segments.last());
                    assert(below@ == self@.hierarchy(c));
                    assert(self@.hierarchy(c).segments[m] == seg_view);
                    assert(self.rows@[i as int]@.point.segments.len() <= self.max_depth);
                }
                if open {
                    kept = pattern.matches(&below);
                    let next = if recursive {
                        from
                    } else {
                        from + 1
                    };
                    more = self.sub_select(pattern, hops, next, &row.point, &below);
                    proof {
                        let found = stubs_view(more@);
                        assert forall|k: int| 0 <= k < found.len() implies c.is_parent_of(
                            (#[trigger] found[k]).point,
                        ) by {
                            assert(stubs_hold(found, found[k].point));
                        }
                    }
                }
            }
            proof {
                let found = stubs_view(more@);
                assert(points_distinct(found));
                assert(forall|k: int|
                    0 <= k < found.len() ==> c.is_parent_of((#[trigger] found[k]).point));
                assert(kept ==> c.segments.len() == m + 1);
                assert(found.len() > 0 ==> c.segments.len() == m + 1);
            }
            if kept {
                result.push(row.stub());
            }
            let ghost with_child = stubs_view(result@);
            append_stubs(&mut result, &more);
            proof {
                let after = stubs_view(result@);
                let found = stubs_view(more@);
                assert(after == with_child + found);
                assert(with_child == if kept {
                    before.push(row@.stub())
                } else {
                    before
                });
                lemma_step(
                    self@,
                    pattern@,
                    hops_view(hops@),
                    from as int,
                    point@,
                    i as int,
                    before,
                    kept,
                    found,
                    after,
                );
                assert forall|k: int| 0 <= k < result@.len() implies (#[trigger] result@[k])@
                    == self@.stub_of(result@[k]@.point) by {
                    assert(after[k] == result@[k]@);
                    if k < before.len() {
                        assert(after[k] == before[k]);
                    } else if k < with_child.len() {
                        assert(after[k] == row@.stub());
                    } else {
                        assert(after[k] == found[k - with_child.len()]);
                        assert(found[k - with_child.len()] == more@[k - with_child.len()]@);
                    }
                }
                assert forall|a: int, b: int| 0 <= a < b < after.len() implies (
                #[trigger] after[a]).point != (#[trigger] after[b]).point by {
                    let pb = after[b].point;
                    if b < before.len() {
                        assert(after[a] == before[a]);
                        assert(after[b] == before[b]);
                    } else {
                        assert(c.segments.len() == m + 1);
                        assert(c.truncate(m + 1).segments =~= c.segments);
                        if b >= with_child.len() {
                            assert(after[b] == found[b - with_child.len()]);
                            assert(c.is_parent_of(pb));
                            assert(pb.truncate(m + 1).segments =~= c.segments);
                        } else {
                            assert(after[b] == row@.stub());
                        }
                        assert(pb.truncate(m + 1) == c);
                        if a < before.len() {
                            assert(after[a] == before[a]);
                            assert(stubs_hold(before, after[a].point));
                        } else if a >= with_child.len() {
                            assert(after[a] == found[a - with_child.len()]);
                        } else {
                            assert(after[a] == row@.stub());
                            assert(c.is_parent_of(pb));
                        }
                    }
                }
            }
            i += 1;
        }
        proof {
            assert forall|q: PointView|
                stubs_hold(stubs_view(result@), q) <==> self@.sub_selected(
                    pattern@,
                    rest,
                    point@,
                    q,
                ) by {
                if self@.sub_selected(pattern@, rest, point@, q) {
                    lemma_registered_is_known(self@, q);
                    assert(self@.registered(q.truncate(m + 1)));
                    let k = self@.index_of(q.truncate(m + 1));
                    assert(0 <= k < self@.rows.len());
                }
            }
        }
        result
    }

    /// The stubs of the particles that the selector accepts.
    ///
    /// Selection starts at the query root of the selector and walks down
    /// from there; the root is added where the selector accepts it. Fails
    /// with `NotFound` where the query root is not known; no particle is
    /// accepted then.
    pub fn select(&self, pattern: &Selector) -> (r: Result<Vec<Stub>, RegistryError>)
        requires
            self.wf(),
        ensures
            r is Ok <==> self@.known(pattern@.query_root()),
            r matches Ok(v) ==> {
                &&& forall|q: PointView|
                    stubs_hold(stubs_view(v@), q) <==> self@.in_selection(pattern@, q)
                &&& forall|j: int|
                    0 <= j < v@.len() ==> (#[trigger] v@[j])@ == self@.stub_of(v@[j]@.point)
                &&& points_distinct(stubs_view(v@))
            },
            r matches Err(e) ==> e == RegistryError::NotFound && forall|q: PointView|
                !self@.in_selection(pattern@, q),
    {
        let root = pattern.query_root();
        let k0 = pattern.root_depth();
        let ghost hops = pattern@.hops;
        assert(root@.segments.len() == k0);
        let hierarchy = match self.query(&root) {
            Ok(h) => h,
            Err(e) => {
                proof {
                    assert forall|q: PointView| !self@.in_selection(pattern@, q) by {
                        if self@.in_selection(pattern@, q) {
                            lemma_selection_below_root(self@, pattern@, q);
                            lemma_prefix_known(self@, q, k0 as int);
                            assert(q.truncate(k0 as int) == root@);
                        }
                    }
                }
                return Err(e);
            },
        };
        let mut result = if pattern.hops.len() == 0 {
            Vec::new()
        } else {
            self.sub_select(pattern, &pattern.hops, k0, &root, &hierarchy)
        };
        let ghost below = stubs_view(result@);
        let with_root = pattern.matches_root();
        if with_root {
            let top = Point::root();
            assert(top@ == (PointView {
                route: Route::Local,
                segments: Seq::<Seq<char>>::empty(),
            })) by {
                assert(top@.segments =~= Seq::<Seq<char>>::empty());
            }
            let stub = match self.find(&top) {
                Some(i) => self.rows[i].stub(),
                None => Stub { point: top, kind: Kind::root(), status: Status::Ready },
            };
            result.push(stub);
        }
        proof {
            let after = stubs_view(result@);
            let top = PointView { route: Route::Local, segments: Seq::<Seq<char>>::empty() };
            assert(after =~= if with_root {
                below.push(self@.stub_of(top))
            } else {
                below
            });
            assert forall|q: PointView|
                stubs_hold(after, q) <==> self@.in_selection(pattern@, q) by {
                lemma_select_total(self@, pattern@, q, below, with_root, after);
            }
            assert forall|j: int| 0 <= j < result@.len() implies (#[trigger] result@[j])@
                == self@.stub_of(result@[j]@.point) by {
                assert(after[j] == result@[j]@);
                if j < below.len() {
                    assert(after[j] == below[j]);
                }
            }
            assert forall|a: int, b: int| 0 <= a < b < after.len() implies (
            #[trigger] after[a]).point != (#[trigger] after[b]).point by {
                assert(after[a] == below[a]);
                if b < below.len() {
                    assert(after[b] == below[b]);
                } else {
                    assert(after[b].point == top);
                    assert(stubs_hold(below, below[a].point));
                    assert(root@.is_parent_of(below[a].point));
                }
            }
        }
        Ok(result)
    }
}

/// The hierarchy of a registered child is the hierarchy of its parent
/// with the child's segment and kind added.
pub proof fn lemma_child_hierarchy(reg: RegistryView, p: PointView, c: PointView)
    requires
        reg.registered(c),
        c.segments.len() == p.segments.len() + 1,
        p.is_prefix_of(c),
    ensures
        reg.hierarchy(c) == reg.hierarchy(p).push(
            SegView { segment: c.segments.last(), kind: reg.row(c).kind },
        ),
{
    let m = p.segments.len() as int;
    assert(c.truncate(m) == p) by {
        assert(c.truncate(m).segments =~= p.segments);
    }
    lemma_hierarchy_prefix(reg, c, m);
    assert(c.truncate(m + 1) == c) by {
        assert(c.truncate(m + 1).segments =~= c.segments);
    }
    let a = reg.hierarchy(c).segments;
    let b = reg.hierarchy(p).push(
        SegView { segment: c.segments.last(), kind: reg.row(c).kind },
    ).segments;
    assert(a.len() == b.len());
    assert forall|i: int| 0 <= i < a.len() implies a[i] == b[i] by {
        if i < m {
            assert(a.subrange(0, m)[i] == a[i]);
        }
    }
    assert(a =~= b);
}

/// One step of the walk over the rows: after the row at `i`, the stubs
/// found are those of the selected particles below the children seen so
/// far.
pub proof fn lemma_step(
    reg: RegistryView,
    pattern: SelectorView,
    hops: Seq<HopView>,
    from: int,
    p: PointView,
    i: int,
    before: Seq<StubView>,
    kept: bool,
    found: Seq<StubView>,
    after: Seq<StubView>,
)
    requires
        reg.wf(),
        0 <= from < hops.len(),
        0 <= i < reg.rows.len(),
        forall|q: PointView|
            stubs_hold(before, q) <==> (reg.sub_selected(
                pattern,
                hops.subrange(from, hops.len() as int),
                p,
                q,
            ) && reg.index_of(q.truncate(p.segments.len() as int + 1)) < i),
        after == (if kept {
            before.push(reg.rows[i].stub())
        } else {
            before
        }) + found,
        ({
            let c = reg.rows[i].point;
            let head = hops[from];
            let is_child = c.segments.len() == p.segments.len() + 1 && p.is_prefix_of(c);
            let seg = reg.hierarchy(c).segments[p.segments.len() as int];
            let open = is_child && (head.segment is Recursive || head.matches(seg));
            let next = if head.segment is Recursive {
                from
            } else {
                from + 1
            };
            &&& kept == (open && pattern.matches(reg.hierarchy(c)))
            &&& !open ==> found.len() == 0
            &&& open ==> forall|q: PointView|
                stubs_hold(found, q) <==> reg.sub_selected(
                    pattern,
                    hops.subrange(next, hops.len() as int),
                    c,
                    q,
                )
        }),
    ensures
        forall|q: PointView|
            stubs_hold(after, q) <==> (reg.sub_selected(
                pattern,
                hops.subrange(from, hops.len() as int),
                p,
                q,
            ) && reg.index_of(q.truncate(p.segments.len() as int + 1)) < i + 1),
{
    let m = p.segments.len() as int;
    let rest = hops.subrange(from, hops.len() as int);
    let c = reg.rows[i].point;
    let head = hops[from];
    let is_child = c.segments.len() == m + 1 && p.is_prefix_of(c);
    let seg = reg.hierarchy(c).segments[m];
    let open = is_child && (head.segment is Recursive || head.matches(seg));
    let next = if head.segment is Recursive {
        from
    } else {
        from + 1
    };
    let tail = hops.subrange(next, hops.len() as int);
    let mid = if kept {
        before.push(reg.rows[i].stub())
    } else {
        before
    };
    lemma_index_of(reg, i);
    assert(rest[0] == head);
    assert forall|q: PointView|
        stubs_hold(after, q) <==> (reg.sub_selected(pattern, rest, p, q) && reg.index_of(
            q.truncate(m + 1),
        ) < i + 1) by {
        let sel = reg.sub_selected(pattern, rest, p, q);
        let at = reg.index_of(q.truncate(m + 1));
        // What the three parts of `after` hold.
        if stubs_hold(after, q) {
            let j = choose|j: int| 0 <= j < after.len() && (#[trigger] after[j]).point == q;
            if j < before.len() {
                assert(before[j].point == q);
                assert(stubs_hold(before, q));
            } else if j < mid.len() {
                assert(q == c);
            } else {
                assert(found[j - mid.len()].point == q);
                assert(stubs_hold(found, q));
            }
        }
        if stubs_hold(before, q) {
            let j = choose|j: int| 0 <= j < before.len() && (#[trigger] before[j]).point == q;
            assert(after[j].point == q);
        }
        if stubs_hold(found, q) {
            let j = choose|j: int| 0 <= j < found.len() && (#[trigger] found[j]).point == q;
            assert(after[mid.len() + j].point == q);
        }
        if kept && q == c {
            assert(after[before.len() as int].point == q);
        }
        // The particles below the child at `i`.
        if sel {
            lemma_registered_is_known(reg, q);
            assert(reg.registered(q.truncate(m + 1)));
            let suffix = reg.hierarchy(q).segments.subrange(m, q.segments.len() as int);
            if at == i {
                assert(q.truncate(m + 1) == c);
                assert(is_child) by {
                    assert(p.segments =~= c.segments.subrange(0, m));
                }
                lemma_hierarchy_prefix(reg, q, m + 1);
                assert(reg.hierarchy(c).segments[m] == reg.hierarchy(q).segments[m]);
                assert(suffix[0] == seg);
                if q.segments.len() == m + 1 {
                    assert(q == c) by {
                        assert(q.segments =~= c.segments);
                    }
                    assert(suffix.len() == 1);
                    assert(open);
                    assert(kept);
                } else {
                    assert(c.is_parent_of(q)) by {
                        assert(q.segments.subrange(0, m + 1) =~= c.segments);
                    }
                    assert(suffix.drop_first() =~= reg.hierarchy(q).segments.subrange(
                        m + 1,
                        q.segments.len() as int,
                    ));
                    assert(rest.drop_first() =~= hops.subrange(from + 1, hops.len() as int));
                    assert(open);
                    if head.segment is Recursive {
                        assert(tail == rest);
                        assert(passes(tail, suffix.drop_first())) by {
                            assert(tail[0] == head);
                        }
                    }
                    assert(reg.sub_selected(pattern, tail, c, q));
                    assert(stubs_hold(found, q));
                }
            }
        }
        if kept && q == c {
            assert(c.truncate(m + 1) == c) by {
                assert(c.truncate(m + 1).segments =~= c.segments);
            }
            let suffix = reg.hierarchy(c).segments.subrange(m, m + 1);
            assert(suffix[0] == seg);
            assert(passes(rest, suffix));
            assert(p.is_parent_of(c));
            assert(sel && at == i);
        }
        if open && stubs_hold(found, q) {
            assert(reg.sub_selected(pattern, tail, c, q));
            assert(q.truncate(m + 1) == c) by {
                assert(q.truncate(m + 1).segments =~= c.segments);
            }
            assert(p.is_parent_of(q)) by {
                assert(q.segments.subrange(0, m) =~= c.segments.subrange(0, m));
            }
            lemma_hierarchy_prefix(reg, q, m + 1);
            let suffix = reg.hierarchy(q).segments.subrange(m, q.segments.len() as int);
            assert(suffix[0] == seg);
            assert(suffix.drop_first() =~= reg.hierarchy(q).segments.subrange(
                m + 1,
                q.segments.len() as int,
            ));
            assert(rest.drop_first() =~= hops.subrange(from + 1, hops.len() as int));
            assert(passes(rest, suffix));
            assert(sel && at == i);
        }
    }
}

/// Whatever a selector accepts, the root aside, lies strictly below its
/// query root, and the walk from the query root reaches it.
pub proof fn lemma_selection_below_root(reg: RegistryView, sel: SelectorView, q: PointView)
    requires
        reg.in_selection(sel, q),
    ensures
        sel.query_root().is_prefix_of(q),
        q.segments.len() >= 1 ==> sel.query_root().is_parent_of(q) && passes(
            sel.hops.subrange(sel.root_depth(), sel.hops.len() as int),
            reg.hierarchy(q).segments.subrange(sel.root_depth(), q.segments.len() as int),
        ),
{
    let k0 = sel.root_depth();
    let segs = reg.hierarchy(q).segments;
    lemma_root_depth(sel, sel.hops.len() - 1);
    if q.segments.len() >= 1 {
        assert(sel.hops.len() >= 1);
        lemma_exact_prefix_consumed(sel.hops, segs, k0);
        lemma_match_passes(
            sel.hops.subrange(k0, sel.hops.len() as int),
            segs.subrange(k0, segs.len() as int),
        );
        assert forall|i: int| 0 <= i < k0 implies q.segments[i] == sel.hops[i].segment->Exact_0 by {
            assert(segs[i].segment == q.segments[i]);
        }
        assert(q.segments.subrange(0, k0) =~= sel.query_root().segments);
    } else {
        assert(sel.hops.len() <= 1);
        assert(k0 == 0);
        assert(q.segments.subrange(0, 0) =~= sel.query_root().segments);
    }
}

/// The hops counted by the exact prefix name their segments exactly and
/// are not inclusive.
pub proof fn lemma_root_depth(sel: SelectorView, limit: int)
    ensures
        0 <= sel.exact_prefix(limit),
        sel.exact_prefix(limit) <= limit || limit < 0,
        sel.exact_prefix(limit) <= sel.hops.len(),
        forall|i: int|
            0 <= i < sel.exact_prefix(limit) ==> (#[trigger] sel.hops[i]).segment is Exact
                && !sel.hops[i].inclusive,
    decreases limit,
{
    if limit > 0 && limit <= sel.hops.len() {
        lemma_root_depth(sel, limit - 1);
    }
}

/// The stubs of a selection: those found below the query root, and the
/// root where the selector accepts it.
pub proof fn lemma_select_total(
    reg: RegistryView,
    sel: SelectorView,
    q: PointView,
    below: Seq<StubView>,
    with_root: bool,
    after: Seq<StubView>,
)
    requires
        reg.wf(),
        reg.known(sel.query_root()),
        with_root == hops_match(sel.hops, Seq::empty()),
        sel.hops.len() == 0 ==> below.len() == 0,
        sel.hops.len() > 0 ==> forall|x: PointView|
            stubs_hold(below, x) <==> reg.sub_selected(
                sel,
                sel.hops.subrange(sel.root_depth(), sel.hops.len() as int),
                sel.query_root(),
                x,
            ),
        after == (if with_root {
            below.push(
                reg.stub_of(PointView { route: Route::Local, segments: Seq::<Seq<char>>::empty() }),
            )
        } else {
            below
        }),
    ensures
        stubs_hold(after, q) <==> reg.in_selection(sel, q),
{
    let top = PointView { route: Route::Local, segments: Seq::<Seq<char>>::empty() };
    lemma_root_depth(sel, sel.hops.len() - 1);
    let rest = sel.hops.subrange(sel.root_depth(), sel.hops.len() as int);
    assert(reg.stub_of(top).point == top) by {
        if reg.registered(top) {
            let k = reg.index_of(top);
            assert(reg.rows[k].point == top);
        }
    }
    if stubs_hold(after, q) {
        let j = choose|j: int| 0 <= j < after.len() && (#[trigger] after[j]).point == q;
        if j < below.len() {
            assert(below[j].point == q);
            assert(stubs_hold(below, q));
            assert(reg.sub_selected(sel, rest, sel.query_root(), q));
            lemma_registered_is_known(reg, q);
        } else {
            assert(q == top);
            assert(reg.hierarchy(top).segments =~= Seq::<SegView>::empty());
        }
    }
    if reg.in_selection(sel, q) {
        if q.segments.len() == 0 {
            assert(q == top) by {
                assert(q.segments =~= top.segments);
            }
            assert(reg.hierarchy(top).segments =~= Seq::<SegView>::empty());
            assert(with_root);
            assert(after[below.len() as int].point == q);
        } else {
            lemma_selection_below_root(reg, sel, q);
            assert(q.truncate(q.segments.len() as int) == q) by {
                assert(q.truncate(q.segments.len() as int).segments =~= q.segments);
            }
            assert(reg.registered(q));
            assert(reg.sub_selected(sel, rest, sel.query_root(), q));
            assert(stubs_hold(below, q));
            let j = choose|j: int| 0 <= j < below.len() && (#[trigger] below[j]).point == q;
            assert(after[j].point == q);
        }
    }
}

/// A selection is exactly what the selector accepts: an address is among
/// the stubs returned if and only if every particle on the way to it is
/// registered and the selector accepts its hierarchy.
pub proof fn law_select_complete(
    reg: RegistryView,
    sel: SelectorView,
    selection: Seq<StubView>,
    q: PointView,
)
    requires
        reg.wf(),
        forall|x: PointView| stubs_hold(selection, x) <==> reg.in_selection(sel, x),
    ensures
        stubs_hold(selection, q) <==> (reg.query(q) matches Ok(h) && sel.matches(h)),
{
}

} // verus!
