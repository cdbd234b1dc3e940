//! Walking an address from the root down, assembling the kind of every
//! particle on the way.

use vstd::prelude::*;
use crate::kind::KindView;
use crate::point::{Point, PointView};
use crate::registry::{Registry, RegistryError, RegistryView};
use crate::selector::{root_kind, HierarchyView, PointHierarchy, PointKindSeg, SegView};

verus! {

impl RegistryView {
    /// The kind of the particle at an address.
    pub open spec fn kind_at(self, p: PointView) -> KindView {
        if self.registered(p) {
            self.row(p).kind
        } else {
            root_kind()
        }
    }

    /// The address with the kind of every particle on the way to it.
    pub open spec fn hierarchy(self, p: PointView) -> HierarchyView {
        HierarchyView {
            route: p.route,
            segments: Seq::new(
                p.segments.len(),
                |i: int| SegView { segment: p.segments[i], kind: self.kind_at(p.truncate(i + 1)) },
            ),
        }
    }

    /// Every particle on the way to the address, and the one at the
    /// address, is registered. (The root needs no registration.)
    pub open spec fn known(self, p: PointView) -> bool {
        forall|j: int| 1 <= j <= p.segments.len() ==> self.registered(#[trigger] p.truncate(j))
    }

    /// The outcome of `query`.
    pub open spec fn query(self, p: PointView) -> Result<HierarchyView, RegistryError> {
        if self.known(p) {
            Ok(self.hierarchy(p))
        } else {
            Err(RegistryError::NotFound)
        }
    }
}

/// In a well-formed registry, the ancestors of a registered particle are
/// registered.
pub proof fn lemma_registered_is_known(reg: RegistryView, p: PointView)
    requires
        reg.wf(),
        reg.registered(p),
    ensures
        reg.known(p),
    decreases p.segments.len(),
{
    assert forall|j: int| 1 <= j <= p.segments.len() implies reg.registered(
        #[trigger] p.truncate(j),
    ) by {
        if j == p.segments.len() {
            assert(p.truncate(j).segments =~= p.segments);
        } else {
            let i = reg.index_of(p);
            assert(reg.rows[i].point == p);
            assert(reg.registered(p.parent()));
            lemma_registered_is_known(reg, p.parent());
            assert(p.parent().truncate(j).segments =~= p.truncate(j).segments);
        }
    }
}

/// The hierarchy of an address begins with the hierarchy of each of its
/// ancestors.
pub proof fn lemma_hierarchy_prefix(reg: RegistryView, p: PointView, n: int)
    requires
        0 <= n <= p.segments.len(),
    ensures
        reg.hierarchy(p.truncate(n)).segments == reg.hierarchy(p).segments.subrange(0, n),
        reg.hierarchy(p.truncate(n)).route == reg.hierarchy(p).route,
{
    let a = reg.hierarchy(p.truncate(n)).segments;
    let b = reg.hierarchy(p).segments.subrange(0, n);
    assert(a.len() == b.len());
    assert forall|i: int| 0 <= i < n implies a[i] == b[i] by {
        assert(p.truncate(n).truncate(i + 1).segments =~= p.truncate(i + 1).segments);
    }
    assert(a =~= b);
}

impl Registry {
    /// The address with the kind of every particle on the way to it. Fails
    /// with `NotFound` where one of them is not registered.
    pub fn query(&self, point: &Point) -> (r: Result<PointHierarchy, RegistryError>)
        requires
            self.wf(),
        ensures
            r is Ok <==> self@.known(point@),
            r matches Ok(h) ==> h@ == self@.hierarchy(point@),
            r matches Err(e) ==> e == RegistryError::NotFound,
    {
        let mut h = PointHierarchy::new(point.route);
        let n = point.depth();
        let mut j: usize = 0;
        while j < n
            invariant
                j <= n,
                n == point@.segments.len(),
                self.wf(),
                h@.route == point@.route,
                h@.segments.len() == j,
                forall|k: int| 1 <= k <= j ==> self@.registered(#[trigger] point@.truncate(k)),
                forall|i: int|
                    0 <= i < j ==> h@.segments[i] == (SegView {
                        segment: point@.segments[i],
                        kind: self@.kind_at(point@.truncate(i + 1)),
                    }),
            decreases n - j,
        {
            let prefix = point.truncate(j + 1);
            match self.find(&prefix) {
                Some(i) => {
                    let seg = PointKindSeg {
                        segment: point.segments[j].clone(),
                        kind: self.rows[i].kind.clone(),
                    };
                    assert(self@.rows[i as int].kind == self@.kind_at(prefix@));
                    h = h.push(seg);
                },
                None => {
                    assert(!self@.registered(point@.truncate(j + 1)));
                    return Err(RegistryError::NotFound);
                },
            }
            j += 1;
        }
        assert(h@.segments =~= self@.hierarchy(point@).segments);
        Ok(h)
    }
}

} // verus!
