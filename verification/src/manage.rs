//! Changes to the registry that go by selection: deleting particles,
//! changing owners, listing and removing grants.

use vstd::prelude::*;
use crate::access::access_result_view;
use crate::particle::{stubs_view, Stub, StubView};
use crate::point::{Point, PointView};
use crate::query::lemma_registered_is_known;
use crate::registry::{
    grants_view, lemma_index_of, GrantView, IndexedAccessGrant, ParticleRow, Registry,
    RegistryError, RegistryView, RowView,
};
use crate::security::AccessView;
use crate::select::stubs_hold;
use crate::selector::{PointHierarchy, Selector, SelectorView};

verus! {

/// Whether the address is one of the selected or lies below one.
pub open spec fn doomed(selection: Seq<StubView>, p: PointView) -> bool {
    exists|j: int| 0 <= j < selection.len() && (#[trigger] selection[j]).point.is_prefix_of(p)
}

/// Whether the address is one of the selected or lies below one.
pub fn is_doomed(selection: &Vec<Stub>, p: &Point) -> (r: bool)
    ensures
        r == doomed(stubs_view(selection@), p@),
{
    let mut j: usize = 0;
    while j < selection.len()
        invariant
            j <= selection.len(),
            forall|k: int| 0 <= k < j ==> !(#[trigger] stubs_view(selection@)[k]).point.is_prefix_of(p@),
        decreases selection.len() - j,
    {
        if selection[j].point.is_prefix_of(p) {
            assert(stubs_view(selection@)[j as int].point.is_prefix_of(p@));
            return true;
        }
        j += 1;
    }
    false
}

impl RegistryView {
    /// Whether a grant names as its grantor a particle that the deletion
    /// of the selection would remove.
    pub open spec fn grantor_doomed(self, selection: Seq<StubView>) -> bool {
        exists|g: int|
            0 <= g < self.grants.len() && doomed(selection, (#[trigger] self.grants[g]).by_particle)
    }

    /// Whether the address is one that the selector accepts, or lies
    /// below one.
    pub open spec fn below_selection(self, sel: SelectorView, p: PointView) -> bool {
        exists|q: PointView| #[trigger] self.in_selection(sel, q) && q.is_prefix_of(p)
    }

    /// Whether a grant names as its grantor a particle that the selector
    /// accepts, or one below such a particle.
    pub open spec fn grantor_selected(self, sel: SelectorView) -> bool {
        exists|g: int|
            0 <= g < self.grants.len() && self.below_selection(
                sel,
                (#[trigger] self.grants[g]).by_particle,
            )
    }

    /// Whether the principal `by` may change the owner of the particle at
    /// `i`: the particle is not selected, or `by` has super access on it.
    pub open spec fn may_chown(self, sel: SelectorView, by: PointView, i: int) -> bool {
        self.in_selection(sel, self.rows[i].point) ==> (self.access(by, self.rows[i].point)
            matches Ok(a) && a.has_super())
    }

    /// The error that stops a change of owner at the particle at `i`.
    pub open spec fn chown_error(self, by: PointView, i: int) -> RegistryError {
        match self.access(by, self.rows[i].point) {
            Err(e) => e,
            Ok(_) => RegistryError::Unauthorized,
        }
    }

    /// Whether `list_access` lists the grant: its query root is among the
    /// selected addresses, and its `to` selector accepts the principal,
    /// where one is given.
    pub open spec fn listed(self, sel: SelectorView, to: Option<PointView>, g: GrantView) -> bool {
        &&& self.in_selection(sel, g.on_point.query_root())
        &&& match to {
            Some(t) => g.to_point.matches(self.hierarchy(t)),
            None => true,
        }
    }

    /// Those of the first `n` grants that `list_access` lists, in order.
    pub open spec fn listed_grants(self, sel: SelectorView, to: Option<PointView>, n: int) -> Seq<
        GrantView,
    >
        decreases n,
    {
        if n <= 0 {
            Seq::empty()
        } else {
            let rest = self.listed_grants(sel, to, n - 1);
            if self.listed(sel, to, self.grants[n - 1]) {
                rest.push(self.grants[n - 1])
            } else {
                rest
            }
        }
    }

    /// The place of the grant with the number, or the number of grants
    /// where there is none.
    pub open spec fn grant_index(self, id: i32) -> int
        decreases self.grants.len(),
    {
        if self.grants.len() == 0 {
            0
        } else if self.grants[0].id == id {
            0
        } else {
            1 + (RegistryView { grants: self.grants.drop_first(), ..self }).grant_index(id)
        }
    }
}

/// The place of a grant, counted from any starting point.
pub proof fn lemma_grant_index(reg: RegistryView, id: i32, k: int)
    requires
        0 <= k <= reg.grants.len(),
        forall|j: int| 0 <= j < k ==> (#[trigger] reg.grants[j]).id != id,
        k < reg.grants.len() ==> reg.grants[k].id == id,
    ensures
        reg.grant_index(id) == k,
    decreases reg.grants.len(),
{
    if reg.grants.len() > 0 && k > 0 {
        let rest = RegistryView { grants: reg.grants.drop_first(), ..reg };
        assert(reg.grants[0].id != id);
        assert forall|j: int| 0 <= j < k - 1 implies (#[trigger] rest.grants[j]).id != id by {
            assert(rest.grants[j] == reg.grants[j + 1]);
        }
        lemma_grant_index(rest, id, k - 1);
    }
}

impl Registry {
    /// Deletes the particles that the selector accepts, and everything
    /// below them. Returns the stubs of those that the selector accepts.
    ///
    /// Fails with `NotFound` where the query root of the selector is not
    /// known, and with `InUse` where a grant names one of the particles to
    /// delete as its grantor; nothing changes then.
    pub fn delete(&mut self, selector: &Selector) -> (r: Result<Vec<Stub>, RegistryError>)
        requires
            old(self).wf(),
        ensures
            final(self).wf(),
            final(self)@.grants == old(self)@.grants,
            final(self)@.next_grant_id == old(self)@.next_grant_id,
            r is Err ==> final(self)@ == old(self)@,
            r is Ok <==> old(self)@.known(selector@.query_root()) && !old(self)@.grantor_selected(
                selector@,
            ),
            !old(self)@.known(selector@.query_root()) ==> r == Err::<Vec<Stub>, RegistryError>(
                RegistryError::NotFound,
            ),
            r matches Ok(v) ==> {
                &&& forall|q: PointView|
                    stubs_hold(stubs_view(v@), q) <==> old(self)@.in_selection(selector@, q)
                &&& crate::select::points_distinct(stubs_view(v@))
                &&& !old(self)@.grantor_doomed(stubs_view(v@))
                &&& forall|p: PointView|
                    final(self)@.registered(p) <==> old(self)@.registered(p) && !doomed(
                        stubs_view(v@),
                        p,
                    )
                &&& forall|p: PointView|
                    final(self)@.registered(p) ==> final(self)@.row(p) == old(self)@.row(p)
            },
            r matches Err(e) ==> old(self)@.known(selector@.query_root()) ==> e
                == RegistryError::InUse,
    {
        let selection = match self.select(selector) {
            Ok(v) => v,
            Err(e) => {
                return Err(e);
            },
        };
        let ghost sel = stubs_view(selection@);
        let ghost before = self@;
        proof {
            assert forall|p: PointView| doomed(sel, p) <==> before.below_selection(
                selector@,
                p,
            ) by {
                if doomed(sel, p) {
                    let j = choose|j: int|
                        0 <= j < sel.len() && (#[trigger] sel[j]).point.is_prefix_of(p);
                    assert(stubs_hold(sel, sel[j].point));
                    assert(before.in_selection(selector@, sel[j].point));
                }
                if before.below_selection(selector@, p) {
                    let q = choose|q: PointView| #[trigger]
                        before.in_selection(selector@, q) && q.is_prefix_of(p);
                    assert(stubs_hold(sel, q));
                }
            }
        }
        let mut g: usize = 0;
        while g < self.grants.len()
            invariant
                g <= self.grants.len(),
                self.wf(),
                self@ == before,
                before.known(selector@.query_root()),
                sel == stubs_view(selection@),
                forall|p: PointView| doomed(sel, p) <==> before.below_selection(selector@, p),
                forall|k: int| 0 <= k < g ==> !doomed(sel, (#[trigger] before.grants[k]).by_particle),
            decreases self.grants.len() - g,
        {
            assert(before.grants[g as int] == self.grants@[g as int]@);
            if is_doomed(&selection, &self.grants[g].access_grant.by_particle) {
                return Err(RegistryError::InUse);
            }
            g += 1;
        }
        let mut kept: Vec<ParticleRow> = Vec::new();
        let ghost mut src: Seq<int> = Seq::empty();
        let mut i: usize = 0;
        while i < self.rows.len()
            invariant
                i <= self.rows.len(),
                self.wf(),
                self@ == before,
                sel == stubs_view(selection@),
                src.len() == kept@.len(),
                forall|k: int| 0 <= k < src.len() ==> 0 <= (#[trigger] src[k]) < i,
                forall|a: int, b: int| 0 <= a < b < src.len() ==> (#[trigger] src[a]) < (#[trigger] src[b]),
                forall|k: int|
                    0 <= k < kept@.len() ==> (#[trigger] kept@[k])@ == before.rows[src[k]]
                        && !doomed(sel, before.rows[src[k]].point),
                forall|j: int|
                    0 <= j < i && !doomed(sel, (#[trigger] before.rows[j]).point) ==> exists|k: int|
                        0 <= k < src.len() && #[trigger] src[k] == j,
            decreases self.rows.len() - i,
        {
            assert(before.rows[i as int] == self.rows@[i as int]@);
            if !is_doomed(&selection, &self.rows[i].point) {
                let row = self.copy_row_at(i);
                let ghost kept_before = kept@;
                kept.push(row);
                assert(forall|k: int| 0 <= k < kept_before.len() ==> kept@[k] == kept_before[k]);
                proof {
                    let old_src = src;
                    src = src.push(i as int);
                    assert forall|k: int| 0 <= k < kept@.len() implies (#[trigger] kept@[k])@
                        == before.rows[src[k]] && !doomed(sel, before.rows[src[k]].point) by {
                        if k < old_src.len() {
                            assert(src[k] == old_src[k]);
                        }
                    }
                    assert forall|j: int|
                        0 <= j < i + 1 && !doomed(sel, (#[trigger] before.rows[j]).point) implies exists|
                        k: int,
                    | 0 <= k < src.len() && #[trigger] src[k] == j by {
                        if j < i {
                            let k = choose|k: int| 0 <= k < old_src.len() && #[trigger] old_src[k] == j;
                            assert(src[k] == j);
                        } else {
                            assert(src[old_src.len() as int] == j);
                        }
                    }
                }
            }
            i += 1;
        }
        self.rows = kept;
        proof {
            let after = self@;
            assert(after.grants =~= before.grants);
            assert forall|p: PointView|
                after.registered(p) <==> before.registered(p) && !doomed(sel, p) by {
                if after.registered(p) {
                    let k = after.index_of(p);
                    assert(after.rows[k] == before.rows[src[k]]);
                }
                if before.registered(p) && !doomed(sel, p) {
                    let j = before.index_of(p);
                    assert(before.rows[j].point == p);
                    let k = choose|k: int| 0 <= k < src.len() && #[trigger] src[k] == j;
                    assert(after.rows[k] == before.rows[j]);
                }
            }
            assert forall|a: int, b: int|
                0 <= a < after.rows.len() && 0 <= b < after.rows.len() && a != b implies (
            #[trigger] after.rows[a]).point != (#[trigger] after.rows[b]).point by {
                assert(after.rows[a] == before.rows[src[a]]);
                assert(after.rows[b] == before.rows[src[b]]);
                if a < b {
                    assert(src[a] < src[b]);
                } else {
                    assert(src[b] < src[a]);
                }
            }
            assert forall|p: PointView| after.registered(p) implies after.row(p) == before.row(
                p,
            ) by {
                let k = after.index_of(p);
                assert(after.rows[k] == before.rows[src[k]]);
                lemma_index_of(before, src[k]);
            }
            assert forall|a: int|
                0 <= a < after.rows.len() && (#[trigger] after.rows[a]).point.segments.len()
                    >= 2 implies after.registered(after.rows[a].point.parent()) by {
                let p = after.rows[a].point;
                assert(after.rows[a] == before.rows[src[a]]);
                assert(before.registered(p.parent()));
                if doomed(sel, p.parent()) {
                    let j = choose|j: int|
                        0 <= j < sel.len() && (#[trigger] sel[j]).point.is_prefix_of(p.parent());
                    let q = sel[j].point;
                    assert(p.segments.subrange(0, q.segments.len() as int) =~= p.parent().segments.subrange(
                        0,
                        q.segments.len() as int,
                    ));
                    assert(q.is_prefix_of(p));
                    assert(doomed(sel, p));
                }
            }
            assert forall|a: int| 0 <= a < after.rows.len() implies crate::particle::keys_unique(
                (#[trigger] after.rows[a]).properties,
            ) by {
                assert(after.rows[a] == before.rows[src[a]]);
            }
            assert forall|k: int| 0 <= k < after.grants.len() implies after.registered(
                (#[trigger] after.grants[k]).by_particle,
            ) by {
                assert(before.registered(before.grants[k].by_particle));
                assert(!doomed(sel, before.grants[k].by_particle));
            }
            assert forall|a: int| 0 <= a < self.rows@.len() implies (
            #[trigger] self.rows@[a])@.point.segments.len() <= self.max_depth by {
                assert(self.rows@[a]@ == before.rows[src[a]]);
            }
            assert(!before.grantor_doomed(sel));
        }
        Ok(selection)
    }

    /// Copies the row at `i`.
    pub(crate) fn copy_row_at(&self, i: usize) -> (r: ParticleRow)
        requires
            i < self@.rows.len(),
        ensures
            r@ == self@.rows[i as int],
    {
        let row = &self.rows[i];
        ParticleRow {
            point: row.point.clone(),
            kind: row.kind.clone(),
            status: row.status,
            owner: row.owner.clone(),
            location: row.location.clone(),
            properties: crate::particle::clone_props(&row.properties),
            sequence: row.sequence,
        }
    }

    /// Whether the selector accepts the registered particle at `i`.
    fn row_selected(&self, selector: &Selector, i: usize) -> (r: bool)
        requires
            self.wf(),
            i < self@.rows.len(),
        ensures
            r == self@.in_selection(selector@, self@.rows[i as int].point),
    {
        proof {
            lemma_index_of(self@, i as int);
            lemma_registered_is_known(self@, self@.rows[i as int].point);
        }
        match self.query(&self.rows[i].point) {
            Ok(h) => selector.matches(&h),
            Err(_) => false,
        }
    }

    /// Makes `owner` the owner of every particle that the selector
    /// accepts. The principal `by` needs super access on each of them.
    ///
    /// Fails with `NotFound` where the query root of the selector is not
    /// known. Else the particles are tested in the order of registration,
    /// and the first on which `by` lacks super access stops the change: with
    /// the error of the access evaluation where that fails, else with
    /// `Unauthorized`. Nothing changes on failure.
    pub fn chown(&mut self, on: &Selector, owner: &Point, by: &Point) -> (r: Result<
        (),
        RegistryError,
    >)
        requires
            old(self).wf(),
        ensures
            final(self).wf(),
            final(self)@.grants == old(self)@.grants,
            final(self)@.next_grant_id == old(self)@.next_grant_id,
            r is Err ==> final(self)@ == old(self)@,
            r is Ok <==> old(self)@.known(on@.query_root()) && forall|i: int|
                0 <= i < old(self)@.rows.len() ==> #[trigger] old(self)@.may_chown(on@, by@, i),
            r is Ok ==> final(self)@.rows.len() == old(self)@.rows.len() && forall|i: int|
                0 <= i < old(self)@.rows.len() ==> #[trigger] final(self)@.rows[i] == (
                if old(self)@.in_selection(on@, old(self)@.rows[i].point) {
                    RowView { owner: owner@, ..old(self)@.rows[i] }
                } else {
                    old(self)@.rows[i]
                }),
            r matches Err(e) ==> (!old(self)@.known(on@.query_root()) && e
                == RegistryError::NotFound) || exists|i: int|
                0 <= i < old(self)@.rows.len() && !#[trigger] old(self)@.may_chown(on@, by@, i)
                    && e == old(self)@.chown_error(by@, i) && forall|k: int|
                    0 <= k < i ==> #[trigger] old(self)@.may_chown(on@, by@, k),
    {
        match self.select(on) {
            Ok(_) => {},
            Err(e) => {
                return Err(e);
            },
        }
        let ghost before = self@;
        let mut chosen: Vec<bool> = Vec::new();
        let mut i: usize = 0;
        while i < self.rows.len()
            invariant
                i <= self.rows.len(),
                self.wf(),
                self@ == before,
                chosen@.len() == i,
                forall|k: int| 0 <= k < i ==> #[trigger] before.may_chown(on@, by@, k),
                forall|k: int|
                    0 <= k < i ==> #[trigger] chosen@[k] == before.in_selection(
                        on@,
                        before.rows[k].point,
                    ),
            decreases self.rows.len() - i,
        {
            let selected = self.row_selected(on, i);
            if selected {
                let access = self.access(by, &self.rows[i].point);
                assert(before.rows[i as int].point == self.rows@[i as int]@.point);
                match access {
                    Ok(a) => {
                        if !a.has_super() {
                            assert(!before.may_chown(on@, by@, i as int));
                            return Err(RegistryError::Unauthorized);
                        }
                    },
                    Err(e) => {
                        assert(!before.may_chown(on@, by@, i as int));
                        return Err(e);
                    },
                }
            }
            chosen.push(selected);
            i += 1;
        }
        let mut j: usize = 0;
        while j < self.rows.len()
            invariant
                j <= self.rows.len(),
                self.wf(),
                chosen@.len() == before.rows.len(),
                self@.rows.len() == before.rows.len(),
                self@.grants == before.grants,
                self@.next_grant_id == before.next_grant_id,
                forall|k: int|
                    0 <= k < chosen@.len() ==> #[trigger] chosen@[k] == before.in_selection(
                        on@,
                        before.rows[k].point,
                    ),
                forall|k: int|
                    0 <= k < j ==> #[trigger] self@.rows[k] == (if before.in_selection(
                        on@,
                        before.rows[k].point,
                    ) {
                        RowView { owner: owner@, ..before.rows[k] }
                    } else {
                        before.rows[k]
                    }),
                forall|k: int| j <= k < before.rows.len() ==> #[trigger] self@.rows[k] == before.rows[k],
            decreases self.rows.len() - j,
        {
            if chosen[j] {
                let mut row = self.copy_row_at(j);
                row.owner = owner.clone();
                self.put_row(j, row);
            }
            assert(self.rows@.len() == self@.rows.len());
            j += 1;
        }
        Ok(())
    }

    /// The grants whose query root is among the particles that the
    /// selector `on` accepts and, where a principal is given, whose `to`
    /// selector accepts the principal; in the order of their numbers.
    ///
    /// Fails with `NotFound` where the query root of `on`, or the
    /// principal, is not known.
    pub fn list_access(&self, to: Option<&Point>, on: &Selector) -> (r: Result<
        Vec<IndexedAccessGrant>,
        RegistryError,
    >)
        requires
            self.wf(),
        ensures
            r is Ok <==> self@.known(on@.query_root()) && (to matches Some(t) ==> self@.known(t@)),
            r matches Err(e) ==> e == RegistryError::NotFound,
            r matches Ok(v) ==> grants_view(v@) == self@.listed_grants(
                on@,
                opt_ref_view(to),
                self@.grants.len() as int,
            ),
    {
        let to_h: Option<PointHierarchy> = match to {
            Some(t) => match self.query(t) {
                Ok(h) => Some(h),
                Err(e) => {
                    return Err(e);
                },
            },
            None => None,
        };
        let selection = match self.select(on) {
            Ok(v) => v,
            Err(e) => {
                return Err(e);
            },
        };
        let ghost sel = stubs_view(selection@);
        let ghost who = opt_ref_view(to);
        let mut result: Vec<IndexedAccessGrant> = Vec::new();
        assert(grants_view(result@) =~= self@.listed_grants(on@, who, 0));
        let mut g: usize = 0;
        while g < self.grants.len()
            invariant
                g <= self.grants.len(),
                self.wf(),
                who == opt_ref_view(to),
                sel == stubs_view(selection@),
                forall|q: PointView| stubs_hold(sel, q) <==> self@.in_selection(on@, q),
                to matches Some(t) ==> (to_h matches Some(h) && h@ == self@.hierarchy(t@)),
                to is None ==> to_h is None,
                grants_view(result@) == self@.listed_grants(on@, who, g as int),
            decreases self.grants.len() - g,
        {
            let grant = &self.grants[g];
            assert(self@.grants[g as int] == grant@);
            let root = grant.access_grant.on_point.query_root();
            let at_selected = holds_point(&selection, &root);
            let to_ok = match &to_h {
                Some(h) => grant.access_grant.to_point.matches(h),
                None => true,
            };
            assert((at_selected && to_ok) == self@.listed(on@, who, self@.grants[g as int]));
            if at_selected && to_ok {
                let ghost listed_before = grants_view(result@);
                result.push(grant.clone());
                assert(grants_view(result@) =~= listed_before.push(grant@));
            }
            g += 1;
        }
        Ok(result)
    }

    /// Removes the grant with the number `id`. The principal `to` needs
    /// full access on the grantor.
    ///
    /// Fails with `NotFound` where no grant has the number or the access
    /// of `to` on the grantor cannot be evaluated, and with `Unauthorized`
    /// where that access is not full. Nothing changes on failure.
    pub fn remove_access(&mut self, id: i32, to: &Point) -> (r: Result<(), RegistryError>)
        requires
            old(self).wf(),
        ensures
            final(self).wf(),
            final(self)@.rows == old(self)@.rows,
            final(self)@.next_grant_id == old(self)@.next_grant_id,
            ({
                let reg = old(self)@;
                let k = reg.grant_index(id);
                if k >= reg.grants.len() {
                    r == Err::<(), RegistryError>(RegistryError::NotFound) && final(self)@ == reg
                } else {
                    match reg.access(to@, reg.grants[k].by_particle) {
                        Err(e) => r == Err::<(), RegistryError>(e) && final(self)@ == reg,
                        Ok(a) => if a.has_full() {
                            r is Ok && final(self)@.grants == reg.grants.remove(k)
                        } else {
                            final(self)@ == reg && r == Err::<(), RegistryError>(
                                RegistryError::Unauthorized,
                            )
                        },
                    }
                }
            }),
    {
        let ghost before = self@;
        let mut k: usize = 0;
        let mut found = false;
        while k < self.grants.len() && !found
            invariant
                k <= self.grants.len(),
                self.wf(),
                self@ == before,
                forall|j: int| 0 <= j < k ==> (#[trigger] before.grants[j]).id != id,
                found ==> k < self.grants.len() && before.grants[k as int].id == id,
            decreases self.grants.len() - k + (if found { 0int } else { 1int }),
        {
            assert(before.grants[k as int] == self.grants@[k as int]@);
            if self.grants[k].id == id {
                found = true;
            } else {
                k += 1;
            }
        }
        proof {
            lemma_grant_index(before, id, k as int);
        }
        if !found {
            return Err(RegistryError::NotFound);
        }
        assert(before.grants[k as int] == self.grants@[k as int]@);
        let access = self.access(to, &self.grants[k].access_grant.by_particle);
        match access {
            Err(e) => Err(e),
            Ok(a) => {
                if !a.has_full() {
                    return Err(RegistryError::Unauthorized);
                }
                self.grants.remove(k);
                proof {
                    let after = self@;
                    assert(after.grants =~= before.grants.remove(k as int));
                    assert(after.rows =~= before.rows);
                    assert forall|g: int| 0 <= g < after.grants.len() implies after.registered(
                        (#[trigger] after.grants[g]).by_particle,
                    ) && 0 < after.grants[g].id < after.next_grant_id by {
                        let g2 = if g < k { g } else { g + 1 };
                        assert(after.grants[g] == before.grants[g2]);
                        assert(before.registered(before.grants[g2].by_particle));
                    }
                    assert forall|g: int, h: int| 0 <= g < h < after.grants.len() implies (
                    #[trigger] after.grants[g]).id < (#[trigger] after.grants[h]).id by {
                        let g2 = if g < k { g } else { g + 1 };
                        let h2 = if h < k { h } else { h + 1 };
                        assert(after.grants[g] == before.grants[g2]);
                        assert(after.grants[h] == before.grants[h2]);
                        assert(before.grants[g2].id < before.grants[h2].id);
                    }
                }
                Ok(())
            },
        }
    }
}

/// A command to the registry.
#[derive(Debug)]
pub enum RegistryCommand {
    /// Stop serving; nothing changes.
    Close,
    /// Forget everything.
    Clear,
    /// Register a particle.
    Commit(crate::registry::Registration),
    /// Select particles.
    Select(Selector),
    /// Assign a particle to a star.
    SetLocation { point: Point, star: Point },
    /// Fetch the record of a particle.
    Get(Point),
}

/// The answer of the registry to a command.
#[derive(Debug, PartialEq, Eq)]
pub enum RegistryResult {
    Done,
    Error(RegistryError),
    /// The record that was asked for, if there is one.
    Resource(Option<crate::particle::ParticleRecord>),
    /// The stubs of the particles that were selected.
    Resources(Vec<Stub>),
}

impl Registry {
    /// Carries out a command and answers it.
    pub fn process(&mut self, command: &RegistryCommand) -> (r: RegistryResult)
        requires
            old(self).wf(),
        ensures
            final(self).wf(),
            match command {
                RegistryCommand::Close => r is Done && final(self)@ == old(self)@,
                RegistryCommand::Clear => r is Done && final(self)@ == RegistryView::empty(),
                RegistryCommand::Commit(registration) => match old(self)@.register(
                    registration@,
                ) {
                    (after, Ok(_)) => r is Done && final(self)@ == after,
                    (after, Err(e)) => r == RegistryResult::Error(e) && final(self)@ == after,
                },
                RegistryCommand::Select(selector) => final(self)@ == old(self)@ && (if old(
                    self,
                )@.known(selector@.query_root()) {
                    r matches RegistryResult::Resources(v) && crate::select::points_distinct(
                        stubs_view(v@),
                    ) && forall|q: PointView|
                        stubs_hold(stubs_view(v@), q) <==> old(self)@.in_selection(selector@, q)
                } else {
                    r == RegistryResult::Error(RegistryError::NotFound)
                }),
                RegistryCommand::SetLocation { point, star } => match old(self)@.assign_star(
                    point@,
                    star@,
                ) {
                    (after, Ok(_)) => r is Done && final(self)@ == after,
                    (after, Err(e)) => r == RegistryResult::Error(e) && final(self)@ == after,
                },
                RegistryCommand::Get(point) => final(self)@ == old(self)@ && (match old(
                    self,
                )@.record(point@) {
                    Ok(record) => r matches RegistryResult::Resource(Some(got)) && got@ == record,
                    Err(_) => r == RegistryResult::Resource(None),
                }),
            },
    {
        match command {
            RegistryCommand::Close => RegistryResult::Done,
            RegistryCommand::Clear => {
                self.nuke();
                RegistryResult::Done
            },
            RegistryCommand::Commit(registration) => match self.register(registration) {
                Ok(_) => RegistryResult::Done,
                Err(e) => RegistryResult::Error(e),
            },
            RegistryCommand::Select(selector) => match self.select(selector) {
                Ok(v) => RegistryResult::Resources(v),
                Err(e) => RegistryResult::Error(e),
            },
            RegistryCommand::SetLocation { point, star } => match self.assign_star(point, star) {
                Ok(_) => RegistryResult::Done,
                Err(e) => RegistryResult::Error(e),
            },
            RegistryCommand::Get(point) => match self.record(point) {
                Ok(record) => RegistryResult::Resource(Some(record)),
                Err(_) => RegistryResult::Resource(None),
            },
        }
    }
}

/// The view of an optional reference to an address.
pub open spec fn opt_ref_view(o: Option<&Point>) -> Option<PointView> {
    match o {
        Some(p) => Some(p@),
        None => None,
    }
}

/// Whether one of the stubs is for the address.
pub fn holds_point(selection: &Vec<Stub>, p: &Point) -> (r: bool)
    ensures
        r == stubs_hold(stubs_view(selection@), p@),
{
    let mut j: usize = 0;
    while j < selection.len()
        invariant
            j <= selection.len(),
            forall|k: int| 0 <= k < j ==> (#[trigger] stubs_view(selection@)[k]).point != p@,
        decreases selection.len() - j,
    {
        if selection[j].point == *p {
            assert(stubs_view(selection@)[j as int].point == p@);
            return true;
        }
        j += 1;
    }
    false
}

} // verus!
