//! The registry: the authoritative store of particles, their properties
//! and locations, and of the access grants between them.

use vstd::prelude::*;
use crate::kind::{Kind, KindView, Status};
use crate::particle::{
    apply_mods, apply_property_mods, clone_opt_point, clone_props, keys_unique, mods_view,
    opt_point_view, props_view, Details, LocationView, ParticleLocation, ParticleRecord,
    Property, PropertyMod, PropertyModView, PropertyView, RecordView, Stub, StubView,
};
use crate::point::{Point, PointView, Route};
use crate::security::{PermissionsMask, Privilege, PrivilegeView};
use crate::selector::{Selector, SelectorView};

verus! {

/// What to do when the address of a registration is taken.
#[derive(Clone, Copy, Debug, PartialEq, Eq, Structural, Hash)]
pub enum Strategy {
    /// Fail.
    Commit,
    /// Keep what is there.
    Ensure,
    /// Keep what is there.
    Override,
}

/// Why the registry refused an operation.
#[derive(Clone, Copy, Debug, PartialEq, Eq, Structural, Hash)]
pub enum RegistryError {
    /// No record for an address.
    NotFound,
    /// The address is registered already.
    Dupe,
    /// The principal lacks the access that the operation asks for.
    Unauthorized,
    /// A counter has reached its last value.
    Exhausted,
    /// The status would move backwards.
    StatusRegression,
    /// A grant still names the particle as its grantor.
    InUse,
}

/// A request to register a particle.
#[derive(Debug)]
pub struct Registration {
    pub point: Point,
    pub kind: Kind,
    pub properties: Vec<PropertyMod>,
    pub owner: Point,
    pub strategy: Strategy,
    pub status: Status,
}

pub struct RegistrationView {
    pub point: PointView,
    pub kind: KindView,
    pub properties: Seq<PropertyModView>,
    pub owner: PointView,
    pub strategy: Strategy,
    pub status: Status,
}

impl View for Registration {
    type V = RegistrationView;

    open spec fn view(&self) -> RegistrationView {
        RegistrationView {
            point: self.point@,
            kind: self.kind@,
            properties: mods_view(self.properties@),
            owner: self.owner@,
            strategy: self.strategy,
            status: self.status,
        }
    }
}

/// What the registry holds of one particle.
#[derive(Debug)]
pub struct ParticleRow {
    pub point: Point,
    pub kind: Kind,
    pub status: Status,
    pub owner: Point,
    pub location: ParticleLocation,
    pub properties: Vec<Property>,
    pub sequence: u64,
}

pub struct RowView {
    pub point: PointView,
    pub kind: KindView,
    pub status: Status,
    pub owner: PointView,
    pub location: LocationView,
    pub properties: Seq<PropertyView>,
    pub sequence: u64,
}

impl View for ParticleRow {
    type V = RowView;

    open spec fn view(&self) -> RowView {
        RowView {
            point: self.point@,
            kind: self.kind@,
            status: self.status,
            owner: self.owner@,
            location: self.location@,
            properties: props_view(self.properties@),
            sequence: self.sequence,
        }
    }
}

impl RowView {
    pub open spec fn stub(self) -> StubView {
        StubView { point: self.point, kind: self.kind, status: self.status }
    }

    pub open spec fn record(self) -> RecordView {
        RecordView { stub: self.stub(), properties: self.properties, location: self.location }
    }
}

impl ParticleRow {
    pub fn stub(&self) -> (r: Stub)
        ensures
            r@ == self@.stub(),
    {
        Stub { point: self.point.clone(), kind: self.kind.clone(), status: self.status }
    }

    pub fn record(&self) -> (r: ParticleRecord)
        ensures
            r@ == self@.record(),
    {
        ParticleRecord {
            details: Details { stub: self.stub(), properties: clone_props(&self.properties) },
            location: self.location.clone(),
        }
    }
}

/// What an access grant gives.
#[derive(Debug, PartialEq, Eq, Hash)]
pub enum AccessGrantKind {
    Super,
    Privilege(Privilege),
    PermissionsMask(PermissionsMask),
}

pub enum GrantKindView {
    Super,
    Privilege(PrivilegeView),
    PermissionsMask(PermissionsMask),
}

impl View for AccessGrantKind {
    type V = GrantKindView;

    open spec fn view(&self) -> GrantKindView {
        match self {
            AccessGrantKind::Super => GrantKindView::Super,
            AccessGrantKind::Privilege(p) => GrantKindView::Privilege(p@),
            AccessGrantKind::PermissionsMask(m) => GrantKindView::PermissionsMask(*m),
        }
    }
}

impl Clone for AccessGrantKind {
    fn clone(&self) -> (r: AccessGrantKind)
        ensures
            r@ == self@,
    {
        match self {
            AccessGrantKind::Super => AccessGrantKind::Super,
            AccessGrantKind::Privilege(p) => AccessGrantKind::Privilege(p.clone()),
            AccessGrantKind::PermissionsMask(m) => AccessGrantKind::PermissionsMask(*m),
        }
    }
}

/// A grant of access: what is given, on which particles, to which
/// principals, and by whom.
#[derive(Debug, PartialEq, Eq, Hash)]
pub struct AccessGrant {
    pub kind: AccessGrantKind,
    pub on_point: Selector,
    pub to_point: Selector,
    pub by_particle: Point,
}

/// A grant as the registry holds it, with its number.
#[derive(Debug, PartialEq, Eq, Hash)]
pub struct IndexedAccessGrant {
    pub id: i32,
    pub access_grant: AccessGrant,
}

pub struct GrantView {
    pub id: i32,
    pub kind: GrantKindView,
    pub on_point: SelectorView,
    pub to_point: SelectorView,
    pub by_particle: PointView,
}

impl AccessGrant {
    /// The grant as the registry would hold it under the number `id`.
    pub open spec fn indexed(&self, id: i32) -> GrantView {
        GrantView {
            id,
            kind: self.kind@,
            on_point: self.on_point@,
            to_point: self.to_point@,
            by_particle: self.by_particle@,
        }
    }

    pub fn clone(&self) -> (r: AccessGrant)
        ensures
            forall|id: i32| r.indexed(id) == self.indexed(id),
    {
        AccessGrant {
            kind: self.kind.clone(),
            on_point: self.on_point.clone(),
            to_point: self.to_point.clone(),
            by_particle: self.by_particle.clone(),
        }
    }
}

impl View for IndexedAccessGrant {
    type V = GrantView;

    open spec fn view(&self) -> GrantView {
        self.access_grant.indexed(self.id)
    }
}

impl Clone for IndexedAccessGrant {
    fn clone(&self) -> (r: IndexedAccessGrant)
        ensures
            r@ == self@,
    {
        IndexedAccessGrant { id: self.id, access_grant: self.access_grant.clone() }
    }
}

/// The views of a sequence of rows.
pub open spec fn rows_view(v: Seq<ParticleRow>) -> Seq<RowView> {
    Seq::new(v.len(), |i: int| v[i]@)
}

/// The views of a sequence of grants.
pub open spec fn grants_view(v: Seq<IndexedAccessGrant>) -> Seq<GrantView> {
    Seq::new(v.len(), |i: int| v[i]@)
}

/// Whether one of the rows has the address.
pub open spec fn rows_hold(rows: Seq<RowView>, p: PointView) -> bool {
    exists|i: int| 0 <= i < rows.len() && (#[trigger] rows[i]).point == p
}

/// The place of a row with the address.
pub open spec fn rows_index(rows: Seq<RowView>, p: PointView) -> int {
    choose|i: int| 0 <= i < rows.len() && (#[trigger] rows[i]).point == p
}

/// The mathematical value of a registry.
pub struct RegistryView {
    pub rows: Seq<RowView>,
    pub grants: Seq<GrantView>,
    pub next_grant_id: i32,
}

impl RegistryView {
    pub open spec fn empty() -> RegistryView {
        RegistryView { rows: Seq::empty(), grants: Seq::empty(), next_grant_id: 1 }
    }

    /// Whether a particle is registered under the address.
    pub open spec fn registered(self, p: PointView) -> bool {
        rows_hold(self.rows, p)
    }

    /// The place of the particle with the address.
    pub open spec fn index_of(self, p: PointView) -> int {
        rows_index(self.rows, p)
    }

    /// The row of the particle with the address.
    pub open spec fn row(self, p: PointView) -> RowView {
        self.rows[self.index_of(p)]
    }

    /// No address is registered twice.
    pub open spec fn unique(self) -> bool {
        forall|i: int, j: int|
            0 <= i < self.rows.len() && 0 <= j < self.rows.len() && i != j ==> (
            #[trigger] self.rows[i]).point != (#[trigger] self.rows[j]).point
    }

    /// Every particle below the first level has a registered parent. (The
    /// parent of a particle of the first level is the root, which exists
    /// whether it is registered or not.)
    pub open spec fn parents_exist(self) -> bool {
        forall|i: int|
            0 <= i < self.rows.len() && (#[trigger] self.rows[i]).point.segments.len() >= 2
                ==> self.registered(self.rows[i].point.parent())
    }

    /// The invariants of the store: addresses are unique, parents exist,
    /// property keys are unique within a particle, every grant was given by
    /// a registered particle, and grants are numbered in rising order below
    /// the next number.
    pub open spec fn wf(self) -> bool {
        &&& self.unique()
        &&& self.parents_exist()
        &&& forall|i: int|
            0 <= i < self.rows.len() ==> keys_unique((#[trigger] self.rows[i]).properties)
        &&& forall|g: int|
            0 <= g < self.grants.len() ==> self.registered(
                (#[trigger] self.grants[g]).by_particle,
            )
        &&& forall|g: int|
            0 <= g < self.grants.len() ==> 0 < (#[trigger] self.grants[g]).id
                < self.next_grant_id
        &&& forall|g: int, h: int|
            0 <= g < h < self.grants.len() ==> (#[trigger] self.grants[g]).id < (
            #[trigger] self.grants[h]).id
        &&& self.next_grant_id >= 1
    }

    /// A particle whose parent is neither the root nor registered.
    pub open spec fn orphan(self, p: PointView) -> bool {
        p.segments.len() >= 2 && !self.registered(p.parent())
    }

    /// The same registry with the row of `p` replaced.
    pub open spec fn with_row(self, p: PointView, row: RowView) -> RegistryView {
        RegistryView { rows: self.rows.update(self.index_of(p), row), ..self }
    }

    /// The row of a fresh registration: pending, nowhere yet, with the
    /// properties that the registration sets.
    pub open spec fn fresh_row(reg: RegistrationView) -> RowView {
        RowView {
            point: reg.point,
            kind: reg.kind,
            status: Status::Pending,
            owner: reg.owner,
            location: LocationView { star: None, host: None },
            properties: apply_mods(Seq::empty(), reg.properties),
            sequence: 0,
        }
    }

    /// The outcome of `register`.
    pub open spec fn register(self, reg: RegistrationView) -> (RegistryView, Result<
        (),
        RegistryError,
    >) {
        if self.registered(reg.point) {
            if reg.strategy == Strategy::Commit {
                (self, Err(RegistryError::Dupe))
            } else {
                (self, Ok(()))
            }
        } else if self.orphan(reg.point) {
            (self, Err(RegistryError::NotFound))
        } else {
            (RegistryView { rows: self.rows.push(Self::fresh_row(reg)), ..self }, Ok(()))
        }
    }

    /// The outcome of `assign_star`.
    pub open spec fn assign_star(self, p: PointView, star: PointView) -> (RegistryView, Result<
        (),
        RegistryError,
    >) {
        if self.registered(p) {
            let row = self.row(p);
            (
                self.with_row(
                    p,
                    RowView {
                        location: LocationView { star: Some(star), host: row.location.host },
                        ..row
                    },
                ),
                Ok(()),
            )
        } else {
            (self, Err(RegistryError::NotFound))
        }
    }

    /// The outcome of `assign_host`.
    pub open spec fn assign_host(self, p: PointView, host: PointView) -> (RegistryView, Result<
        (),
        RegistryError,
    >) {
        if self.registered(p) {
            let row = self.row(p);
            (
                self.with_row(
                    p,
                    RowView {
                        location: LocationView { star: row.location.star, host: Some(host) },
                        ..row
                    },
                ),
                Ok(()),
            )
        } else {
            (self, Err(RegistryError::NotFound))
        }
    }

    /// The outcome of `set_status`.
    pub open spec fn set_status(self, p: PointView, status: Status) -> (RegistryView, Result<
        (),
        RegistryError,
    >) {
        if !self.registered(p) {
            (self, Err(RegistryError::NotFound))
        } else if !self.row(p).status.spec_may_become(status) {
            (self, Err(RegistryError::StatusRegression))
        } else {
            (self.with_row(p, RowView { status, ..self.row(p) }), Ok(()))
        }
    }

    /// The outcome of `set_properties`.
    pub open spec fn set_properties(self, p: PointView, mods: Seq<PropertyModView>) -> (
        RegistryView,
        Result<(), RegistryError>,
    ) {
        if self.registered(p) {
            let row = self.row(p);
            (
                self.with_row(
                    p,
                    RowView { properties: apply_mods(row.properties, mods), ..row },
                ),
                Ok(()),
            )
        } else {
            (self, Err(RegistryError::NotFound))
        }
    }

    /// The outcome of `sequence`.
    pub open spec fn sequence(self, p: PointView) -> (RegistryView, Result<u64, RegistryError>) {
        if !self.registered(p) {
            (self, Err(RegistryError::NotFound))
        } else if self.row(p).sequence == u64::MAX {
            (self, Err(RegistryError::Exhausted))
        } else {
            let next = (self.row(p).sequence + 1) as u64;
            (self.with_row(p, RowView { sequence: next, ..self.row(p) }), Ok(next))
        }
    }

    /// The outcome of `record`.
    pub open spec fn record(self, p: PointView) -> Result<RecordView, RegistryError> {
        if self.registered(p) {
            Ok(self.row(p).record())
        } else if p.route == Route::Local && p.is_root() {
            Ok(RecordView::root())
        } else {
            Err(RegistryError::NotFound)
        }
    }
}

/// Replacing a row by one with the same address keeps what is registered.
pub proof fn lemma_update_keeps_registered(reg: RegistryView, i: int, row: RowView)
    requires
        0 <= i < reg.rows.len(),
        row.point == reg.rows[i].point,
    ensures
        forall|p: PointView|
            (RegistryView { rows: reg.rows.update(i, row), ..reg }).registered(p)
                == reg.registered(p),
{
    let after = RegistryView { rows: reg.rows.update(i, row), ..reg };
    assert forall|p: PointView| after.registered(p) == reg.registered(p) by {
        if reg.registered(p) {
            let k = reg.index_of(p);
            assert(after.rows[k].point == p);
        }
        if after.registered(p) {
            let k = after.index_of(p);
            assert(reg.rows[k].point == p);
        }
    }
}

/// Among unique addresses, the place of an address is the one place where
/// it stands.
pub proof fn lemma_index_of(reg: RegistryView, i: int)
    requires
        reg.unique(),
        0 <= i < reg.rows.len(),
    ensures
        reg.registered(reg.rows[i].point),
        reg.index_of(reg.rows[i].point) == i,
{
    let p = reg.rows[i].point;
    let k = reg.index_of(p);
    assert(reg.rows[k].point == p);
}

/// Replacing a row by one with the same address and unique property keys
/// keeps the store's invariants.
pub proof fn lemma_update_keeps_wf(reg: RegistryView, i: int, row: RowView)
    requires
        reg.wf(),
        0 <= i < reg.rows.len(),
        row.point == reg.rows[i].point,
        keys_unique(row.properties),
    ensures
        (RegistryView { rows: reg.rows.update(i, row), ..reg }).wf(),
{
    let after = RegistryView { rows: reg.rows.update(i, row), ..reg };
    lemma_update_keeps_registered(reg, i, row);
    assert forall|a: int, b: int|
        0 <= a < after.rows.len() && 0 <= b < after.rows.len() && a != b implies (
    #[trigger] after.rows[a]).point != (#[trigger] after.rows[b]).point by {
        assert(after.rows[a].point == reg.rows[a].point);
        assert(after.rows[b].point == reg.rows[b].point);
    }
    assert forall|a: int|
        0 <= a < after.rows.len() && (#[trigger] after.rows[a]).point.segments.len()
            >= 2 implies after.registered(after.rows[a].point.parent()) by {
        assert(after.rows[a].point == reg.rows[a].point);
    }
    assert forall|a: int| 0 <= a < after.rows.len() implies keys_unique(
        (#[trigger] after.rows[a]).properties,
    ) by {
        if a != i {
            assert(after.rows[a] == reg.rows[a]);
        }
    }
    assert forall|g: int| 0 <= g < after.grants.len() implies after.registered(
        (#[trigger] after.grants[g]).by_particle,
    ) by {
        assert(reg.registered(reg.grants[g].by_particle));
    }
}

/// The store of particles and grants.
pub struct Registry {
    pub(crate) rows: Vec<ParticleRow>,
    pub(crate) grants: Vec<IndexedAccessGrant>,
    pub(crate) next_grant_id: i32,
    pub(crate) max_depth: usize,
}

impl View for Registry {
    type V = RegistryView;

    open(crate) spec fn view(&self) -> RegistryView {
        RegistryView {
            rows: rows_view(self.rows@),
            grants: grants_view(self.grants@),
            next_grant_id: self.next_grant_id,
        }
    }
}

impl Registry {
    /// The invariants of the store hold of its contents.
    pub open(crate) spec fn wf(&self) -> bool {
        &&& self@.wf()
        &&& forall|i: int|
            0 <= i < self.rows@.len() ==> (#[trigger] self.rows@[i])@.point.segments.len()
                <= self.max_depth
    }

    /// A bound on the number of segments of every registered address.
    pub open(crate) spec fn depth_limit(&self) -> int {
        self.max_depth as int
    }

    /// An empty registry.
    pub fn new() -> (r: Registry)
        ensures
            r.wf(),
            r@ == RegistryView::empty(),
    {
        let r = Registry { rows: Vec::new(), grants: Vec::new(), next_grant_id: 1, max_depth: 0 };
        assert(r@.rows =~= Seq::<RowView>::empty());
        assert(r@.grants =~= Seq::<GrantView>::empty());
        r
    }

    /// Forgets every particle and every grant.
    pub fn nuke(&mut self)
        ensures
            final(self).wf(),
            final(self)@ == RegistryView::empty(),
    {
        *self = Registry::new();
    }

    /// The number of registered particles.
    pub fn len(&self) -> (r: usize)
        ensures
            r == self@.rows.len(),
    {
        self.rows.len()
    }

    /// The place of the particle with the address, if it is registered.
    pub fn find(&self, point: &Point) -> (r: Option<usize>)
        requires
            self.wf(),
        ensures
            r is Some <==> self@.registered(point@),
            r matches Some(i) ==> i < self@.rows.len() && i == self@.index_of(point@)
                && self@.rows[i as int].point == point@,
    {
        let mut i: usize = 0;
        while i < self.rows.len()
            invariant
                i <= self.rows.len(),
                self.wf(),
                forall|j: int| 0 <= j < i ==> (#[trigger] self@.rows[j]).point != point@,
            decreases self.rows.len() - i,
        {
            if self.rows[i].point == *point {
                proof {
                    assert(self@.rows[i as int].point == point@);
                    lemma_index_of(self@, i as int);
                }
                return Some(i);
            }
            i += 1;
        }
        None
    }

    /// Whether a particle is registered under the address.
    pub fn contains(&self, point: &Point) -> (r: bool)
        requires
            self.wf(),
        ensures
            r == self@.registered(point@),
    {
        self.find(point).is_some()
    }

    /// Registers a particle.
    ///
    /// Where the address is taken, nothing changes: `Commit` fails with
    /// `Dupe`, the other strategies succeed. Where the parent is neither the
    /// root nor registered, the registration fails with `NotFound`. Else the
    /// particle is added: pending, not yet located, with the properties that
    /// the registration sets.
    pub fn register(&mut self, registration: &Registration) -> (r: Result<(), RegistryError>)
        requires
            old(self).wf(),
        ensures
            final(self).wf(),
            (final(self)@, r) == old(self)@.register(registration@),
    {
        if self.contains(&registration.point) {
            return match registration.strategy {
                Strategy::Commit => Err(RegistryError::Dupe),
                _ => Ok(()),
            };
        }
        let depth = registration.point.depth();
        if depth >= 2 {
            match registration.point.parent() {
                Some(parent) => {
                    if !self.contains(&parent) {
                        return Err(RegistryError::NotFound);
                    }
                },
                None => {},
            }
        }
        let mut properties: Vec<Property> = Vec::new();
        assert(props_view(properties@) =~= Seq::<PropertyView>::empty());
        apply_property_mods(&mut properties, &registration.properties);
        let row = ParticleRow {
            point: registration.point.clone(),
            kind: registration.kind.clone(),
            status: Status::Pending,
            owner: registration.owner.clone(),
            location: ParticleLocation { star: None, host: None },
            properties,
            sequence: 0,
        };
        let ghost before = self@;
        assert(row@ == RegistryView::fresh_row(registration@));
        self.rows.push(row);
        if depth > self.max_depth {
            self.max_depth = depth;
        }
        proof {
            let after = self@;
            assert(after.rows =~= before.rows.push(RegistryView::fresh_row(registration@)));
            assert(after.grants =~= before.grants);
            assert forall|p: PointView| before.registered(p) implies after.registered(p) by {
                let k = before.index_of(p);
                assert(after.rows[k].point == p);
            }
            assert forall|a: int, b: int|
                0 <= a < after.rows.len() && 0 <= b < after.rows.len() && a != b implies (
            #[trigger] after.rows[a]).point != (#[trigger] after.rows[b]).point by {
                if a == before.rows.len() {
                    assert(before.rows[b].point != registration@.point);
                } else if b == before.rows.len() {
                    assert(before.rows[a].point != registration@.point);
                } else {
                    assert(after.rows[a] == before.rows[a]);
                    assert(after.rows[b] == before.rows[b]);
                }
            }
            assert forall|a: int|
                0 <= a < after.rows.len() && (#[trigger] after.rows[a]).point.segments.len()
                    >= 2 implies after.registered(after.rows[a].point.parent()) by {
                if a < before.rows.len() {
                    assert(after.rows[a] == before.rows[a]);
                    assert(before.registered(before.rows[a].point.parent()));
                }
            }
            assert forall|a: int| 0 <= a < after.rows.len() implies keys_unique(
                (#[trigger] after.rows[a]).properties,
            ) by {
                if a < before.rows.len() {
                    assert(after.rows[a] == before.rows[a]);
                }
            }
            assert forall|g: int| 0 <= g < after.grants.len() implies after.registered(
                (#[trigger] after.grants[g]).by_particle,
            ) by {
                assert(before.registered(before.grants[g].by_particle));
            }
            assert forall|a: int| 0 <= a < self.rows@.len() implies (
            #[trigger] self.rows@[a])@.point.segments.len() <= self.max_depth by {
                if a < before.rows.len() {
                    assert(self.rows@[a]@ == before.rows[a]);
                }
            }
        }
        Ok(())
    }

    /// Replaces the row at `i` by one with the same address.
    pub(crate) fn put_row(&mut self, i: usize, row: ParticleRow)
        requires
            old(self).wf(),
            i < old(self)@.rows.len(),
            row@.point == old(self)@.rows[i as int].point,
            keys_unique(row@.properties),
        ensures
            final(self).wf(),
            final(self)@ == (RegistryView {
                rows: old(self)@.rows.update(i as int, row@),
                ..old(self)@
            }),
    {
        let ghost before = self@;
        let ghost old_rows = self.rows@;
        self.rows[i] = row;
        proof {
            assert(self@.rows =~= before.rows.update(i as int, row@));
            assert(self@.grants =~= before.grants);
            lemma_update_keeps_wf(before, i as int, row@);
            assert forall|a: int| 0 <= a < self.rows@.len() implies (
            #[trigger] self.rows@[a])@.point.segments.len() <= self.max_depth by {
                assert(old_rows[a]@.point.segments.len() <= self.max_depth);
                if a != i {
                    assert(self.rows@[a] == old_rows[a]);
                }
            }
        }
    }

    /// Copies the row at `i`.
    fn copy_row(&self, i: usize) -> (r: ParticleRow)
        requires
            i < self@.rows.len(),
        ensures
            r@ == self@.rows[i as int],
    {
        let row = &self.rows[i];
        ParticleRow {
            point: row.point.clone(),
            kind: row.kind.clone(),
            status: row.status,
            owner: row.owner.clone(),
            location: row.location.clone(),
            properties: clone_props(&row.properties),
            sequence: row.sequence,
        }
    }

    /// Assigns a particle to a star. Fails with `NotFound` where the
    /// particle is not registered.
    pub fn assign_star(&mut self, point: &Point, star: &Point) -> (r: Result<(), RegistryError>)
        requires
            old(self).wf(),
        ensures
            final(self).wf(),
            (final(self)@, r) == old(self)@.assign_star(point@, star@),
    {
        match self.find(point) {
            Some(i) => {
                let mut row = self.copy_row(i);
                row.location = ParticleLocation {
                    star: Some(star.clone()),
                    host: clone_opt_point(&row.location.host),
                };
                self.put_row(i, row);
                Ok(())
            },
            None => Err(RegistryError::NotFound),
        }
    }

    /// Assigns a particle to a host. Fails with `NotFound` where the
    /// particle is not registered.
    pub fn assign_host(&mut self, point: &Point, host: &Point) -> (r: Result<(), RegistryError>)
        requires
            old(self).wf(),
        ensures
            final(self).wf(),
            (final(self)@, r) == old(self)@.assign_host(point@, host@),
    {
        match self.find(point) {
            Some(i) => {
                let mut row = self.copy_row(i);
                row.location = ParticleLocation {
                    star: clone_opt_point(&row.location.star),
                    host: Some(host.clone()),
                };
                self.put_row(i, row);
                Ok(())
            },
            None => Err(RegistryError::NotFound),
        }
    }

    /// Sets the status of a particle. Fails with `NotFound` where the
    /// particle is not registered, and with `StatusRegression` where the
    /// status would move backwards.
    pub fn set_status(&mut self, point: &Point, status: Status) -> (r: Result<(), RegistryError>)
        requires
            old(self).wf(),
        ensures
            final(self).wf(),
            (final(self)@, r) == old(self)@.set_status(point@, status),
    {
        match self.find(point) {
            Some(i) => {
                if !self.rows[i].status.may_become(status) {
                    return Err(RegistryError::StatusRegression);
                }
                let mut row = self.copy_row(i);
                row.status = status;
                self.put_row(i, row);
                Ok(())
            },
            None => Err(RegistryError::NotFound),
        }
    }

    /// Changes the properties of a particle. Locked properties stay as
    /// they are. Fails with `NotFound` where the particle is not registered.
    pub fn set_properties(&mut self, point: &Point, mods: &Vec<PropertyMod>) -> (r: Result<
        (),
        RegistryError,
    >)
        requires
            old(self).wf(),
        ensures
            final(self).wf(),
            (final(self)@, r) == old(self)@.set_properties(point@, mods_view(mods@)),
    {
        match self.find(point) {
            Some(i) => {
                let mut row = self.copy_row(i);
                apply_property_mods(&mut row.properties, mods);
                self.put_row(i, row);
                Ok(())
            },
            None => Err(RegistryError::NotFound),
        }
    }

    /// Increments the counter of a particle and returns its new value.
    /// Fails with `NotFound` where the particle is not registered, and with
    /// `Exhausted` where the counter stands at its last value.
    pub fn sequence(&mut self, point: &Point) -> (r: Result<u64, RegistryError>)
        requires
            old(self).wf(),
        ensures
            final(self).wf(),
            (final(self)@, r) == old(self)@.sequence(point@),
    {
        match self.find(point) {
            Some(i) => {
                if self.rows[i].sequence == u64::MAX {
                    return Err(RegistryError::Exhausted);
                }
                let mut row = self.copy_row(i);
                let next: u64 = row.sequence + 1;
                row.sequence = next;
                self.put_row(i, row);
                Ok(next)
            },
            None => Err(RegistryError::NotFound),
        }
    }

    /// The full record of a particle. The root has a record whether it is
    /// registered or not. Fails with `NotFound` for any other address that
    /// is not registered.
    pub fn record(&self, point: &Point) -> (r: Result<ParticleRecord, RegistryError>)
        requires
            self.wf(),
        ensures
            r is Ok == self@.record(point@) is Ok,
            r matches Ok(rec) ==> self@.record(point@) == Ok::<RecordView, RegistryError>(rec@),
            r matches Err(e) ==> self@.record(point@) == Err::<RecordView, RegistryError>(e),
    {
        match self.find(point) {
            Some(i) => Ok(self.rows[i].record()),
            None => {
                if point.is_root() && !point.is_global() {
                    Ok(ParticleRecord::root())
                } else {
                    Err(RegistryError::NotFound)
                }
            },
        }
    }

    /// The properties of a particle. Fails with `NotFound` where the
    /// particle is not registered.
    pub fn get_properties(&self, point: &Point) -> (r: Result<Vec<Property>, RegistryError>)
        requires
            self.wf(),
        ensures
            r is Ok <==> self@.registered(point@),
            r matches Ok(props) ==> props_view(props@) == self@.row(point@).properties,
            r matches Err(e) ==> e == RegistryError::NotFound,
    {
        match self.find(point) {
            Some(i) => Ok(clone_props(&self.rows[i].properties)),
            None => Err(RegistryError::NotFound),
        }
    }
}

} // verus!
