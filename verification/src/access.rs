//! Access grants and the evaluation of the access that a principal has on
//! a particle.

use vstd::prelude::*;
use vstd::string::StringExecFns;
use crate::point::{Point, PointView, Route, strings_view};
use crate::query::lemma_registered_is_known;
use crate::registry::{
    grants_view, AccessGrant, AccessGrantKind, GrantKindView, GrantView, IndexedAccessGrant,
    Registry, RegistryError, RegistryView,
};
use crate::security::{
    Access, AccessView, EnumeratedAccess, Permissions, PermissionsMaskKind, Privileges,
    PrivilegesView,
};
use crate::selector::PointHierarchy;

verus! {

/// The address of the principal that has super access on everything.
pub open spec fn hyperuser() -> PointView {
    PointView { route: Route::Local, segments: seq!["hyperspace"@, "users"@, "hyperuser"@] }
}

impl Point {
    /// The address of the principal that has super access on everything:
    /// `hyperspace:users:hyperuser`.
    pub fn hyperuser() -> (r: Point)
        ensures
            r@ == hyperuser(),
    {
        let mut segments: Vec<String> = Vec::new();
        segments.push(String::from_str("hyperspace"));
        segments.push(String::from_str("users"));
        segments.push(String::from_str("hyperuser"));
        let r = Point::new(segments);
        assert(r@.segments =~= hyperuser().segments);
        r
    }
}

/// The value of the result of an access evaluation.
pub open spec fn access_result_view(r: Result<Access, RegistryError>) -> Result<
    AccessView,
    RegistryError,
> {
    match r {
        Ok(a) => Ok(a@),
        Err(e) => Err(e),
    }
}

impl RegistryView {
    /// Whether `to` is the owner of `on`.
    pub open spec fn owns(self, to: PointView, on: PointView) -> bool {
        self.registered(on) && self.row(on).owner == to
    }

    /// Whether the grant is for the principal `to` on the particle `on`,
    /// and is found at the level `d` of the walk: its query root is the
    /// ancestor of `on` with `d` segments, and its two selectors accept the
    /// hierarchies of `to` and `on`.
    pub open spec fn counts_at(self, g: GrantView, d: int, to: PointView, on: PointView) -> bool {
        &&& g.on_point.query_root() == on.truncate(d)
        &&& g.to_point.matches(self.hierarchy(to))
        &&& g.on_point.matches(self.hierarchy(on))
    }

    /// Whether the grant at `i` is a super grant that counts at level `d`
    /// of the walk from `on`.
    pub open spec fn super_candidate(self, i: int, d: int, to: PointView, on: PointView) -> bool {
        &&& 0 <= i < self.grants.len()
        &&& 0 <= d <= on.segments.len()
        &&& self.grants[i].kind is Super
        &&& self.counts_at(self.grants[i], d, to, on)
    }

    /// Whether `to` has super access on `on`: it is the hyperuser, or it
    /// is not the owner acting on itself, both addresses are known, and the
    /// walk from `on` up to the root finds a super grant given by a grantor
    /// with super access. A grantor is evaluated with one unit of `fuel`
    /// less; with none left, no grant helps.
    pub open spec fn has_super(self, to: PointView, on: PointView, fuel: nat) -> bool
        decreases fuel,
    {
        to == hyperuser() || (!(to == on && self.owns(to, on)) && self.known(to) && self.known(on)
            && fuel > 0 && exists|i: int, d: int| #[trigger]
            self.super_candidate(i, d, to, on) && self.has_super(
                self.grants[i].by_particle,
                on,
                (fuel - 1) as nat,
            ))
    }

    /// Whether the grant at `i` is a super grant that counts at level `d`
    /// and whose grantor has super access on `on`.
    pub open spec fn super_hit(self, i: int, d: int, to: PointView, on: PointView, fuel: nat)
        -> bool {
        &&& self.super_candidate(i, d, to, on)
        &&& fuel > 0
        &&& self.has_super(self.grants[i].by_particle, on, (fuel - 1) as nat)
    }

    /// Whether the walk from `on` up to the root finds a super grant given
    /// by a grantor with super access.
    pub open spec fn walk_super(self, to: PointView, on: PointView, fuel: nat) -> bool {
        exists|i: int, d: int| #[trigger]
            self.super_candidate(i, d, to, on) && self.super_hit(i, d, to, on, fuel)
    }

    /// Whether `by` has full access on `on`: super access, or ownership.
    pub open spec fn has_full(self, by: PointView, on: PointView, fuel: nat) -> bool {
        self.has_super(by, on, fuel) || (self.owns(by, on) && (by == on || (self.known(by)
            && self.known(on))))
    }

    /// Whether the grantor of `g` has full access on `on`, evaluated with
    /// one unit of fuel less.
    pub open spec fn grantor_full(self, g: GrantView, on: PointView, fuel: nat) -> bool {
        fuel > 0 && self.has_full(g.by_particle, on, (fuel - 1) as nat)
    }

    /// What the grant at `i` adds to the permissions at level `d`: its
    /// permissions where it is an or-mask that counts and whose grantor has
    /// full access, else nothing.
    pub open spec fn or_of(self, i: int, d: int, to: PointView, on: PointView, fuel: nat)
        -> Permissions {
        let g = self.grants[i];
        match g.kind {
            GrantKindView::PermissionsMask(m) => if m.kind == PermissionsMaskKind::Or
                && self.counts_at(g, d, to, on) && self.grantor_full(g, on, fuel) {
                m.permissions
            } else {
                Permissions::spec_none()
            },
            _ => Permissions::spec_none(),
        }
    }

    /// What the grant at `i` leaves of the permissions at level `d`: its
    /// permissions where it is an and-mask that counts, else everything.
    pub open spec fn and_of(self, i: int, d: int, to: PointView, on: PointView) -> Permissions {
        let g = self.grants[i];
        match g.kind {
            GrantKindView::PermissionsMask(m) => if m.kind == PermissionsMaskKind::And
                && self.counts_at(g, d, to, on) {
                m.permissions
            } else {
                Permissions::spec_full()
            },
            _ => Permissions::spec_full(),
        }
    }

    /// The privileges `acc` with what the grant at `i` adds at level `d`:
    /// its privilege where it counts and its grantor has full access.
    pub open spec fn privs_with(
        self,
        i: int,
        d: int,
        to: PointView,
        on: PointView,
        fuel: nat,
        acc: PrivilegesView,
    ) -> PrivilegesView {
        let g = self.grants[i];
        match g.kind {
            GrantKindView::Privilege(p) => if self.counts_at(g, d, to, on) && self.grantor_full(
                g,
                on,
                fuel,
            ) {
                acc.with(p)
            } else {
                acc
            },
            _ => acc,
        }
    }

    /// What the or-masks among the first `n` grants add at level `d`.
    pub open spec fn level_or(self, to: PointView, on: PointView, fuel: nat, d: int, n: int)
        -> Permissions
        decreases n,
    {
        if n <= 0 {
            Permissions::spec_none()
        } else {
            self.level_or(to, on, fuel, d, n - 1).spec_or(self.or_of(n - 1, d, to, on, fuel))
        }
    }

    /// What the and-masks among the first `n` grants leave at level `d`.
    pub open spec fn level_and(self, to: PointView, on: PointView, d: int, n: int) -> Permissions
        decreases n,
    {
        if n <= 0 {
            Permissions::spec_full()
        } else {
            self.level_and(to, on, d, n - 1).spec_and(self.and_of(n - 1, d, to, on))
        }
    }

    /// The privileges `acc` with those added that the first `n` grants
    /// give at level `d`.
    pub open spec fn level_privs(
        self,
        to: PointView,
        on: PointView,
        fuel: nat,
        d: int,
        n: int,
        acc: PrivilegesView,
    ) -> PrivilegesView
        decreases n,
    {
        if n <= 0 {
            acc
        } else {
            self.privs_with(n - 1, d, to, on, fuel, self.level_privs(to, on, fuel, d, n - 1, acc))
        }
    }

    /// The permissions that or-masks give on the levels from `on` up to
    /// the level `d`.
    pub open spec fn walk_or(self, to: PointView, on: PointView, fuel: nat, d: int) -> Permissions
        decreases on.segments.len() - d + 1,
    {
        if d > on.segments.len() || d < 0 {
            Permissions::spec_none()
        } else {
            self.walk_or(to, on, fuel, d + 1).spec_or(
                self.level_or(to, on, fuel, d, self.grants.len() as int),
            )
        }
    }

    /// The privileges given on the levels from `on` up to the level `d`.
    pub open spec fn walk_privs(self, to: PointView, on: PointView, fuel: nat, d: int)
        -> PrivilegesView
        decreases on.segments.len() - d + 1,
    {
        if d > on.segments.len() || d < 0 {
            PrivilegesView { full: false, names: Set::empty() }
        } else {
            self.level_privs(
                to,
                on,
                fuel,
                d,
                self.grants.len() as int,
                self.walk_privs(to, on, fuel, d + 1),
            )
        }
    }

    /// What the and-masks of the `k` levels nearest the root leave.
    pub open spec fn walk_and(self, to: PointView, on: PointView, k: int) -> Permissions
        decreases k,
    {
        if k <= 0 {
            Permissions::spec_full()
        } else {
            self.walk_and(to, on, k - 1).spec_and(
                self.level_and(to, on, k - 1, self.grants.len() as int),
            )
        }
    }

    /// The permissions granted one by one: what the or-masks give, narrowed
    /// by every and-mask from the root down.
    pub open spec fn granted_permissions(self, to: PointView, on: PointView, fuel: nat)
        -> Permissions {
        self.walk_or(to, on, fuel, 0).spec_and(self.walk_and(to, on, on.segments.len() as int + 1))
    }

    /// The access of the principal `to` on the particle `on`, where the
    /// chain of grantors is followed `fuel` deep.
    pub open spec fn access_bounded(self, to: PointView, on: PointView, fuel: nat) -> Result<
        AccessView,
        RegistryError,
    > {
        if to == hyperuser() {
            if self.owns(to, on) {
                Ok(AccessView::SuperOwner)
            } else {
                Ok(AccessView::Super)
            }
        } else if to == on && self.owns(to, on) {
            Ok(AccessView::Owner)
        } else if !self.known(to) || !self.known(on) {
            Err(RegistryError::NotFound)
        } else if self.walk_super(to, on, fuel) {
            if self.owns(to, on) {
                Ok(AccessView::SuperOwner)
            } else {
                Ok(AccessView::Super)
            }
        } else if self.owns(to, on) {
            Ok(AccessView::Owner)
        } else {
            Ok(
                AccessView::Enumerated {
                    privileges: self.walk_privs(to, on, fuel, 0),
                    permissions: self.granted_permissions(to, on, fuel),
                },
            )
        }
    }

    /// The access of the principal `to` on the particle `on`. The chain of
    /// grantors is followed as deep as there are particles.
    pub open spec fn access(self, to: PointView, on: PointView) -> Result<
        AccessView,
        RegistryError,
    > {
        self.access_bounded(to, on, self.rows.len())
    }

    /// The registry with one more grant.
    pub open spec fn with_grant(self, g: GrantView) -> RegistryView {
        RegistryView {
            grants: self.grants.push(g),
            next_grant_id: (self.next_grant_id + 1) as i32,
            ..self
        }
    }
}

/// The standing of a principal, read off its access.
pub proof fn lemma_standing(reg: RegistryView, by: PointView, on: PointView, fuel: nat)
    ensures
        match reg.access_bounded(by, on, fuel) {
            Ok(a) => a.has_super() == reg.has_super(by, on, fuel) && a.has_full() == reg.has_full(
                by,
                on,
                fuel,
            ),
            Err(_) => !reg.has_super(by, on, fuel) && !reg.has_full(by, on, fuel),
        },
{
}

impl Registry {
    /// Records a grant under the next number. Fails with `NotFound` where
    /// the grantor is not registered, and with `Exhausted` where the numbers
    /// have run out; nothing changes then.
    pub fn grant(&mut self, access_grant: &AccessGrant) -> (r: Result<(), RegistryError>)
        requires
            old(self).wf(),
        ensures
            final(self).wf(),
            !old(self)@.registered(access_grant.by_particle@) ==> r == Err::<(), RegistryError>(
                RegistryError::NotFound,
            ) && final(self)@ == old(self)@,
            old(self)@.registered(access_grant.by_particle@) && old(self)@.next_grant_id
                == i32::MAX ==> r == Err::<(), RegistryError>(RegistryError::Exhausted)
                && final(self)@ == old(self)@,
            old(self)@.registered(access_grant.by_particle@) && old(self)@.next_grant_id
                < i32::MAX ==> r is Ok && final(self)@ == old(self)@.with_grant(
                access_grant.indexed(old(self)@.next_grant_id),
            ),
    {
        if !self.contains(&access_grant.by_particle) {
            return Err(RegistryError::NotFound);
        }
        if self.next_grant_id == i32::MAX {
            return Err(RegistryError::Exhausted);
        }
        let ghost before = self@;
        let id = self.next_grant_id;
        let g = IndexedAccessGrant { id, access_grant: access_grant.clone() };
        assert(g@ == access_grant.indexed(id));
        self.grants.push(g);
        self.next_grant_id = id + 1;
        proof {
            let after = self@;
            assert(after.grants =~= before.grants.push(access_grant.indexed(id)));
            assert(after.rows =~= before.rows);
            assert forall|k: int| 0 <= k < after.grants.len() implies after.registered(
                (#[trigger] after.grants[k]).by_particle,
            ) by {
                if k < before.grants.len() {
                    assert(before.registered(before.grants[k].by_particle));
                }
            }
            assert forall|a: int, b: int| 0 <= a < b < after.grants.len() implies (
            #[trigger] after.grants[a]).id < (#[trigger] after.grants[b]).id by {
                if b == before.grants.len() {
                    assert(before.grants[a].id < before.next_grant_id);
                } else {
                    assert(before.grants[a].id < before.grants[b].id);
                }
            }
            assert forall|k: int| 0 <= k < after.grants.len() implies 0 < (
            #[trigger] after.grants[k]).id < after.next_grant_id by {
                if k < before.grants.len() {
                    assert(0 < before.grants[k].id < before.next_grant_id);
                }
            }
        }
        Ok(())
    }

    /// The grants in the order in which they were given.
    pub fn grants(&self) -> (r: &Vec<IndexedAccessGrant>)
        ensures
            grants_view(r@) == self@.grants,
    {
        &self.grants
    }

    /// Whether `to` is the owner of `on`.
    pub fn owns(&self, to: &Point, on: &Point) -> (r: bool)
        requires
            self.wf(),
        ensures
            r == self@.owns(to@, on@),
    {
        match self.find(on) {
            Some(i) => {
                assert(self@.row(on@) == self@.rows[i as int]);
                self.rows[i].owner == *to
            },
            None => false,
        }
    }

    /// Whether the grant at `i` counts at the level `level` of the walk.
    fn grant_counts(
        &self,
        i: usize,
        level: &Point,
        to_h: &PointHierarchy,
        on_h: &PointHierarchy,
        Ghost(d): Ghost<int>,
        Ghost(to): Ghost<PointView>,
        Ghost(on): Ghost<PointView>,
    ) -> (r: bool)
        requires
            i < self@.grants.len(),
            to_h@ == self@.hierarchy(to),
            on_h@ == self@.hierarchy(on),
            level@ == on.truncate(d),
        ensures
            r == self@.counts_at(self@.grants[i as int], d, to, on),
    {
        let g = &self.grants[i];
        assert(self@.grants[i as int] == g@);
        let root = g.access_grant.on_point.query_root();
        root == *level && g.access_grant.to_point.matches(to_h) && g.access_grant.on_point.matches(
            on_h,
        )
    }

    /// Whether the grantor of the grant at `i` has super access, and
    /// whether it has full access, on `on`.
    fn grantor_standing(&self, i: usize, on: &Point, fuel: usize) -> (r: (bool, bool))
        requires
            self.wf(),
            i < self@.grants.len(),
        ensures
            r.0 == (fuel > 0 && self@.has_super(
                self@.grants[i as int].by_particle,
                on@,
                (fuel - 1) as nat,
            )),
            r.1 == self@.grantor_full(self@.grants[i as int], on@, fuel as nat),
        decreases fuel, 0nat,
    {
        if fuel == 0 {
            return (false, false);
        }
        let g = &self.grants[i];
        assert(self@.grants[i as int] == g@);
        let by = self.access_bounded(&g.access_grant.by_particle, on, fuel - 1);
        proof {
            lemma_standing(self@, g@.by_particle, on@, (fuel - 1) as nat);
        }
        match by {
            Ok(a) => (a.has_super(), a.has_full()),
            Err(_) => (false, false),
        }
    }

    /// What the grant at `i` does at one level of the walk: whether it is
    /// a super grant by a grantor with super access, what it adds to the
    /// permissions, and what it leaves of them. Its privilege, if it gives
    /// one, is added to `privileges`.
    fn grant_step(
        &self,
        i: usize,
        on: &Point,
        to_h: &PointHierarchy,
        on_h: &PointHierarchy,
        level: &Point,
        fuel: usize,
        privileges: &mut Privileges,
        Ghost(to): Ghost<PointView>,
    ) -> (r: (bool, Permissions, Permissions))
        requires
            self.wf(),
            i < self@.grants.len(),
            to_h@ == self@.hierarchy(to),
            on_h@ == self@.hierarchy(on@),
            level@.segments.len() <= on@.segments.len(),
            level@ == on@.truncate(level@.segments.len() as int),
        ensures
            r.0 == (self@.super_candidate(i as int, level@.segments.len() as int, to, on@)
                && self@.super_hit(i as int, level@.segments.len() as int, to, on@, fuel as nat)),
            r.1 == self@.or_of(i as int, level@.segments.len() as int, to, on@, fuel as nat),
            r.2 == self@.and_of(i as int, level@.segments.len() as int, to, on@),
            final(privileges)@ == self@.privs_with(
                i as int,
                level@.segments.len() as int,
                to,
                on@,
                fuel as nat,
                old(privileges)@,
            ),
        decreases fuel, 1nat,
    {
        let ghost d = level@.segments.len() as int;
        let ghost g = self@.grants[i as int];
        assert(g == self.grants@[i as int]@);
        assert(g.kind == self.grants@[i as int].access_grant.kind@);
        let counts = self.grant_counts(i, level, to_h, on_h, Ghost(d), Ghost(to), Ghost(on@));
        if !counts {
            return (false, Permissions::none(), Permissions::full());
        }
        let (by_super, by_full) = self.grantor_standing(i, on, fuel);
        match &self.grants[i].access_grant.kind {
            AccessGrantKind::Super => (by_super, Permissions::none(), Permissions::full()),
            AccessGrantKind::Privilege(p) => {
                if by_full {
                    privileges.insert(p);
                }
                (false, Permissions::none(), Permissions::full())
            },
            AccessGrantKind::PermissionsMask(m) => {
                match m.kind {
                    PermissionsMaskKind::Or => {
                        if by_full {
                            (false, m.permissions, Permissions::full())
                        } else {
                            (false, Permissions::none(), Permissions::full())
                        }
                    },
                    PermissionsMaskKind::And => (false, Permissions::none(), m.permissions),
                }
            },
        }
    }

    /// Scans the grants at one level of the walk. Returns whether a super
    /// grant by a grantor with super access was found; where none was, the
    /// privileges and permissions have grown by what the level gives, and
    /// the second result is what the and-masks of the level leave.
    fn scan_level(
        &self,
        to: &Point,
        on: &Point,
        to_h: &PointHierarchy,
        on_h: &PointHierarchy,
        level: &Point,
        fuel: usize,
        privileges: &mut Privileges,
        permissions: &mut Permissions,
    ) -> (r: (bool, Permissions))
        requires
            self.wf(),
            to_h@ == self@.hierarchy(to@),
            on_h@ == self@.hierarchy(on@),
            level@.segments.len() <= on@.segments.len(),
            level@ == on@.truncate(level@.segments.len() as int),
        ensures
            r.0 == exists|i: int| #[trigger]
                self@.super_candidate(i, level@.segments.len() as int, to@, on@)
                    && self@.super_hit(i, level@.segments.len() as int, to@, on@, fuel as nat),
            !r.0 ==> final(privileges)@ == self@.level_privs(
                to@,
                on@,
                fuel as nat,
                level@.segments.len() as int,
                self@.grants.len() as int,
                old(privileges)@,
            ),
            !r.0 ==> *final(permissions) == old(permissions).spec_or(
                self@.level_or(
                    to@,
                    on@,
                    fuel as nat,
                    level@.segments.len() as int,
                    self@.grants.len() as int,
                ),
            ),
            !r.0 ==> r.1 == self@.level_and(
                to@,
                on@,
                level@.segments.len() as int,
                self@.grants.len() as int,
            ),
        decreases fuel, 2nat,
    {
        let ghost d = level@.segments.len() as int;
        let ghost p0 = privileges@;
        let ghost m0 = *permissions;
        let mut ands = Permissions::full();
        let mut i: usize = 0;
        while i < self.grants.len()
            invariant
                i <= self.grants.len(),
                self.wf(),
                to_h@ == self@.hierarchy(to@),
                on_h@ == self@.hierarchy(on@),
                d == level@.segments.len(),
                d <= on@.segments.len(),
                level@ == on@.truncate(d),
                forall|k: int|
                    0 <= k < i && #[trigger] self@.super_candidate(k, d, to@, on@)
                        ==> !self@.super_hit(k, d, to@, on@, fuel as nat),
                privileges@ == self@.level_privs(to@, on@, fuel as nat, d, i as int, p0),
                *permissions == m0.spec_or(self@.level_or(to@, on@, fuel as nat, d, i as int)),
                ands == self@.level_and(to@, on@, d, i as int),
            decreases self.grants.len() - i,
        {
            let (hit, adds, leaves) = self.grant_step(
                i,
                on,
                to_h,
                on_h,
                level,
                fuel,
                privileges,
                Ghost(to@),
            );
            if hit {
                return (true, ands);
            }
            permissions.or(&adds);
            ands.and(&leaves);
            i += 1;
        }
        (false, ands)
    }

    /// Walks the grants from `on` up to the root. Returns whether a super
    /// grant by a grantor with super access was found; where none was, the
    /// privileges and permissions are what the walk gives before and-masks
    /// narrow them, and the list holds what the and-masks of each level
    /// leave, the level of `on` first.
    fn walk_up(
        &self,
        to: &Point,
        on: &Point,
        to_h: &PointHierarchy,
        on_h: &PointHierarchy,
        fuel: usize,
        privileges: &mut Privileges,
        permissions: &mut Permissions,
        level_ands: &mut Vec<Permissions>,
    ) -> (found: bool)
        requires
            self.wf(),
            to_h@ == self@.hierarchy(to@),
            on_h@ == self@.hierarchy(on@),
            old(privileges)@ == (PrivilegesView { full: false, names: Set::empty() }),
            *old(permissions) == Permissions::spec_none(),
            old(level_ands)@.len() == 0,
        ensures
            found == self@.walk_super(to@, on@, fuel as nat),
            !found ==> final(privileges)@ == self@.walk_privs(to@, on@, fuel as nat, 0),
            !found ==> *final(permissions) == self@.walk_or(to@, on@, fuel as nat, 0),
            !found ==> final(level_ands)@.len() == on@.segments.len() + 1,
            !found ==> forall|j: int|
                0 <= j < final(level_ands)@.len() ==> #[trigger] final(level_ands)@[j]
                    == self@.level_and(
                    to@,
                    on@,
                    on@.segments.len() - j,
                    self@.grants.len() as int,
                ),
        decreases fuel, 3nat,
    {
        let n = on.depth();
        let mut d: usize = n;
        let mut done = false;
        while !done
            invariant
                self.wf(),
                n == on@.segments.len(),
                d <= n,
                to_h@ == self@.hierarchy(to@),
                on_h@ == self@.hierarchy(on@),
                level_ands@.len() == (if done {
                    n as int + 1 - d as int
                } else {
                    n as int - d as int
                }),
                forall|j: int|
                    0 <= j < level_ands@.len() ==> #[trigger] level_ands@[j] == self@.level_and(
                        to@,
                        on@,
                        n - j,
                        self@.grants.len() as int,
                    ),
                done ==> d == 0,
                forall|i: int, e: int|
                    (if done {
                        d as int
                    } else {
                        d as int + 1
                    }) <= e && #[trigger] self@.super_candidate(i, e, to@, on@)
                        ==> !self@.super_hit(i, e, to@, on@, fuel as nat),
                privileges@ == self@.walk_privs(
                    to@,
                    on@,
                    fuel as nat,
                    if done {
                        0
                    } else {
                        d as int + 1
                    },
                ),
                *permissions == self@.walk_or(
                    to@,
                    on@,
                    fuel as nat,
                    if done {
                        0
                    } else {
                        d as int + 1
                    },
                ),
            decreases d + (if done { 0int } else { 1int }),
        {
            let level = on.truncate(d);
            assert(level@.segments.len() == d);
            let (found, ands) = self.scan_level(
                to,
                on,
                to_h,
                on_h,
                &level,
                fuel,
                privileges,
                permissions,
            );
            if found {
                proof {
                    let i = choose|i: int| #[trigger]
                        self@.super_candidate(i, d as int, to@, on@) && self@.super_hit(
                            i,
                            d as int,
                            to@,
                            on@,
                            fuel as nat,
                        );
                    assert(self@.super_candidate(i, d as int, to@, on@));
                    assert(self@.walk_super(to@, on@, fuel as nat));
                }
                return true;
            }
            level_ands.push(ands);
            if d == 0 {
                done = true;
            } else {
                d -= 1;
            }
        }
        assert(!self@.walk_super(to@, on@, fuel as nat));
        false
    }

    /// The access of the principal `to` on the particle `on`, where the
    /// chain of grantors is followed `fuel` deep.
    pub fn access_bounded(&self, to: &Point, on: &Point, fuel: usize) -> (r: Result<
        Access,
        RegistryError,
    >)
        requires
            self.wf(),
        ensures
            access_result_view(r) == self@.access_bounded(to@, on@, fuel as nat),
        decreases fuel, 4nat,
    {
        let has_owner = self.owns(to, on);
        let hyper = Point::hyperuser();
        if *to == hyper {
            return if has_owner {
                Ok(Access::SuperOwner)
            } else {
                Ok(Access::Super)
            };
        }
        if *to == *on && has_owner {
            return Ok(Access::Owner);
        }
        let to_h = match self.query(to) {
            Ok(h) => h,
            Err(e) => {
                return Err(e);
            },
        };
        let on_h = match self.query(on) {
            Ok(h) => h,
            Err(e) => {
                return Err(e);
            },
        };
        let mut privileges = Privileges::none();
        let mut permissions = Permissions::none();
        let mut level_ands: Vec<Permissions> = Vec::new();
        let found = self.walk_up(
            to,
            on,
            &to_h,
            &on_h,
            fuel,
            &mut privileges,
            &mut permissions,
            &mut level_ands,
        );
        if found {
            return if has_owner {
                Ok(Access::SuperOwner)
            } else {
                Ok(Access::Super)
            };
        }
        if has_owner {
            return Ok(Access::Owner);
        }
        // Narrow by the and-masks, from the root down.
        let n = on.depth();
        let ghost widened = permissions;
        let mut k: usize = 0;
        while k < level_ands.len()
            invariant
                k <= n + 1,
                n == on@.segments.len(),
                level_ands@.len() == n + 1,
                forall|j: int|
                    0 <= j < level_ands@.len() ==> #[trigger] level_ands@[j] == self@.level_and(
                        to@,
                        on@,
                        n - j,
                        self@.grants.len() as int,
                    ),
                permissions == widened.spec_and(self@.walk_and(to@, on@, k as int)),
            decreases n + 1 - k,
        {
            let mask = level_ands[n - k];
            assert(mask == self@.level_and(to@, on@, k as int, self@.grants.len() as int));
            permissions.and(&mask);
            k += 1;
        }
        Ok(Access::Enumerated(EnumeratedAccess { privileges, permissions }))
    }

    /// The access of the principal `to` on the particle `on`.
    ///
    /// The hyperuser has super access on everything. The owner of a
    /// particle has owner access on it. For anyone else the grants are
    /// walked from `on` up to the root: a super grant by a grantor with
    /// super access gives super access; privileges and or-masks count where
    /// their grantor has full access; and-masks narrow the result, from the
    /// root down. Fails with `NotFound` where `to` or `on` is not known.
    pub fn access(&self, to: &Point, on: &Point) -> (r: Result<Access, RegistryError>)
        requires
            self.wf(),
        ensures
            access_result_view(r) == self@.access(to@, on@),
    {
        self.access_bounded(to, on, self.rows.len())
    }
}

} // verus!
