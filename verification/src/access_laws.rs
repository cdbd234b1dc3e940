//! What a new mask grant does to the access of every principal.

use vstd::prelude::*;
use crate::point::PointView;
use crate::registry::{GrantKindView, GrantView, RegistryView};
use crate::security::{AccessView, Permissions, PermissionsMaskKind, PrivilegesView};

verus! {

/// Whether a grant is a permissions mask.
pub open spec fn is_mask(g: GrantView) -> bool {
    g.kind is PermissionsMask
}

/// A new grant changes nothing about the particles: what is registered,
/// the hierarchies, who owns what, and which of the old grants count.
pub proof fn lemma_grant_keeps_rows(reg: RegistryView, g: GrantView, to: PointView, on: PointView)
    ensures
        reg.with_grant(g).known(to) == reg.known(to),
        reg.with_grant(g).known(on) == reg.known(on),
        reg.with_grant(g).owns(to, on) == reg.owns(to, on),
        reg.with_grant(g).hierarchy(to) == reg.hierarchy(to),
        reg.with_grant(g).hierarchy(on) == reg.hierarchy(on),
        forall|h: GrantView, d: int|
            reg.with_grant(g).counts_at(h, d, to, on) == reg.counts_at(h, d, to, on),
{
    let reg2 = reg.with_grant(g);
    assert(reg2.rows == reg.rows);
    assert(reg2.hierarchy(to).segments =~= reg.hierarchy(to).segments);
    assert(reg2.hierarchy(on).segments =~= reg.hierarchy(on).segments);
    assert forall|j: int| 1 <= j <= to.segments.len() implies reg2.registered(
        #[trigger] to.truncate(j),
    ) == reg.registered(to.truncate(j)) by {}
    assert forall|j: int| 1 <= j <= on.segments.len() implies reg2.registered(
        #[trigger] on.truncate(j),
    ) == reg.registered(on.truncate(j)) by {}
}

/// A new grant that is not a super grant gives nobody super access and
/// takes it from nobody.
pub proof fn lemma_mask_keeps_super(
    reg: RegistryView,
    g: GrantView,
    to: PointView,
    on: PointView,
    fuel: nat,
)
    requires
        !(g.kind is Super),
    ensures
        reg.with_grant(g).has_super(to, on, fuel) == reg.has_super(to, on, fuel),
    decreases fuel,
{
    let reg2 = reg.with_grant(g);
    lemma_grant_keeps_rows(reg, g, to, on);
    if fuel > 0 {
        let f = (fuel - 1) as nat;
        if exists|i: int, d: int| #[trigger]
            reg2.super_candidate(i, d, to, on) && reg2.has_super(
                reg2.grants[i].by_particle,
                on,
                f,
            ) {
            let (i, d) = choose|i: int, d: int| #[trigger]
                reg2.super_candidate(i, d, to, on) && reg2.has_super(
                    reg2.grants[i].by_particle,
                    on,
                    f,
                );
            assert(i < reg.grants.len());
            assert(reg2.grants[i] == reg.grants[i]);
            lemma_mask_keeps_super(reg, g, reg.grants[i].by_particle, on, f);
            assert(reg.super_candidate(i, d, to, on));
        }
        if exists|i: int, d: int| #[trigger]
            reg.super_candidate(i, d, to, on) && reg.has_super(reg.grants[i].by_particle, on, f) {
            let (i, d) = choose|i: int, d: int| #[trigger]
                reg.super_candidate(i, d, to, on) && reg.has_super(
                    reg.grants[i].by_particle,
                    on,
                    f,
                );
            assert(reg2.grants[i] == reg.grants[i]);
            lemma_mask_keeps_super(reg, g, reg.grants[i].by_particle, on, f);
            assert(reg2.super_candidate(i, d, to, on));
        }
    }
}

/// A new grant that is not a super grant leaves the walk's search for a
/// super grant as it was.
pub proof fn lemma_mask_keeps_walk_super(
    reg: RegistryView,
    g: GrantView,
    to: PointView,
    on: PointView,
    fuel: nat,
)
    requires
        !(g.kind is Super),
    ensures
        reg.with_grant(g).walk_super(to, on, fuel) == reg.walk_super(to, on, fuel),
{
    let reg2 = reg.with_grant(g);
    lemma_grant_keeps_rows(reg, g, to, on);
    if reg2.walk_super(to, on, fuel) {
        let (i, d) = choose|i: int, d: int| #[trigger]
            reg2.super_candidate(i, d, to, on) && reg2.super_hit(i, d, to, on, fuel);
        assert(reg2.grants[i] == reg.grants[i]);
        lemma_mask_keeps_super(reg, g, reg.grants[i].by_particle, on, (fuel - 1) as nat);
        assert(reg.super_candidate(i, d, to, on));
    }
    if reg.walk_super(to, on, fuel) {
        let (i, d) = choose|i: int, d: int| #[trigger]
            reg.super_candidate(i, d, to, on) && reg.super_hit(i, d, to, on, fuel);
        assert(reg2.grants[i] == reg.grants[i]);
        lemma_mask_keeps_super(reg, g, reg.grants[i].by_particle, on, (fuel - 1) as nat);
        assert(reg2.super_candidate(i, d, to, on));
    }
}

/// A new grant that is not a super grant leaves the standing of every
/// grantor as it was.
pub proof fn lemma_mask_keeps_grantor(
    reg: RegistryView,
    g: GrantView,
    h: GrantView,
    on: PointView,
    fuel: nat,
)
    requires
        !(g.kind is Super),
    ensures
        reg.with_grant(g).grantor_full(h, on, fuel) == reg.grantor_full(h, on, fuel),
{
    if fuel > 0 {
        lemma_mask_keeps_super(reg, g, h.by_particle, on, (fuel - 1) as nat);
        lemma_grant_keeps_rows(reg, g, h.by_particle, on);
    }
}

/// A new mask leaves what each old grant does as it was.
pub proof fn lemma_mask_keeps_old_grants(
    reg: RegistryView,
    g: GrantView,
    to: PointView,
    on: PointView,
    fuel: nat,
    d: int,
    i: int,
    acc: PrivilegesView,
)
    requires
        !(g.kind is Super),
        0 <= i < reg.grants.len(),
    ensures
        reg.with_grant(g).or_of(i, d, to, on, fuel) == reg.or_of(i, d, to, on, fuel),
        reg.with_grant(g).and_of(i, d, to, on) == reg.and_of(i, d, to, on),
        reg.with_grant(g).privs_with(i, d, to, on, fuel, acc) == reg.privs_with(
            i,
            d,
            to,
            on,
            fuel,
            acc,
        ),
{
    lemma_grant_keeps_rows(reg, g, to, on);
    lemma_mask_keeps_grantor(reg, g, reg.grants[i], on, fuel);
    assert(reg.with_grant(g).grants[i] == reg.grants[i]);
}

/// A new mask leaves what the old grants do at a level as it was.
pub proof fn lemma_mask_keeps_level(
    reg: RegistryView,
    g: GrantView,
    to: PointView,
    on: PointView,
    fuel: nat,
    d: int,
    n: int,
    acc: PrivilegesView,
)
    requires
        !(g.kind is Super),
        n <= reg.grants.len(),
    ensures
        reg.with_grant(g).level_or(to, on, fuel, d, n) == reg.level_or(to, on, fuel, d, n),
        reg.with_grant(g).level_and(to, on, d, n) == reg.level_and(to, on, d, n),
        reg.with_grant(g).level_privs(to, on, fuel, d, n, acc) == reg.level_privs(
            to,
            on,
            fuel,
            d,
            n,
            acc,
        ),
    decreases n,
{
    if n > 0 {
        lemma_mask_keeps_level(reg, g, to, on, fuel, d, n - 1, acc);
        lemma_mask_keeps_old_grants(
            reg,
            g,
            to,
            on,
            fuel,
            d,
            n - 1,
            reg.level_privs(to, on, fuel, d, n - 1, acc),
        );
    }
}

/// What a new mask does at one level: an or-mask can only add to what the
/// or-masks give and leaves the rest; an and-mask can only take from what
/// the and-masks leave and leaves the rest. The privileges stay.
pub proof fn lemma_mask_at_level(
    reg: RegistryView,
    g: GrantView,
    to: PointView,
    on: PointView,
    fuel: nat,
    d: int,
    acc: PrivilegesView,
)
    requires
        is_mask(g),
    ensures
        reg.level_or(to, on, fuel, d, reg.grants.len() as int).within(
            reg.with_grant(g).level_or(to, on, fuel, d, reg.grants.len() as int + 1),
        ),
        reg.with_grant(g).level_and(to, on, d, reg.grants.len() as int + 1).within(
            reg.level_and(to, on, d, reg.grants.len() as int),
        ),
        g.kind->PermissionsMask_0.kind == PermissionsMaskKind::And ==> reg.with_grant(g).level_or(
            to,
            on,
            fuel,
            d,
            reg.grants.len() as int + 1,
        ) == reg.level_or(to, on, fuel, d, reg.grants.len() as int),
        g.kind->PermissionsMask_0.kind == PermissionsMaskKind::Or ==> reg.with_grant(g).level_and(
            to,
            on,
            d,
            reg.grants.len() as int + 1,
        ) == reg.level_and(to, on, d, reg.grants.len() as int),
        reg.with_grant(g).level_privs(to, on, fuel, d, reg.grants.len() as int + 1, acc)
            == reg.level_privs(to, on, fuel, d, reg.grants.len() as int, acc),
{
    let n = reg.grants.len() as int;
    let reg2 = reg.with_grant(g);
    lemma_mask_keeps_level(reg, g, to, on, fuel, d, n, acc);
    assert(reg2.grants[n] == g);
    assert(reg2.grants.len() == n + 1);
}

/// What a new mask does to the walk.
pub proof fn lemma_mask_on_walk(
    reg: RegistryView,
    g: GrantView,
    to: PointView,
    on: PointView,
    fuel: nat,
    d: int,
)
    requires
        is_mask(g),
        0 <= d,
    ensures
        reg.walk_or(to, on, fuel, d).within(reg.with_grant(g).walk_or(to, on, fuel, d)),
        g.kind->PermissionsMask_0.kind == PermissionsMaskKind::And ==> reg.with_grant(g).walk_or(
            to,
            on,
            fuel,
            d,
        ) == reg.walk_or(to, on, fuel, d),
        reg.with_grant(g).walk_privs(to, on, fuel, d) == reg.walk_privs(to, on, fuel, d),
    decreases on.segments.len() - d + 1,
{
    if d <= on.segments.len() {
        lemma_mask_on_walk(reg, g, to, on, fuel, d + 1);
        lemma_mask_at_level(reg, g, to, on, fuel, d, reg.walk_privs(to, on, fuel, d + 1));
    }
}

/// What a new mask does to the narrowing from the root down.
pub proof fn lemma_mask_on_narrowing(
    reg: RegistryView,
    g: GrantView,
    to: PointView,
    on: PointView,
    k: int,
)
    requires
        is_mask(g),
    ensures
        reg.with_grant(g).walk_and(to, on, k).within(reg.walk_and(to, on, k)),
        g.kind->PermissionsMask_0.kind == PermissionsMaskKind::Or ==> reg.with_grant(g).walk_and(
            to,
            on,
            k,
        ) == reg.walk_and(to, on, k),
    decreases k,
{
    if k > 0 {
        lemma_mask_on_narrowing(reg, g, to, on, k - 1);
        lemma_mask_at_level(
            reg,
            g,
            to,
            on,
            0,
            k - 1,
            PrivilegesView { full: false, names: Set::empty() },
        );
    }
}

/// A new or-mask never takes access away: whatever a principal could do
/// with a particle before the grant, it can do after it, and super and
/// owner standing are as they were.
pub proof fn law_or_mask_widens(reg: RegistryView, g: GrantView, to: PointView, on: PointView)
    requires
        g.kind matches GrantKindView::PermissionsMask(m) && m.kind == PermissionsMaskKind::Or,
    ensures
        match (reg.access(to, on), reg.with_grant(g).access(to, on)) {
            (Ok(before), Ok(after)) => before.within(after) && before.has_super()
                == after.has_super() && before.has_owner() == after.has_owner(),
            (Err(e1), Err(e2)) => e1 == e2,
            _ => false,
        },
{
    let fuel = reg.rows.len();
    lemma_grant_keeps_rows(reg, g, to, on);
    lemma_mask_keeps_walk_super(reg, g, to, on, fuel);
    lemma_mask_on_walk(reg, g, to, on, fuel, 0);
    lemma_mask_on_narrowing(reg, g, to, on, on.segments.len() as int + 1);
}

/// A new and-mask never gives access: whatever a principal can do with a
/// particle after the grant, it could do before it, and super and owner
/// standing are as they were.
pub proof fn law_and_mask_narrows(reg: RegistryView, g: GrantView, to: PointView, on: PointView)
    requires
        g.kind matches GrantKindView::PermissionsMask(m) && m.kind == PermissionsMaskKind::And,
    ensures
        match (reg.access(to, on), reg.with_grant(g).access(to, on)) {
            (Ok(before), Ok(after)) => after.within(before) && before.has_super()
                == after.has_super() && before.has_owner() == after.has_owner(),
            (Err(e1), Err(e2)) => e1 == e2,
            _ => false,
        },
{
    let fuel = reg.rows.len();
    lemma_grant_keeps_rows(reg, g, to, on);
    lemma_mask_keeps_walk_super(reg, g, to, on, fuel);
    lemma_mask_on_walk(reg, g, to, on, fuel, 0);
    lemma_mask_on_narrowing(reg, g, to, on, on.segments.len() as int + 1);
}

/// Whether what the grant gives depends on the standing of its grantor:
/// it is an or-mask or a privilege.
pub open spec fn gives(g: GrantView) -> bool {
    match g.kind {
        GrantKindView::PermissionsMask(m) => m.kind == PermissionsMaskKind::Or,
        GrantKindView::Privilege(_) => true,
        GrantKindView::Super => false,
    }
}

/// A new grant of a grantor without full access changes nothing at a
/// level.
pub proof fn lemma_powerless_at_level(
    reg: RegistryView,
    g: GrantView,
    to: PointView,
    on: PointView,
    fuel: nat,
    d: int,
    acc: PrivilegesView,
)
    requires
        gives(g),
        !reg.grantor_full(g, on, fuel),
    ensures
        reg.with_grant(g).level_or(to, on, fuel, d, reg.grants.len() as int + 1) == reg.level_or(
            to,
            on,
            fuel,
            d,
            reg.grants.len() as int,
        ),
        reg.with_grant(g).level_privs(to, on, fuel, d, reg.grants.len() as int + 1, acc)
            == reg.level_privs(to, on, fuel, d, reg.grants.len() as int, acc),
{
    let n = reg.grants.len() as int;
    let reg2 = reg.with_grant(g);
    lemma_mask_keeps_level(reg, g, to, on, fuel, d, n, acc);
    lemma_mask_keeps_grantor(reg, g, g, on, fuel);
    assert(reg2.grants[n] == g);
    assert(reg2.grants.len() == n + 1);
}

/// A new grant that is no and-mask leaves what the and-masks leave at a
/// level.
pub proof fn lemma_giving_at_level(
    reg: RegistryView,
    g: GrantView,
    to: PointView,
    on: PointView,
    d: int,
)
    requires
        gives(g),
    ensures
        reg.with_grant(g).level_and(to, on, d, reg.grants.len() as int + 1) == reg.level_and(
            to,
            on,
            d,
            reg.grants.len() as int,
        ),
{
    let n = reg.grants.len() as int;
    let reg2 = reg.with_grant(g);
    lemma_mask_keeps_level(
        reg,
        g,
        to,
        on,
        0,
        d,
        n,
        PrivilegesView { full: false, names: Set::empty() },
    );
    assert(reg2.grants[n] == g);
    assert(reg2.grants.len() == n + 1);
}

/// A new grant of a grantor without full access changes nothing on the
/// walk.
pub proof fn lemma_powerless_on_walk(
    reg: RegistryView,
    g: GrantView,
    to: PointView,
    on: PointView,
    fuel: nat,
    d: int,
)
    requires
        gives(g),
        !reg.grantor_full(g, on, fuel),
        0 <= d,
    ensures
        reg.with_grant(g).walk_or(to, on, fuel, d) == reg.walk_or(to, on, fuel, d),
        reg.with_grant(g).walk_privs(to, on, fuel, d) == reg.walk_privs(to, on, fuel, d),
    decreases on.segments.len() - d + 1,
{
    if d <= on.segments.len() {
        lemma_powerless_on_walk(reg, g, to, on, fuel, d + 1);
        lemma_powerless_at_level(reg, g, to, on, fuel, d, reg.walk_privs(to, on, fuel, d + 1));
    }
}

/// A new grant that is no and-mask leaves the narrowing from the root
/// down as it was.
pub proof fn lemma_giving_on_narrowing(
    reg: RegistryView,
    g: GrantView,
    to: PointView,
    on: PointView,
    k: int,
)
    requires
        gives(g),
    ensures
        reg.with_grant(g).walk_and(to, on, k) == reg.walk_and(to, on, k),
    decreases k,
{
    if k > 0 {
        lemma_giving_on_narrowing(reg, g, to, on, k - 1);
        lemma_giving_at_level(reg, g, to, on, k - 1);
    }
}

/// A grantor without full access gives nothing: a new or-mask or a new
/// privilege whose grantor has not full access on a particle leaves the
/// access of every principal on that particle as it was.
pub proof fn law_powerless_grantor(reg: RegistryView, g: GrantView, to: PointView, on: PointView)
    requires
        gives(g),
        !reg.grantor_full(g, on, reg.rows.len()),
    ensures
        reg.with_grant(g).access(to, on) == reg.access(to, on),
{
    let fuel = reg.rows.len();
    lemma_grant_keeps_rows(reg, g, to, on);
    lemma_mask_keeps_walk_super(reg, g, to, on, fuel);
    lemma_powerless_on_walk(reg, g, to, on, fuel, 0);
    lemma_giving_on_narrowing(reg, g, to, on, on.segments.len() as int + 1);
}

} // verus!
