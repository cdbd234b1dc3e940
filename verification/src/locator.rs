//! Finding the star that owns a particle, and provisioning the particle
//! where no star owns it yet.

use vstd::prelude::*;
use crate::ids::fresh_id;
use crate::kind::Status;
use crate::particle::{LocationView, ParticleLocation};
use crate::point::{Layer, Point, PointView, Surface, SurfaceView};
use crate::registry::{Registry, RegistryError, RegistryView};
use crate::router::sans_id;
use crate::wave::{
    AgentView, Handling, HypMethod, Method, MethodView, Recipients, RecipientsView, Scope,
    Substance, SubstanceView, Wave, WaveKind, WaveView,
};

verus! {

/// Why a particle could not be located.
#[derive(Clone, Copy, Debug, PartialEq, Eq, Structural, Hash)]
pub enum LocateError {
    /// No record for the particle or one of its ancestors.
    NotFound,
    /// The root has no star: nothing can be provisioned.
    RootNotProvisioned,
    /// The star of the parent answered without a location.
    BadReply,
    /// The star of the parent refused; the particle is in panic.
    Panic,
}

/// What is to be done to locate a particle.
#[derive(Debug, PartialEq, Eq)]
pub enum Locate {
    /// The particle lives here.
    Found(ParticleLocation),
    /// The particle at `point` is to be provisioned by the star of its
    /// parent.
    Provision { point: Point, parent_star: Point },
    /// The particle cannot be located.
    Failed(LocateError),
}

pub enum LocateView {
    Found(LocationView),
    Provision { point: PointView, parent_star: PointView },
    Failed(LocateError),
}

impl View for Locate {
    type V = LocateView;

    open spec fn view(&self) -> LocateView {
        match self {
            Locate::Found(l) => LocateView::Found(l@),
            Locate::Provision { point, parent_star } => LocateView::Provision {
                point: point@,
                parent_star: parent_star@,
            },
            Locate::Failed(e) => LocateView::Failed(*e),
        }
    }
}

impl RegistryView {
    /// What is to be provisioned next so that the particle at `p` gets a
    /// star: the particle itself where its parent has a star, else what is
    /// to be provisioned next for the parent.
    pub open spec fn provision_step(self, p: PointView) -> LocateView
        decreases p.segments.len(),
    {
        if p.segments.len() == 0 {
            LocateView::Failed(LocateError::RootNotProvisioned)
        } else {
            match self.record(p.parent()) {
                Err(_) => LocateView::Failed(LocateError::NotFound),
                Ok(parent) => match parent.location.star {
                    Some(star) => LocateView::Provision { point: p, parent_star: star },
                    None => self.provision_step(p.parent()),
                },
            }
        }
    }

    /// What is to be done to locate the particle at `p`: nothing where its
    /// record names its star; else a particle is to be provisioned.
    pub open spec fn locate(self, p: PointView) -> LocateView {
        match self.record(p) {
            Err(_) => LocateView::Failed(LocateError::NotFound),
            Ok(record) => if record.location.star is Some {
                LocateView::Found(record.location)
            } else {
                self.provision_step(p)
            },
        }
    }
}

/// The request to provision a particle, without its identifier: a ping
/// with the provision method from the core of the star that asks to the
/// core of the star of the parent.
pub open spec fn provision_request(from_star: PointView, point: PointView, parent_star: PointView)
    -> WaveView {
    WaveView {
        kind: WaveKind::Ping,
        id: Seq::empty(),
        from: SurfaceView { point: from_star, layer: Layer::Core },
        to: RecipientsView::Single(SurfaceView { point: parent_star, layer: Layer::Core }),
        method: MethodView::Hyp(HypMethod::Provision),
        body: SubstanceView::Provision(point),
        status: 200,
        reflection_of: None,
        history: Seq::empty(),
        hops: 0,
        handling: Handling::spec_default(),
        scope: Scope::Full,
        agent: AgentView::Anonymous,
        track: false,
    }
}

/// Locates particles for one star.
#[derive(Debug)]
pub struct SmartLocator {
    /// The address of the star.
    pub star: Point,
}

impl SmartLocator {
    pub fn new(star: Point) -> (r: SmartLocator)
        ensures
            r.star@ == star@,
    {
        SmartLocator { star }
    }

    /// What is to be provisioned next so that the particle gets a star.
    pub fn provision(&self, registry: &Registry, point: &Point) -> (r: Locate)
        requires
            registry.wf(),
        ensures
            r@ == registry@.provision_step(point@),
        decreases point@.segments.len(),
    {
        let parent = match point.parent() {
            Some(parent) => parent,
            None => {
                return Locate::Failed(LocateError::RootNotProvisioned);
            },
        };
        match registry.record(&parent) {
            Err(_) => Locate::Failed(LocateError::NotFound),
            Ok(record) => match record.location.star {
                Some(star) => Locate::Provision { point: point.clone(), parent_star: star },
                None => self.provision(registry, &parent),
            },
        }
    }

    /// What is to be done to locate the particle.
    pub fn locate(&self, registry: &Registry, point: &Point) -> (r: Locate)
        requires
            registry.wf(),
        ensures
            r@ == registry@.locate(point@),
    {
        match registry.record(point) {
            Err(_) => Locate::Failed(LocateError::NotFound),
            Ok(record) => {
                if record.location.star.is_some() {
                    Locate::Found(record.location)
                } else {
                    self.provision(registry, point)
                }
            },
        }
    }

    /// The request to the star of the parent to provision the particle.
    pub fn provision_request(&self, point: &Point, parent_star: &Point) -> (r: Wave)
        ensures
            sans_id(r@) == provision_request(self.star@, point@, parent_star@),
    {
        let mut wave = Wave::directed(
            WaveKind::Ping,
            fresh_id(),
            self.star.to_surface(),
            Recipients::Single(parent_star.to_surface()),
            Method::Hyp(HypMethod::Provision),
        );
        wave.body = Substance::Provision(point.clone());
        wave
    }

    /// Takes in the answer of the star of the parent. An answer with the
    /// status 200 and a location with a star installs the star (and the
    /// host, where the location names one) in the registry and returns the
    /// location. An answer with the status 200 and no such body fails. Any
    /// other answer puts the particle in panic, as far as its status may
    /// move there, and fails.
    pub fn on_provisioned(&self, registry: &mut Registry, point: &Point, pong: &Wave) -> (r: Result<
        ParticleLocation,
        LocateError,
    >)
        requires
            old(registry).wf(),
        ensures
            final(registry).wf(),
            match installable(pong@) {
                Some(location) => if old(registry)@.registered(point@) {
                    &&& r matches Ok(l) && l@ == location
                    &&& final(registry)@ == installed(old(registry)@, point@, location)
                    &&& final(registry)@.locate(point@) == LocateView::Found(
                        final(registry)@.row(point@).location,
                    )
                    &&& final(registry)@.row(point@).location.star == location.star
                } else {
                    r == Err::<ParticleLocation, LocateError>(LocateError::NotFound)
                        && final(registry)@ == old(registry)@
                },
                None => if pong@.status == 200 {
                    r == Err::<ParticleLocation, LocateError>(LocateError::BadReply)
                        && final(registry)@ == old(registry)@
                } else {
                    r == Err::<ParticleLocation, LocateError>(LocateError::Panic)
                        && final(registry)@ == old(registry)@.set_status(
                        point@,
                        Status::Panic,
                    ).0
                },
            },
    {
        if pong.status != 200 {
            let _ = registry.set_status(point, Status::Panic);
            return Err(LocateError::Panic);
        }
        let location = match &pong.body {
            Substance::Location(l) => l.clone(),
            _ => {
                return Err(LocateError::BadReply);
            },
        };
        let star = match &location.star {
            Some(star) => star.clone(),
            None => {
                return Err(LocateError::BadReply);
            },
        };
        let ghost before = registry@;
        match registry.assign_star(point, &star) {
            Ok(_) => {},
            Err(_) => {
                return Err(LocateError::NotFound);
            },
        }
        proof {
            crate::registry::lemma_update_keeps_registered(
                before,
                before.index_of(point@),
                before.assign_star(point@, star@).0.rows[before.index_of(point@)],
            );
            assert(before.rows[before.index_of(point@)].point == point@);
        }
        match &location.host {
            Some(host) => {
                let ghost mid = registry@;
                let _ = registry.assign_host(point, host);
                proof {
                    assert(mid.rows[mid.index_of(point@)].point == point@);
                    crate::registry::lemma_update_keeps_registered(
                        mid,
                        mid.index_of(point@),
                        mid.assign_host(point@, host@).0.rows[mid.index_of(point@)],
                    );
                }
            },
            None => {},
        }
        proof {
            let after = registry@;
            assert(after.registered(point@));
            let k = after.index_of(point@);
            assert(after.rows[k].point == point@);
        }
        Ok(location)
    }
}

/// The location that an answer to a provision request installs: the body
/// of an answer with the status 200, where it is a location with a star.
pub open spec fn installable(pong: WaveView) -> Option<LocationView> {
    if pong.status == 200 {
        match pong.body {
            SubstanceView::Location(l) => if l.star is Some {
                Some(l)
            } else {
                None
            },
            _ => None,
        }
    } else {
        None
    }
}

/// The registry after a location was installed for a particle.
pub open spec fn installed(reg: RegistryView, p: PointView, location: LocationView)
    -> RegistryView {
    let with_star = reg.assign_star(p, location.star->Some_0).0;
    match location.host {
        Some(host) => with_star.assign_host(p, host).0,
        None => with_star,
    }
}

/// The particles for which a provision request is on its way.
#[derive(Debug)]
pub struct Provisions {
    pending: Vec<Point>,
}

impl View for Provisions {
    type V = Set<PointView>;

    closed spec fn view(&self) -> Set<PointView> {
        Set::new(|p: PointView| crate::wave::points_view(self.pending@).contains(p))
    }
}

/// What a caller is to do to locate a particle, when the requests that
/// are on their way are known.
#[derive(Debug, PartialEq, Eq)]
pub enum LocateOnce {
    /// The particle lives here.
    Found(ParticleLocation),
    /// This request is to be sent: the particle at `point` is to be
    /// provisioned by the star of its parent.
    Request { point: Point, parent_star: Point },
    /// A request for the particle at `point` is on its way; its answer
    /// is to be awaited.
    Waiting { point: Point },
    /// The particle cannot be located.
    Failed(LocateError),
}

pub enum LocateOnceView {
    Found(LocationView),
    Request { point: PointView, parent_star: PointView },
    Waiting { point: PointView },
    Failed(LocateError),
}

impl View for LocateOnce {
    type V = LocateOnceView;

    open spec fn view(&self) -> LocateOnceView {
        match self {
            LocateOnce::Found(l) => LocateOnceView::Found(l@),
            LocateOnce::Request { point, parent_star } => LocateOnceView::Request {
                point: point@,
                parent_star: parent_star@,
            },
            LocateOnce::Waiting { point } => LocateOnceView::Waiting { point: point@ },
            LocateOnce::Failed(e) => LocateOnceView::Failed(*e),
        }
    }
}

/// What becomes of a plan to locate a particle when the requests on their
/// way are `waiting`: a particle that is to be provisioned gets a request
/// only where none is on its way for it, and is waited for otherwise.
pub open spec fn request_step(plan: LocateView, waiting: Set<PointView>) -> (
    Set<PointView>,
    LocateOnceView,
) {
    match plan {
        LocateView::Found(l) => (waiting, LocateOnceView::Found(l)),
        LocateView::Provision { point, parent_star } => if waiting.contains(point) {
            (waiting, LocateOnceView::Waiting { point })
        } else {
            (waiting.insert(point), LocateOnceView::Request { point, parent_star })
        },
        LocateView::Failed(e) => (waiting, LocateOnceView::Failed(e)),
    }
}

impl Provisions {
    /// No request is on its way.
    pub fn new() -> (r: Provisions)
        ensures
            r@ == Set::<PointView>::empty(),
    {
        let r = Provisions { pending: Vec::new() };
        assert(r@ =~= Set::<PointView>::empty());
        r
    }

    /// Whether a request for the particle is on its way.
    pub fn waits(&self, point: &Point) -> (r: bool)
        ensures
            r == self@.contains(point@),
    {
        crate::wave::holds(&self.pending, point)
    }

    /// The request for the particle has been answered, or given up.
    pub fn done(&mut self, point: &Point)
        ensures
            final(self)@ == old(self)@.remove(point@),
    {
        let mut kept: Vec<Point> = Vec::new();
        let mut i: usize = 0;
        while i < self.pending.len()
            invariant
                i <= self.pending.len(),
                forall|q: PointView|
                    crate::wave::points_view(kept@).contains(q) <==> q != point@ && exists|k: int|
                        0 <= k < i && #[trigger] crate::wave::points_view(self.pending@)[k] == q,
            decreases self.pending.len() - i,
        {
            let ghost before = crate::wave::points_view(kept@);
            if !(self.pending[i] == *point) {
                kept.push(self.pending[i].clone());
                proof {
                    let after = crate::wave::points_view(kept@);
                    let x = crate::wave::points_view(self.pending@)[i as int];
                    assert(after =~= before.push(x));
                    assert forall|q: PointView| after.contains(q) <==> q != point@ && exists|
                        k: int,
                    |
                        0 <= k < i + 1 && #[trigger] crate::wave::points_view(self.pending@)[k]
                            == q by {
                        if after.contains(q) {
                            let j = choose|j: int| 0 <= j < after.len() && after[j] == q;
                            if j < before.len() {
                                assert(before[j] == q);
                                assert(before.contains(q));
                            }
                        }
                        if q != point@ && exists|k: int|
                            0 <= k < i + 1 && #[trigger] crate::wave::points_view(
                                self.pending@,
                            )[k] == q {
                            let k = choose|k: int|
                                0 <= k < i + 1 && #[trigger] crate::wave::points_view(
                                    self.pending@,
                                )[k] == q;
                            if k < i {
                                assert(before.contains(q));
                                let j = choose|j: int| 0 <= j < before.len() && before[j] == q;
                                assert(after[j] == q);
                            } else {
                                assert(after[before.len() as int] == q);
                            }
                        }
                    }
                }
            }
            i += 1;
        }
        let ghost was = self@;
        let ghost all = crate::wave::points_view(self.pending@);
        self.pending = kept;
        proof {
            assert forall|q: PointView| self@.contains(q) <==> was.remove(point@).contains(
                q,
            ) by {
                if was.contains(q) && q != point@ {
                    let k = choose|k: int| 0 <= k < all.len() && all[k] == q;
                    assert(all[k] == q);
                }
            }
            assert(self@ =~= was.remove(point@));
        }
    }
}

impl SmartLocator {
    /// What a caller is to do to locate the particle, given the requests
    /// that are on their way: as `locate` says, but a request for a particle
    /// goes out only where none is on its way, and is noted then.
    pub fn locate_once(&self, registry: &Registry, provisions: &mut Provisions, point: &Point) -> (r:
        LocateOnce)
        requires
            registry.wf(),
        ensures
            (final(provisions)@, r@) == request_step(registry@.locate(point@), old(provisions)@),
    {
        match self.locate(registry, point) {
            Locate::Found(location) => LocateOnce::Found(location),
            Locate::Provision { point, parent_star } => {
                if provisions.waits(&point) {
                    LocateOnce::Waiting { point }
                } else {
                    let ghost was = provisions@;
                    let ghost before = crate::wave::points_view(provisions.pending@);
                    provisions.pending.push(point.clone());
                    proof {
                        let after = crate::wave::points_view(provisions.pending@);
                        assert(after =~= before.push(point@));
                        assert forall|q: PointView| provisions@.contains(q) <==> was.insert(
                            point@,
                        ).contains(q) by {
                            if after.contains(q) {
                                let j = choose|j: int| 0 <= j < after.len() && after[j] == q;
                                if j < before.len() {
                                    assert(before[j] == q);
                                    assert(before.contains(q));
                                }
                            }
                            if before.contains(q) {
                                let j = choose|j: int| 0 <= j < before.len() && before[j] == q;
                                assert(after[j] == q);
                            }
                            if q == point@ {
                                assert(after[before.len() as int] == q);
                            }
                        }
                        assert(provisions@ =~= was.insert(point@));
                    }
                    LocateOnce::Request { point, parent_star }
                }
            },
            Locate::Failed(e) => LocateOnce::Failed(e),
        }
    }
}

/// While the registry stays as it is, at most one request goes out for a
/// particle: whoever locates after a request went out waits for its
/// answer, and every caller is told the same particle and the same star.
pub proof fn law_one_request(plan: LocateView, waiting: Set<PointView>)
    ensures
        ({
            let first = request_step(plan, waiting);
            let second = request_step(plan, first.0);
            &&& second.0 == first.0
            &&& !(second.1 is Request)
            &&& first.1 matches LocateOnceView::Request { point, parent_star } ==> plan
                == (LocateView::Provision { point, parent_star }) && second.1
                == (LocateOnceView::Waiting { point })
            &&& !(first.1 is Request) ==> second.1 == first.1
        }),
{
}

/// Assigning a particle to a star is idempotent: the second assignment to
/// the same star changes nothing. And whoever locates the particle after
/// the assignment finds that star, with nothing left to provision.
pub proof fn law_location_idempotent(reg: RegistryView, p: PointView, star: PointView)
    requires
        reg.wf(),
        reg.registered(p),
    ensures
        reg.assign_star(p, star).0.assign_star(p, star).0 == reg.assign_star(p, star).0,
        reg.assign_star(p, star).0.locate(p) matches LocateView::Found(l) && l.star == Some(star),
{
    let once = reg.assign_star(p, star).0;
    let i = reg.index_of(p);
    assert(reg.rows[i].point == p);
    crate::registry::lemma_update_keeps_registered(reg, i, once.rows[i]);
    crate::registry::lemma_update_keeps_wf(reg, i, once.rows[i]);
    assert(once.registered(p));
    let j = once.index_of(p);
    assert(once.rows[j].point == p);
    assert(once.rows[i].point == p);
    assert(i == j);
    let twice = once.assign_star(p, star).0;
    assert(twice.rows =~= once.rows);
}

} // verus!
