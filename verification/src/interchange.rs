//! The interchange of a star: the endpoints that are mounted in it, and
//! the hypergate through which an endpoint gets in.

use vstd::prelude::*;
use crate::ids::fresh_id;
use crate::point::{Layer, Point, PointView, Surface, SurfaceView};
use crate::router::{hop_around, sans_id, transport_around};
use crate::wave::{
    Agent, AgentView, Knock, KnockView, Recipients, RecipientsView, Substance, SubstanceView, Wave,
    WaveKind, WaveView,
};

verus! {

/// What identifies an endpoint: the surface of the other end, and on
/// whose behalf it speaks.
#[derive(Debug, PartialEq, Eq, Hash)]
pub struct HyperwayStub {
    pub remote: Surface,
    pub agent: Agent,
}

pub struct StubView {
    pub remote: SurfaceView,
    pub agent: AgentView,
}

impl View for HyperwayStub {
    type V = StubView;

    open spec fn view(&self) -> StubView {
        StubView { remote: self.remote@, agent: self.agent@ }
    }
}

impl Clone for HyperwayStub {
    fn clone(&self) -> (r: HyperwayStub)
        ensures
            r@ == self@,
    {
        HyperwayStub { remote: self.remote.clone(), agent: self.agent.clone() }
    }
}

impl HyperwayStub {
    pub fn new(remote: Surface, agent: Agent) -> (r: HyperwayStub)
        ensures
            r@ == (StubView { remote: remote@, agent: agent@ }),
    {
        HyperwayStub { remote, agent }
    }
}

/// The views of a sequence of stubs.
pub open spec fn mounts_view(v: Seq<HyperwayStub>) -> Seq<StubView> {
    Seq::new(v.len(), |i: int| v[i]@)
}

/// Whether an endpoint for the surface is mounted.
pub open spec fn mounted(mounts: Seq<StubView>, remote: SurfaceView) -> bool {
    exists|i: int| 0 <= i < mounts.len() && (#[trigger] mounts[i]).remote == remote
}

/// The place of the endpoint for the surface.
pub open spec fn mount_index(mounts: Seq<StubView>, remote: SurfaceView) -> int {
    choose|i: int| 0 <= i < mounts.len() && (#[trigger] mounts[i]).remote == remote
}

/// No surface has two endpoints.
pub open spec fn mounts_wf(mounts: Seq<StubView>) -> bool {
    forall|i: int, j: int|
        0 <= i < mounts.len() && 0 <= j < mounts.len() && i != j ==> (#[trigger] mounts[i]).remote
            != (#[trigger] mounts[j]).remote
}

/// Whether an endpoint for the address, at whatever layer, is mounted.
pub open spec fn serves(mounts: Seq<StubView>, point: PointView) -> bool {
    exists|i: int| 0 <= i < mounts.len() && (#[trigger] mounts[i]).remote.point == point
}

/// Why the interchange refused.
#[derive(Clone, Copy, Debug, PartialEq, Eq, Structural, Hash)]
pub enum InterchangeError {
    /// An endpoint for the surface is mounted already.
    AlreadyMounted,
    /// No endpoint for the surface is mounted.
    NotMounted,
}

/// The endpoints that are mounted in a star.
#[derive(Debug)]
pub struct HyperwayInterchange {
    mounts: Vec<HyperwayStub>,
}

impl View for HyperwayInterchange {
    type V = Seq<StubView>;

    closed spec fn view(&self) -> Seq<StubView> {
        mounts_view(self.mounts@)
    }
}

/// Where the interchange sends a wave.
#[derive(Debug, PartialEq, Eq)]
pub enum Routed {
    /// To the endpoint with the stub.
    Deliver(HyperwayStub),
    /// Nowhere: no endpoint serves the recipient. The identifier is for
    /// the warning.
    Dropped(String),
}

impl HyperwayInterchange {
    pub open spec fn wf(&self) -> bool {
        mounts_wf(self@)
    }

    /// An interchange without endpoints.
    pub fn new() -> (r: HyperwayInterchange)
        ensures
            r.wf(),
            r@.len() == 0,
    {
        HyperwayInterchange { mounts: Vec::new() }
    }

    /// The place of the endpoint for the surface, if one is mounted.
    fn find(&self, remote: &Surface) -> (r: Option<usize>)
        requires
            self.wf(),
        ensures
            r is Some <==> mounted(self@, remote@),
            r matches Some(i) ==> i < self@.len() && self@[i as int].remote == remote@ && i
                == mount_index(self@, remote@),
    {
        let mut i: usize = 0;
        while i < self.mounts.len()
            invariant
                i <= self.mounts.len(),
                self.wf(),
                forall|j: int| 0 <= j < i ==> (#[trigger] self@[j]).remote != remote@,
            decreases self.mounts.len() - i,
        {
            assert(self@[i as int] == self.mounts@[i as int]@);
            if self.mounts[i].remote == *remote {
                proof {
                    let k = mount_index(self@, remote@);
                    assert(self@[k].remote == remote@);
                }
                return Some(i);
            }
            i += 1;
        }
        None
    }

    /// Whether an endpoint for the surface is mounted.
    pub fn is_mounted(&self, remote: &Surface) -> (r: bool)
        requires
            self.wf(),
        ensures
            r == mounted(self@, remote@),
    {
        self.find(remote).is_some()
    }

    /// Mounts an endpoint. Where an endpoint for the same surface is
    /// mounted already, a singular mount takes its place, and any other
    /// mount fails and changes nothing.
    pub fn mount(&mut self, stub: HyperwayStub, singular: bool) -> (r: Result<
        (),
        InterchangeError,
    >)
        requires
            old(self).wf(),
        ensures
            final(self).wf(),
            r is Err <==> mounted(old(self)@, stub@.remote) && !singular,
            r matches Err(e) ==> e == InterchangeError::AlreadyMounted && final(self)@ == old(self)@,
            r is Ok ==> final(self)@ == (if mounted(old(self)@, stub@.remote) {
                old(self)@.update(mount_index(old(self)@, stub@.remote), stub@)
            } else {
                old(self)@.push(stub@)
            }),
    {
        let ghost before = self@;
        match self.find(&stub.remote) {
            Some(i) => {
                if !singular {
                    return Err(InterchangeError::AlreadyMounted);
                }
                self.mounts[i] = stub;
                proof {
                    assert(self@ =~= before.update(i as int, stub@));
                    assert forall|a: int, b: int|
                        0 <= a < self@.len() && 0 <= b < self@.len() && a != b implies (
                    #[trigger] self@[a]).remote != (#[trigger] self@[b]).remote by {
                        assert(self@[a].remote == before[a].remote);
                        assert(self@[b].remote == before[b].remote);
                    }
                }
                Ok(())
            },
            None => {
                self.mounts.push(stub);
                proof {
                    assert(self@ =~= before.push(stub@));
                    assert forall|a: int, b: int|
                        0 <= a < self@.len() && 0 <= b < self@.len() && a != b implies (
                    #[trigger] self@[a]).remote != (#[trigger] self@[b]).remote by {
                        if a < before.len() {
                            assert(self@[a] == before[a]);
                        }
                        if b < before.len() {
                            assert(self@[b] == before[b]);
                        }
                    }
                }
                Ok(())
            },
        }
    }

    /// Takes the endpoint for the surface of the stub out. Fails where
    /// none is mounted.
    pub fn unmount(&mut self, stub: &HyperwayStub) -> (r: Result<(), InterchangeError>)
        requires
            old(self).wf(),
        ensures
            final(self).wf(),
            r is Ok <==> mounted(old(self)@, stub@.remote),
            r matches Err(e) ==> e == InterchangeError::NotMounted && final(self)@ == old(self)@,
            r is Ok ==> final(self)@ == old(self)@.remove(mount_index(old(self)@, stub@.remote))
                && !mounted(final(self)@, stub@.remote),
    {
        let ghost before = self@;
        match self.find(&stub.remote) {
            Some(i) => {
                self.mounts.remove(i);
                proof {
                    assert(self@ =~= before.remove(i as int));
                    assert forall|a: int| 0 <= a < self@.len() implies #[trigger] self@[a]
                        == before[if a < i {
                        a
                    } else {
                        a + 1
                    }] by {}
                    assert forall|a: int, b: int|
                        0 <= a < self@.len() && 0 <= b < self@.len() && a != b implies (
                    #[trigger] self@[a]).remote != (#[trigger] self@[b]).remote by {
                        let a2 = if a < i { a } else { a + 1 };
                        let b2 = if b < i { b } else { b + 1 };
                        assert(self@[a] == before[a2]);
                        assert(self@[b] == before[b2]);
                    }
                    if mounted(self@, stub@.remote) {
                        let a = mount_index(self@, stub@.remote);
                        let a2 = if a < i { a } else { a + 1 };
                        assert(self@[a] == before[a2]);
                        assert(before[a2].remote == before[i as int].remote);
                    }
                }
                Ok(())
            },
            None => Err(InterchangeError::NotMounted),
        }
    }

    /// Where a wave goes: to the first endpoint that serves the address
    /// of its one recipient. A wave that no endpoint serves, or that has
    /// not one recipient, is dropped.
    pub fn route(&self, wave: &Wave) -> (r: Routed)
        ensures
            match wave@.to {
                RecipientsView::Single(to) => if serves(self@, to.point) {
                    r matches Routed::Deliver(stub) && stub@.remote.point == to.point && mounted(
                        self@,
                        stub@.remote,
                    )
                } else {
                    r matches Routed::Dropped(id) && id@ == wave@.id
                },
                _ => r matches Routed::Dropped(id) && id@ == wave@.id,
            },
    {
        match &wave.to {
            Recipients::Single(to) => {
                let mut i: usize = 0;
                while i < self.mounts.len()
                    invariant
                        i <= self.mounts.len(),
                        wave@.to == RecipientsView::Single(to@),
                        forall|j: int| 0 <= j < i ==> (#[trigger] self@[j]).remote.point != to@.point,
                    decreases self.mounts.len() - i,
                {
                    assert(self@[i as int] == self.mounts@[i as int]@);
                    if self.mounts[i].remote.point == to.point {
                        let stub = self.mounts[i].clone();
                        assert(self@[i as int].remote == stub@.remote);
                        assert(self@[i as int].remote.point == to@.point);
                        return Routed::Deliver(stub);
                    }
                    i += 1;
                }
                Routed::Dropped(wave.id.clone())
            },
            _ => Routed::Dropped(wave.id.clone()),
        }
    }
}

/// What the hypergate tells an endpoint that it lets in.
#[derive(Debug, PartialEq, Eq)]
pub struct Greet {
    /// The surface that the endpoint is to use as the sender of its waves.
    pub surface: Surface,
    pub agent: Agent,
    /// The surface of this star, to which the endpoint sends its hops.
    pub hop: Surface,
    /// The surface at which the waves of the endpoint enter the fabric.
    pub transport: Surface,
}

pub struct GreetView {
    pub surface: SurfaceView,
    pub agent: AgentView,
    pub hop: SurfaceView,
    pub transport: SurfaceView,
}

impl View for Greet {
    type V = GreetView;

    open spec fn view(&self) -> GreetView {
        GreetView {
            surface: self.surface@,
            agent: self.agent@,
            hop: self.hop@,
            transport: self.transport@,
        }
    }
}

/// Why the hypergate did not let an endpoint in.
#[derive(Clone, Copy, Debug, PartialEq, Eq, Structural, Hash)]
pub enum GateError {
    /// The first wave of the endpoint is no knock.
    NotAKnock,
    /// The authenticator rejected the knock.
    AuthFailed,
    /// An endpoint for the surface is mounted already.
    AlreadyMounted,
}

/// The knock that the first wave of an endpoint carries: the wave must be
/// a directed wave whose body is a knock.
pub open spec fn knock_of(wave: WaveView) -> Option<KnockView> {
    if wave.kind.spec_is_directed() {
        match wave.body {
            SubstanceView::Knock(k) => Some(k),
            _ => None,
        }
    } else {
        None
    }
}

/// The hypergate of a star.
#[derive(Debug)]
pub struct HyperGate {
    /// The address of the star.
    pub star: Point,
}

impl HyperGate {
    pub fn new(star: Point) -> (r: HyperGate)
        ensures
            r.star@ == star@,
    {
        HyperGate { star }
    }

    /// The knock that the first wave of an endpoint carries. Fails where
    /// the wave is not directed or its body is no knock.
    pub fn knock(&self, wave: &Wave) -> (r: Result<Knock, GateError>)
        ensures
            r is Ok <==> knock_of(wave@) is Some,
            r matches Ok(k) ==> Some(k@) == knock_of(wave@),
            r matches Err(e) ==> e == GateError::NotAKnock,
    {
        if !wave.is_directed() {
            return Err(GateError::NotAKnock);
        }
        match &wave.body {
            Substance::Knock(k) => Ok(k.clone()),
            _ => Err(GateError::NotAKnock),
        }
    }

    /// The greeting for an endpoint that was given the surface: the
    /// endpoint sends from that surface, hops to the gravity surface of this
    /// star, and enters the fabric at its own address.
    pub fn greet(&self, surface: &Surface, agent: &Agent) -> (r: Greet)
        ensures
            r@ == (GreetView {
                surface: surface@,
                agent: agent@,
                hop: SurfaceView { point: self.star@, layer: Layer::Gravity },
                transport: SurfaceView { point: surface@.point, layer: Layer::Core },
            }),
    {
        Greet {
            surface: surface.clone(),
            agent: agent.clone(),
            hop: Surface::new(self.star.clone(), Layer::Gravity),
            transport: surface.point.to_surface(),
        }
    }

    /// Lets an endpoint in once its knock was judged: an endpoint that
    /// the authenticator accepted under a surface is greeted and mounted; a
    /// rejected one is not. Where an endpoint for the surface is mounted
    /// already, nothing is mounted.
    pub fn let_in(
        &self,
        interchange: &mut HyperwayInterchange,
        verdict: Option<Surface>,
        agent: Agent,
    ) -> (r: Result<Greet, GateError>)
        requires
            old(interchange).wf(),
        ensures
            final(interchange).wf(),
            match verdict {
                None => r == Err::<Greet, GateError>(GateError::AuthFailed) && final(interchange)@
                    == old(interchange)@,
                Some(surface) => if mounted(old(interchange)@, surface@) {
                    r == Err::<Greet, GateError>(GateError::AlreadyMounted) && final(interchange)@
                        == old(interchange)@
                } else {
                    r matches Ok(greet) && greet@.surface == surface@ && greet@.agent == agent@
                        && greet@.hop == (SurfaceView { point: self.star@, layer: Layer::Gravity })
                        && greet@.transport == (SurfaceView {
                        point: surface@.point,
                        layer: Layer::Core,
                    }) && final(interchange)@ == old(interchange)@.push(
                        StubView { remote: surface@, agent: agent@ },
                    )
                },
            },
    {
        let surface = match verdict {
            Some(surface) => surface,
            None => {
                return Err(GateError::AuthFailed);
            },
        };
        let greet = self.greet(&surface, &agent);
        match interchange.mount(HyperwayStub { remote: surface, agent }, false) {
            Ok(_) => Ok(greet),
            Err(_) => Err(GateError::AlreadyMounted),
        }
    }

    /// What becomes of a wave that an endpoint sends in: its sender is
    /// rewritten to the surface of the greeting, it is put into a transport
    /// from the transport surface of the greeting to the core of its
    /// recipient, and the transport into a hop to the hop surface. A wave
    /// that has not one recipient is given back.
    pub fn inbound(&self, greet: &Greet, wave: Wave) -> (r: Result<Wave, Wave>)
        ensures
            r is Ok <==> wave@.to is Single,
            r matches Err(w) ==> w@ == wave@,
            r matches Ok(hop) ==> hop@.is_hop() && hop@.from == greet@.transport && hop@.to
                == RecipientsView::Single(greet@.hop) && (hop@.body matches SubstanceView::Wave(t)
                && sans_id(*t) == transport_around(
                WaveView { from: greet@.surface, ..wave@ },
                greet@.transport,
                SurfaceView { point: wave@.to->Single_0.point, layer: Layer::Core },
            )),
    {
        let to = match &wave.to {
            Recipients::Single(to) => to.point.to_surface(),
            _ => {
                return Err(wave);
            },
        };
        let mut wave = wave;
        wave.from = greet.surface.clone();
        let transport = wave.wrap_in_transport(fresh_id(), greet.transport.clone(), to);
        let hop = transport.wrap_in_hop(fresh_id(), greet.transport.clone(), greet.hop.clone());
        Ok(hop)
    }
}

} // verus!
