//! The router of a star: what it does with a wave that arrives from a
//! lane, with a wave that leaves a particle, and with a transport that is
//! to be sent into the fabric.

use vstd::prelude::*;
use vstd::string::StringExecFns;
use crate::ids::fresh_id;
use crate::particle::{LocationView, ParticleLocation};
use crate::point::{Layer, Point, PointView, Route, Surface, SurfaceView};
use crate::registry::{Registry, RegistryView};
use crate::star::{
    StarKey, StarKeyView, StarStub, StarStubView, StarSub, StarTemplate, StarTemplateView,
};
use crate::traversal::{
    advance_of, traverse_to_next_layer, ActionView, Traversal, TraversalAction, TraversalView,
};
use crate::wave::CmdMethod;
use crate::traversal::{InjectionView, TraversalInjection};
use crate::traversal::{lemma_recipients_error_stays, TraversalError};
use crate::wave::{
    clone_wave, holds, points_view, surfaces_view, HypMethod, MethodView, Recipients,
    RecipientsView, Scope, SubstanceView, Wave, WaveKind, WaveView,
};

verus! {

/// The greatest number of hops that a transport may make.
pub const MAX_HOPS: u16 = 255;

/// A star at the other end of a lane.
#[derive(Debug, PartialEq, Eq, Hash)]
pub struct Adjacent {
    pub point: Point,
    pub stub: StarStub,
}

pub struct AdjacentView {
    pub point: PointView,
    pub stub: StarStubView,
}

impl View for Adjacent {
    type V = AdjacentView;

    open spec fn view(&self) -> AdjacentView {
        AdjacentView { point: self.point@, stub: self.stub@ }
    }
}

/// The views of a sequence of adjacent stars.
pub open spec fn adjacents_view(v: Seq<Adjacent>) -> Seq<AdjacentView> {
    Seq::new(v.len(), |i: int| v[i]@)
}

/// Whether one of the adjacent stars stands at the address.
pub open spec fn list_holds(v: Seq<AdjacentView>, p: PointView) -> bool {
    exists|a: int| 0 <= a < v.len() && (#[trigger] v[a]).point == p
}

/// The adjacent star at a place of the list.
pub open spec fn old_adjacent(v: Seq<AdjacentView>, a: int) -> AdjacentView {
    v[a]
}

/// Whether one of the first `n` connections of the template is to the
/// star at the address.
pub open spec fn connects(t: StarTemplateView, n: int, p: PointView) -> bool {
    exists|k: int|
        0 <= k < n && (#[trigger] t.connections[k]).stub().key.to_point() == p
}

/// The address of the executor of global commands.
pub open spec fn global_executor() -> PointView {
    PointView { route: Route::Global, segments: seq!["executor"@] }
}

impl Point {
    /// The address of the executor of global commands: `GLOBAL::executor`.
    pub fn global_executor() -> (r: Point)
        ensures
            r@ == global_executor(),
    {
        let mut segments: Vec<String> = Vec::new();
        segments.push(String::from_str("executor"));
        let r = Point::global(segments);
        assert(r@.segments =~= global_executor().segments);
        r
    }
}

/// What the router of a star knows of its place in the fabric.
#[derive(Debug)]
pub struct Star {
    pub key: StarKey,
    pub point: Point,
    pub kind: StarSub,
    pub adjacents: Vec<Adjacent>,
}

pub struct StarView {
    pub key: StarKeyView,
    pub point: PointView,
    pub kind: StarSub,
    pub adjacents: Seq<AdjacentView>,
}

impl View for Star {
    type V = StarView;

    open spec fn view(&self) -> StarView {
        StarView {
            key: self.key@,
            point: self.point@,
            kind: self.kind,
            adjacents: adjacents_view(self.adjacents@),
        }
    }
}

impl StarView {
    /// No star is adjacent twice.
    pub open spec fn wf(self) -> bool {
        forall|i: int, j: int|
            0 <= i < self.adjacents.len() && 0 <= j < self.adjacents.len() && i != j ==> (
            #[trigger] self.adjacents[i]).point != (#[trigger] self.adjacents[j]).point
    }

    pub open spec fn is_adjacent(self, p: PointView) -> bool {
        exists|i: int| 0 <= i < self.adjacents.len() && (#[trigger] self.adjacents[i]).point == p
    }

    /// The adjacent stars among the first `n` that pass transports on, in
    /// order.
    pub open spec fn forwarders(self, n: int) -> Seq<PointView>
        decreases n,
    {
        if n <= 0 {
            Seq::empty()
        } else {
            let rest = self.forwarders(n - 1);
            if self.adjacents[n - 1].stub.kind.spec_is_forwarder() {
                rest.push(self.adjacents[n - 1].point)
            } else {
                rest
            }
        }
    }

    /// The surface at which the star meets the fabric.
    pub open spec fn gravity(self) -> SurfaceView {
        SurfaceView { point: self.point, layer: Layer::Gravity }
    }

    /// The surface at which waves from the fabric are injected.
    pub open spec fn injector(self) -> SurfaceView {
        SurfaceView { point: self.point.push("injector"@), layer: Layer::Gravity }
    }
}

/// Whether no address stands twice among the addresses.
pub open spec fn distinct_points(s: Seq<PointView>) -> bool {
    forall|i: int, j: int| 0 <= i < j < s.len() ==> #[trigger] s[i] != #[trigger] s[j]
}

/// The star on which the recipient of a ripple lives, where the registry
/// has a record of the recipient with a star.
pub open spec fn star_of(reg: RegistryView, port: SurfaceView) -> PointView {
    reg.record(port.point)->Ok_0.location.star->Some_0
}

/// The stars on which the first `n` recipients of a ripple live, each
/// star once, in the order in which the recipients name them first.
pub open spec fn port_stars(reg: RegistryView, ports: Seq<SurfaceView>, n: int) -> Seq<PointView>
    decreases n,
{
    if n <= 0 {
        Seq::empty()
    } else {
        let rest = port_stars(reg, ports, n - 1);
        let star = star_of(reg, ports[n - 1]);
        if rest.contains(star) {
            rest
        } else {
            rest.push(star)
        }
    }
}

/// Why recipients cannot be located, as the router tells it.
pub open spec fn router_error(e: Option<TraversalError>) -> Option<RouterError> {
    match e {
        Some(TraversalError::NotFound) => Some(RouterError::NotFound),
        Some(_) => Some(RouterError::NotLocated),
        None => None,
    }
}

/// Why a wave for the recipients cannot be sharded by location, if it
/// cannot: one recipient, or one of a list, has no record or no star.
pub open spec fn shard_error(reg: RegistryView, to: RecipientsView) -> Option<RouterError> {
    match to {
        RecipientsView::Single(s) => router_error(reg.recipients_error(seq![s], 1)),
        RecipientsView::Multi(ports) => router_error(
            reg.recipients_error(ports, ports.len() as int),
        ),
        _ => None,
    }
}

/// The stars to which the parts of a wave for the recipients go, each
/// with the recipients of its part.
///
/// Recipients that are all stars go to every adjacent star. One recipient
/// goes to its star. A list of recipients goes to the stars on which they
/// live, each star once, with those of the recipients that live on it.
/// Watchers go nowhere.
pub open spec fn located(star: StarView, reg: RegistryView, to: RecipientsView) -> Seq<
    (PointView, RecipientsView),
> {
    match to {
        RecipientsView::Stars => Seq::new(
            star.adjacents.len(),
            |i: int| (star.adjacents[i].point, RecipientsView::Stars),
        ),
        RecipientsView::Watchers(_) => Seq::empty(),
        RecipientsView::Single(s) => seq![(star_of(reg, s), RecipientsView::Single(s))],
        RecipientsView::Multi(ports) => {
            let stars = port_stars(reg, ports, ports.len() as int);
            Seq::new(
                stars.len(),
                |i: int|
                    (
                        stars[i],
                        RecipientsView::Multi(
                            reg.local_recipients(stars[i], ports, ports.len() as int),
                        ),
                    ),
            )
        },
    }
}

/// The views of the parts of a wave.
pub open spec fn parts_view(v: Seq<(Point, Recipients)>) -> Seq<(PointView, RecipientsView)> {
    Seq::new(v.len(), |i: int| (v[i].0@, v[i].1@))
}

/// Those of the recipients that live on the star, in order.
pub fn local_ports(registry: &Registry, star: &Point, ports: &Vec<Surface>) -> (r: Vec<Surface>)
    requires
        registry.wf(),
    ensures
        surfaces_view(r@) == registry@.local_recipients(
            star@,
            surfaces_view(ports@),
            ports@.len() as int,
        ),
{
    let ghost all = surfaces_view(ports@);
    let mut tos: Vec<Surface> = Vec::new();
    assert(surfaces_view(tos@) =~= Seq::<SurfaceView>::empty());
    let mut i: usize = 0;
    while i < ports.len()
        invariant
            i <= ports.len(),
            registry.wf(),
            all == surfaces_view(ports@),
            surfaces_view(tos@) == registry@.local_recipients(star@, all, i as int),
        decreases ports.len() - i,
    {
        assert(all[i as int] == ports@[i as int]@);
        let lives = match registry.record(&ports[i].point) {
            Ok(record) => match &record.location.star {
                Some(at) => *at == *star,
                None => false,
            },
            Err(_) => false,
        };
        if lives {
            let ghost before = surfaces_view(tos@);
            tos.push(ports[i].clone());
            assert(surfaces_view(tos@) =~= before.push(ports@[i as int]@));
        }
        i += 1;
    }
    tos
}

/// The stars on which the recipients live, each once, in the order in
/// which the recipients name them first. Fails where a recipient has no
/// record or no star.
pub fn stars_of_ports(registry: &Registry, ports: &Vec<Surface>) -> (r: Result<
    Vec<Point>,
    RouterError,
>)
    requires
        registry.wf(),
    ensures
        match router_error(
            registry@.recipients_error(surfaces_view(ports@), ports@.len() as int),
        ) {
            Some(e) => r == Err::<Vec<Point>, RouterError>(e),
            None => r matches Ok(stars) && points_view(stars@) == port_stars(
                registry@,
                surfaces_view(ports@),
                ports@.len() as int,
            ),
        },
{
    let ghost all = surfaces_view(ports@);
    let mut stars: Vec<Point> = Vec::new();
    assert(points_view(stars@) =~= Seq::<PointView>::empty());
    let mut i: usize = 0;
    while i < ports.len()
        invariant
            i <= ports.len(),
            registry.wf(),
            all == surfaces_view(ports@),
            registry@.recipients_error(all, i as int) is None,
            points_view(stars@) == port_stars(registry@, all, i as int),
        decreases ports.len() - i,
    {
        assert(all[i as int] == ports@[i as int]@);
        match registry.record(&ports[i].point) {
            Err(_) => {
                proof {
                    assert(registry@.recipients_error(all, i as int + 1) == Some(
                        TraversalError::NotFound,
                    ));
                    lemma_recipients_error_stays(registry@, all, i as int + 1, all.len() as int);
                }
                return Err(RouterError::NotFound);
            },
            Ok(record) => match &record.location.star {
                None => {
                    proof {
                        assert(registry@.recipients_error(all, i as int + 1) == Some(
                            TraversalError::NotLocated,
                        ));
                        lemma_recipients_error_stays(
                            registry@,
                            all,
                            i as int + 1,
                            all.len() as int,
                        );
                    }
                    return Err(RouterError::NotLocated);
                },
                Some(star) => {
                    assert(star@ == star_of(registry@, all[i as int]));
                    if !holds(&stars, star) {
                        let ghost before = points_view(stars@);
                        stars.push(star.clone());
                        assert(points_view(stars@) =~= before.push(star@));
                    }
                },
            },
        }
        i += 1;
    }
    Ok(stars)
}

/// The stars of the parts of a wave.
pub open spec fn part_stars(parts: Seq<(PointView, RecipientsView)>) -> Seq<PointView> {
    Seq::new(parts.len(), |i: int| parts[i].0)
}

/// The stars of the shards of a ripple.
pub open spec fn shard_stars(shards: Seq<RippleShardView>) -> Seq<PointView> {
    Seq::new(shards.len(), |i: int| shards[i].star)
}

/// Why the router did not pass a wave on.
#[derive(Clone, Copy, Debug, PartialEq, Eq, Structural, Hash)]
pub enum RouterError {
    /// A recipient has no record.
    NotFound,
    /// A wave from a lane is no hop.
    NotAHop,
    /// A wave that is to go into the fabric is no transport.
    NotATransport,
    /// A transport has made more hops than it may.
    HopsExceeded,
    /// A star that does not forward got a transport for another star.
    NotForwarder,
    /// A transport is for a star that is not adjacent, and no adjacent
    /// star forwards.
    NoForwarder,
    /// The recipients of the wave are of a form that is not served.
    Unimplemented,
    /// The recipient has no star.
    NotLocated,
}

/// What the router does with a wave that arrived from a lane.
#[derive(Debug)]
pub enum FromHyperway {
    /// The transport is for this star: it goes through the layers.
    Inject(TraversalInjection),
    /// The transport is for another star: it goes back into the fabric.
    Forward(Wave),
    /// The wave is dropped. Nothing is reflected; the identifier is for
    /// the log.
    Dropped { wave_id: String, reason: RouterError },
}

pub enum FromHyperwayView {
    Inject(InjectionView),
    Forward(WaveView),
    Dropped { wave_id: Seq<char>, reason: RouterError },
}

impl View for FromHyperway {
    type V = FromHyperwayView;

    open spec fn view(&self) -> FromHyperwayView {
        match self {
            FromHyperway::Inject(i) => FromHyperwayView::Inject(i@),
            FromHyperway::Forward(w) => FromHyperwayView::Forward(w@),
            FromHyperway::Dropped { wave_id, reason } => FromHyperwayView::Dropped {
                wave_id: wave_id@,
                reason: *reason,
            },
        }
    }
}

/// A wave with one more hop counted.
pub open spec fn hopped(w: WaveView) -> WaveView {
    WaveView {
        hops: if w.hops == u16::MAX {
            u16::MAX
        } else {
            (w.hops + 1) as u16
        },
        ..w
    }
}

impl StarView {
    /// What the router does with a wave that arrived from a lane.
    ///
    /// A wave that is no hop is dropped. The transport is taken out of the
    /// hop and one more hop is counted; a transport with more than 255 hops
    /// is dropped. A transport for this star is injected at the injector
    /// surface as a wave from the fabric. Any other transport is forwarded
    /// by a star that forwards and dropped by one that does not.
    pub open spec fn from_hyperway(self, wave: WaveView) -> FromHyperwayView {
        if !wave.is_hop() {
            FromHyperwayView::Dropped { wave_id: wave.id, reason: RouterError::NotAHop }
        } else {
            let transport = hopped(*wave.body->Wave_0);
            if transport.hops > MAX_HOPS {
                FromHyperwayView::Dropped {
                    wave_id: transport.id,
                    reason: RouterError::HopsExceeded,
                }
            } else if transport.to->Single_0.point == self.point {
                FromHyperwayView::Inject(
                    InjectionView {
                        surface: self.injector(),
                        wave: transport,
                        from_gravity: true,
                        dir: None,
                    },
                )
            } else if self.kind.spec_is_forwarder() {
                FromHyperwayView::Forward(transport)
            } else {
                FromHyperwayView::Dropped {
                    wave_id: transport.id,
                    reason: RouterError::NotForwarder,
                }
            }
        }
    }
}

/// What the router does with a wave that leaves a particle.
#[derive(Debug)]
pub enum ToGravity {
    /// The wave is for the executor of global commands.
    Global(Wave),
    /// The wave is to be located and sent on.
    Shard(Wave),
}

pub enum ToGravityView {
    Global(WaveView),
    Shard(WaveView),
}

impl View for ToGravity {
    type V = ToGravityView;

    open spec fn view(&self) -> ToGravityView {
        match self {
            ToGravity::Global(w) => ToGravityView::Global(w@),
            ToGravity::Shard(w) => ToGravityView::Shard(w@),
        }
    }
}

/// A wave with a star added to its history.
pub open spec fn visited(w: WaveView, star: PointView) -> WaveView {
    WaveView {
        history: if w.history.contains(star) {
            w.history
        } else {
            w.history.push(star)
        },
        ..w
    }
}

/// Where a transport goes into the fabric.
#[derive(Debug)]
pub enum ToHyperway {
    /// The transport goes out in this hop.
    Hop(Wave),
    /// The star that the transport is for has to be searched first.
    Search { target: Point, transport: Wave },
    /// The transport cannot be sent.
    Failed { reason: RouterError, transport: Wave },
}

/// The star to which the hop of a transport for `to` goes, where the
/// router can tell: the star itself, an adjacent star, or the one adjacent
/// star that forwards.
pub open spec fn next_hop(star: StarView, to: SurfaceView) -> Option<SurfaceView> {
    let forwarders = star.forwarders(star.adjacents.len() as int);
    if star.point == to.point {
        Some(SurfaceView { point: star.point, layer: Layer::Core })
    } else if star.is_adjacent(to.point) {
        Some(to)
    } else if forwarders.len() == 1 {
        Some(SurfaceView { point: forwarders[0], layer: Layer::Core })
    } else {
        None
    }
}

/// A wave without its identifier.
pub open spec fn sans_id(w: WaveView) -> WaveView {
    WaveView { id: Seq::empty(), ..w }
}

/// The envelope of a hop around a transport, without its identifier.
pub open spec fn hop_around(transport: WaveView, from: SurfaceView, to: SurfaceView) -> WaveView {
    WaveView {
        kind: WaveKind::Signal,
        id: Seq::empty(),
        from,
        to: RecipientsView::Single(to),
        method: MethodView::Hyp(HypMethod::Hop),
        body: SubstanceView::Wave(Box::new(transport)),
        status: 200,
        reflection_of: None,
        history: Seq::empty(),
        hops: 0,
        handling: transport.handling,
        scope: Scope::Full,
        agent: transport.agent,
        track: transport.track,
    }
}

/// The envelope of a transport around a wave, without its identifier.
pub open spec fn transport_around(wave: WaveView, from: SurfaceView, to: SurfaceView) -> WaveView {
    WaveView {
        kind: WaveKind::Signal,
        id: Seq::empty(),
        from,
        to: RecipientsView::Single(to),
        method: MethodView::Hyp(HypMethod::Transport),
        body: SubstanceView::Wave(Box::new(wave)),
        status: 200,
        reflection_of: None,
        history: Seq::empty(),
        hops: 0,
        handling: wave.handling,
        scope: Scope::Full,
        agent: wave.agent,
        track: wave.track,
    }
}

/// What becomes of one part of a wave that is sharded.
#[derive(Debug)]
pub enum ShardAction {
    /// The part stays on this star and goes through its layers.
    Inject(TraversalInjection),
    /// The part goes to another star in this transport.
    Transport(Wave),
}

pub enum ShardActionView {
    Inject(InjectionView),
    Transport(WaveView),
}

impl View for ShardAction {
    type V = ShardActionView;

    open spec fn view(&self) -> ShardActionView {
        match self {
            ShardAction::Inject(i) => ShardActionView::Inject(i@),
            ShardAction::Transport(w) => ShardActionView::Transport(w@),
        }
    }
}

/// What becomes of the part of a wave that is for the star `target`,
/// without the identifier of the transport: it is injected at the gravity
/// surface of this star as a wave from the fabric where the target is this
/// star, and goes in a transport from this star to the core of the target
/// else.
pub open spec fn shard_to(star: StarView, wave: WaveView, target: PointView) -> ShardActionView {
    if target == star.point {
        ShardActionView::Inject(
            InjectionView { surface: star.gravity(), wave, from_gravity: true, dir: None },
        )
    } else {
        ShardActionView::Transport(
            transport_around(
                wave,
                SurfaceView { point: star.point, layer: Layer::Core },
                SurfaceView { point: target, layer: Layer::Core },
            ),
        )
    }
}

/// A shard action without the identifier of its transport.
pub open spec fn shard_sans_id(a: ShardActionView) -> ShardActionView {
    match a {
        ShardActionView::Inject(i) => ShardActionView::Inject(i),
        ShardActionView::Transport(w) => ShardActionView::Transport(sans_id(w)),
    }
}

/// A star and the part of a ripple that goes to it.
#[derive(Debug)]
pub struct RippleShard {
    pub star: Point,
    pub ripple: Wave,
}

pub struct RippleShardView {
    pub star: PointView,
    pub ripple: WaveView,
}

impl View for RippleShard {
    type V = RippleShardView;

    open spec fn view(&self) -> RippleShardView {
        RippleShardView { star: self.star@, ripple: self.ripple@ }
    }
}

/// The views of the shards of a ripple.
pub open spec fn shards_view(v: Seq<RippleShard>) -> Seq<RippleShardView> {
    Seq::new(v.len(), |i: int| v[i]@)
}

/// The shards of a ripple from the first `n` of its parts: one for each
/// part whose star is not in the history of the ripple, in order. The
/// shard is the ripple with the recipients of the part.
pub open spec fn ripple_shards(
    parts: Seq<(PointView, RecipientsView)>,
    ripple: WaveView,
    n: int,
) -> Seq<RippleShardView>
    decreases n,
{
    if n <= 0 {
        Seq::empty()
    } else {
        let rest = ripple_shards(parts, ripple, n - 1);
        if ripple.history.contains(parts[n - 1].0) {
            rest
        } else {
            rest.push(
                RippleShardView {
                    star: parts[n - 1].0,
                    ripple: WaveView { to: parts[n - 1].1, ..ripple },
                },
            )
        }
    }
}

/// The shards of a ripple at a star.
pub open spec fn spread(star: StarView, reg: RegistryView, ripple: WaveView) -> Seq<
    RippleShardView,
> {
    ripple_shards(
        located(star, reg, ripple.to),
        ripple,
        located(star, reg, ripple.to).len() as int,
    )
}

impl Star {
    /// The invariant of the adjacency list holds.
    pub open spec fn wf(&self) -> bool {
        self@.wf()
    }

    /// The router state of a star built from a template: the star stands
    /// at the address of its key; every connection of the template is an
    /// adjacent star, at the address of its key. A star that the template
    /// connects more than once is adjacent once, as its last connection
    /// has it.
    pub fn from_template(template: &StarTemplate) -> (r: Star)
        ensures
            r.wf(),
            r@.key == template@.key,
            r@.point == template@.key.to_point(),
            r@.kind == template@.kind,
            forall|p: PointView|
                #[trigger] r@.is_adjacent(p) <==> connects(
                    template@,
                    template@.connections.len() as int,
                    p,
                ),
    {
        let mut adjacents: Vec<Adjacent> = Vec::new();
        let mut i: usize = 0;
        while i < template.connections.len()
            invariant
                i <= template.connections.len(),
                forall|a: int, b: int|
                    0 <= a < adjacents@.len() && 0 <= b < adjacents@.len() && a != b ==> (
                    #[trigger] adjacents@[a])@.point != (#[trigger] adjacents@[b])@.point,
                forall|p: PointView|
                    #[trigger] list_holds(adjacents_view(adjacents@), p) <==> connects(
                        template@,
                        i as int,
                        p,
                    ),
            decreases template.connections.len() - i,
        {
            let con = &template.connections[i];
            assert(template@.connections[i as int] == con@);
            let stub = con.stub().clone();
            let point = stub.key.to_point();
            let ghost before = adjacents_view(adjacents@);
            let ghost target = point@;
            let mut found: Option<usize> = None;
            let mut j: usize = 0;
            while j < adjacents.len()
                invariant
                    j <= adjacents.len(),
                    adjacents_view(adjacents@) == before,
                    target == point@,
                    found is None ==> forall|a: int| 0 <= a < j ==> (#[trigger] before[a]).point != target,
                    found matches Some(f) ==> f < adjacents.len() && before[f as int].point
                        == target,
                decreases adjacents.len() - j,
            {
                assert(before[j as int] == adjacents@[j as int]@);
                if adjacents[j].point == point {
                    found = Some(j);
                }
                j += 1;
            }
            let ghost slot: int;
            match found {
                Some(f) => {
                    adjacents[f] = Adjacent { point, stub };
                    proof {
                        slot = f as int;
                    }
                },
                None => {
                    adjacents.push(Adjacent { point, stub });
                    proof {
                        slot = before.len() as int;
                    }
                },
            }
            proof {
                let after = adjacents_view(adjacents@);
                assert(after.len() == (if found is Some {
                    before.len()
                } else {
                    before.len() + 1
                }));
                assert(after[slot].point == target);
                assert forall|a: int| 0 <= a < after.len() && a != slot implies after[a]
                    == before[a] by {
                    assert(after[a] == adjacents@[a]@);
                }
                assert forall|a: int, b: int|
                    0 <= a < adjacents@.len() && 0 <= b < adjacents@.len() && a != b implies (
                #[trigger] adjacents@[a])@.point != (#[trigger] adjacents@[b])@.point by {
                    assert(after[a] == adjacents@[a]@);
                    assert(after[b] == adjacents@[b]@);
                    if a != slot && b != slot {
                        assert(before[a] == after[a]);
                        assert(before[b] == after[b]);
                        assert(before[a] == old_adjacent(before, a));
                    }
                }
                assert forall|p: PointView|
                    #[trigger] list_holds(after, p) <==> connects(template@, i as int + 1, p) by {
                    if list_holds(after, p) {
                        let a = choose|a: int| 0 <= a < after.len() && (#[trigger] after[a]).point == p;
                        if a != slot {
                            assert(before[a].point == p);
                            assert(list_holds(before, p));
                            let k = choose|k: int|
                                0 <= k < i && (
                                #[trigger] template@.connections[k]).stub().key.to_point() == p;
                            assert(template@.connections[k].stub().key.to_point() == p);
                        } else {
                            assert(template@.connections[i as int].stub().key.to_point() == p);
                        }
                    }
                    if connects(template@, i as int + 1, p) {
                        let k = choose|k: int|
                            0 <= k < i + 1 && (
                            #[trigger] template@.connections[k]).stub().key.to_point() == p;
                        if k == i {
                            assert(after[slot].point == p);
                        } else {
                            assert(connects(template@, i as int, p));
                            assert(list_holds(before, p));
                            let a = choose|a: int|
                                0 <= a < before.len() && (#[trigger] before[a]).point == p;
                            if a == slot {
                                assert(after[slot].point == p);
                            } else {
                                assert(after[a].point == p);
                            }
                        }
                    }
                }
            }
            i += 1;
        }
        let r = Star {
            key: template.key.clone(),
            point: template.key.to_point(),
            kind: template.kind,
            adjacents,
        };
        proof {
            assert forall|a: int, b: int|
                0 <= a < r@.adjacents.len() && 0 <= b < r@.adjacents.len() && a != b implies (
            #[trigger] r@.adjacents[a]).point != (#[trigger] r@.adjacents[b]).point by {
                assert(r@.adjacents[a] == r.adjacents@[a]@);
                assert(r@.adjacents[b] == r.adjacents@[b]@);
            }
            assert forall|p: PointView|
                #[trigger] r@.is_adjacent(p) <==> connects(
                    template@,
                    template@.connections.len() as int,
                    p,
                ) by {
                assert(r@.is_adjacent(p) == list_holds(r@.adjacents, p));
            }
        }
        r
    }

    /// Whether the star at the address is adjacent.
    pub fn is_adjacent(&self, point: &Point) -> (r: bool)
        ensures
            r == self@.is_adjacent(point@),
    {
        let mut i: usize = 0;
        while i < self.adjacents.len()
            invariant
                i <= self.adjacents.len(),
                forall|j: int| 0 <= j < i ==> (#[trigger] self@.adjacents[j]).point != point@,
            decreases self.adjacents.len() - i,
        {
            if self.adjacents[i].point == *point {
                assert(self@.adjacents[i as int].point == point@);
                return true;
            }
            i += 1;
        }
        false
    }

    /// The adjacent stars that pass transports on.
    pub fn forwarders(&self) -> (r: Vec<Point>)
        ensures
            points_view(r@) == self@.forwarders(self@.adjacents.len() as int),
    {
        let mut r: Vec<Point> = Vec::new();
        assert(points_view(r@) =~= self@.forwarders(0));
        let mut i: usize = 0;
        while i < self.adjacents.len()
            invariant
                i <= self.adjacents.len(),
                points_view(r@) == self@.forwarders(i as int),
            decreases self.adjacents.len() - i,
        {
            assert(self@.adjacents[i as int] == self.adjacents@[i as int]@);
            if self.adjacents[i].stub.kind.is_forwarder() {
                let ghost before = points_view(r@);
                r.push(self.adjacents[i].point.clone());
                assert(points_view(r@) =~= before.push(self.adjacents@[i as int]@.point));
            }
            i += 1;
        }
        r
    }

    /// The surface at which the star meets the fabric.
    pub fn gravity(&self) -> (r: Surface)
        ensures
            r@ == self@.gravity(),
    {
        Surface::new(self.point.clone(), Layer::Gravity)
    }

    /// The surface at which waves from the fabric are injected.
    pub fn injector(&self) -> (r: Surface)
        ensures
            r@ == self@.injector(),
    {
        Surface::new(self.point.push(String::from_str("injector")), Layer::Gravity)
    }

    /// What the router does with a wave that arrived from a lane.
    pub fn from_hyperway(&self, wave: Wave) -> (r: FromHyperway)
        ensures
            r@ == self@.from_hyperway(wave@),
            wave@.is_hop() && wave@.body->Wave_0.hops >= MAX_HOPS ==> r@ == (
            FromHyperwayView::Dropped {
                wave_id: wave@.body->Wave_0.id,
                reason: RouterError::HopsExceeded,
            }),
    {
        let mut transport = match wave.unwrap_from_hop() {
            Ok(t) => t,
            Err(w) => {
                return FromHyperway::Dropped { wave_id: w.id, reason: RouterError::NotAHop };
            },
        };
        transport.inc_hops();
        if transport.hops > MAX_HOPS {
            return FromHyperway::Dropped {
                wave_id: transport.id,
                reason: RouterError::HopsExceeded,
            };
        }
        let for_us = match &transport.to {
            Recipients::Single(to) => to.point == self.point,
            _ => false,
        };
        if for_us {
            FromHyperway::Inject(
                TraversalInjection {
                    surface: self.injector(),
                    wave: transport,
                    from_gravity: true,
                    dir: None,
                },
            )
        } else {
            self.forward(transport)
        }
    }

    /// Sends a transport for another star on its way: back into the
    /// fabric where this star forwards; else the transport is dropped.
    pub fn forward(&self, transport: Wave) -> (r: FromHyperway)
        ensures
            r@ == (if self@.kind.spec_is_forwarder() {
                FromHyperwayView::Forward(transport@)
            } else {
                FromHyperwayView::Dropped {
                    wave_id: transport@.id,
                    reason: RouterError::NotForwarder,
                }
            }),
    {
        if self.kind.is_forwarder() {
            FromHyperway::Forward(transport)
        } else {
            FromHyperway::Dropped { wave_id: transport.id, reason: RouterError::NotForwarder }
        }
    }

    /// What the router does with a wave that leaves a particle: the star
    /// is added to the history of the wave; a directed wave for the
    /// executor of global commands goes there, any other wave is sharded.
    pub fn to_gravity(&self, wave: Wave) -> (r: ToGravity)
        ensures
            r@ == (if wave@.kind.spec_is_directed() && wave@.to is Single
                && wave@.to->Single_0.point == global_executor() {
                ToGravityView::Global(visited(wave@, self@.point))
            } else {
                ToGravityView::Shard(visited(wave@, self@.point))
            }),
    {
        let mut wave = wave;
        wave.add_to_history(&self.point);
        let global = wave.is_directed() && match &wave.to {
            Recipients::Single(to) => to.point == Point::global_executor(),
            _ => false,
        };
        if global {
            ToGravity::Global(wave)
        } else {
            ToGravity::Shard(wave)
        }
    }

    /// The stars to which the parts of a wave for the recipients go, each
    /// with the recipients of its part: see `located`. Fails where a
    /// recipient has no record or no star.
    pub fn shard_by_location(&self, registry: &Registry, recipients: &Recipients) -> (r: Result<
        Vec<(Point, Recipients)>,
        RouterError,
    >)
        requires
            self.wf(),
            registry.wf(),
        ensures
            match shard_error(registry@, recipients@) {
                Some(e) => r == Err::<Vec<(Point, Recipients)>, RouterError>(e),
                None => r matches Ok(v) && parts_view(v@) == located(
                    self@,
                    registry@,
                    recipients@,
                ) && distinct_points(part_stars(parts_view(v@))),
            },
    {
        proof {
            law_located_distinct(self@, registry@, recipients@);
        }
        let mut v: Vec<(Point, Recipients)> = Vec::new();
        match recipients {
            Recipients::Single(s) => {
                let mut one: Vec<Surface> = Vec::new();
                one.push(s.clone());
                assert(surfaces_view(one@) =~= seq![s@]);
                let stars = match stars_of_ports(registry, &one) {
                    Ok(stars) => stars,
                    Err(e) => {
                        return Err(e);
                    },
                };
                proof {
                    let ports = seq![s@];
                    assert(port_stars(registry@, ports, 0) =~= Seq::<PointView>::empty());
                    assert(port_stars(registry@, ports, 1) =~= seq![star_of(registry@, s@)]);
                }
                assert(points_view(stars@)[0] == stars@[0]@);
                v.push((stars[0].clone(), Recipients::Single(s.clone())));
                proof {
                    let want = located(self@, registry@, recipients@);
                    assert(recipients@ == RecipientsView::Single(s@));
                    assert(want.len() == 1);
                    assert(parts_view(v@)[0] == want[0]);
                    assert(parts_view(v@) =~= want);
                }
                Ok(v)
            },
            Recipients::Multi(ports) => {
                let stars = match stars_of_ports(registry, ports) {
                    Ok(stars) => stars,
                    Err(e) => {
                        return Err(e);
                    },
                };
                let ghost all = surfaces_view(ports@);
                let mut k: usize = 0;
                while k < stars.len()
                    invariant
                        k <= stars.len(),
                        registry.wf(),
                        all == surfaces_view(ports@),
                        v@.len() == k,
                        forall|j: int|
                            0 <= j < k ==> (#[trigger] v@[j]).0@ == stars@[j]@ && v@[j].1@
                                == RecipientsView::Multi(
                                registry@.local_recipients(stars@[j]@, all, all.len() as int),
                            ),
                    decreases stars.len() - k,
                {
                    let tos = local_ports(registry, &stars[k], ports);
                    v.push((stars[k].clone(), Recipients::Multi(tos)));
                    k += 1;
                }
                proof {
                    assert forall|j: int| 0 <= j < v@.len() implies parts_view(v@)[j] == located(
                        self@,
                        registry@,
                        recipients@,
                    )[j] by {
                        assert(points_view(stars@)[j] == stars@[j]@);
                    }
                    assert(parts_view(v@) =~= located(self@, registry@, recipients@));
                }
                Ok(v)
            },
            Recipients::Watchers(_) => {
                assert(parts_view(v@) =~= located(self@, registry@, recipients@));
                Ok(v)
            },
            Recipients::Stars => {
                let mut i: usize = 0;
                while i < self.adjacents.len()
                    invariant
                        i <= self.adjacents.len(),
                        v@.len() == i,
                        forall|j: int|
                            0 <= j < i ==> (#[trigger] v@[j]).0@ == self@.adjacents[j].point
                                && v@[j].1@ == RecipientsView::Stars,
                    decreases self.adjacents.len() - i,
                {
                    assert(self@.adjacents[i as int] == self.adjacents@[i as int]@);
                    v.push((self.adjacents[i].point.clone(), Recipients::Stars));
                    i += 1;
                }
                assert(parts_view(v@) =~= located(self@, registry@, recipients@));
                Ok(v)
            },
        }
    }

    /// The parts of a ripple, one for each star that it goes to: the stars
    /// that `shard_by_location` gives, without those in the history of the
    /// ripple. Each part is the ripple with the recipients of the part.
    pub fn shard_ripple_by_location(&self, registry: &Registry, ripple: &Wave) -> (r: Result<
        Vec<RippleShard>,
        RouterError,
    >)
        requires
            self.wf(),
            registry.wf(),
        ensures
            match shard_error(registry@, ripple@.to) {
                Some(e) => r == Err::<Vec<RippleShard>, RouterError>(e),
                None => r matches Ok(v) && shards_view(v@) == spread(self@, registry@, ripple@)
                    && distinct_points(shard_stars(shards_view(v@))),
            },
    {
        proof {
            law_ripple_shards(self@, registry@, ripple@);
        }
        let parts = match self.shard_by_location(registry, &ripple.to) {
            Ok(parts) => parts,
            Err(e) => {
                return Err(e);
            },
        };
        let ghost all = parts_view(parts@);
        let mut v: Vec<RippleShard> = Vec::new();
        assert(shards_view(v@) =~= Seq::<RippleShardView>::empty());
        let mut i: usize = 0;
        while i < parts.len()
            invariant
                i <= parts.len(),
                all == parts_view(parts@),
                shards_view(v@) == ripple_shards(all, ripple@, i as int),
            decreases parts.len() - i,
        {
            assert(all[i as int] == (parts@[i as int].0@, parts@[i as int].1@));
            let star = &parts[i].0;
            if !holds(&ripple.history, star) {
                let mut part = clone_wave(ripple);
                part.to = parts[i].1.clone();
                let ghost before = shards_view(v@);
                let shard = RippleShard { star: star.clone(), ripple: part };
                assert(shard@ == (RippleShardView {
                    star: all[i as int].0,
                    ripple: WaveView { to: all[i as int].1, ..ripple@ },
                }));
                v.push(shard);
                assert(shards_view(v@) =~= before.push(shard@));
            }
            i += 1;
        }
        Ok(v)
    }

    /// What becomes of the part of a wave that is for the star `target`.
    pub fn shard_to(&self, wave: Wave, target: &Point) -> (r: ShardAction)
        ensures
            shard_sans_id(r@) == shard_to(self@, wave@, target@),
    {
        if *target == self.point {
            ShardAction::Inject(
                TraversalInjection {
                    surface: self.gravity(),
                    wave,
                    from_gravity: true,
                    dir: None,
                },
            )
        } else {
            let transport = wave.wrap_in_transport(
                fresh_id(),
                self.point.to_surface(),
                target.to_surface(),
            );
            ShardAction::Transport(transport)
        }
    }

    /// Shards a ripple: one part for each star that it goes to and at
    /// which it has not been. This star is added to the history of each
    /// part; the part for this star is injected, the others go to their
    /// stars in transports.
    pub fn shard_ripple(&self, registry: &Registry, ripple: &Wave) -> (r: Result<
        Vec<ShardAction>,
        RouterError,
    >)
        requires
            self.wf(),
            registry.wf(),
        ensures
            match shard_error(registry@, ripple@.to) {
                Some(e) => r == Err::<Vec<ShardAction>, RouterError>(e),
                None => r matches Ok(v) && sent_shards(
                    self@,
                    spread(self@, registry@, ripple@),
                    v@,
                ) && distinct_points(shard_stars(spread(self@, registry@, ripple@))),
            },
    {
        let shards = match self.shard_ripple_by_location(registry, ripple) {
            Ok(shards) => shards,
            Err(e) => {
                return Err(e);
            },
        };
        let ghost all = shards_view(shards@);
        let mut v: Vec<ShardAction> = Vec::new();
        let mut i: usize = 0;
        while i < shards.len()
            invariant
                i <= shards.len(),
                all == shards_view(shards@),
                v@.len() == i,
                forall|j: int|
                    0 <= j < i ==> shard_sans_id((#[trigger] v@[j])@) == shard_to(
                        self@,
                        visited(all[j].ripple, self@.point),
                        all[j].star,
                    ),
            decreases shards.len() - i,
        {
            let shard = &shards[i];
            assert(all[i as int] == shard@);
            let mut part = clone_wave(&shard.ripple);
            part.add_to_history(&self.point);
            let action = self.shard_to(part, &shard.star);
            v.push(action);
            i += 1;
        }
        Ok(v)
    }

    /// What becomes of a wave for one recipient once its location is
    /// known: it is injected where the recipient lives on this star, and
    /// goes to the star of the recipient in a transport else. Fails where
    /// the recipient has no star.
    pub fn shard_single(&self, wave: Wave, location: &ParticleLocation) -> (r: Result<
        ShardAction,
        RouterError,
    >)
        ensures
            r is Ok <==> location@.star is Some,
            r matches Err(e) ==> e == RouterError::NotLocated,
            r matches Ok(a) ==> shard_sans_id(a@) == shard_to(self@, wave@, location@.star->Some_0),
    {
        match &location.star {
            Some(star) => Ok(self.shard_to(wave, star)),
            None => Err(RouterError::NotLocated),
        }
    }

    /// Where a transport goes into the fabric.
    ///
    /// The transport is put into a hop from the gravity surface of this
    /// star: to this star itself where the transport is for it, to the star
    /// that the transport is for where that star is adjacent, and to the
    /// one adjacent star that forwards where there is exactly one. Where no
    /// adjacent star forwards the transport cannot be sent; where several
    /// do, the star that the transport is for has to be searched.
    pub fn to_hyperway(&self, transport: Wave) -> (r: ToHyperway)
        requires
            transport@.is_transport(),
        ensures
            sent(self@, transport@, r),
    {
        let to = match &transport.to {
            Recipients::Single(to) => to.clone(),
            _ => {
                proof {
                    assert(false);
                }
                self.point.to_surface()
            },
        };
        let forwarders = self.forwarders();
        if self.point == to.point {
            let hop = transport.wrap_in_hop(fresh_id(), self.gravity(), self.point.to_surface());
            ToHyperway::Hop(hop)
        } else if self.is_adjacent(&to.point) {
            let hop = transport.wrap_in_hop(fresh_id(), self.gravity(), to);
            ToHyperway::Hop(hop)
        } else if forwarders.len() == 1 {
            let next = forwarders[0].to_surface();
            let hop = transport.wrap_in_hop(fresh_id(), self.gravity(), next);
            ToHyperway::Hop(hop)
        } else if forwarders.len() == 0 {
            ToHyperway::Failed { reason: RouterError::NoForwarder, transport }
        } else {
            ToHyperway::Search { target: to.point, transport }
        }
    }
}

/// What the router of a star is asked to do.
#[derive(Debug)]
pub enum HyperStarCall {
    /// Start the drivers.
    Init,
    /// Make the shell state of a particle.
    CreateStates(Point),
    /// Tell the stub of the star.
    Stub,
    /// A wave arrived from a lane.
    FromHyperway(Wave),
    /// A traversal has left a layer.
    TraverseToNextLayer(Traversal),
    /// A wave is to go through the layers.
    LayerTraversalInjection(TraversalInjection),
    /// A traversal has reached the driver of its particle.
    ToDriver(Traversal),
    /// A wave leaves a particle.
    ToGravity(Wave),
    /// A transport is to go into the fabric.
    ToHyperway(Wave),
    /// A wave is to be located and sent on.
    Shard(Wave),
    /// Learn about the peers of the star, again and again until it works.
    StartWrangling,
    /// Learn about the peers of the star.
    Wrangle,
    /// Ask a star whether it is there.
    Bounce(StarKey),
}

/// What is to be done with a wave that is sharded.
#[derive(Debug)]
pub enum ShardPlan {
    /// The parts of a ripple, each on its way.
    Ripple(Vec<ShardAction>),
    /// The recipient of the wave is to be located first; then
    /// `shard_single` says what becomes of the wave.
    Locate { wave: Wave, point: Point },
    /// The wave cannot be sharded.
    Failed { wave_id: String, reason: RouterError },
}

/// What the router of a star does for a call.
#[derive(Debug)]
pub enum StarAction {
    /// The drivers are started.
    InitDrivers,
    /// The shell state of the particle is made.
    CreateShell(Point),
    /// The stub goes to who asked for it.
    ReplyStub(StarStub),
    FromHyperway(FromHyperway),
    /// What is done with the traversal next.
    Traverse(TraversalAction),
    /// The layer engine takes the injection.
    Inject(TraversalInjection),
    /// The drivers take the traversal.
    Visit(Traversal),
    ToGravity(ToGravity),
    ToHyperway(ToHyperway),
    Shard(ShardPlan),
    /// The loop that wrangles until it works is started.
    StartWrangling,
    /// A search for the peers of the star, by kind, is started.
    Wrangle,
    /// This ping goes out.
    Bounce(Wave),
    /// The wave is dropped. The identifier is for the log.
    Dropped { wave_id: String, reason: RouterError },
}

/// Whether `r` is what becomes of a transport at a star: a hop to the next
/// star, up to the identifier of the hop, where the next star is known; a
/// failure where no adjacent star forwards; else a search for the star
/// that the transport is for.
pub open spec fn sent(star: StarView, transport: WaveView, r: ToHyperway) -> bool {
    match next_hop(star, transport.to->Single_0) {
        Some(to) => r matches ToHyperway::Hop(hop) && sans_id(hop@) == hop_around(
            transport,
            star.gravity(),
            to,
        ),
        None => if star.forwarders(star.adjacents.len() as int).len() == 0 {
            r matches ToHyperway::Failed { reason, transport: t } && reason
                == RouterError::NoForwarder && t@ == transport
        } else {
            r matches ToHyperway::Search { target, transport: t } && target@
                == transport.to->Single_0.point && t@ == transport
        },
    }
}

/// Whether the actions are what becomes of the shards of a ripple at a
/// star, one action for each shard, each up to the identifier of its
/// transport: the shard with this star added to its history is injected
/// where it is for this star, and goes to its star in a transport else.
pub open spec fn sent_shards(star: StarView, shards: Seq<RippleShardView>, v: Seq<ShardAction>)
    -> bool {
    v.len() == shards.len() && forall|i: int|
        0 <= i < v.len() ==> shard_sans_id((#[trigger] v[i])@) == shard_to(
            star,
            visited(shards[i].ripple, star.point),
            shards[i].star,
        )
}

/// Whether `r` is what becomes of a wave that is sharded at a star: the
/// parts of a ripple, one for each star that it goes to and at which it
/// has not been, or the failure to locate its recipients; the wave and the
/// address of its recipient, where it is no ripple and has one recipient;
/// else a failure.
pub open spec fn sharded(star: StarView, reg: RegistryView, wave: WaveView, r: ShardPlan) -> bool {
    if wave.kind == WaveKind::Ripple {
        match shard_error(reg, wave.to) {
            Some(e) => r matches ShardPlan::Failed { wave_id, reason } && wave_id@ == wave.id
                && reason == e,
            None => r matches ShardPlan::Ripple(parts) && sent_shards(
                star,
                spread(star, reg, wave),
                parts@,
            ) && distinct_points(shard_stars(spread(star, reg, wave))),
        }
    } else if wave.to is Single {
        r matches ShardPlan::Locate { wave: w, point } && w@ == wave && point@
            == wave.to->Single_0.point
    } else {
        r matches ShardPlan::Failed { wave_id, reason } && wave_id@ == wave.id && reason
            == RouterError::Unimplemented
    }
}

/// The ping that asks a star whether it is there, without its identifier.
pub open spec fn bounce_request(from: PointView, to: StarKeyView) -> WaveView {
    WaveView {
        kind: WaveKind::Ping,
        id: Seq::empty(),
        from: SurfaceView { point: from, layer: Layer::Core },
        to: RecipientsView::Single(SurfaceView { point: to.to_point(), layer: Layer::Core }),
        method: MethodView::Cmd(CmdMethod::Bounce),
        body: SubstanceView::Empty,
        status: 200,
        reflection_of: None,
        history: Seq::empty(),
        hops: 0,
        handling: crate::wave::Handling::spec_default(),
        scope: Scope::Full,
        agent: crate::wave::AgentView::Anonymous,
        track: false,
    }
}

impl Star {
    /// The stub of the star.
    pub fn stub(&self) -> (r: StarStub)
        ensures
            r@ == (StarStubView { key: self@.key, kind: self@.kind }),
    {
        StarStub::new(self.key.clone(), self.kind)
    }

    /// Whether a particle below `parent` may be created in this star: the
    /// parent is the star or lies below it.
    pub fn may_create_in_star(&self, parent: &Point) -> (r: bool)
        ensures
            r == self@.point.is_prefix_of(parent@),
    {
        self.point.is_prefix_of(parent)
    }

    /// What is to be done with a wave that is sharded: a ripple goes in
    /// parts to every star that it is for and at which it has not been;
    /// any other wave needs its one recipient located. A ripple whose
    /// recipients the registry cannot locate, and any other wave that has
    /// not one recipient, fails.
    pub fn shard(&self, registry: &Registry, wave: Wave) -> (r: ShardPlan)
        requires
            self.wf(),
            registry.wf(),
        ensures
            sharded(self@, registry@, wave@, r),
    {
        let ripple = match wave.kind {
            WaveKind::Ripple => true,
            _ => false,
        };
        if ripple {
            match self.shard_ripple(registry, &wave) {
                Ok(parts) => ShardPlan::Ripple(parts),
                Err(reason) => ShardPlan::Failed { wave_id: wave.id, reason },
            }
        } else {
            match wave.to.to_single() {
                Some(to) => ShardPlan::Locate { wave, point: to.point },
                None => ShardPlan::Failed { wave_id: wave.id, reason: RouterError::Unimplemented },
            }
        }
    }

    /// The ping that asks the star with the key whether it is there.
    pub fn bounce(&self, key: &StarKey) -> (r: Wave)
        ensures
            sans_id(r@) == bounce_request(self@.point, key@),
    {
        Wave::directed(
            WaveKind::Ping,
            fresh_id(),
            self.point.to_surface(),
            Recipients::Single(key.to_point().to_surface()),
            crate::wave::Method::Cmd(CmdMethod::Bounce),
        )
    }

    /// What becomes of a transport for the star `target` that this star
    /// could not place by its adjacent stars alone: a hop to the star at the
    /// end of the lane that knows the shortest path to the target, the first
    /// of several that are equally short; where no lane knows a path, the
    /// target has to be searched. The lanes know afterwards what they knew
    /// before.
    pub fn to_hyperway_by_lanes(
        &self,
        lanes: &mut crate::search::Lanes,
        target: &StarKey,
        transport: Wave,
    ) -> (r: ToHyperway)
        requires
            old(lanes).wf(),
            transport@.is_transport(),
        ensures
            final(lanes).wf(),
            final(lanes).count() == old(lanes).count(),
            forall|i: int, other: StarKeyView|
                0 <= i < old(lanes).count() ==> final(lanes).hops_through(i, other) == old(
                    lanes,
                ).hops_through(i, other) && final(lanes).remote(i) == old(lanes).remote(i)
                    && final(lanes).room(i) == old(lanes).room(i),
            exists|chosen: Option<int>| #[trigger]
                crate::search::shortest(old(lanes).known_hops(target@), chosen) && match chosen {
                    Some(c) => r matches ToHyperway::Hop(hop) && sans_id(hop@) == hop_around(
                        transport@,
                        self@.gravity(),
                        SurfaceView { point: old(lanes).remote(c).to_point(), layer: Layer::Core },
                    ),
                    None => r matches ToHyperway::Search { target: t, transport: w } && t@
                        == target@.to_point() && w@ == transport@,
                },
    {
        let ghost cached = lanes.known_hops(target@);
        match lanes.lane_with_shortest_path_to_star(target) {
            Some(lane) => {
                let next = lanes.remote_key(lane).to_point().to_surface();
                let hop = transport.wrap_in_hop(fresh_id(), self.gravity(), next);
                assert(crate::search::shortest(cached, Some(lane as int)));
                ToHyperway::Hop(hop)
            },
            None => {
                assert(crate::search::shortest(cached, None::<int>));
                ToHyperway::Search { target: target.to_point(), transport }
            },
        }
    }

    /// Whether the adjacency list of the star holds no star twice.
    pub fn well_formed(&self) -> (r: bool)
        ensures
            r == self.wf(),
    {
        let mut i: usize = 0;
        while i < self.adjacents.len()
            invariant
                i <= self.adjacents.len(),
                forall|a: int, b: int|
                    0 <= a < i && 0 <= b < self.adjacents.len() && a != b ==> (
                    #[trigger] self@.adjacents[a]).point != (#[trigger] self@.adjacents[b]).point,
            decreases self.adjacents.len() - i,
        {
            let mut j: usize = 0;
            while j < self.adjacents.len()
                invariant
                    i < self.adjacents.len(),
                    j <= self.adjacents.len(),
                    forall|b: int|
                        0 <= b < j && b != i ==> self@.adjacents[i as int].point != (
                        #[trigger] self@.adjacents[b]).point,
                decreases self.adjacents.len() - j,
            {
                if j != i && self.adjacents[i].point == self.adjacents[j].point {
                    assert(self@.adjacents[i as int].point == self@.adjacents[j as int].point);
                    return false;
                }
                j += 1;
            }
            i += 1;
        }
        true
    }

    /// Whether the star that was pinged is there: it is where its answer
    /// has a status of success, from 200 up to 299. Another answer fails
    /// with its status.
    pub fn bounced(pong: &Wave) -> (r: Result<(), u16>)
        ensures
            r is Ok <==> 200 <= pong@.status < 300,
            r matches Err(status) ==> status == pong@.status,
    {
        if 200 <= pong.status && pong.status < 300 {
            Ok(())
        } else {
            Err(pong.status)
        }
    }

    /// What the router does for a call: each call has its handler, and
    /// the handlers that decide here have decided when this returns.
    pub fn handle(&self, registry: &Registry, call: HyperStarCall) -> (r: StarAction)
        requires
            self.wf(),
            registry.wf(),
        ensures
            match call {
                HyperStarCall::Init => r is InitDrivers,
                HyperStarCall::CreateStates(point) => r matches StarAction::CreateShell(p) && p
                    == point,
                HyperStarCall::Stub => r matches StarAction::ReplyStub(stub) && stub@ == (
                StarStubView { key: self@.key, kind: self@.kind }),
                HyperStarCall::FromHyperway(wave) => r matches StarAction::FromHyperway(out)
                    && out@ == self@.from_hyperway(wave@),
                HyperStarCall::TraverseToNextLayer(traversal) => r matches StarAction::Traverse(
                    action,
                ) && action@ == advance_of(traversal@),
                HyperStarCall::LayerTraversalInjection(injection) => r matches StarAction::Inject(
                    i,
                ) && i == injection,
                HyperStarCall::ToDriver(traversal) => r matches StarAction::Visit(t) && t
                    == traversal,
                HyperStarCall::ToGravity(wave) => r matches StarAction::ToGravity(out) && out@
                    == (if wave@.kind.spec_is_directed() && wave@.to is Single
                    && wave@.to->Single_0.point == global_executor() {
                    ToGravityView::Global(visited(wave@, self@.point))
                } else {
                    ToGravityView::Shard(visited(wave@, self@.point))
                }),
                HyperStarCall::ToHyperway(wave) => if wave@.is_transport() {
                    r matches StarAction::ToHyperway(out) && sent(self@, wave@, out)
                } else {
                    r matches StarAction::Dropped { wave_id, reason } && wave_id@ == wave@.id
                        && reason == RouterError::NotATransport
                },
                HyperStarCall::Shard(wave) => r matches StarAction::Shard(plan) && sharded(
                    self@,
                    registry@,
                    wave@,
                    plan,
                ),
                HyperStarCall::StartWrangling => r is StartWrangling,
                HyperStarCall::Wrangle => r is Wrangle,
                HyperStarCall::Bounce(key) => r matches StarAction::Bounce(ping) && sans_id(ping@)
                    == bounce_request(self@.point, key@),
            },
    {
        match call {
            HyperStarCall::Init => StarAction::InitDrivers,
            HyperStarCall::CreateStates(point) => StarAction::CreateShell(point),
            HyperStarCall::Stub => StarAction::ReplyStub(self.stub()),
            HyperStarCall::FromHyperway(wave) => StarAction::FromHyperway(
                self.from_hyperway(wave),
            ),
            HyperStarCall::TraverseToNextLayer(traversal) => StarAction::Traverse(
                traverse_to_next_layer(traversal),
            ),
            HyperStarCall::LayerTraversalInjection(injection) => StarAction::Inject(injection),
            HyperStarCall::ToDriver(traversal) => StarAction::Visit(traversal),
            HyperStarCall::ToGravity(wave) => StarAction::ToGravity(self.to_gravity(wave)),
            HyperStarCall::ToHyperway(wave) => {
                if wave.is_transport() {
                    StarAction::ToHyperway(self.to_hyperway(wave))
                } else {
                    StarAction::Dropped { wave_id: wave.id, reason: RouterError::NotATransport }
                }
            },
            HyperStarCall::Shard(wave) => StarAction::Shard(self.shard(registry, wave)),
            HyperStarCall::StartWrangling => StarAction::StartWrangling,
            HyperStarCall::Wrangle => StarAction::Wrangle,
            HyperStarCall::Bounce(key) => StarAction::Bounce(self.bounce(&key)),
        }
    }
}

/// The seconds that one attempt to learn about the peers of a star may
/// take.
pub const WRANGLE_TIMEOUT_SECS: u64 = 60;

/// The seconds to wait before the next attempt to learn about the peers
/// of a star, after `retries` failed attempts: one second at first, five
/// seconds after the third attempt, fifteen after the eleventh.
pub fn wrangle_delay(retries: u32) -> (r: u64)
    ensures
        r == (if retries > 10 {
            15int
        } else if retries > 2 {
            5int
        } else {
            1int
        }),
{
    if retries > 10 {
        15
    } else if retries > 2 {
        5
    } else {
        1
    }
}

/// The stars on which recipients live are listed once each, and every
/// recipient lives on one of them.
pub proof fn lemma_port_stars(reg: RegistryView, ports: Seq<SurfaceView>, n: int)
    requires
        0 <= n <= ports.len(),
    ensures
        distinct_points(port_stars(reg, ports, n)),
        forall|k: int|
            0 <= k < n ==> port_stars(reg, ports, n).contains(star_of(reg, #[trigger] ports[k])),
        forall|i: int|
            0 <= i < port_stars(reg, ports, n).len() ==> exists|k: int|
                0 <= k < n && #[trigger] port_stars(reg, ports, n)[i] == star_of(
                    reg,
                    #[trigger] ports[k],
                ),
    decreases n,
{
    if n > 0 {
        lemma_port_stars(reg, ports, n - 1);
        let rest = port_stars(reg, ports, n - 1);
        let all = port_stars(reg, ports, n);
        let star = star_of(reg, ports[n - 1]);
        if rest.contains(star) {
            assert(all == rest);
            assert forall|k: int| 0 <= k < n implies all.contains(
                star_of(reg, #[trigger] ports[k]),
            ) by {}
            assert forall|i: int| 0 <= i < all.len() implies exists|k: int|
                0 <= k < n && #[trigger] all[i] == star_of(reg, #[trigger] ports[k]) by {
                let k = choose|k: int|
                    0 <= k < n - 1 && #[trigger] rest[i] == star_of(reg, #[trigger] ports[k]);
                assert(all[i] == star_of(reg, ports[k]));
            }
        } else {
            assert(all == rest.push(star));
            assert forall|i: int, j: int| 0 <= i < j < all.len() implies #[trigger] all[i]
                != #[trigger] all[j] by {
                if j == rest.len() {
                    assert(rest[i] == all[i]);
                    assert(rest.contains(rest[i]));
                } else {
                    assert(rest[i] == all[i]);
                    assert(rest[j] == all[j]);
                }
            }
            assert forall|k: int| 0 <= k < n implies all.contains(
                star_of(reg, #[trigger] ports[k]),
            ) by {
                if k < n - 1 {
                    let at = choose|at: int|
                        0 <= at < rest.len() && rest[at] == star_of(reg, ports[k]);
                    assert(all[at] == star_of(reg, ports[k]));
                } else {
                    assert(all[rest.len() as int] == star);
                }
            }
            assert forall|i: int| 0 <= i < all.len() implies exists|k: int|
                0 <= k < n && #[trigger] all[i] == star_of(reg, #[trigger] ports[k]) by {
                if i < rest.len() {
                    let k = choose|k: int|
                        0 <= k < n - 1 && #[trigger] rest[i] == star_of(reg, #[trigger] ports[k]);
                    assert(all[i] == star_of(reg, ports[k]));
                } else {
                    assert(all[i] == star_of(reg, ports[n - 1]));
                }
            }
        }
    }
}

/// The parts of a wave go to stars that are all different.
pub proof fn law_located_distinct(star: StarView, reg: RegistryView, to: RecipientsView)
    requires
        star.wf(),
    ensures
        distinct_points(part_stars(located(star, reg, to))),
{
    match to {
        RecipientsView::Multi(ports) => {
            lemma_port_stars(reg, ports, ports.len() as int);
        },
        _ => {},
    }
}

/// A recipient that lives on a star is among the recipients of that star,
/// and every recipient of a star lives on it.
pub proof fn lemma_local_recipients(
    reg: RegistryView,
    star: PointView,
    ports: Seq<SurfaceView>,
    n: int,
)
    requires
        0 <= n <= ports.len(),
    ensures
        forall|k: int|
            0 <= k < n && reg.lives_on(star, #[trigger] ports[k]) ==> reg.local_recipients(
                star,
                ports,
                n,
            ).contains(ports[k]),
        forall|i: int|
            0 <= i < reg.local_recipients(star, ports, n).len() ==> reg.lives_on(
                star,
                #[trigger] reg.local_recipients(star, ports, n)[i],
            ) && ports.contains(reg.local_recipients(star, ports, n)[i]),
    decreases n,
{
    if n > 0 {
        lemma_local_recipients(reg, star, ports, n - 1);
        let rest = reg.local_recipients(star, ports, n - 1);
        let all = reg.local_recipients(star, ports, n);
        if reg.lives_on(star, ports[n - 1]) {
            assert(all == rest.push(ports[n - 1]));
            assert forall|k: int|
                0 <= k < n && reg.lives_on(star, #[trigger] ports[k]) implies all.contains(
                ports[k],
            ) by {
                if k < n - 1 {
                    let at = choose|at: int| 0 <= at < rest.len() && rest[at] == ports[k];
                    assert(all[at] == ports[k]);
                } else {
                    assert(all[rest.len() as int] == ports[k]);
                }
            }
            assert forall|i: int| 0 <= i < all.len() implies reg.lives_on(
                star,
                #[trigger] all[i],
            ) && ports.contains(all[i]) by {
                if i < rest.len() {
                    assert(all[i] == rest[i]);
                }
            }
        } else {
            assert(all == rest);
        }
    }
}

/// A list of recipients that the registry can locate is parted by the
/// stars on which they live: no star has two parts, no part is empty,
/// every recipient is in the part of the star on which it lives, and in no
/// other part.
pub proof fn law_recipients_partition(reg: RegistryView, ports: Seq<SurfaceView>)
    requires
        reg.recipients_error(ports, ports.len() as int) is None,
    ensures
        ({
            let n = ports.len() as int;
            let stars = port_stars(reg, ports, n);
            &&& distinct_points(stars)
            &&& forall|i: int|
                0 <= i < stars.len() ==> reg.local_recipients(#[trigger] stars[i], ports, n).len()
                    > 0
            &&& forall|k: int|
                0 <= k < n ==> stars.contains(star_of(reg, #[trigger] ports[k]))
                    && reg.local_recipients(star_of(reg, ports[k]), ports, n).contains(ports[k])
            &&& forall|i: int, k: int|
                0 <= i < stars.len() && 0 <= k < n && reg.local_recipients(
                    #[trigger] stars[i],
                    ports,
                    n,
                ).contains(#[trigger] ports[k]) ==> stars[i] == star_of(reg, ports[k])
        }),
{
    let n = ports.len() as int;
    let stars = port_stars(reg, ports, n);
    lemma_port_stars(reg, ports, n);
    assert forall|k: int| 0 <= k < n implies reg.lives_on(
        star_of(reg, #[trigger] ports[k]),
        ports[k],
    ) by {
        if reg.recipients_error(ports, k + 1) is Some {
            lemma_recipients_error_stays(reg, ports, k + 1, n);
        }
        if reg.recipients_error(ports, k) is Some {
            lemma_recipients_error_stays(reg, ports, k, n);
        }
    }
    assert forall|i: int| 0 <= i < stars.len() implies reg.local_recipients(
        #[trigger] stars[i],
        ports,
        n,
    ).len() > 0 by {
        let k = choose|k: int| 0 <= k < n && #[trigger] stars[i] == star_of(reg, #[trigger] ports[k]);
        lemma_local_recipients(reg, stars[i], ports, n);
        assert(reg.lives_on(stars[i], ports[k]));
        assert(reg.local_recipients(stars[i], ports, n).contains(ports[k]));
    }
    assert forall|k: int| 0 <= k < n implies stars.contains(star_of(reg, #[trigger] ports[k]))
        && reg.local_recipients(star_of(reg, ports[k]), ports, n).contains(ports[k]) by {
        lemma_local_recipients(reg, star_of(reg, ports[k]), ports, n);
    }
    assert forall|i: int, k: int|
        0 <= i < stars.len() && 0 <= k < n && reg.local_recipients(
            #[trigger] stars[i],
            ports,
            n,
        ).contains(#[trigger] ports[k]) implies stars[i] == star_of(reg, ports[k]) by {
        lemma_local_recipients(reg, stars[i], ports, n);
        let part = reg.local_recipients(stars[i], ports, n);
        let at = choose|at: int| 0 <= at < part.len() && part[at] == ports[k];
        assert(reg.lives_on(stars[i], part[at]));
    }
}

/// The shards of a ripple from parts that go to different stars: no two
/// shards go to one star, none goes to a star at which the ripple has
/// been, each is the ripple with the recipients of its part, and every
/// part for a star at which the ripple has not been has its shard.
pub proof fn lemma_ripple_shards(
    parts: Seq<(PointView, RecipientsView)>,
    ripple: WaveView,
    n: int,
)
    requires
        distinct_points(part_stars(parts)),
        0 <= n <= parts.len(),
    ensures
        distinct_points(shard_stars(ripple_shards(parts, ripple, n))),
        forall|i: int|
            0 <= i < ripple_shards(parts, ripple, n).len() ==> !ripple.history.contains(
                (#[trigger] ripple_shards(parts, ripple, n)[i]).star,
            ) && exists|a: int|
                0 <= a < n && ripple_shards(parts, ripple, n)[i] == (RippleShardView {
                    star: (#[trigger] parts[a]).0,
                    ripple: WaveView { to: parts[a].1, ..ripple },
                }),
        forall|a: int|
            0 <= a < n && !ripple.history.contains((#[trigger] parts[a]).0) ==> ripple_shards(
                parts,
                ripple,
                n,
            ).contains(
                RippleShardView { star: parts[a].0, ripple: WaveView { to: parts[a].1, ..ripple } },
            ),
    decreases n,
{
    if n > 0 {
        lemma_ripple_shards(parts, ripple, n - 1);
        let rest = ripple_shards(parts, ripple, n - 1);
        let all = ripple_shards(parts, ripple, n);
        let last = RippleShardView {
            star: parts[n - 1].0,
            ripple: WaveView { to: parts[n - 1].1, ..ripple },
        };
        if !ripple.history.contains(parts[n - 1].0) {
            assert(all == rest.push(last));
            assert forall|i: int, j: int| 0 <= i < j < shard_stars(all).len() implies #[trigger]
                shard_stars(all)[i] != #[trigger] shard_stars(all)[j] by {
                if j == rest.len() {
                    let a = choose|a: int|
                        0 <= a < n - 1 && rest[i] == (RippleShardView {
                            star: (#[trigger] parts[a]).0,
                            ripple: WaveView { to: parts[a].1, ..ripple },
                        });
                    assert(all[i] == rest[i]);
                    assert(part_stars(parts)[a] == parts[a].0);
                    assert(part_stars(parts)[n - 1] == parts[n - 1].0);
                } else {
                    assert(shard_stars(rest)[i] == rest[i].star);
                    assert(shard_stars(rest)[j] == rest[j].star);
                    assert(all[i] == rest[i]);
                    assert(all[j] == rest[j]);
                }
            }
            assert forall|i: int| 0 <= i < all.len() implies !ripple.history.contains(
                (#[trigger] all[i]).star,
            ) && exists|a: int|
                0 <= a < n && all[i] == (RippleShardView {
                    star: (#[trigger] parts[a]).0,
                    ripple: WaveView { to: parts[a].1, ..ripple },
                }) by {
                if i < rest.len() {
                    assert(all[i] == rest[i]);
                    let a = choose|a: int|
                        0 <= a < n - 1 && rest[i] == (RippleShardView {
                            star: (#[trigger] parts[a]).0,
                            ripple: WaveView { to: parts[a].1, ..ripple },
                        });
                    assert(parts[a].0 == all[i].star);
                } else {
                    assert(all[i] == last);
                    assert(parts[n - 1].0 == last.star);
                }
            }
            assert forall|a: int|
                0 <= a < n && !ripple.history.contains((#[trigger] parts[a]).0) implies all.contains(
                RippleShardView { star: parts[a].0, ripple: WaveView { to: parts[a].1, ..ripple } },
            ) by {
                let shard = RippleShardView {
                    star: parts[a].0,
                    ripple: WaveView { to: parts[a].1, ..ripple },
                };
                if a < n - 1 {
                    let at = choose|at: int| 0 <= at < rest.len() && rest[at] == shard;
                    assert(all[at] == shard);
                } else {
                    assert(all[rest.len() as int] == shard);
                }
            }
        } else {
            assert(all == rest);
            assert forall|i: int| 0 <= i < all.len() implies !ripple.history.contains(
                (#[trigger] all[i]).star,
            ) && exists|a: int|
                0 <= a < n && all[i] == (RippleShardView {
                    star: (#[trigger] parts[a]).0,
                    ripple: WaveView { to: parts[a].1, ..ripple },
                }) by {
                let a = choose|a: int|
                    0 <= a < n - 1 && rest[i] == (RippleShardView {
                        star: (#[trigger] parts[a]).0,
                        ripple: WaveView { to: parts[a].1, ..ripple },
                    });
                assert(parts[a].0 == all[i].star);
            }
        }
    }
}

/// Every shard of a ripple goes to another star, and to none at which the
/// ripple has been; every star that the ripple is for and at which it has
/// not been gets a shard, with the recipients that are its own.
pub proof fn law_ripple_shards(star: StarView, reg: RegistryView, ripple: WaveView)
    requires
        star.wf(),
    ensures
        ({
            let parts = located(star, reg, ripple.to);
            let shards = spread(star, reg, ripple);
            &&& distinct_points(shard_stars(shards))
            &&& forall|i: int|
                0 <= i < shards.len() ==> !ripple.history.contains((#[trigger] shards[i]).star)
                    && exists|a: int|
                    0 <= a < parts.len() && shards[i] == (RippleShardView {
                        star: (#[trigger] parts[a]).0,
                        ripple: WaveView { to: parts[a].1, ..ripple },
                    })
            &&& forall|a: int|
                0 <= a < parts.len() && !ripple.history.contains((#[trigger] parts[a]).0)
                    ==> shards.contains(
                    RippleShardView {
                        star: parts[a].0,
                        ripple: WaveView { to: parts[a].1, ..ripple },
                    },
                )
        }),
{
    law_located_distinct(star, reg, ripple.to);
    let parts = located(star, reg, ripple.to);
    lemma_ripple_shards(parts, ripple, parts.len() as int);
}

} // verus!
