//! The walk of a wave through the layers of a particle: the plan of each
//! kind, the direction of a traversal, and where it goes next.

use vstd::prelude::*;
use vstd::string::StringExecFns;
use crate::ids::fresh_id;
use crate::kind::{BaseKind, Kind};
use crate::particle::{ParticleRecord, RecordView};
use crate::point::{Layer, Point, PointView, Route, Surface, SurfaceView};
use crate::registry::{Registry, RegistryError, RegistryView};
use crate::wave::{
    clone_surfaces, surfaces_view, Recipients, RecipientsView, Substance, SubstanceView, Wave,
    WaveKind, WaveView,
};

verus! {

/// The layer with the given position on the way from the fabric to the
/// core.
pub open spec fn layer_at(ordinal: int) -> Layer {
    if ordinal <= 0 {
        Layer::Gravity
    } else if ordinal == 1 {
        Layer::Field
    } else if ordinal == 2 {
        Layer::Shell
    } else if ordinal == 3 {
        Layer::Portal
    } else if ordinal == 4 {
        Layer::Host
    } else if ordinal == 5 {
        Layer::Guest
    } else {
        Layer::Core
    }
}

/// The layer with the given position.
pub fn layer_from_ordinal(ordinal: u8) -> (r: Layer)
    ensures
        r == layer_at(ordinal as int),
        ordinal <= 6 ==> r.spec_ordinal() == ordinal,
{
    if ordinal == 0 {
        Layer::Gravity
    } else if ordinal == 1 {
        Layer::Field
    } else if ordinal == 2 {
        Layer::Shell
    } else if ordinal == 3 {
        Layer::Portal
    } else if ordinal == 4 {
        Layer::Host
    } else if ordinal == 5 {
        Layer::Guest
    } else {
        Layer::Core
    }
}

/// Which way a wave travels through the layers: out to the fabric, or in
/// to the core.
#[derive(Clone, Copy, Debug, PartialEq, Eq, Structural, Hash)]
pub enum TraversalDirection {
    Fabric,
    Core,
}

impl TraversalDirection {
    /// The direction from one layer to another; `None` where they are the
    /// same.
    pub open spec fn spec_between(from: Layer, to: Layer) -> Option<TraversalDirection> {
        if from == to {
            None
        } else if from.spec_ordinal() < to.spec_ordinal() {
            Some(TraversalDirection::Core)
        } else {
            Some(TraversalDirection::Fabric)
        }
    }

    /// The direction from one layer to another; `None` where they are the
    /// same.
    pub fn new(from: Layer, to: Layer) -> (r: Option<TraversalDirection>)
        ensures
            r == TraversalDirection::spec_between(from, to),
    {
        let a = from.ordinal();
        let b = to.ordinal();
        if a == b {
            None
        } else if a < b {
            Some(TraversalDirection::Core)
        } else {
            Some(TraversalDirection::Fabric)
        }
    }
}

/// The layers that a wave visits in a particle of some kind.
#[derive(Clone, Copy, Debug, PartialEq, Eq, Structural, Hash)]
pub struct TraversalPlan {
    pub field: bool,
    pub shell: bool,
    pub portal: bool,
    pub host: bool,
    pub guest: bool,
    pub core: bool,
}

impl TraversalPlan {
    /// Whether the layer is part of the plan. Gravity is part of none.
    pub open spec fn spec_has_layer(self, layer: Layer) -> bool {
        match layer {
            Layer::Gravity => false,
            Layer::Field => self.field,
            Layer::Shell => self.shell,
            Layer::Portal => self.portal,
            Layer::Host => self.host,
            Layer::Guest => self.guest,
            Layer::Core => self.core,
        }
    }

    #[verifier::when_used_as_spec(spec_has_layer)]
    pub fn has_layer(self, layer: Layer) -> (r: bool)
        ensures
            r == self.spec_has_layer(layer),
    {
        match layer {
            Layer::Gravity => false,
            Layer::Field => self.field,
            Layer::Shell => self.shell,
            Layer::Portal => self.portal,
            Layer::Host => self.host,
            Layer::Guest => self.guest,
            Layer::Core => self.core,
        }
    }

    /// The plan of a kind. Every plan holds the field, the shell and the
    /// core; a mechtron adds the portal, the host and the guest; a portal
    /// and a control add the portal.
    pub open spec fn spec_of(base: BaseKind) -> TraversalPlan {
        match base {
            BaseKind::Mechtron => TraversalPlan {
                field: true,
                shell: true,
                portal: true,
                host: true,
                guest: true,
                core: true,
            },
            BaseKind::Portal => TraversalPlan {
                field: true,
                shell: true,
                portal: true,
                host: false,
                guest: false,
                core: true,
            },
            BaseKind::Control => TraversalPlan {
                field: true,
                shell: true,
                portal: true,
                host: false,
                guest: false,
                core: true,
            },
            _ => TraversalPlan {
                field: true,
                shell: true,
                portal: false,
                host: false,
                guest: false,
                core: true,
            },
        }
    }

    #[verifier::when_used_as_spec(spec_of)]
    pub fn of(base: BaseKind) -> (r: TraversalPlan)
        ensures
            r == TraversalPlan::spec_of(base),
            r.field && r.shell,
    {
        match base {
            BaseKind::Mechtron => TraversalPlan {
                field: true,
                shell: true,
                portal: true,
                host: true,
                guest: true,
                core: true,
            },
            BaseKind::Portal => TraversalPlan {
                field: true,
                shell: true,
                portal: true,
                host: false,
                guest: false,
                core: true,
            },
            BaseKind::Control => TraversalPlan {
                field: true,
                shell: true,
                portal: true,
                host: false,
                guest: false,
                core: true,
            },
            _ => TraversalPlan {
                field: true,
                shell: true,
                portal: false,
                host: false,
                guest: false,
                core: true,
            },
        }
    }

    /// The nearest layer of the plan at a position from `ordinal` on
    /// towards the core.
    pub open spec fn at_or_after(self, ordinal: int) -> Option<Layer>
        decreases 7 - ordinal,
    {
        if ordinal > 6 {
            None
        } else if ordinal >= 0 && self.spec_has_layer(layer_at(ordinal)) {
            Some(layer_at(ordinal))
        } else {
            self.at_or_after(ordinal + 1)
        }
    }

    /// The nearest layer of the plan at a position from `ordinal` back
    /// towards the fabric.
    pub open spec fn at_or_before(self, ordinal: int) -> Option<Layer>
        decreases ordinal + 1,
    {
        if ordinal < 0 {
            None
        } else if ordinal <= 6 && self.spec_has_layer(layer_at(ordinal)) {
            Some(layer_at(ordinal))
        } else {
            self.at_or_before(ordinal - 1)
        }
    }

    /// The next layer of the plan beyond `layer` in the direction.
    pub open spec fn spec_next(self, layer: Layer, dir: TraversalDirection) -> Option<Layer> {
        match dir {
            TraversalDirection::Core => self.at_or_after(layer.spec_ordinal() + 1),
            TraversalDirection::Fabric => self.at_or_before(layer.spec_ordinal() - 1),
        }
    }

    /// The next layer of the plan beyond `layer` on the way to the core.
    pub fn towards_core(self, layer: Layer) -> (r: Option<Layer>)
        ensures
            r == self.spec_next(layer, TraversalDirection::Core),
    {
        let mut ordinal: u8 = layer.ordinal() + 1;
        while ordinal <= 6
            invariant
                1 <= ordinal <= 7,
                self.at_or_after(layer.spec_ordinal() + 1) == self.at_or_after(ordinal as int),
            decreases 7 - ordinal,
        {
            let candidate = layer_from_ordinal(ordinal);
            if self.has_layer(candidate) {
                return Some(candidate);
            }
            ordinal += 1;
        }
        None
    }

    /// The next layer of the plan beyond `layer` on the way to the fabric.
    pub fn towards_fabric(self, layer: Layer) -> (r: Option<Layer>)
        ensures
            r == self.spec_next(layer, TraversalDirection::Fabric),
    {
        let mut ordinal: u8 = layer.ordinal();
        while ordinal > 0
            invariant
                ordinal <= 6,
                self.at_or_before(layer.spec_ordinal() - 1) == self.at_or_before(ordinal - 1),
            decreases ordinal,
        {
            ordinal -= 1;
            let candidate = layer_from_ordinal(ordinal);
            if self.has_layer(candidate) {
                return Some(candidate);
            }
        }
        None
    }
}

/// A request to send a wave through the layers.
#[derive(Debug, PartialEq, Eq)]
pub struct TraversalInjection {
    /// The surface at which the wave is injected.
    pub surface: Surface,
    pub wave: Wave,
    /// Whether the wave enters the particle from the fabric.
    pub from_gravity: bool,
    /// A direction that overrides the direction rule.
    pub dir: Option<TraversalDirection>,
}

pub struct InjectionView {
    pub surface: SurfaceView,
    pub wave: WaveView,
    pub from_gravity: bool,
    pub dir: Option<TraversalDirection>,
}

impl View for TraversalInjection {
    type V = InjectionView;

    open spec fn view(&self) -> InjectionView {
        InjectionView {
            surface: self.surface@,
            wave: self.wave@,
            from_gravity: self.from_gravity,
            dir: self.dir,
        }
    }
}

impl TraversalInjection {
    /// An injection that does not come from the fabric and forces no
    /// direction.
    pub fn new(surface: Surface, wave: Wave) -> (r: TraversalInjection)
        ensures
            r@ == (InjectionView {
                surface: surface@,
                wave: wave@,
                from_gravity: false,
                dir: None,
            }),
    {
        TraversalInjection { surface, wave, from_gravity: false, dir: None }
    }
}

/// The walk of one wave through the layers of one particle.
#[derive(Debug, PartialEq, Eq)]
pub struct Traversal {
    pub wave: Wave,
    /// The record of the particle whose layers are walked.
    pub record: ParticleRecord,
    /// The layer at which the walk stands.
    pub layer: Layer,
    pub dir: TraversalDirection,
    /// The layer at which the walk ends, where it ends within the particle.
    pub dest: Option<Layer>,
    /// The surface that the wave is for.
    pub to: Surface,
    /// The particle to which the walk belongs.
    pub point: Point,
}

pub struct TraversalView {
    pub wave: WaveView,
    pub record: RecordView,
    pub layer: Layer,
    pub dir: TraversalDirection,
    pub dest: Option<Layer>,
    pub to: SurfaceView,
    pub point: PointView,
}

impl View for Traversal {
    type V = TraversalView;

    open spec fn view(&self) -> TraversalView {
        TraversalView {
            wave: self.wave@,
            record: self.record@,
            layer: self.layer,
            dir: self.dir,
            dest: self.dest,
            to: self.to@,
            point: self.point@,
        }
    }
}

impl TraversalView {
    /// The plan of the particle.
    pub open spec fn plan(self) -> TraversalPlan {
        TraversalPlan::spec_of(self.record.stub.kind.base)
    }

    /// The layer to which the walk moves next: none where it stands at its
    /// destination or the plan holds no further layer in its direction.
    pub open spec fn next(self) -> Option<Layer> {
        if self.dest == Some(self.layer) {
            None
        } else {
            self.plan().spec_next(self.layer, self.dir)
        }
    }

    /// The walk after `next`.
    pub open spec fn advanced(self) -> TraversalView {
        match self.next() {
            Some(layer) => TraversalView { layer, ..self },
            None => self,
        }
    }
}

impl Traversal {
    /// Moves the walk to the next layer of the plan in its direction and
    /// returns that layer. Where the walk stands at its destination, or
    /// the plan holds no further layer, the walk stays and `None` is
    /// returned.
    pub fn next(&mut self) -> (r: Option<Layer>)
        ensures
            r == old(self)@.next(),
            final(self)@ == old(self)@.advanced(),
    {
        let at_dest = match self.dest {
            Some(dest) => dest == self.layer,
            None => false,
        };
        if at_dest {
            return None;
        }
        let plan = TraversalPlan::of(self.record.details.stub.kind.base);
        let next = match self.dir {
            TraversalDirection::Core => plan.towards_core(self.layer),
            TraversalDirection::Fabric => plan.towards_fabric(self.layer),
        };
        match next {
            Some(layer) => {
                self.layer = layer;
            },
            None => {},
        }
        next
    }
}

/// Where a traversal goes.
#[derive(Debug, PartialEq, Eq)]
pub enum TraversalAction {
    /// The field layer visits the traversal.
    VisitField(Traversal),
    /// The shell layer visits the traversal.
    VisitShell(Traversal),
    /// The wave leaves the particle towards the fabric.
    ExitUp(Traversal),
    /// The wave leaves the layers towards the driver of the particle.
    ExitDown(Traversal),
    /// A wave reached the core within the star's layers: nothing is done.
    Stranded(Traversal),
}

pub enum ActionView {
    VisitField(TraversalView),
    VisitShell(TraversalView),
    ExitUp(TraversalView),
    ExitDown(TraversalView),
    Stranded(TraversalView),
}

impl View for TraversalAction {
    type V = ActionView;

    open spec fn view(&self) -> ActionView {
        match self {
            TraversalAction::VisitField(t) => ActionView::VisitField(t@),
            TraversalAction::VisitShell(t) => ActionView::VisitShell(t@),
            TraversalAction::ExitUp(t) => ActionView::ExitUp(t@),
            TraversalAction::ExitDown(t) => ActionView::ExitDown(t@),
            TraversalAction::Stranded(t) => ActionView::Stranded(t@),
        }
    }
}

/// The views of a sequence of actions.
pub open spec fn actions_view(v: Seq<TraversalAction>) -> Seq<ActionView> {
    Seq::new(v.len(), |i: int| v[i]@)
}

/// Why a traversal could not start.
#[derive(Clone, Copy, Debug, PartialEq, Eq, Structural, Hash)]
pub enum TraversalError {
    /// No record for the recipient.
    NotFound,
    /// A recipient of a ripple has no star.
    NotLocated,
    /// The wave is for a layer that the recipient does not have.
    LayerNotInPlan,
    /// A wave that is no ripple has more than one recipient.
    Unimplemented,
}

/// Whether the engine visits the layer itself: the field and the shell.
pub open spec fn engine_has(layer: Layer) -> bool {
    layer == Layer::Field || layer == Layer::Shell
}

/// The way out for a traversal that has no layer left: up where it
/// travels to the fabric, down where it travels to the core.
pub open spec fn exit_of(t: TraversalView) -> ActionView {
    match t.dir {
        TraversalDirection::Fabric => ActionView::ExitUp(t),
        TraversalDirection::Core => ActionView::ExitDown(t),
    }
}

/// What is done with a traversal at the layer at which it stands: the
/// field and the shell visit it, any other layer is the way out.
pub open spec fn visit_of(t: TraversalView) -> ActionView {
    match t.layer {
        Layer::Field => ActionView::VisitField(t),
        Layer::Shell => ActionView::VisitShell(t),
        _ => exit_of(t),
    }
}

/// What is done with a traversal that has left a layer: at its
/// destination it is visited there; else it moves to the next layer and
/// is visited there; with no layer left it exits up where it travels to
/// the fabric and is stranded where it travels to the core.
pub open spec fn advance_of(t: TraversalView) -> ActionView {
    if t.dest == Some(t.layer) {
        visit_of(t)
    } else {
        match t.next() {
            Some(_) => visit_of(t.advanced()),
            None => match t.dir {
                TraversalDirection::Fabric => ActionView::ExitUp(t),
                TraversalDirection::Core => ActionView::Stranded(t),
            },
        }
    }
}

/// The direction and destination layer of a traversal.
///
/// A forced direction is taken as it is. A wave from the fabric travels
/// to the core and ends at the layer of its recipient. A wave for a global
/// address travels to the fabric. A wave within one particle ends at the
/// layer of its recipient and travels from the layer of injection towards
/// it, or to the fabric where it stands there already. Any other wave
/// travels to the fabric.
pub open spec fn direction_rule(
    forced: Option<TraversalDirection>,
    from_gravity: bool,
    to: SurfaceView,
    from: PointView,
    injected_at: Layer,
) -> (TraversalDirection, Option<Layer>) {
    match forced {
        Some(dir) => (dir, None),
        None => if from_gravity {
            (TraversalDirection::Core, Some(to.layer))
        } else if to.point.route == Route::Global {
            (TraversalDirection::Fabric, None)
        } else if to.point == from {
            (
                match TraversalDirection::spec_between(injected_at, to.layer) {
                    Some(dir) => dir,
                    None => TraversalDirection::Fabric,
                },
                Some(to.layer),
            )
        } else {
            (TraversalDirection::Fabric, None)
        },
    }
}

/// Whether a wave within one particle is for a layer that the particle
/// does not have.
pub open spec fn layer_missing(
    forced: Option<TraversalDirection>,
    from_gravity: bool,
    to: SurfaceView,
    from: PointView,
    plan: TraversalPlan,
) -> bool {
    forced is None && !from_gravity && to.point.route != Route::Global && to.point == from
        && to.layer != Layer::Gravity && !plan.spec_has_layer(to.layer)
}

/// The traversal of a wave to one recipient, as it starts.
pub open spec fn traversal_of(inj: InjectionView, record: RecordView, to: SurfaceView)
    -> TraversalView {
    let (dir, dest) = direction_rule(
        inj.dir,
        inj.from_gravity,
        to,
        inj.wave.from.point,
        inj.surface.layer,
    );
    TraversalView {
        wave: inj.wave,
        record,
        layer: inj.surface.layer,
        dir,
        dest,
        to,
        point: if dir == TraversalDirection::Core {
            to.point
        } else {
            inj.wave.from.point
        },
    }
}

/// What is done first with a traversal: where it was injected at a layer
/// that the engine does not visit, it moves on to the next layer, or exits
/// where there is none; it is then visited at the layer at which it stands.
pub open spec fn start_of(t: TraversalView) -> ActionView {
    if !engine_has(t.layer) {
        match t.next() {
            None => exit_of(t),
            Some(_) => visit_of(t.advanced()),
        }
    } else {
        visit_of(t)
    }
}

/// The way out for a traversal that has no layer left.
pub fn exit(traversal: Traversal) -> (r: TraversalAction)
    ensures
        r@ == exit_of(traversal@),
{
    match traversal.dir {
        TraversalDirection::Fabric => TraversalAction::ExitUp(traversal),
        TraversalDirection::Core => TraversalAction::ExitDown(traversal),
    }
}

/// What is done with a traversal at the layer at which it stands.
pub fn visit_layer(traversal: Traversal) -> (r: TraversalAction)
    ensures
        r@ == visit_of(traversal@),
{
    match traversal.layer {
        Layer::Field => TraversalAction::VisitField(traversal),
        Layer::Shell => TraversalAction::VisitShell(traversal),
        _ => exit(traversal),
    }
}

/// What is done with a traversal that has left a layer.
pub fn traverse_to_next_layer(traversal: Traversal) -> (r: TraversalAction)
    ensures
        r@ == advance_of(traversal@),
{
    let mut traversal = traversal;
    let at_dest = match traversal.dest {
        Some(dest) => dest == traversal.layer,
        None => false,
    };
    if at_dest {
        return visit_layer(traversal);
    }
    match traversal.next() {
        None => match traversal.dir {
            TraversalDirection::Fabric => TraversalAction::ExitUp(traversal),
            TraversalDirection::Core => TraversalAction::Stranded(traversal),
        },
        Some(_) => visit_layer(traversal),
    }
}

impl RegistryView {
    /// Whether the recipient of a ripple lives on the star.
    pub open spec fn lives_on(self, star: PointView, recipient: SurfaceView) -> bool {
        self.record(recipient.point) matches Ok(record) && record.location.star == Some(star)
    }

    /// The error, if any, that the first `n` recipients of a ripple give:
    /// a recipient without a record, or without a star.
    pub open spec fn recipients_error(self, recipients: Seq<SurfaceView>, n: int) -> Option<
        TraversalError,
    >
        decreases n,
    {
        if n <= 0 {
            None
        } else {
            match self.recipients_error(recipients, n - 1) {
                Some(e) => Some(e),
                None => match self.record(recipients[n - 1].point) {
                    Err(_) => Some(TraversalError::NotFound),
                    Ok(record) => if record.location.star is None {
                        Some(TraversalError::NotLocated)
                    } else {
                        None
                    },
                },
            }
        }
    }

    /// Those of the first `n` recipients of a ripple that live on the
    /// star, in order.
    pub open spec fn local_recipients(self, star: PointView, recipients: Seq<SurfaceView>, n: int)
        -> Seq<SurfaceView>
        decreases n,
    {
        if n <= 0 {
            Seq::empty()
        } else {
            let rest = self.local_recipients(star, recipients, n - 1);
            if self.lives_on(star, recipients[n - 1]) {
                rest.push(recipients[n - 1])
            } else {
                rest
            }
        }
    }

    /// The surfaces on this star to which a wave is delivered.
    ///
    /// A ripple to many goes to those of its recipients that live on the
    /// star; a ripple to the stars goes to the star itself, at its gravity
    /// layer where the ripple comes from the star and at its core else; a
    /// ripple to watchers goes to none. Any wave to one recipient goes to
    /// that recipient. A wave that is no ripple and has not one recipient
    /// is refused.
    pub open spec fn destinations(self, star: PointView, wave: WaveView) -> Result<
        Seq<SurfaceView>,
        TraversalError,
    > {
        match wave.to {
            RecipientsView::Single(s) => Ok(seq![s]),
            _ => if wave.kind != WaveKind::Ripple {
                Err(TraversalError::Unimplemented)
            } else {
                match wave.to {
                    RecipientsView::Multi(v) => match self.recipients_error(v, v.len() as int) {
                        Some(e) => Err(e),
                        None => Ok(self.local_recipients(star, v, v.len() as int)),
                    },
                    RecipientsView::Stars => Ok(
                        seq![
                            SurfaceView {
                                point: star,
                                layer: if star == wave.from.point {
                                    Layer::Gravity
                                } else {
                                    Layer::Core
                                },
                            },
                        ],
                    ),
                    _ => Ok(Seq::empty()),
                }
            },
        }
    }

    /// What starting the traversal to one recipient gives.
    pub open spec fn start_one(self, inj: InjectionView, to: SurfaceView) -> Result<
        ActionView,
        TraversalError,
    > {
        match self.record(to.point) {
            Err(_) => Err(TraversalError::NotFound),
            Ok(record) => if layer_missing(
                inj.dir,
                inj.from_gravity,
                to,
                inj.wave.from.point,
                TraversalPlan::spec_of(record.stub.kind.base),
            ) {
                Err(TraversalError::LayerNotInPlan)
            } else {
                Ok(start_of(traversal_of(inj, record, to)))
            },
        }
    }

    /// The actions that starting the traversals to the first `n`
    /// destinations gives, and the error that stopped it, if any. After an
    /// error no further traversal starts.
    pub open spec fn start_all(self, inj: InjectionView, tos: Seq<SurfaceView>, n: int) -> (
        Seq<ActionView>,
        Option<TraversalError>,
    )
        decreases n,
    {
        if n <= 0 {
            (Seq::empty(), None)
        } else {
            let (actions, error) = self.start_all(inj, tos, n - 1);
            if error is Some {
                (actions, error)
            } else {
                match self.start_one(inj, tos[n - 1]) {
                    Ok(action) => (actions.push(action), None),
                    Err(e) => (actions, Some(e)),
                }
            }
        }
    }

    /// What the injection of a wave gives: the actions of the traversals
    /// that started, and the error that stopped it, if any.
    pub open spec fn start_layer_traversal(self, star: PointView, inj: InjectionView) -> (
        Seq<ActionView>,
        Option<TraversalError>,
    ) {
        match self.destinations(star, inj.wave) {
            Err(e) => (Seq::empty(), Some(e)),
            Ok(tos) => self.start_all(inj, tos, tos.len() as int),
        }
    }
}

/// What the injection of a wave gave.
#[derive(Debug, PartialEq, Eq)]
pub struct TraversalOutcome {
    /// The traversals that started, each with what is done with it first.
    pub actions: Vec<TraversalAction>,
    /// The error that stopped the injection, if any.
    pub error: Option<TraversalError>,
}

/// The engine that walks waves through the layers of the particles of one
/// star.
#[derive(Debug)]
pub struct LayerTraversalEngine {
    /// The address of the star.
    pub star: Point,
}

impl LayerTraversalEngine {
    pub fn new(star: Point) -> (r: LayerTraversalEngine)
        ensures
            r.star@ == star@,
    {
        LayerTraversalEngine { star }
    }

    /// Whether the engine visits the layer itself.
    pub fn has_layer(&self, layer: Layer) -> (r: bool)
        ensures
            r == engine_has(layer),
    {
        match layer {
            Layer::Field => true,
            Layer::Shell => true,
            _ => false,
        }
    }

    /// The surfaces on this star to which a wave is delivered.
    pub fn destinations(&self, registry: &Registry, wave: &Wave) -> (r: Result<
        Vec<Surface>,
        TraversalError,
    >)
        requires
            registry.wf(),
        ensures
            r is Ok == registry@.destinations(self.star@, wave@) is Ok,
            r matches Ok(v) ==> registry@.destinations(self.star@, wave@) == Ok::<
                Seq<SurfaceView>,
                TraversalError,
            >(surfaces_view(v@)),
            r matches Err(e) ==> registry@.destinations(self.star@, wave@) == Err::<
                Seq<SurfaceView>,
                TraversalError,
            >(e),
    {
        let mut tos: Vec<Surface> = Vec::new();
        match &wave.to {
            Recipients::Single(s) => {
                tos.push(s.clone());
                assert(surfaces_view(tos@) =~= seq![s@]);
                Ok(tos)
            },
            other => {
                let ripple = match wave.kind {
                    WaveKind::Ripple => true,
                    _ => false,
                };
                if !ripple {
                    return Err(TraversalError::Unimplemented);
                }
                match other {
                    Recipients::Multi(ports) => {
                        let ghost all = surfaces_view(ports@);
                        assert(surfaces_view(tos@) =~= Seq::<SurfaceView>::empty());
                        let mut i: usize = 0;
                        while i < ports.len()
                            invariant
                                i <= ports.len(),
                                registry.wf(),
                                all == surfaces_view(ports@),
                                wave@.to == RecipientsView::Multi(all),
                                wave@.kind == WaveKind::Ripple,
                                registry@.recipients_error(all, i as int) is None,
                                surfaces_view(tos@) == registry@.local_recipients(
                                    self.star@,
                                    all,
                                    i as int,
                                ),
                            decreases ports.len() - i,
                        {
                            let port = &ports[i];
                            assert(all[i as int] == port@);
                            match registry.record(&port.point) {
                                Err(_) => {
                                    assert(registry@.recipients_error(all, i as int + 1) == Some(
                                        TraversalError::NotFound,
                                    ));
                                    proof {
                                        lemma_recipients_error_stays(
                                            registry@,
                                            all,
                                            i as int + 1,
                                            all.len() as int,
                                        );
                                    }
                                    return Err(TraversalError::NotFound);
                                },
                                Ok(record) => {
                                    match &record.location.star {
                                        None => {
                                            assert(registry@.recipients_error(all, i as int + 1)
                                                == Some(TraversalError::NotLocated));
                                            proof {
                                                lemma_recipients_error_stays(
                                                    registry@,
                                                    all,
                                                    i as int + 1,
                                                    all.len() as int,
                                                );
                                            }
                                            return Err(TraversalError::NotLocated);
                                        },
                                        Some(star) => {
                                            if *star == self.star {
                                                let ghost before = surfaces_view(tos@);
                                                tos.push(port.clone());
                                                assert(surfaces_view(tos@) =~= before.push(port@));
                                            }
                                        },
                                    }
                                },
                            }
                            i += 1;
                        }
                        Ok(tos)
                    },
                    Recipients::Stars => {
                        let layer = if self.star == wave.from.point {
                            Layer::Gravity
                        } else {
                            Layer::Core
                        };
                        tos.push(Surface::new(self.star.clone(), layer));
                        assert(surfaces_view(tos@) =~= seq![
                            SurfaceView { point: self.star@, layer },
                        ]);
                        Ok(tos)
                    },
                    _ => {
                        assert(surfaces_view(tos@) =~= Seq::<SurfaceView>::empty());
                        Ok(tos)
                    },
                }
            },
        }
    }

    /// The direction and the destination layer of the traversal of an
    /// injected wave to the surface `to` of a particle with the plan
    /// `plan`. Fails where the wave stays within one particle and is for a
    /// layer that the particle does not have.
    pub fn direction(
        forced: Option<TraversalDirection>,
        from_gravity: bool,
        to: &Surface,
        from: &Point,
        injected_at: Layer,
        plan: TraversalPlan,
    ) -> (r: Result<(TraversalDirection, Option<Layer>), TraversalError>)
        ensures
            r is Err <==> layer_missing(forced, from_gravity, to@, from@, plan),
            r matches Err(e) ==> e == TraversalError::LayerNotInPlan,
            r matches Ok(d) ==> d == direction_rule(forced, from_gravity, to@, from@, injected_at),
    {
        match forced {
            Some(dir) => Ok((dir, None)),
            None => {
                if from_gravity {
                    Ok((TraversalDirection::Core, Some(to.layer)))
                } else if to.point.is_global() {
                    Ok((TraversalDirection::Fabric, None))
                } else if to.point == *from {
                    let gravity = match to.layer {
                        Layer::Gravity => true,
                        _ => false,
                    };
                    if !gravity && !plan.has_layer(to.layer) {
                        return Err(TraversalError::LayerNotInPlan);
                    }
                    let dir = match TraversalDirection::new(injected_at, to.layer) {
                        Some(d) => d,
                        None => TraversalDirection::Fabric,
                    };
                    Ok((dir, Some(to.layer)))
                } else {
                    Ok((TraversalDirection::Fabric, None))
                }
            },
        }
    }

    /// What is done first with a traversal.
    pub fn start(&self, traversal: Traversal) -> (r: TraversalAction)
        ensures
            r@ == start_of(traversal@),
    {
        let mut traversal = traversal;
        if !self.has_layer(traversal.layer) {
            match traversal.next() {
                None => {
                    return exit(traversal);
                },
                Some(_) => {},
            }
        }
        visit_layer(traversal)
    }

    /// Starts the traversal of the wave of an injection to one recipient.
    pub fn start_one(&self, registry: &Registry, injection: &TraversalInjection, to: Surface) -> (r:
        Result<TraversalAction, TraversalError>)
        requires
            registry.wf(),
        ensures
            r is Ok == registry@.start_one(injection@, to@) is Ok,
            r matches Ok(a) ==> registry@.start_one(injection@, to@) == Ok::<
                ActionView,
                TraversalError,
            >(a@),
            r matches Err(e) ==> registry@.start_one(injection@, to@) == Err::<
                ActionView,
                TraversalError,
            >(e),
    {
        let record = match registry.record(&to.point) {
            Ok(record) => record,
            Err(_) => {
                return Err(TraversalError::NotFound);
            },
        };
        let plan = TraversalPlan::of(record.details.stub.kind.base);
        let injected_at = injection.surface.layer;
        let (dir, dest) = match Self::direction(
            injection.dir,
            injection.from_gravity,
            &to,
            &injection.wave.from.point,
            injected_at,
            plan,
        ) {
            Ok(d) => d,
            Err(e) => {
                return Err(e);
            },
        };
        let point = match dir {
            TraversalDirection::Core => to.point.clone(),
            TraversalDirection::Fabric => injection.wave.from.point.clone(),
        };
        let ghost record_view = record@;
        let ghost to_view = to@;
        let traversal = Traversal {
            wave: injection.wave.clone(),
            record,
            layer: injected_at,
            dir,
            dest,
            to,
            point,
        };
        assert(traversal@ == traversal_of(injection@, record_view, to_view));
        Ok(self.start(traversal))
    }

    /// Starts the traversals of an injected wave, one for each recipient
    /// on this star.
    ///
    /// The record of each recipient is looked up; the direction rule gives
    /// the direction and the destination layer; a traversal injected at a
    /// layer that the engine does not visit moves on to the next layer of
    /// the plan or exits. The first recipient that fails stops the
    /// injection; the traversals that started before stay started.
    pub fn start_layer_traversal(&self, registry: &Registry, injection: &TraversalInjection) -> (r:
        TraversalOutcome)
        requires
            registry.wf(),
        ensures
            (actions_view(r.actions@), r.error) == registry@.start_layer_traversal(
                self.star@,
                injection@,
            ),
    {
        let tos = match self.destinations(registry, &injection.wave) {
            Ok(tos) => tos,
            Err(e) => {
                let out = TraversalOutcome { actions: Vec::new(), error: Some(e) };
                assert(actions_view(out.actions@) =~= Seq::<ActionView>::empty());
                return out;
            },
        };
        let ghost all = surfaces_view(tos@);
        let mut actions: Vec<TraversalAction> = Vec::new();
        assert(actions_view(actions@) =~= Seq::<ActionView>::empty());
        let mut i: usize = 0;
        while i < tos.len()
            invariant
                i <= tos.len(),
                registry.wf(),
                all == surfaces_view(tos@),
                registry@.destinations(self.star@, injection@.wave) == Ok::<
                    Seq<SurfaceView>,
                    TraversalError,
                >(all),
                registry@.start_all(injection@, all, i as int).0 == actions_view(actions@),
                registry@.start_all(injection@, all, i as int).1 is None,
            decreases tos.len() - i,
        {
            assert(all[i as int] == tos@[i as int]@);
            let ghost so_far = registry@.start_all(injection@, all, i as int);
            let ghost next = registry@.start_all(injection@, all, i as int + 1);
            let ghost one = registry@.start_one(injection@, all[i as int]);
            assert(next == (match one {
                Ok(action) => (so_far.0.push(action), None::<TraversalError>),
                Err(e) => (so_far.0, Some(e)),
            }));
            let to = tos[i].clone();
            let started = self.start_one(registry, injection, to);
            match started {
                Ok(action) => {
                    let ghost before = actions_view(actions@);
                    actions.push(action);
                    assert(actions_view(actions@) =~= before.push(action@));
                },
                Err(e) => {
                    proof {
                        lemma_start_all_stays(
                            registry@,
                            injection@,
                            all,
                            i as int + 1,
                            all.len() as int,
                        );
                    }
                    return TraversalOutcome { actions, error: Some(e) };
                },
            }
            i += 1;
        }
        TraversalOutcome { actions, error: None }
    }
}

impl TraversalError {
    /// The status code that stands for the error in a reflected wave: 404
    /// where a record is missing, 500 else.
    pub open spec fn spec_status(self) -> u16 {
        match self {
            TraversalError::NotFound => 404,
            _ => 500,
        }
    }

    #[verifier::when_used_as_spec(spec_status)]
    pub fn status(self) -> (r: u16)
        ensures
            r == self.spec_status(),
    {
        match self {
            TraversalError::NotFound => 404,
            _ => 500,
        }
    }

    /// The message that stands for the error in a reflected wave.
    pub open spec fn spec_message(self) -> Seq<char> {
        match self {
            TraversalError::NotFound => "could not locate the record of the recipient"@,
            TraversalError::NotLocated => "a recipient of the ripple is not located"@,
            TraversalError::LayerNotInPlan => "the recipient does not have the layer"@,
            TraversalError::Unimplemented => "unimplemented"@,
        }
    }

    pub fn message(self) -> (r: String)
        ensures
            r@ == self.spec_message(),
    {
        match self {
            TraversalError::NotFound => String::from_str(
                "could not locate the record of the recipient",
            ),
            TraversalError::NotLocated => String::from_str(
                "a recipient of the ripple is not located",
            ),
            TraversalError::LayerNotInPlan => String::from_str(
                "the recipient does not have the layer",
            ),
            TraversalError::Unimplemented => String::from_str("unimplemented"),
        }
    }
}

/// The wave that reports the failure of an injected wave back to its
/// sender, under the identifier `id`.
pub open spec fn failure_reflection(wave: WaveView, star: PointView, e: TraversalError, id: Seq<char>)
    -> WaveView {
    WaveView {
        kind: wave.kind.spec_reflected_kind()->Some_0,
        id,
        from: SurfaceView { point: star, layer: Layer::Core },
        to: RecipientsView::Single(wave.from),
        method: wave.method,
        body: SubstanceView::Failure(e.spec_status(), e.spec_message()),
        status: e.spec_status(),
        reflection_of: Some(wave.id),
        history: Seq::empty(),
        hops: 0,
        handling: wave.handling,
        scope: wave.scope,
        agent: wave.agent,
        track: wave.track,
    }
}

impl RegistryView {
    /// What the injection of a wave gives, failures handled: where a wave
    /// that asks for an answer fails, the failure is reflected to its
    /// sender in a wave with the identifier `id`, which is injected at the
    /// same surface and goes through the layers in its turn; the error of a
    /// wave that asks for no answer is only reported.
    pub open spec fn inject(self, star: PointView, inj: InjectionView, id: Seq<char>) -> (
        Seq<ActionView>,
        Option<TraversalError>,
    ) {
        let (actions, error) = self.start_layer_traversal(star, inj);
        match error {
            None => (actions, None),
            Some(e) => if inj.wave.kind.spec_reflected_kind() is Some {
                let back = self.start_layer_traversal(
                    star,
                    InjectionView {
                        surface: inj.surface,
                        wave: failure_reflection(inj.wave, star, e, id),
                        from_gravity: false,
                        dir: None,
                    },
                );
                (actions + back.0, back.1)
            } else {
                (actions, Some(e))
            },
        }
    }
}

/// What an injection gave, failures handled.
#[derive(Debug, PartialEq, Eq)]
pub struct InjectOutcome {
    /// The traversals that started, each with what is done with it first.
    pub actions: Vec<TraversalAction>,
    /// The identifier of the wave that reflects a failure, where one was
    /// made.
    pub reflection_id: Option<String>,
    /// The error that is left to report.
    pub error: Option<TraversalError>,
}

impl LayerTraversalEngine {
    /// Injects a wave, and reflects its failure where it asks for an
    /// answer.
    pub fn inject(&self, registry: &Registry, injection: TraversalInjection) -> (r: InjectOutcome)
        requires
            registry.wf(),
        ensures
            (actions_view(r.actions@), r.error) == registry@.inject(
                self.star@,
                injection@,
                match r.reflection_id {
                    Some(id) => id@,
                    None => Seq::empty(),
                },
            ),
            r.reflection_id is Some <==> registry@.start_layer_traversal(
                self.star@,
                injection@,
            ).1 is Some && injection@.wave.kind.spec_reflected_kind() is Some,
    {
        let first = self.start_layer_traversal(registry, &injection);
        let e = match first.error {
            None => {
                return InjectOutcome { actions: first.actions, reflection_id: None, error: None };
            },
            Some(e) => e,
        };
        let id = fresh_id();
        let reflected = injection.wave.reflect(
            id.clone(),
            self.star.to_surface(),
            e.status(),
            Substance::Failure(e.status(), e.message()),
        );
        match reflected {
            None => InjectOutcome { actions: first.actions, reflection_id: None, error: Some(e) },
            Some(wave) => {
                let ghost first_view = actions_view(first.actions@);
                let back = TraversalInjection {
                    surface: injection.surface,
                    wave,
                    from_gravity: false,
                    dir: None,
                };
                assert(back@.wave == failure_reflection(injection@.wave, self.star@, e, id@));
                let second = self.start_layer_traversal(registry, &back);
                let mut actions = first.actions;
                let mut more = second.actions;
                let ghost more_view = actions_view(more@);
                append_actions(&mut actions, &mut more);
                assert(actions_view(actions@) == first_view + more_view);
                InjectOutcome { actions, reflection_id: Some(id), error: second.error }
            },
        }
    }
}

/// Moves the actions of `more` to the end of `actions`.
pub fn append_actions(actions: &mut Vec<TraversalAction>, more: &mut Vec<TraversalAction>)
    ensures
        actions_view(final(actions)@) == actions_view(old(actions)@) + actions_view(old(more)@),
{
    let ghost start = actions_view(actions@);
    let ghost added = actions_view(more@);
    actions.append(more);
    assert(actions_view(actions@) =~= start + added);
}

/// Once a recipient of a ripple has given an error, the error stays.
pub proof fn lemma_recipients_error_stays(
    reg: RegistryView,
    recipients: Seq<SurfaceView>,
    n: int,
    m: int,
)
    requires
        n <= m,
        reg.recipients_error(recipients, n) is Some,
    ensures
        reg.recipients_error(recipients, m) == reg.recipients_error(recipients, n),
    decreases m - n,
{
    if n < m {
        lemma_recipients_error_stays(reg, recipients, n, m - 1);
    }
}

/// Once a traversal has failed to start, no further one starts.
pub proof fn lemma_start_all_stays(
    reg: RegistryView,
    inj: InjectionView,
    tos: Seq<SurfaceView>,
    n: int,
    m: int,
)
    requires
        n <= m,
        reg.start_all(inj, tos, n).1 is Some,
    ensures
        reg.start_all(inj, tos, m) == reg.start_all(inj, tos, n),
    decreases m - n,
{
    if n < m {
        lemma_start_all_stays(reg, inj, tos, n, m - 1);
    }
}

} // verus!
