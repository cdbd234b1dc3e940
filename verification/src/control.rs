//! The drivers of the control and root particles: through a control an
//! outside client reaches the fabric.

use vstd::prelude::*;
use vstd::string::StringExecFns;
use crate::ids::fresh_id;
use crate::interchange::{Greet, GreetView, HyperwayStub};
use crate::kind::{BaseKind, Kind, KindView};
use crate::point::{Layer, Point, PointView, Surface, SurfaceView};
use crate::router::sans_id;
use crate::selector::{KindSelector, KindSelectorView, Selector};
use crate::wave::{
    AgentView, Handling, Method, MethodView, Recipients, RecipientsView, Scope, Substance,
    SubstanceView, Wave, WaveKind, WaveView,
};

verus! {

/// Whether a driver is for use within the fabric only.
#[derive(Clone, Copy, Debug, PartialEq, Eq, Structural, Hash)]
pub enum DriverAvail {
    Internal,
    External,
}

/// Makes the driver of the controls of a star.
#[derive(Debug)]
pub struct ControlDriverFactory {
}

impl ControlDriverFactory {
    pub fn new() -> (r: ControlDriverFactory) {
        ControlDriverFactory {  }
    }

    /// The kinds of particles that the driver serves: controls.
    pub fn kind(&self) -> (r: KindSelector)
        ensures
            r@ == KindSelectorView::of_base(BaseKind::Control),
    {
        KindSelector::from_base(BaseKind::Control)
    }

    pub fn avail(&self) -> (r: DriverAvail)
        ensures
            r == DriverAvail::Internal,
    {
        DriverAvail::Internal
    }
}

/// Makes controls.
#[derive(Debug)]
pub struct ControlFactory {
}

impl ControlFactory {
    pub fn new() -> (r: ControlFactory) {
        ControlFactory {  }
    }

    /// The kinds of particles that the factory makes: controls.
    pub fn kind(&self) -> (r: KindSelector)
        ensures
            r@ == KindSelectorView::of_base(BaseKind::Control),
    {
        KindSelector::from_base(BaseKind::Control)
    }
}

/// Greets the clients of the controls of a star.
#[derive(Debug)]
pub struct ControlGreeter {
    /// The address of the driver of the controls.
    pub driver: Point,
    /// The address below which the controls live.
    pub controls: Point,
}

impl ControlGreeter {
    pub fn new(driver: Point, controls: Point) -> (r: ControlGreeter)
        ensures
            r.driver == driver,
            r.controls == controls,
    {
        ControlGreeter { driver, controls }
    }

    /// The greeting for a client: it sends from the core of its address,
    /// hops to the driver, and enters the fabric at the portal of its
    /// address.
    pub fn greet(&self, stub: &HyperwayStub) -> (r: Greet)
        ensures
            r@ == (GreetView {
                surface: SurfaceView { point: stub@.remote.point, layer: Layer::Core },
                agent: stub@.agent,
                hop: SurfaceView { point: self.driver@, layer: Layer::Core },
                transport: SurfaceView { point: stub@.remote.point, layer: Layer::Portal },
            }),
    {
        Greet {
            surface: stub.remote.with_layer(Layer::Core),
            agent: stub.agent.clone(),
            hop: self.driver.to_surface(),
            transport: stub.remote.with_layer(Layer::Portal),
        }
    }
}

/// What a control works with: the surface to which it routes the waves of
/// its client.
#[derive(Debug)]
pub struct ControlCtx {
    pub router: Surface,
}

impl ControlCtx {
    pub fn new(router: Surface) -> (r: ControlCtx)
        ensures
            r.router == router,
    {
        ControlCtx { router }
    }
}

/// A control: the particle that stands for an outside client.
#[derive(Debug)]
pub struct Control {
    pub point: Point,
    pub ctx: ControlCtx,
}

impl Control {
    /// The control as it was before, from what was kept of it.
    pub fn restore(point: Point, ctx: ControlCtx) -> (r: Control)
        ensures
            r.point == point,
            r.ctx == ctx,
    {
        Control { point, ctx }
    }
}

/// A session of commands of an outside client.
#[derive(Debug)]
pub struct ControlCliSession {
    /// The surface from which the commands are sent.
    pub from: Surface,
    /// The surface to which the commands are sent.
    pub to: Surface,
}

/// The request to run a command, without its identifier: a ping with the
/// method `Exec` whose body is the text of the command.
pub open spec fn exec_request(from: SurfaceView, to: SurfaceView, command: Seq<char>) -> WaveView {
    WaveView {
        kind: WaveKind::Ping,
        id: Seq::empty(),
        from,
        to: RecipientsView::Single(to),
        method: MethodView::Ext("Exec"@),
        body: SubstanceView::Text(command),
        status: 200,
        reflection_of: None,
        history: Seq::empty(),
        hops: 0,
        handling: Handling::spec_default(),
        scope: Scope::Full,
        agent: AgentView::Anonymous,
        track: false,
    }
}

impl ControlCliSession {
    pub fn new(from: Surface, to: Surface) -> (r: ControlCliSession)
        ensures
            r.from == from,
            r.to == to,
    {
        ControlCliSession { from, to }
    }

    /// The request to run a command.
    pub fn raw(&self, command: String) -> (r: Wave)
        ensures
            sans_id(r@) == exec_request(self.from@, self.to@, command@),
    {
        let mut wave = Wave::directed(
            WaveKind::Ping,
            fresh_id(),
            self.from.clone(),
            Recipients::Single(self.to.clone()),
            Method::Ext(String::from_str("Exec")),
        );
        wave.body = Substance::Text(command);
        wave
    }
}

/// Makes the driver of the root.
#[derive(Debug)]
pub struct RootDriverFactory {
}

impl RootDriverFactory {
    pub fn new() -> (r: RootDriverFactory) {
        RootDriverFactory {  }
    }

    /// The kinds of particles that the driver serves: the root.
    pub fn kind(&self) -> (r: KindSelector)
        ensures
            r@ == KindSelectorView::of_base(BaseKind::Root),
    {
        KindSelector::from_base(BaseKind::Root)
    }
}

/// The driver of the root.
#[derive(Debug)]
pub struct RootDriver {
}

impl RootDriver {
    /// The kind of the particles of the driver: the root.
    pub fn kind(&self) -> (r: Kind)
        ensures
            r@ == crate::selector::root_kind(),
    {
        Kind::root()
    }

    /// The root particle.
    pub fn item(&self) -> (r: Root) {
        Root::new()
    }
}

/// The root particle.
#[derive(Debug)]
pub struct Root {
}

impl Root {
    pub fn new() -> (r: Root) {
        Root {  }
    }
}

/// What the search for the handler of a topic gives.
#[derive(Clone, Copy, Debug, PartialEq, Eq, Structural, Hash)]
pub enum TopicLookup {
    /// The topic has a handler, and the handler takes waves from the
    /// source.
    Found,
    /// The topic has a handler, but it takes no waves from the source.
    Refused,
    /// The topic has no handler.
    Absent,
}

/// What the search for the handler of a topic gives, from the sources
/// that the handler of the topic takes, where the topic has a handler, and
/// the source of a wave: the handler is found where its selector accepts
/// the hierarchy of the source; a source that is not known is refused.
pub open spec fn topic_lookup(
    reg: crate::registry::RegistryView,
    selector: Option<crate::selector::SelectorView>,
    source: crate::point::SurfaceView,
) -> TopicLookup {
    match selector {
        None => TopicLookup::Absent,
        Some(sel) => if reg.known(source.point) && sel.matches(reg.hierarchy(source.point)) {
            TopicLookup::Found
        } else {
            TopicLookup::Refused
        },
    }
}

/// Searches the handler of a topic for a wave from `source`: `selector` is
/// the selector of the handler of the topic, where it has one.
pub fn find_topic(
    registry: &crate::registry::Registry,
    selector: Option<&Selector>,
    source: &crate::point::Surface,
) -> (r: TopicLookup)
    requires
        registry.wf(),
    ensures
        r == topic_lookup(
            registry@,
            match selector {
                Some(sel) => Some(sel@),
                None => None,
            },
            source@,
        ),
{
    match selector {
        None => TopicLookup::Absent,
        Some(sel) => match registry.query(&source.point) {
            Ok(hierarchy) => if sel.matches(&hierarchy) {
                TopicLookup::Found
            } else {
                TopicLookup::Refused
            },
            Err(_) => TopicLookup::Refused,
        },
    }
}

/// How far the drivers of a star have come.
#[derive(Debug, PartialEq, Eq)]
pub enum DriverStatus {
    Unknown,
    Pending,
    Init,
    Ready,
    /// A driver failed and is tried again; the message says why.
    Retrying(String),
    /// A driver failed for good; the message says why.
    Fatal(String),
}

pub enum DriverStatusView {
    Unknown,
    Pending,
    Init,
    Ready,
    Retrying(Seq<char>),
    Fatal(Seq<char>),
}

impl View for DriverStatus {
    type V = DriverStatusView;

    open spec fn view(&self) -> DriverStatusView {
        match self {
            DriverStatus::Unknown => DriverStatusView::Unknown,
            DriverStatus::Pending => DriverStatusView::Pending,
            DriverStatus::Init => DriverStatusView::Init,
            DriverStatus::Ready => DriverStatusView::Ready,
            DriverStatus::Retrying(m) => DriverStatusView::Retrying(m@),
            DriverStatus::Fatal(m) => DriverStatusView::Fatal(m@),
        }
    }
}

/// What a star does when the status of its drivers has changed.
#[derive(Clone, Copy, Debug, PartialEq, Eq, Structural, Hash)]
pub struct StatusStep {
    /// The status that the star takes.
    pub status: crate::kind::Status,
    /// Whether the star makes its own particle and begins to look for its
    /// peers: it does once its drivers are ready.
    pub start: bool,
}

/// The status of a star whose drivers have the status: the same where the
/// drivers are on their way or ready; panic while a driver is tried again.
pub open spec fn star_status(status: DriverStatusView) -> crate::kind::Status {
    match status {
        DriverStatusView::Unknown => crate::kind::Status::Unknown,
        DriverStatusView::Pending => crate::kind::Status::Pending,
        DriverStatusView::Init => crate::kind::Status::Init,
        DriverStatusView::Ready => crate::kind::Status::Ready,
        DriverStatusView::Retrying(_) => crate::kind::Status::Panic,
        DriverStatusView::Fatal(_) => crate::kind::Status::Fatal,
    }
}

impl DriverStatus {
    /// Whether two statuses are the same, messages included.
    pub fn same(&self, other: &DriverStatus) -> (r: bool)
        ensures
            r == (self@ == other@),
    {
        match (self, other) {
            (DriverStatus::Unknown, DriverStatus::Unknown) => true,
            (DriverStatus::Pending, DriverStatus::Pending) => true,
            (DriverStatus::Init, DriverStatus::Init) => true,
            (DriverStatus::Ready, DriverStatus::Ready) => true,
            (DriverStatus::Retrying(a), DriverStatus::Retrying(b)) => *a == *b,
            (DriverStatus::Fatal(a), DriverStatus::Fatal(b)) => *a == *b,
            _ => false,
        }
    }

    /// The status of a star whose drivers have this status.
    pub fn star_status(&self) -> (r: crate::kind::Status)
        ensures
            r == star_status(self@),
    {
        match self {
            DriverStatus::Unknown => crate::kind::Status::Unknown,
            DriverStatus::Pending => crate::kind::Status::Pending,
            DriverStatus::Init => crate::kind::Status::Init,
            DriverStatus::Ready => crate::kind::Status::Ready,
            DriverStatus::Retrying(_) => crate::kind::Status::Panic,
            DriverStatus::Fatal(_) => crate::kind::Status::Fatal,
        }
    }

    /// What a star does when its drivers tell their status: nothing where
    /// the status is what it was; else the star takes the status that goes
    /// with it, and starts where the drivers are ready.
    pub fn step(previous: &DriverStatus, now: &DriverStatus) -> (r: Option<StatusStep>)
        ensures
            r == (if previous@ == now@ {
                None
            } else {
                Some(StatusStep { status: star_status(now@), start: now@ is Ready })
            }),
    {
        if previous.same(now) {
            None
        } else {
            let start = match now {
                DriverStatus::Ready => true,
                _ => false,
            };
            Some(StatusStep { status: now.star_status(), start })
        }
    }
}

/// Something that handles the waves of a topic.
pub trait TopicHandler {
    /// The senders whose waves the handler takes.
    fn source_selector(&self) -> &Selector;
}

/// Turns a handler into a body and back.
pub trait TopicHandlerSerde<T: TopicHandler> {
    fn serialize(&self, handler: T) -> Substance;

    fn deserialize(&self, ser: Substance) -> T;
}

/// A failure of a host of guest code.
pub trait HostErr {
    /// The failure as a body that can travel.
    fn to_space_err(self) -> Substance;
}

/// A failure of a host of guest code, with a message.
#[derive(Debug, PartialEq, Eq)]
pub struct DefaultHostErr {
    pub message: String,
}

impl DefaultHostErr {
    pub fn new(message: String) -> (r: DefaultHostErr)
        ensures
            r.message@ == message@,
    {
        DefaultHostErr { message }
    }

    pub fn to_string(&self) -> (r: String)
        ensures
            r@ == self.message@,
    {
        self.message.clone()
    }
}

impl HostErr for DefaultHostErr {
    /// The failure with the status 500 and the message.
    fn to_space_err(self) -> (r: Substance)
        ensures
            r@ == crate::wave::SubstanceView::Failure(500, self.message@),
    {
        Substance::Failure(500, self.message)
    }
}

} // verus!
