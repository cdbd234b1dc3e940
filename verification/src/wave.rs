//! Waves: the unit of communication between particles, and the envelopes
//! (transports and hops) that carry them from star to star.

use vstd::prelude::*;
use crate::particle::{opt_point_view, LocationView, ParticleLocation};
use crate::point::{Layer, Point, PointView, Surface, SurfaceView};

verus! {

/// The five kinds of waves.
#[derive(Clone, Copy, Debug, PartialEq, Eq, Structural, Hash)]
pub enum WaveKind {
    Ping,
    Pong,
    Ripple,
    Echo,
    Signal,
}

impl WaveKind {
    /// A wave that is sent to recipients: a ping, a ripple or a signal.
    pub open spec fn spec_is_directed(self) -> bool {
        self == WaveKind::Ping || self == WaveKind::Ripple || self == WaveKind::Signal
    }

    #[verifier::when_used_as_spec(spec_is_directed)]
    pub fn is_directed(self) -> (r: bool)
        ensures
            r == self.spec_is_directed(),
    {
        match self {
            WaveKind::Ping => true,
            WaveKind::Ripple => true,
            WaveKind::Signal => true,
            _ => false,
        }
    }

    /// A wave that answers a directed one: a pong or an echo.
    pub open spec fn spec_is_reflected(self) -> bool {
        self == WaveKind::Pong || self == WaveKind::Echo
    }

    #[verifier::when_used_as_spec(spec_is_reflected)]
    pub fn is_reflected(self) -> (r: bool)
        ensures
            r == self.spec_is_reflected(),
    {
        match self {
            WaveKind::Pong => true,
            WaveKind::Echo => true,
            _ => false,
        }
    }

    /// The kind of the answer to a wave of this kind: a pong to a ping, an
    /// echo to a ripple, none to the others.
    pub open spec fn spec_reflected_kind(self) -> Option<WaveKind> {
        match self {
            WaveKind::Ping => Some(WaveKind::Pong),
            WaveKind::Ripple => Some(WaveKind::Echo),
            _ => None,
        }
    }

    #[verifier::when_used_as_spec(spec_reflected_kind)]
    pub fn reflected_kind(self) -> (r: Option<WaveKind>)
        ensures
            r == self.spec_reflected_kind(),
    {
        match self {
            WaveKind::Ping => Some(WaveKind::Pong),
            WaveKind::Ripple => Some(WaveKind::Echo),
            _ => None,
        }
    }
}

/// Methods of the fabric itself.
#[derive(Clone, Copy, Debug, PartialEq, Eq, Structural, Hash)]
pub enum HypMethod {
    Init,
    Assign,
    Host,
    Provision,
    Knock,
    Hop,
    Transport,
    Search,
}

/// Methods of the command interface.
#[derive(Clone, Copy, Debug, PartialEq, Eq, Structural, Hash)]
pub enum CmdMethod {
    Read,
    Update,
    Bounce,
    Init,
}

/// What a wave asks of its recipient.
#[derive(Debug, PartialEq, Eq, Hash)]
pub enum Method {
    Hyp(HypMethod),
    Cmd(CmdMethod),
    Ext(String),
}

pub enum MethodView {
    Hyp(HypMethod),
    Cmd(CmdMethod),
    Ext(Seq<char>),
}

impl View for Method {
    type V = MethodView;

    open spec fn view(&self) -> MethodView {
        match self {
            Method::Hyp(m) => MethodView::Hyp(*m),
            Method::Cmd(m) => MethodView::Cmd(*m),
            Method::Ext(s) => MethodView::Ext(s@),
        }
    }
}

impl Clone for Method {
    fn clone(&self) -> (r: Method)
        ensures
            r@ == self@,
    {
        match self {
            Method::Hyp(m) => Method::Hyp(*m),
            Method::Cmd(m) => Method::Cmd(*m),
            Method::Ext(s) => Method::Ext(s.clone()),
        }
    }
}

/// How urgent a wave is.
#[derive(Clone, Copy, Debug, PartialEq, Eq, Structural, Hash)]
pub enum Priority {
    High,
    Normal,
    Low,
}

/// Whether a wave may be lost.
#[derive(Clone, Copy, Debug, PartialEq, Eq, Structural, Hash)]
pub enum HandlingKind {
    Immediate,
    Durable,
}

/// How often a wave is sent again when no answer comes.
#[derive(Clone, Copy, Debug, PartialEq, Eq, Structural, Hash)]
pub enum Retries {
    Never,
    Medium,
    Max,
}

/// How long an answer is waited for.
#[derive(Clone, Copy, Debug, PartialEq, Eq, Structural, Hash)]
pub enum WaitTime {
    Low,
    Med,
    High,
}

/// The handling hints of a wave.
#[derive(Clone, Copy, Debug, PartialEq, Eq, Structural, Hash)]
pub struct Handling {
    pub kind: HandlingKind,
    pub priority: Priority,
    pub retries: Retries,
    pub wait: WaitTime,
}

impl Handling {
    pub open spec fn spec_default() -> Handling {
        Handling {
            kind: HandlingKind::Durable,
            priority: Priority::Normal,
            retries: Retries::Medium,
            wait: WaitTime::Low,
        }
    }

    /// Durable, of normal priority, with medium retries and a low wait.
    #[verifier::when_used_as_spec(spec_default)]
    pub fn default() -> (r: Handling)
        ensures
            r == Handling::spec_default(),
    {
        Handling {
            kind: HandlingKind::Durable,
            priority: Priority::Normal,
            retries: Retries::Medium,
            wait: WaitTime::Low,
        }
    }
}

/// What the sender of a wave is allowed.
#[derive(Clone, Copy, Debug, PartialEq, Eq, Structural, Hash)]
pub enum Scope {
    Full,
    Nothing,
}

/// On whose behalf a wave is sent.
#[derive(Debug, PartialEq, Eq, Hash)]
pub enum Agent {
    Anonymous,
    HyperUser,
    Point(Point),
}

pub enum AgentView {
    Anonymous,
    HyperUser,
    Point(PointView),
}

impl View for Agent {
    type V = AgentView;

    open spec fn view(&self) -> AgentView {
        match self {
            Agent::Anonymous => AgentView::Anonymous,
            Agent::HyperUser => AgentView::HyperUser,
            Agent::Point(p) => AgentView::Point(p@),
        }
    }
}

impl Clone for Agent {
    fn clone(&self) -> (r: Agent)
        ensures
            r@ == self@,
    {
        match self {
            Agent::Anonymous => Agent::Anonymous,
            Agent::HyperUser => Agent::HyperUser,
            Agent::Point(p) => Agent::Point(p.clone()),
        }
    }
}

/// The views of a sequence of surfaces.
pub open spec fn surfaces_view(v: Seq<Surface>) -> Seq<SurfaceView> {
    Seq::new(v.len(), |i: int| v[i]@)
}

/// The views of a sequence of addresses.
pub open spec fn points_view(v: Seq<Point>) -> Seq<PointView> {
    Seq::new(v.len(), |i: int| v[i]@)
}

/// Copies a list of surfaces.
pub fn clone_surfaces(v: &Vec<Surface>) -> (r: Vec<Surface>)
    ensures
        surfaces_view(r@) == surfaces_view(v@),
{
    let mut r: Vec<Surface> = Vec::new();
    let mut i: usize = 0;
    while i < v.len()
        invariant
            i <= v.len(),
            r@.len() == i,
            forall|j: int| 0 <= j < i ==> r@[j]@ == v@[j]@,
        decreases v.len() - i,
    {
        r.push(v[i].clone());
        i += 1;
    }
    assert(surfaces_view(r@) =~= surfaces_view(v@));
    r
}

/// Copies a list of addresses.
pub fn clone_points(v: &Vec<Point>) -> (r: Vec<Point>)
    ensures
        points_view(r@) == points_view(v@),
{
    let mut r: Vec<Point> = Vec::new();
    let mut i: usize = 0;
    while i < v.len()
        invariant
            i <= v.len(),
            r@.len() == i,
            forall|j: int| 0 <= j < i ==> r@[j]@ == v@[j]@,
        decreases v.len() - i,
    {
        r.push(v[i].clone());
        i += 1;
    }
    assert(points_view(r@) =~= points_view(v@));
    r
}

/// Copies a run of bytes.
pub fn clone_bytes(v: &Vec<u8>) -> (r: Vec<u8>)
    ensures
        r@ == v@,
{
    let mut r: Vec<u8> = Vec::new();
    let mut i: usize = 0;
    while i < v.len()
        invariant
            i <= v.len(),
            r@ == v@.subrange(0, i as int),
        decreases v.len() - i,
    {
        r.push(v[i]);
        assert(r@ =~= v@.subrange(0, i as int + 1));
        i += 1;
    }
    assert(v@.subrange(0, v.len() as int) =~= v@);
    r
}

/// Whether the list holds the address.
pub fn holds(v: &Vec<Point>, p: &Point) -> (r: bool)
    ensures
        r == points_view(v@).contains(p@),
{
    let mut i: usize = 0;
    while i < v.len()
        invariant
            i <= v.len(),
            forall|j: int| 0 <= j < i ==> points_view(v@)[j] != p@,
        decreases v.len() - i,
    {
        if v[i] == *p {
            assert(points_view(v@)[i as int] == p@);
            return true;
        }
        i += 1;
    }
    false
}

/// To whom a wave is sent.
#[derive(Debug, PartialEq, Eq, Hash)]
pub enum Recipients {
    Single(Surface),
    Multi(Vec<Surface>),
    /// Everyone who watches the topic at the address.
    Watchers(Point),
    /// Every star.
    Stars,
}

pub enum RecipientsView {
    Single(SurfaceView),
    Multi(Seq<SurfaceView>),
    Watchers(PointView),
    Stars,
}

impl View for Recipients {
    type V = RecipientsView;

    open spec fn view(&self) -> RecipientsView {
        match self {
            Recipients::Single(s) => RecipientsView::Single(s@),
            Recipients::Multi(v) => RecipientsView::Multi(surfaces_view(v@)),
            Recipients::Watchers(p) => RecipientsView::Watchers(p@),
            Recipients::Stars => RecipientsView::Stars,
        }
    }
}

impl Clone for Recipients {
    fn clone(&self) -> (r: Recipients)
        ensures
            r@ == self@,
    {
        match self {
            Recipients::Single(s) => Recipients::Single(s.clone()),
            Recipients::Multi(v) => Recipients::Multi(clone_surfaces(v)),
            Recipients::Watchers(p) => Recipients::Watchers(p.clone()),
            Recipients::Stars => Recipients::Stars,
        }
    }
}

impl Recipients {
    pub fn is_single(&self) -> (r: bool)
        ensures
            r == (self@ is Single),
    {
        match self {
            Recipients::Single(_) => true,
            _ => false,
        }
    }

    /// The one recipient, where there is exactly one.
    pub fn to_single(&self) -> (r: Option<Surface>)
        ensures
            r is Some <==> self@ is Single,
            r matches Some(s) ==> self@ == RecipientsView::Single(s@),
    {
        match self {
            Recipients::Single(s) => Some(s.clone()),
            _ => None,
        }
    }
}

/// The credentials with which an endpoint asks to be let in.
#[derive(Debug, PartialEq, Eq, Hash)]
pub struct Knock {
    pub credentials: String,
    /// The surface that the endpoint would like to have.
    pub remote: Option<Surface>,
}

pub struct KnockView {
    pub credentials: Seq<char>,
    pub remote: Option<SurfaceView>,
}

/// The view of an optional surface.
pub open spec fn opt_surface_view(o: Option<Surface>) -> Option<SurfaceView> {
    match o {
        Some(s) => Some(s@),
        None => None,
    }
}

impl View for Knock {
    type V = KnockView;

    open spec fn view(&self) -> KnockView {
        KnockView { credentials: self.credentials@, remote: opt_surface_view(self.remote) }
    }
}

impl Clone for Knock {
    fn clone(&self) -> (r: Knock)
        ensures
            r@ == self@,
    {
        let remote = match &self.remote {
            Some(s) => Some(s.clone()),
            None => None,
        };
        Knock { credentials: self.credentials.clone(), remote }
    }
}

/// The body of a wave.
#[derive(Debug, PartialEq, Eq, Hash)]
pub enum Substance {
    Empty,
    Text(String),
    Bin(Vec<u8>),
    Point(Point),
    Location(ParticleLocation),
    Knock(Knock),
    /// A request to provision the particle at the address.
    Provision(Point),
    /// A failure, with a status code and a message.
    Failure(u16, String),
    /// Another wave: the body of a transport or of a hop.
    Wave(Box<Wave>),
}

pub enum SubstanceView {
    Empty,
    Text(Seq<char>),
    Bin(Seq<u8>),
    Point(PointView),
    Location(LocationView),
    Knock(KnockView),
    Provision(PointView),
    Failure(u16, Seq<char>),
    Wave(Box<WaveView>),
}

/// A wave.
#[derive(Debug, PartialEq, Eq, Hash)]
pub struct Wave {
    pub kind: WaveKind,
    pub id: String,
    pub from: Surface,
    pub to: Recipients,
    pub method: Method,
    pub body: Substance,
    /// The status of a reflected wave; 200 stands for success.
    pub status: u16,
    /// The identifier of the wave that a reflected wave answers.
    pub reflection_of: Option<String>,
    /// The stars that the wave has passed.
    pub history: Vec<Point>,
    /// The number of hops that the wave has made.
    pub hops: u16,
    pub handling: Handling,
    pub scope: Scope,
    pub agent: Agent,
    pub track: bool,
}

pub struct WaveView {
    pub kind: WaveKind,
    pub id: Seq<char>,
    pub from: SurfaceView,
    pub to: RecipientsView,
    pub method: MethodView,
    pub body: SubstanceView,
    pub status: u16,
    pub reflection_of: Option<Seq<char>>,
    pub history: Seq<PointView>,
    pub hops: u16,
    pub handling: Handling,
    pub scope: Scope,
    pub agent: AgentView,
    pub track: bool,
}

/// The value of a body.
pub open spec fn substance_view(s: Substance) -> SubstanceView
    decreases s,
{
    match s {
        Substance::Empty => SubstanceView::Empty,
        Substance::Text(t) => SubstanceView::Text(t@),
        Substance::Bin(b) => SubstanceView::Bin(b@),
        Substance::Point(p) => SubstanceView::Point(p@),
        Substance::Location(l) => SubstanceView::Location(l@),
        Substance::Knock(k) => SubstanceView::Knock(k@),
        Substance::Provision(p) => SubstanceView::Provision(p@),
        Substance::Failure(code, message) => SubstanceView::Failure(code, message@),
        Substance::Wave(w) => SubstanceView::Wave(Box::new(wave_view(*w))),
    }
}

/// The value of a wave.
pub open spec fn wave_view(w: Wave) -> WaveView
    decreases w,
{
    WaveView {
        kind: w.kind,
        id: w.id@,
        from: w.from@,
        to: w.to@,
        method: w.method@,
        body: substance_view(w.body),
        status: w.status,
        reflection_of: crate::text::opt_view(w.reflection_of),
        history: points_view(w.history@),
        hops: w.hops,
        handling: w.handling,
        scope: w.scope,
        agent: w.agent@,
        track: w.track,
    }
}

impl View for Substance {
    type V = SubstanceView;

    open spec fn view(&self) -> SubstanceView {
        substance_view(*self)
    }
}

impl View for Wave {
    type V = WaveView;

    open spec fn view(&self) -> WaveView {
        wave_view(*self)
    }
}

impl WaveView {
    /// Whether the wave is the envelope of a transport: a signal with the
    /// transport method whose body is a wave.
    pub open spec fn is_transport(self) -> bool {
        self.kind == WaveKind::Signal && self.method == MethodView::Hyp(HypMethod::Transport)
            && self.body is Wave && self.to is Single
    }

    /// Whether the wave is the envelope of a hop: a signal with the hop
    /// method whose body is a transport.
    pub open spec fn is_hop(self) -> bool {
        self.kind == WaveKind::Signal && self.method == MethodView::Hyp(HypMethod::Hop)
            && self.to is Single && (self.body matches SubstanceView::Wave(inner)
            && inner.is_transport())
    }
}

/// Copies a body.
pub fn clone_substance(s: &Substance) -> (r: Substance)
    ensures
        r@ == s@,
    decreases s,
{
    match s {
        Substance::Empty => Substance::Empty,
        Substance::Text(t) => Substance::Text(t.clone()),
        Substance::Bin(b) => Substance::Bin(clone_bytes(b)),
        Substance::Point(p) => Substance::Point(p.clone()),
        Substance::Location(l) => Substance::Location(l.clone()),
        Substance::Knock(k) => Substance::Knock(k.clone()),
        Substance::Provision(p) => Substance::Provision(p.clone()),
        Substance::Failure(code, message) => Substance::Failure(*code, message.clone()),
        Substance::Wave(w) => Substance::Wave(Box::new(clone_wave(&**w))),
    }
}

/// Copies a wave.
pub fn clone_wave(w: &Wave) -> (r: Wave)
    ensures
        r@ == w@,
    decreases w,
{
    Wave {
        kind: w.kind,
        id: w.id.clone(),
        from: w.from.clone(),
        to: w.to.clone(),
        method: w.method.clone(),
        body: clone_substance(&w.body),
        status: w.status,
        reflection_of: crate::text::clone_opt(&w.reflection_of),
        history: clone_points(&w.history),
        hops: w.hops,
        handling: w.handling,
        scope: w.scope,
        agent: w.agent.clone(),
        track: w.track,
    }
}

impl Clone for Wave {
    fn clone(&self) -> (r: Wave)
        ensures
            r@ == self@,
    {
        clone_wave(self)
    }
}

impl Wave {
    /// A directed wave with an empty body and default handling.
    pub fn directed(kind: WaveKind, id: String, from: Surface, to: Recipients, method: Method) -> (r:
        Wave)
        requires
            kind.spec_is_directed(),
        ensures
            r@ == (WaveView {
                kind,
                id: id@,
                from: from@,
                to: to@,
                method: method@,
                body: SubstanceView::Empty,
                status: 200,
                reflection_of: None,
                history: Seq::empty(),
                hops: 0,
                handling: Handling::spec_default(),
                scope: Scope::Full,
                agent: AgentView::Anonymous,
                track: false,
            }),
    {
        let r = Wave {
            kind,
            id,
            from,
            to,
            method,
            body: Substance::Empty,
            status: 200,
            reflection_of: None,
            history: Vec::new(),
            hops: 0,
            handling: Handling::default(),
            scope: Scope::Full,
            agent: Agent::Anonymous,
            track: false,
        };
        assert(r@.history =~= Seq::<PointView>::empty());
        r
    }

    pub fn is_directed(&self) -> (r: bool)
        ensures
            r == self@.kind.spec_is_directed(),
    {
        self.kind.is_directed()
    }

    /// Whether the wave asks for an answer: a ping or a ripple.
    pub fn is_reflectable(&self) -> (r: bool)
        ensures
            r == (self@.kind.spec_reflected_kind() is Some),
    {
        self.kind.reflected_kind().is_some()
    }

    /// Counts one more hop. The count stays at its last value rather than
    /// wrap around.
    pub fn inc_hops(&mut self)
        ensures
            final(self)@ == (WaveView {
                hops: if old(self)@.hops == u16::MAX {
                    u16::MAX
                } else {
                    (old(self)@.hops + 1) as u16
                },
                ..old(self)@
            }),
    {
        if self.hops < u16::MAX {
            self.hops = self.hops + 1;
        }
    }

    /// Records that the wave has passed the star. A star is recorded once.
    pub fn add_to_history(&mut self, star: &Point)
        ensures
            final(self)@ == (WaveView {
                history: if old(self)@.history.contains(star@) {
                    old(self)@.history
                } else {
                    old(self)@.history.push(star@)
                },
                ..old(self)@
            }),
    {
        if !holds(&self.history, star) {
            let ghost before = points_view(self.history@);
            self.history.push(star.clone());
            assert(points_view(self.history@) =~= before.push(star@));
        }
    }

    /// The wave in the envelope of a transport from `from` to `to`, under
    /// the identifier `id`. The envelope takes over the handling, the agent
    /// and the tracking of the wave that it carries.
    pub fn wrap_in_transport(self, id: String, from: Surface, to: Surface) -> (r: Wave)
        ensures
            r@ == (WaveView {
                kind: WaveKind::Signal,
                id: id@,
                from: from@,
                to: RecipientsView::Single(to@),
                method: MethodView::Hyp(HypMethod::Transport),
                body: SubstanceView::Wave(Box::new(self@)),
                status: 200,
                reflection_of: None,
                history: Seq::empty(),
                hops: 0,
                handling: self@.handling,
                scope: Scope::Full,
                agent: self@.agent,
                track: self@.track,
            }),
            r@.is_transport(),
    {
        let handling = self.handling;
        let agent = self.agent.clone();
        let track = self.track;
        let r = Wave {
            kind: WaveKind::Signal,
            id,
            from,
            to: Recipients::Single(to),
            method: Method::Hyp(HypMethod::Transport),
            body: Substance::Wave(Box::new(self)),
            status: 200,
            reflection_of: None,
            history: Vec::new(),
            hops: 0,
            handling,
            scope: Scope::Full,
            agent,
            track,
        };
        assert(r@.history =~= Seq::<PointView>::empty());
        r
    }

    /// The transport in the envelope of a hop from `from` to the star at
    /// `to`, under the identifier `id`.
    pub fn wrap_in_hop(self, id: String, from: Surface, to: Surface) -> (r: Wave)
        requires
            self@.is_transport(),
        ensures
            r@ == (WaveView {
                kind: WaveKind::Signal,
                id: id@,
                from: from@,
                to: RecipientsView::Single(to@),
                method: MethodView::Hyp(HypMethod::Hop),
                body: SubstanceView::Wave(Box::new(self@)),
                status: 200,
                reflection_of: None,
                history: Seq::empty(),
                hops: 0,
                handling: self@.handling,
                scope: Scope::Full,
                agent: self@.agent,
                track: self@.track,
            }),
            r@.is_hop(),
    {
        let handling = self.handling;
        let agent = self.agent.clone();
        let track = self.track;
        let r = Wave {
            kind: WaveKind::Signal,
            id,
            from,
            to: Recipients::Single(to),
            method: Method::Hyp(HypMethod::Hop),
            body: Substance::Wave(Box::new(self)),
            status: 200,
            reflection_of: None,
            history: Vec::new(),
            hops: 0,
            handling,
            scope: Scope::Full,
            agent,
            track,
        };
        assert(r@.history =~= Seq::<PointView>::empty());
        r
    }

    /// Whether the wave is the envelope of a transport.
    pub fn is_transport(&self) -> (r: bool)
        ensures
            r == self@.is_transport(),
    {
        let signal = match self.kind {
            WaveKind::Signal => true,
            _ => false,
        };
        let method = match &self.method {
            Method::Hyp(HypMethod::Transport) => true,
            _ => false,
        };
        let body = match &self.body {
            Substance::Wave(_) => true,
            _ => false,
        };
        signal && method && body && self.to.is_single()
    }

    /// Whether the wave is the envelope of a hop.
    pub fn is_hop(&self) -> (r: bool)
        ensures
            r == self@.is_hop(),
    {
        let signal = match self.kind {
            WaveKind::Signal => true,
            _ => false,
        };
        let method = match &self.method {
            Method::Hyp(HypMethod::Hop) => true,
            _ => false,
        };
        let body = match &self.body {
            Substance::Wave(inner) => inner.is_transport(),
            _ => false,
        };
        signal && method && body && self.to.is_single()
    }

    /// Takes the transport out of a hop. Gives the wave back where it is
    /// no hop.
    pub fn unwrap_from_hop(self) -> (r: Result<Wave, Wave>)
        ensures
            r is Ok <==> self@.is_hop(),
            r matches Ok(t) ==> self@.body == SubstanceView::Wave(Box::new(t@))
                && t@.is_transport(),
            r matches Err(w) ==> w@ == self@,
    {
        if !self.is_hop() {
            return Err(self);
        }
        match self.body {
            Substance::Wave(inner) => Ok(*inner),
            _ => {
                proof {
                    assert(false);
                }
                Err(
                    Wave::directed(
                        WaveKind::Signal,
                        String::new(),
                        self.from,
                        self.to,
                        self.method,
                    ),
                )
            },
        }
    }

    /// Takes the wave out of a transport. Gives the wave back where it is
    /// no transport.
    pub fn unwrap_from_transport(self) -> (r: Result<Wave, Wave>)
        ensures
            r is Ok <==> self@.is_transport(),
            r matches Ok(w) ==> self@.body == SubstanceView::Wave(Box::new(w@)),
            r matches Err(w) ==> w@ == self@,
    {
        if !self.is_transport() {
            return Err(self);
        }
        match self.body {
            Substance::Wave(inner) => Ok(*inner),
            _ => {
                proof {
                    assert(false);
                }
                Err(
                    Wave::directed(
                        WaveKind::Signal,
                        String::new(),
                        self.from,
                        self.to,
                        self.method,
                    ),
                )
            },
        }
    }

    /// The answer to a directed wave that asks for one: a wave of the
    /// reflected kind from `from` back to the sender, with the given status
    /// and body, under the identifier `id`. `None` for a wave that asks for
    /// no answer.
    pub fn reflect(&self, id: String, from: Surface, status: u16, body: Substance) -> (r: Option<
        Wave,
    >)
        ensures
            r is Some <==> self@.kind.spec_reflected_kind() is Some,
            r matches Some(w) ==> w@ == (WaveView {
                kind: self@.kind.spec_reflected_kind()->Some_0,
                id: id@,
                from: from@,
                to: RecipientsView::Single(self@.from),
                method: self@.method,
                body: body@,
                status,
                reflection_of: Some(self@.id),
                history: Seq::empty(),
                hops: 0,
                handling: self@.handling,
                scope: self@.scope,
                agent: self@.agent,
                track: self@.track,
            }),
    {
        match self.kind.reflected_kind() {
            Some(kind) => {
                let w = Wave {
                    kind,
                    id,
                    from,
                    to: Recipients::Single(self.from.clone()),
                    method: self.method.clone(),
                    body,
                    status,
                    reflection_of: Some(self.id.clone()),
                    history: Vec::new(),
                    hops: 0,
                    handling: self.handling,
                    scope: self.scope,
                    agent: self.agent.clone(),
                    track: self.track,
                };
                assert(w@.history =~= Seq::<PointView>::empty());
                Some(w)
            },
            None => None,
        }
    }
}

} // verus!
