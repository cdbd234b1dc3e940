use starlane::interchange::{
    GateError, HyperGate, HyperwayInterchange, HyperwayStub, InterchangeError, Routed,
};
use starlane::kind::{BaseKind, Kind, Status};
use starlane::locator::{Locate, LocateError, SmartLocator};
use starlane::particle::ParticleLocation;
use starlane::point::{Layer, Point, Surface};
use starlane::registry::{Registration, Registry, Strategy};
use starlane::router::{
    wrangle_delay, FromHyperway, RouterError, ShardAction, Star, ToGravity, ToHyperway, MAX_HOPS,
};
use starlane::star::{StarKey, StarStub, StarSub, StarTemplate};
use starlane::traversal::{
    traverse_to_next_layer, visit_layer, LayerTraversalEngine, Traversal, TraversalAction,
    TraversalDirection, TraversalError, TraversalInjection, TraversalPlan,
};
use starlane::wave::{
    Agent, CmdMethod, HypMethod, Knock, Method, Recipients, Substance, Wave, WaveKind,
};

fn point(text: &str) -> Point {
    Point::from_str(text).expect("a point")
}

fn star(index: u16, kind: StarSub, others: &[(u16, StarSub)]) -> Star {
    let mut template = StarTemplate::new(StarKey::new(index), kind);
    for (other, kind) in others {
        template.connect(StarStub::new(StarKey::new(*other), *kind));
    }
    Star::from_template(&template)
}

fn ping(from: &str, to: &str) -> Wave {
    Wave::directed(
        WaveKind::Ping,
        "ping-1".to_string(),
        point(from).to_surface(),
        Recipients::Single(point(to).to_surface()),
        Method::Cmd(CmdMethod::Read),
    )
}

fn ripple(from: &str) -> Wave {
    Wave::directed(
        WaveKind::Ripple,
        "ripple-1".to_string(),
        point(from).to_surface(),
        Recipients::Stars,
        Method::Hyp(HypMethod::Search),
    )
}

fn hop_to(star_index: u16, wave: Wave, hops: u16) -> Wave {
    let to = StarKey::new(star_index).to_point().to_surface();
    let mut transport = wave.wrap_in_transport("t-1".to_string(), point("star:9").to_surface(), to.clone());
    transport.hops = hops;
    transport.wrap_in_hop("h-1".to_string(), point("star:9").to_surface(), to)
}

fn registry() -> Registry {
    let owner = point("hyperspace:users:hyperuser");
    let mut registry = Registry::new();
    for (at, base) in [
        ("localhost", BaseKind::Space),
        ("localhost:app", BaseKind::App),
        ("localhost:app:mechtron", BaseKind::Mechtron),
        ("star", BaseKind::Base),
        ("star:1", BaseKind::Star),
    ] {
        registry
            .register(&Registration {
                point: point(at),
                kind: Kind::of(base),
                properties: vec![],
                owner: owner.clone(),
                strategy: Strategy::Commit,
                status: Status::Unknown,
            })
            .unwrap();
    }
    registry
}

#[test]
fn star_from_template() {
    let s = star(1, StarSub::Nexus, &[(2, StarSub::Jump), (3, StarSub::Machine), (2, StarSub::Fold)]);
    assert_eq!(s.point.to_string(), "star:1");
    assert_eq!(s.adjacents.len(), 2);
    assert_eq!(s.adjacents[0].stub.kind, StarSub::Fold);
    assert!(s.is_adjacent(&point("star:2")));
    assert!(!s.is_adjacent(&point("star:4")));
    assert_eq!(s.forwarders(), vec![point("star:2")]);
    assert_eq!(s.gravity(), Surface::new(point("star:1"), Layer::Gravity));
    assert_eq!(s.injector(), Surface::new(point("star:1:injector"), Layer::Gravity));
}

#[test]
fn from_hyperway_injects_what_is_for_this_star() {
    let s = star(1, StarSub::Nexus, &[]);
    match s.from_hyperway(hop_to(1, ping("localhost:app", "localhost:app:mechtron"), 4)) {
        FromHyperway::Inject(injection) => {
            assert!(injection.from_gravity);
            assert_eq!(injection.dir, None);
            assert_eq!(injection.surface, s.injector());
            assert_eq!(injection.wave.hops, 5);
            assert_eq!(injection.wave.id, "t-1");
            assert!(injection.wave.is_transport());
        }
        other => panic!("{:?}", other),
    }
}

#[test]
fn from_hyperway_forwards_or_rejects_what_is_for_another_star() {
    let forwarder = star(1, StarSub::Nexus, &[]);
    match forwarder.from_hyperway(hop_to(2, ping("a", "b"), 0)) {
        FromHyperway::Forward(transport) => assert_eq!(transport.hops, 1),
        other => panic!("{:?}", other),
    }
    let central = star(1, StarSub::Central, &[]);
    match central.from_hyperway(hop_to(2, ping("a", "b"), 0)) {
        FromHyperway::Dropped { wave_id, reason } => {
            assert_eq!(wave_id, "t-1");
            assert_eq!(reason, RouterError::NotForwarder);
        }
        other => panic!("{:?}", other),
    }
    match central.from_hyperway(ping("a", "b")) {
        FromHyperway::Dropped { wave_id, reason } => {
            assert_eq!(wave_id, "ping-1");
            assert_eq!(reason, RouterError::NotAHop);
        }
        other => panic!("{:?}", other),
    }
}

#[test]
fn transport_beyond_the_hop_bound_is_dropped() {
    assert_eq!(MAX_HOPS, 255);
    let s = star(1, StarSub::Nexus, &[]);
    match s.from_hyperway(hop_to(1, ping("a", "b"), 254)) {
        FromHyperway::Inject(injection) => assert_eq!(injection.wave.hops, 255),
        other => panic!("{:?}", other),
    }
    for hops in [255u16, 256, u16::MAX] {
        match s.from_hyperway(hop_to(1, ping("a", "b"), hops)) {
            FromHyperway::Dropped { wave_id, reason } => {
                assert_eq!(wave_id, "t-1");
                assert_eq!(reason, RouterError::HopsExceeded);
            }
            other => panic!("{:?}", other),
        }
    }
}

#[test]
fn to_gravity_adds_the_star_to_the_history() {
    let s = star(1, StarSub::Nexus, &[]);
    match s.to_gravity(ping("localhost:app", "localhost")) {
        ToGravity::Shard(wave) => assert_eq!(wave.history, vec![point("star:1")]),
        other => panic!("{:?}", other),
    }
    let mut global = ping("localhost:app", "localhost");
    global.to = Recipients::Single(Point::global_executor().to_surface());
    global.history.push(point("star:1"));
    match s.to_gravity(global) {
        ToGravity::Global(wave) => assert_eq!(wave.history.len(), 1),
        other => panic!("{:?}", other),
    }
    assert_eq!(Point::global_executor().to_string(), "GLOBAL::executor");
}

#[test]
fn ripple_to_stars() {
    let s = star(1, StarSub::Nexus, &[(2, StarSub::Jump), (3, StarSub::Fold), (4, StarSub::Machine)]);
    let mut wave = ripple("star:1");
    wave.history.push(point("star:1"));
    let shards = s.shard_ripple(&registry(), &wave).unwrap();
    assert_eq!(shards.len(), 3);
    let mut targets = vec![];
    for shard in shards {
        match shard {
            ShardAction::Transport(transport) => {
                assert!(transport.is_transport());
                assert_eq!(transport.from, point("star:1").to_surface());
                let to = transport.to.to_single().unwrap();
                assert_eq!(to.layer, Layer::Core);
                assert!(!wave.history.contains(&to.point));
                targets.push(to.point.to_string());
                match transport.unwrap_from_transport() {
                    Ok(inner) => {
                        assert_eq!(inner.kind, WaveKind::Ripple);
                        assert_eq!(inner.history, vec![point("star:1")]);
                    }
                    Err(_) => panic!("no transport"),
                }
            }
            other => panic!("{:?}", other),
        }
    }
    assert_eq!(targets, vec!["star:2", "star:3", "star:4"]);
}

#[test]
fn ripple_spares_the_stars_of_its_history() {
    let s = star(1, StarSub::Nexus, &[(2, StarSub::Jump), (3, StarSub::Fold), (4, StarSub::Machine)]);
    let mut wave = ripple("star:3");
    wave.history.push(point("star:3"));
    wave.history.push(point("star:1"));
    let registry = registry();
    let shards = s.shard_ripple_by_location(&registry, &wave).unwrap();
    let stars: Vec<String> = shards.iter().map(|s| s.star.to_string()).collect();
    assert_eq!(stars, vec!["star:2", "star:4"]);
    let mut single = ripple("star:3");
    single.to = Recipients::Single(point("localhost").to_surface());
    assert_eq!(s.shard_ripple(&registry, &single).unwrap_err(), RouterError::NotLocated);
    single.to = Recipients::Single(point("nowhere").to_surface());
    assert_eq!(s.shard_ripple(&registry, &single).unwrap_err(), RouterError::NotFound);
    single.to = Recipients::Multi(vec![]);
    assert_eq!(s.shard_ripple(&registry, &single).unwrap().len(), 0);
    single.to = Recipients::Watchers(point("localhost"));
    assert_eq!(s.shard_ripple(&registry, &single).unwrap().len(), 0);
}

#[test]
fn shard_single_injects_here_and_transports_elsewhere() {
    let s = star(1, StarSub::Nexus, &[]);
    let here = ParticleLocation::new(Some(point("star:1")), None);
    match s.shard_single(ping("a", "b"), &here).unwrap() {
        ShardAction::Inject(injection) => {
            assert!(injection.from_gravity);
            assert_eq!(injection.surface, s.gravity());
        }
        other => panic!("{:?}", other),
    }
    let there = ParticleLocation::new(Some(point("star:7")), None);
    match s.shard_single(ping("a", "b"), &there).unwrap() {
        ShardAction::Transport(transport) => {
            assert_eq!(transport.to, Recipients::Single(point("star:7").to_surface()));
            assert_eq!(transport.hops, 0);
        }
        other => panic!("{:?}", other),
    }
    assert_eq!(
        s.shard_single(ping("a", "b"), &ParticleLocation::new(None, None)).unwrap_err(),
        RouterError::NotLocated
    );
}

fn transport_to(star: &str) -> Wave {
    ping("a", "b").wrap_in_transport("t-1".to_string(), point("star:1").to_surface(), point(star).to_surface())
}

fn hop_target(out: ToHyperway) -> String {
    match out {
        ToHyperway::Hop(hop) => {
            assert!(hop.is_hop());
            assert_eq!(hop.from, Surface::new(point("star:1"), Layer::Gravity));
            hop.to.to_single().unwrap().point.to_string()
        }
        other => panic!("{:?}", other),
    }
}

#[test]
fn to_hyperway_picks_the_next_star() {
    let s = star(1, StarSub::Nexus, &[(2, StarSub::Machine), (3, StarSub::Jump)]);
    assert_eq!(hop_target(s.to_hyperway(transport_to("star:1"))), "star:1");
    assert_eq!(hop_target(s.to_hyperway(transport_to("star:2"))), "star:2");
    assert_eq!(hop_target(s.to_hyperway(transport_to("star:8"))), "star:3");
    let leaf = star(1, StarSub::Nexus, &[(2, StarSub::Machine)]);
    match leaf.to_hyperway(transport_to("star:8")) {
        ToHyperway::Failed { reason, transport } => {
            assert_eq!(reason, RouterError::NoForwarder);
            assert_eq!(transport.id, "t-1");
        }
        other => panic!("{:?}", other),
    }
    let hub = star(1, StarSub::Nexus, &[(2, StarSub::Jump), (3, StarSub::Jump)]);
    match hub.to_hyperway(transport_to("star:8")) {
        ToHyperway::Search { target, .. } => assert_eq!(target.to_string(), "star:8"),
        other => panic!("{:?}", other),
    }
}

#[test]
fn fresh_identifiers_differ() {
    let s = star(1, StarSub::Nexus, &[(2, StarSub::Jump)]);
    let a = match s.to_hyperway(transport_to("star:2")) {
        ToHyperway::Hop(hop) => hop.id,
        other => panic!("{:?}", other),
    };
    let b = match s.to_hyperway(transport_to("star:2")) {
        ToHyperway::Hop(hop) => hop.id,
        other => panic!("{:?}", other),
    };
    assert_eq!(a.len(), 36);
    assert_ne!(a, b);
}

#[test]
fn wrangle_backs_off() {
    assert_eq!(wrangle_delay(0), 1);
    assert_eq!(wrangle_delay(2), 1);
    assert_eq!(wrangle_delay(3), 5);
    assert_eq!(wrangle_delay(10), 5);
    assert_eq!(wrangle_delay(11), 15);
}

#[test]
fn plans_and_directions() {
    let plain = TraversalPlan::of(BaseKind::App);
    assert!(plain.has_layer(Layer::Field) && plain.has_layer(Layer::Shell));
    assert!(!plain.has_layer(Layer::Portal) && !plain.has_layer(Layer::Gravity));
    assert_eq!(plain.towards_core(Layer::Gravity), Some(Layer::Field));
    assert_eq!(plain.towards_core(Layer::Shell), Some(Layer::Core));
    assert_eq!(plain.towards_core(Layer::Core), None);
    assert_eq!(plain.towards_fabric(Layer::Core), Some(Layer::Shell));
    assert_eq!(plain.towards_fabric(Layer::Field), None);
    let mechtron = TraversalPlan::of(BaseKind::Mechtron);
    assert_eq!(mechtron.towards_core(Layer::Shell), Some(Layer::Portal));
    assert_eq!(mechtron.towards_fabric(Layer::Core), Some(Layer::Guest));
    assert_eq!(TraversalDirection::new(Layer::Field, Layer::Core), Some(TraversalDirection::Core));
    assert_eq!(TraversalDirection::new(Layer::Core, Layer::Shell), Some(TraversalDirection::Fabric));
    assert_eq!(TraversalDirection::new(Layer::Core, Layer::Core), None);
}

fn traversal_of(action: TraversalAction) -> (String, Traversal) {
    match action {
        TraversalAction::VisitField(t) => ("field".to_string(), t),
        TraversalAction::VisitShell(t) => ("shell".to_string(), t),
        TraversalAction::ExitUp(t) => ("up".to_string(), t),
        TraversalAction::ExitDown(t) => ("down".to_string(), t),
        TraversalAction::Stranded(t) => ("stranded".to_string(), t),
    }
}

#[test]
fn wave_from_the_fabric_travels_to_the_core() {
    let registry = registry();
    let engine = LayerTraversalEngine::new(point("star:1"));
    let mut injection = TraversalInjection::new(
        Surface::new(point("star:1"), Layer::Gravity),
        ping("localhost:app", "localhost:app:mechtron"),
    );
    injection.from_gravity = true;
    let outcome = engine.start_layer_traversal(&registry, &injection);
    assert_eq!(outcome.error, None);
    assert_eq!(outcome.actions.len(), 1);
    let (what, traversal) = traversal_of(outcome.actions.into_iter().next().unwrap());
    assert_eq!(what, "field");
    assert_eq!(traversal.dir, TraversalDirection::Core);
    assert_eq!(traversal.dest, Some(Layer::Core));
    assert_eq!(traversal.layer, Layer::Field);
    assert_eq!(traversal.point, point("localhost:app:mechtron"));
    let (what, traversal) = traversal_of(traverse_to_next_layer(traversal));
    assert_eq!((what.as_str(), traversal.layer), ("shell", Layer::Shell));
    let (what, traversal) = traversal_of(traverse_to_next_layer(traversal));
    assert_eq!((what.as_str(), traversal.layer), ("down", Layer::Portal));
    let (what, _) = traversal_of(visit_layer(traversal));
    assert_eq!(what, "down");
}

#[test]
fn wave_to_another_particle_travels_to_the_fabric() {
    let registry = registry();
    let engine = LayerTraversalEngine::new(point("star:1"));
    let injection = TraversalInjection::new(
        Surface::new(point("localhost:app"), Layer::Core),
        ping("localhost:app", "localhost"),
    );
    let outcome = engine.start_layer_traversal(&registry, &injection);
    let (what, traversal) = traversal_of(outcome.actions.into_iter().next().unwrap());
    assert_eq!(what, "shell");
    assert_eq!(traversal.dir, TraversalDirection::Fabric);
    assert_eq!(traversal.dest, None);
    assert_eq!(traversal.point, point("localhost:app"));
    let (what, traversal) = traversal_of(traverse_to_next_layer(traversal));
    assert_eq!(what, "field");
    let (what, _) = traversal_of(traverse_to_next_layer(traversal));
    assert_eq!(what, "up");
}

#[test]
fn wave_within_a_particle_ends_at_its_layer() {
    let registry = registry();
    let engine = LayerTraversalEngine::new(point("star:1"));
    let mut wave = ping("localhost:app", "localhost:app");
    wave.to = Recipients::Single(Surface::new(point("localhost:app"), Layer::Shell));
    let injection = TraversalInjection::new(Surface::new(point("localhost:app"), Layer::Core), wave);
    let outcome = engine.start_layer_traversal(&registry, &injection);
    let (what, traversal) = traversal_of(outcome.actions.into_iter().next().unwrap());
    assert_eq!(what, "shell");
    assert_eq!(traversal.dir, TraversalDirection::Fabric);
    assert_eq!(traversal.dest, Some(Layer::Shell));
    let (what, _) = traversal_of(traverse_to_next_layer(traversal));
    assert_eq!(what, "shell");
    let mut wave = ping("localhost:app", "localhost:app");
    wave.to = Recipients::Single(Surface::new(point("localhost:app"), Layer::Portal));
    let injection = TraversalInjection::new(Surface::new(point("localhost:app"), Layer::Core), wave);
    let outcome = engine.start_layer_traversal(&registry, &injection);
    assert_eq!(outcome.error, Some(TraversalError::LayerNotInPlan));
    assert!(outcome.actions.is_empty());
}

#[test]
fn wave_to_a_global_address_travels_to_the_fabric() {
    let engine = LayerTraversalEngine::new(point("star:1"));
    let record = starlane::particle::ParticleRecord::root();
    let plan = TraversalPlan::of(record.details.stub.kind.base);
    let to = Point::global_executor().to_surface();
    assert_eq!(
        LayerTraversalEngine::direction(None, false, &to, &point("localhost"), Layer::Core, plan),
        Ok((TraversalDirection::Fabric, None))
    );
    assert_eq!(
        LayerTraversalEngine::direction(
            Some(TraversalDirection::Core),
            false,
            &to,
            &point("localhost"),
            Layer::Core,
            plan
        ),
        Ok((TraversalDirection::Core, None))
    );
    assert!(engine.has_layer(Layer::Field) && !engine.has_layer(Layer::Core));
}

#[test]
fn missing_record_is_reflected_to_the_sender() {
    let registry = registry();
    let engine = LayerTraversalEngine::new(point("star:1"));
    let injection = TraversalInjection::new(
        Surface::new(point("localhost:app"), Layer::Core),
        ping("localhost:app", "localhost:ghost"),
    );
    let outcome = engine.start_layer_traversal(&registry, &injection);
    assert_eq!(outcome.error, Some(TraversalError::NotFound));
    let outcome = engine.inject(&registry, injection);
    assert_eq!(outcome.error, None);
    assert!(outcome.reflection_id.is_some());
    assert_eq!(outcome.actions.len(), 1);
    let (_, traversal) = traversal_of(outcome.actions.into_iter().next().unwrap());
    assert_eq!(traversal.wave.kind, WaveKind::Pong);
    assert_eq!(traversal.wave.status, 404);
    assert_eq!(traversal.wave.reflection_of, Some("ping-1".to_string()));
    assert_eq!(traversal.wave.to, Recipients::Single(point("localhost:app").to_surface()));
    assert_eq!(Some(traversal.wave.id.clone()), outcome.reflection_id);
    match &traversal.wave.body {
        Substance::Failure(code, _) => assert_eq!(*code, 404),
        other => panic!("{:?}", other),
    }
    let mut signal = ping("localhost:app", "localhost:ghost");
    signal.kind = WaveKind::Signal;
    let outcome = engine.inject(
        &registry,
        TraversalInjection::new(Surface::new(point("localhost:app"), Layer::Core), signal),
    );
    assert_eq!(outcome.error, Some(TraversalError::NotFound));
    assert!(outcome.reflection_id.is_none());
    assert!(outcome.actions.is_empty());
}

#[test]
fn ripple_goes_to_the_recipients_on_this_star() {
    let mut registry = registry();
    registry.assign_star(&point("localhost:app"), &point("star:1")).unwrap();
    registry.assign_star(&point("localhost:app:mechtron"), &point("star:2")).unwrap();
    let engine = LayerTraversalEngine::new(point("star:1"));
    let mut wave = ripple("localhost");
    let both = vec![point("localhost:app").to_surface(), point("localhost:app:mechtron").to_surface()];
    wave.to = Recipients::Multi(both.clone());
    assert_eq!(engine.destinations(&registry, &wave), Ok(vec![both[0].clone()]));
    wave.to = Recipients::Multi(vec![point("localhost").to_surface()]);
    assert_eq!(engine.destinations(&registry, &wave), Err(TraversalError::NotLocated));
    wave.to = Recipients::Multi(vec![point("ghost").to_surface()]);
    assert_eq!(engine.destinations(&registry, &wave), Err(TraversalError::NotFound));
    wave.to = Recipients::Stars;
    assert_eq!(
        engine.destinations(&registry, &wave),
        Ok(vec![Surface::new(point("star:1"), Layer::Core)])
    );
    let own = ripple("star:1");
    assert_eq!(
        engine.destinations(&registry, &own),
        Ok(vec![Surface::new(point("star:1"), Layer::Gravity)])
    );
    let mut many = ping("a", "b");
    many.to = Recipients::Stars;
    assert_eq!(engine.destinations(&registry, &many), Err(TraversalError::Unimplemented));
}

#[test]
fn register_locate_provision() {
    let mut registry = Registry::new();
    let owner = point("hyperspace:users:hyperuser");
    for (at, base) in [("space", BaseKind::Space), ("space:app", BaseKind::App)] {
        registry
            .register(&Registration {
                point: point(at),
                kind: Kind::of(base),
                properties: vec![],
                owner: owner.clone(),
                strategy: Strategy::Commit,
                status: Status::Unknown,
            })
            .unwrap();
    }
    let locator = SmartLocator::new(point("star:4"));
    let app = point("space:app");
    assert_eq!(
        locator.locate(&registry, &app),
        Locate::Provision { point: point("space"), parent_star: point("star:0") }
    );
    let request = locator.provision_request(&point("space"), &point("star:0"));
    assert_eq!(request.kind, WaveKind::Ping);
    assert_eq!(request.method, Method::Hyp(HypMethod::Provision));
    assert_eq!(request.from, Surface::new(point("star:4"), Layer::Core));
    assert_eq!(request.to, Recipients::Single(Surface::new(point("star:0"), Layer::Core)));
    assert_eq!(request.body, Substance::Provision(point("space")));
    let answer = |status: u16, body: Substance| {
        let mut pong = request.reflect("pong-1".to_string(), point("star:0").to_surface(), status, body).unwrap();
        pong.status = status;
        pong
    };
    let space_at = ParticleLocation::new(Some(point("star:2")), None);
    assert_eq!(
        locator.on_provisioned(&mut registry, &point("space"), &answer(200, Substance::Location(space_at.clone()))),
        Ok(space_at.clone())
    );
    assert_eq!(locator.locate(&registry, &point("space")), Locate::Found(space_at));
    assert_eq!(
        locator.locate(&registry, &app),
        Locate::Provision { point: app.clone(), parent_star: point("star:2") }
    );
    let app_at = ParticleLocation::new(Some(point("star:5")), Some(point("star:5:host")));
    assert_eq!(
        locator.on_provisioned(&mut registry, &app, &answer(200, Substance::Location(app_at.clone()))),
        Ok(app_at.clone())
    );
    for _ in 0..3 {
        assert_eq!(locator.locate(&registry, &app), Locate::Found(app_at.clone()));
    }
    assert_eq!(locator.locate(&registry, &point("ghost")), Locate::Failed(LocateError::NotFound));
}

#[test]
fn failed_provisioning_puts_the_particle_in_panic() {
    let mut registry = registry();
    let locator = SmartLocator::new(point("star:1"));
    let app = point("localhost:app");
    let request = locator.provision_request(&app, &point("star:0"));
    let mut pong = request.reflect("p".to_string(), point("star:0").to_surface(), 500, Substance::Empty).unwrap();
    pong.status = 500;
    assert_eq!(locator.on_provisioned(&mut registry, &app, &pong), Err(LocateError::Panic));
    assert_eq!(registry.record(&app).unwrap().details.stub.status, Status::Panic);
    assert_eq!(registry.record(&app).unwrap().location.star, None);
    pong.status = 200;
    assert_eq!(locator.on_provisioned(&mut registry, &app, &pong), Err(LocateError::BadReply));
    assert_eq!(locator.provision(&registry, &Point::root()), Locate::Failed(LocateError::RootNotProvisioned));
}

#[test]
fn interchange_mounts_and_routes() {
    let mut interchange = HyperwayInterchange::new();
    let less = HyperwayStub::new(point("less").to_surface(), Agent::Anonymous);
    let fae = HyperwayStub::new(point("fae").to_surface(), Agent::HyperUser);
    assert_eq!(interchange.mount(less.clone(), false), Ok(()));
    assert_eq!(interchange.mount(fae.clone(), false), Ok(()));
    assert_eq!(interchange.mount(less.clone(), false), Err(InterchangeError::AlreadyMounted));
    assert_eq!(interchange.mount(less.clone(), true), Ok(()));
    assert!(interchange.is_mounted(&less.remote));
    assert_eq!(interchange.route(&ping("fae", "less")), Routed::Deliver(less.clone()));
    assert_eq!(interchange.route(&ping("fae", "nobody")), Routed::Dropped("ping-1".to_string()));
    assert_eq!(interchange.unmount(&less), Ok(()));
    assert_eq!(interchange.unmount(&less), Err(InterchangeError::NotMounted));
    assert_eq!(interchange.route(&ping("fae", "less")), Routed::Dropped("ping-1".to_string()));
    assert!(interchange.is_mounted(&fae.remote));
}

#[test]
fn hypergate_lets_in_who_knocks_and_is_accepted() {
    let gate = HyperGate::new(point("star:1"));
    let mut interchange = HyperwayInterchange::new();
    let mut knock = ping("less", "star:1");
    knock.method = Method::Hyp(HypMethod::Knock);
    assert_eq!(gate.knock(&knock), Err(GateError::NotAKnock));
    knock.body = Substance::Knock(Knock { credentials: "secret".to_string(), remote: None });
    assert_eq!(gate.knock(&knock).unwrap().credentials, "secret");
    assert_eq!(gate.let_in(&mut interchange, None, Agent::Anonymous), Err(GateError::AuthFailed));
    let surface = point("less").to_surface();
    let greet = gate.let_in(&mut interchange, Some(surface.clone()), Agent::Anonymous).unwrap();
    assert_eq!(greet.surface, surface);
    assert_eq!(greet.hop, Surface::new(point("star:1"), Layer::Gravity));
    assert!(interchange.is_mounted(&surface));
    assert_eq!(
        gate.let_in(&mut interchange, Some(surface.clone()), Agent::Anonymous),
        Err(GateError::AlreadyMounted)
    );
    let hop = match gate.inbound(&greet, ping("spoofed", "fae")) {
        Ok(hop) => hop,
        Err(_) => panic!("not sent"),
    };
    assert!(hop.is_hop());
    assert_eq!(hop.to, Recipients::Single(greet.hop.clone()));
    let transport = hop.unwrap_from_hop().ok().unwrap();
    assert_eq!(transport.to, Recipients::Single(point("fae").to_surface()));
    let wave = transport.unwrap_from_transport().ok().unwrap();
    assert_eq!(wave.from, surface);
    assert_eq!(wave.id, "ping-1");
}
