use starlane::control::{find_topic, DriverStatus, StatusStep, TopicLookup};
use starlane::db::{
    grant_kind_from_columns, record_from_columns, ColumnError, ParticleColumns,
};
use starlane::frame::{Frame, FrameError, FrameMuxer, FrameReader, MuxAction, MuxEvent, MuxStop};
use starlane::handshake::{Handshake, HandshakeAction, HandshakeError, HandshakeState};
use starlane::kind::{BaseKind, Kind, Status, Version};
use starlane::lane::{CertError, CertGenerator};
use starlane::locator::{LocateOnce, Provisions, SmartLocator};
use starlane::manage::{RegistryCommand, RegistryResult};
use starlane::particle::ParticleLocation;
use starlane::point::Point;
use starlane::registry::{AccessGrantKind, Registration, Registry, RegistryError, Strategy};
use starlane::router::{
    HyperStarCall, RouterError, ShardAction, ShardPlan, Star, StarAction, ToGravity, ToHyperway,
};
use starlane::search::{LaneHits, Lanes, SearchHit, SearchResult, StarSearchPattern};
use starlane::security::{Permissions, PermissionsMask, PermissionsMaskKind, Privilege};
use starlane::selector::{Hop, KindSelector, PointSegSelector, Selector};
use starlane::star::{StarKey, StarStub, StarSub, StarTemplate};
use starlane::wave::{CmdMethod, HypMethod, Method, Recipients, Substance, Wave, WaveKind};

fn at(text: &str) -> Point {
    Point::from_str(text).expect("a point")
}

fn nexus() -> Star {
    let mut template = StarTemplate::new(StarKey::new(1), StarSub::Nexus);
    template.connect(StarStub::new(StarKey::new(2), StarSub::Jump));
    template.connect(StarStub::new(StarKey::new(3), StarSub::Machine));
    Star::from_template(&template)
}

fn read(from: &str, to: &str) -> Wave {
    Wave::directed(
        WaveKind::Ping,
        "w-1".to_string(),
        at(from).to_surface(),
        Recipients::Single(at(to).to_surface()),
        Method::Cmd(CmdMethod::Read),
    )
}

fn columns(parent: &str, segment: &str, base: &str) -> ParticleColumns {
    ParticleColumns {
        parent: parent.to_string(),
        point_segment: segment.to_string(),
        base: base.to_string(),
        sub: None,
        provider: None,
        vendor: None,
        product: None,
        variant: None,
        version: None,
        version_variant: None,
        star: None,
        host: None,
        status: "Ready".to_string(),
    }
}

#[test]
fn star_tells_its_stub() {
    let star = nexus();
    let stub = star.stub();
    assert_eq!(stub.key, StarKey::new(1));
    assert_eq!(stub.kind, StarSub::Nexus);
    match star.handle(&Registry::new(), HyperStarCall::Stub) {
        StarAction::ReplyStub(stub) => {
            assert_eq!(stub.key, StarKey::new(1));
            assert_eq!(stub.kind, StarSub::Nexus);
        }
        other => panic!("{:?}", other),
    }
}

#[test]
fn particles_are_created_below_the_star() {
    let star = nexus();
    assert!(star.may_create_in_star(&at("star:1")));
    assert!(star.may_create_in_star(&at("star:1:drivers")));
    assert!(!star.may_create_in_star(&at("star:2")));
    assert!(!star.may_create_in_star(&at("localhost")));
    assert!(!star.may_create_in_star(&Point::root()));
}

#[test]
fn a_wave_with_one_recipient_is_located() {
    let star = nexus();
    match star.shard(&Registry::new(), read("localhost:app", "localhost:app:mechtron")) {
        ShardPlan::Locate { wave, point } => {
            assert_eq!(point, at("localhost:app:mechtron"));
            assert_eq!(wave.id, "w-1");
        }
        other => panic!("{:?}", other),
    }
    let mut many = read("localhost:app", "localhost:app:mechtron");
    many.to = Recipients::Multi(vec![at("localhost").to_surface(), at("star:2").to_surface()]);
    match star.shard(&Registry::new(), many) {
        ShardPlan::Failed { wave_id, reason } => {
            assert_eq!(wave_id, "w-1");
            assert_eq!(reason, RouterError::Unimplemented);
        }
        other => panic!("{:?}", other),
    }
}

#[test]
fn a_ripple_is_sharded_to_the_stars_it_has_not_seen() {
    let star = nexus();
    let mut ripple = Wave::directed(
        WaveKind::Ripple,
        "r-1".to_string(),
        at("star:9").to_surface(),
        Recipients::Stars,
        Method::Hyp(HypMethod::Search),
    );
    ripple.add_to_history(&at("star:3"));
    match star.shard(&Registry::new(), ripple) {
        ShardPlan::Ripple(parts) => {
            assert_eq!(parts.len(), 1);
            match &parts[0] {
                ShardAction::Transport(transport) => {
                    assert_eq!(transport.to, Recipients::Single(at("star:2").to_surface()));
                    let inner = transport.clone().unwrap_from_transport().unwrap();
                    assert_eq!(inner.id, "r-1");
                    assert!(inner.history.contains(&at("star:1")));
                    assert!(inner.history.contains(&at("star:3")));
                }
                other => panic!("{:?}", other),
            }
        }
        other => panic!("{:?}", other),
    }
}

#[test]
fn star_pings_another_star() {
    let star = nexus();
    let ping = star.bounce(&StarKey::new(7));
    assert_eq!(ping.kind, WaveKind::Ping);
    assert_eq!(ping.from, at("star:1").to_surface());
    assert_eq!(ping.to, Recipients::Single(at("star:7").to_surface()));
    assert_eq!(ping.method, Method::Cmd(CmdMethod::Bounce));
    assert!(!ping.id.is_empty());
    let again = star.bounce(&StarKey::new(7));
    assert_ne!(ping.id, again.id);
    let pong = ping.reflect("p-1".to_string(), at("star:7").to_surface(), 200, Substance::Empty);
    assert_eq!(Star::bounced(&pong.unwrap()), Ok(()));
    let failed = ping.reflect("p-2".to_string(), at("star:7").to_surface(), 404, Substance::Empty);
    assert_eq!(Star::bounced(&failed.unwrap()), Err(404));
    match star.handle(&Registry::new(), HyperStarCall::Bounce(StarKey::new(2))) {
        StarAction::Bounce(ping) => {
            assert_eq!(ping.to, Recipients::Single(at("star:2").to_surface()));
        }
        other => panic!("{:?}", other),
    }
}

#[test]
fn each_call_has_its_handler() {
    let star = nexus();
    assert!(matches!(star.handle(&Registry::new(), HyperStarCall::Init), StarAction::InitDrivers));
    assert!(matches!(star.handle(&Registry::new(), HyperStarCall::StartWrangling), StarAction::StartWrangling));
    assert!(matches!(star.handle(&Registry::new(), HyperStarCall::Wrangle), StarAction::Wrangle));
    match star.handle(&Registry::new(), HyperStarCall::CreateStates(at("localhost:app"))) {
        StarAction::CreateShell(point) => assert_eq!(point, at("localhost:app")),
        other => panic!("{:?}", other),
    }
    match star.handle(&Registry::new(), HyperStarCall::ToGravity(read("localhost:app", "localhost"))) {
        StarAction::ToGravity(ToGravity::Shard(wave)) => {
            assert_eq!(wave.id, "w-1");
            assert!(wave.history.contains(&at("star:1")));
        }
        other => panic!("{:?}", other),
    }
    let mut global = read("localhost:app", "localhost");
    global.to = Recipients::Single(Point::global_executor().to_surface());
    match star.handle(&Registry::new(), HyperStarCall::ToGravity(global)) {
        StarAction::ToGravity(ToGravity::Global(wave)) => assert_eq!(wave.id, "w-1"),
        other => panic!("{:?}", other),
    }
    match star.handle(&Registry::new(), HyperStarCall::Shard(read("localhost:app", "localhost"))) {
        StarAction::Shard(ShardPlan::Locate { point, .. }) => assert_eq!(point, at("localhost")),
        other => panic!("{:?}", other),
    }
}

#[test]
fn only_transports_go_into_the_fabric() {
    let star = nexus();
    match star.handle(&Registry::new(), HyperStarCall::ToHyperway(read("localhost:app", "localhost"))) {
        StarAction::Dropped { wave_id, reason } => {
            assert_eq!(wave_id, "w-1");
            assert_eq!(reason, RouterError::NotATransport);
        }
        other => panic!("{:?}", other),
    }
    let transport = read("localhost:app", "localhost").wrap_in_transport(
        "t-1".to_string(),
        at("star:1").to_surface(),
        at("star:2").to_surface(),
    );
    match star.handle(&Registry::new(), HyperStarCall::ToHyperway(transport)) {
        StarAction::ToHyperway(ToHyperway::Hop(hop)) => {
            assert_eq!(hop.to, Recipients::Single(at("star:2").to_surface()));
            let transport = hop.unwrap_from_hop().unwrap();
            assert_eq!(transport.id, "t-1");
        }
        other => panic!("{:?}", other),
    }
}

#[test]
fn reader_hands_out_every_whole_frame() {
    let mut wire = Frame::new(vec![1, 2]).encode().unwrap();
    wire.extend(Frame::new(vec![]).encode().unwrap());
    wire.extend(Frame::new(vec![9; 5]).encode().unwrap());
    wire.extend([0, 0, 0, 4, 7]);
    let mut reader = FrameReader::new();
    reader.feed(&wire);
    let frames = reader.drain();
    assert_eq!(frames.len(), 3);
    assert_eq!(frames[0].data, vec![1, 2]);
    assert_eq!(frames[1].data, Vec::<u8>::new());
    assert_eq!(frames[2].data, vec![9; 5]);
    assert!(reader.drain().is_empty());
    reader.feed(&vec![7, 7, 7]);
    let frames = reader.drain();
    assert_eq!(frames.len(), 1);
    assert_eq!(frames[0].data, vec![7, 7, 7, 7]);
}

#[test]
fn lane_frames_what_goes_out_and_unframes_what_comes_in() {
    let mut muxer = FrameMuxer::new();
    assert_eq!(
        muxer.mux(MuxEvent::Outbound(vec![5, 6, 7])),
        MuxAction::Write(vec![0, 0, 0, 3, 5, 6, 7])
    );
    assert_eq!(muxer.mux(MuxEvent::Bytes(vec![0, 0, 0, 2, 1])), MuxAction::Deliver(vec![]));
    assert_eq!(
        muxer.mux(MuxEvent::Bytes(vec![2, 0, 0, 0, 1, 3, 0])),
        MuxAction::Deliver(vec![Frame::new(vec![1, 2]), Frame::new(vec![3])])
    );
    assert_eq!(muxer.mux(MuxEvent::OutboundClosed), MuxAction::Stop(MuxStop::Disconnected));
    assert_eq!(muxer.mux(MuxEvent::ReadFailed), MuxAction::Stop(MuxStop::ReadFailed));
    assert_eq!(muxer.mux(MuxEvent::Terminate), MuxAction::Stop(MuxStop::Terminated));
}

#[test]
fn registry_answers_commands() {
    let owner = at("hyperspace:users:hyperuser");
    let mut registry = Registry::new();
    let commit = |point: &str, base: BaseKind| {
        RegistryCommand::Commit(Registration {
            point: at(point),
            kind: Kind::of(base),
            properties: vec![],
            owner: owner.clone(),
            strategy: Strategy::Commit,
            status: Status::Unknown,
        })
    };
    assert_eq!(registry.process(&commit("localhost", BaseKind::Space)), RegistryResult::Done);
    assert_eq!(registry.process(&commit("localhost:app", BaseKind::App)), RegistryResult::Done);
    assert_eq!(
        registry.process(&commit("localhost:app", BaseKind::App)),
        RegistryResult::Error(RegistryError::Dupe)
    );
    assert_eq!(
        registry.process(&commit("nowhere:app", BaseKind::App)),
        RegistryResult::Error(RegistryError::NotFound)
    );
    assert_eq!(
        registry.process(&RegistryCommand::SetLocation {
            point: at("localhost:app"),
            star: at("star:4"),
        }),
        RegistryResult::Done
    );
    match registry.process(&RegistryCommand::Get(at("localhost:app"))) {
        RegistryResult::Resource(Some(record)) => {
            assert_eq!(record.details.stub.point, at("localhost:app"));
            assert_eq!(record.location.star, Some(at("star:4")));
        }
        other => panic!("{:?}", other),
    }
    assert_eq!(
        registry.process(&RegistryCommand::Get(at("localhost:gone"))),
        RegistryResult::Resource(None)
    );
    let below = Selector::new(vec![
        Hop {
            inclusive: false,
            segment_selector: PointSegSelector::Exact("localhost".to_string()),
            kind_selector: KindSelector::any(),
        },
        Hop {
            inclusive: false,
            segment_selector: PointSegSelector::Any,
            kind_selector: KindSelector::any(),
        },
    ]);
    match registry.process(&RegistryCommand::Select(below)) {
        RegistryResult::Resources(stubs) => {
            assert_eq!(stubs.len(), 1);
            assert_eq!(stubs[0].point, at("localhost:app"));
        }
        other => panic!("{:?}", other),
    }
    assert_eq!(registry.process(&RegistryCommand::Close), RegistryResult::Done);
    match registry.process(&RegistryCommand::Get(at("localhost"))) {
        RegistryResult::Resource(Some(record)) => {
            assert_eq!(record.details.stub.kind.base, BaseKind::Space)
        }
        other => panic!("{:?}", other),
    }
    assert_eq!(registry.process(&RegistryCommand::Clear), RegistryResult::Done);
    assert_eq!(
        registry.process(&RegistryCommand::Get(at("localhost"))),
        RegistryResult::Resource(None)
    );
}

#[test]
fn base_kinds_and_statuses_have_names() {
    for base in [
        BaseKind::Root,
        BaseKind::Space,
        BaseKind::UserBase,
        BaseKind::Mechtron,
        BaseKind::BundleSeries,
        BaseKind::Native,
    ] {
        assert_eq!(BaseKind::from_str(&base.to_string()), Some(base));
    }
    assert_eq!(BaseKind::from_str("FileSystem"), Some(BaseKind::FileSystem));
    assert_eq!(BaseKind::from_str("filesystem"), None);
    assert_eq!(BaseKind::from_str(""), None);
    for status in [
        Status::Unknown,
        Status::Pending,
        Status::Init,
        Status::Ready,
        Status::Panic,
        Status::Fatal,
    ] {
        assert_eq!(Status::from_str(&status.to_string()), Some(status));
    }
    assert_eq!(Status::Ready.to_string(), "Ready");
    assert_eq!(Status::from_str("Done"), None);
}

#[test]
fn a_row_becomes_a_record() {
    let mut row = columns("localhost:users", "scott", "User");
    row.star = Some("star:3".to_string());
    let record = record_from_columns(&row).unwrap();
    assert_eq!(record.details.stub.point, at("localhost:users:scott"));
    assert_eq!(record.details.stub.kind, Kind::of(BaseKind::User));
    assert_eq!(record.details.stub.status, Status::Ready);
    assert!(record.details.properties.is_empty());
    assert_eq!(record.location.star, Some(at("star:3")));
    assert_eq!(record.location.host, None);

    let record = record_from_columns(&columns("", "localhost", "Space")).unwrap();
    assert_eq!(record.details.stub.point, at("localhost"));
    let record = record_from_columns(&columns("ROOT", "localhost", "Space")).unwrap();
    assert_eq!(record.details.stub.point, at("localhost"));
    let record = record_from_columns(&columns("", "", "Root")).unwrap();
    assert!(record.details.stub.point.is_root());
}

#[test]
fn a_row_with_a_specific_has_its_version() {
    let mut row = columns("localhost", "users", "UserBase");
    row.sub = Some("OAuth".to_string());
    row.provider = Some("mechtronhost.io".to_string());
    row.vendor = Some("keycloak.com".to_string());
    row.product = Some("keycloak".to_string());
    row.variant = Some("community".to_string());
    row.version = Some("11.0.0".to_string());
    let record = record_from_columns(&row).unwrap();
    let kind = &record.details.stub.kind;
    assert_eq!(kind.sub, Some("OAuth".to_string()));
    let specific = kind.specific.as_ref().unwrap();
    assert_eq!(specific.vendor, "keycloak.com");
    assert_eq!(specific.version.to_string(), "11.0.0");

    row.version_variant = Some("beta".to_string());
    let record = record_from_columns(&row).unwrap();
    let specific = record.details.stub.kind.specific.unwrap();
    assert_eq!(specific.version.to_string(), "11.0.0-beta");
    assert_eq!(specific.version.pre, "beta");

    row.variant = None;
    let record = record_from_columns(&row).unwrap();
    assert_eq!(record.details.stub.kind.specific, None);
}

#[test]
fn a_row_that_cannot_be_read_says_why() {
    assert_eq!(
        record_from_columns(&columns("localhost", "", "Space")).unwrap_err(),
        ColumnError::Point
    );
    assert_eq!(
        record_from_columns(&columns("localhost", "app", "Nothing")).unwrap_err(),
        ColumnError::Base
    );
    let mut row = columns("localhost", "users", "UserBase");
    row.provider = Some("mechtronhost.io".to_string());
    row.vendor = Some("keycloak.com".to_string());
    row.product = Some("keycloak".to_string());
    row.variant = Some("community".to_string());
    row.version = Some("eleven".to_string());
    assert_eq!(record_from_columns(&row).unwrap_err(), ColumnError::Version);
    let mut row = columns("localhost", "app", "App");
    row.host = Some("".to_string());
    assert_eq!(record_from_columns(&row).unwrap_err(), ColumnError::Location);
    let mut row = columns("localhost", "app", "App");
    row.status = "Asleep".to_string();
    assert_eq!(record_from_columns(&row).unwrap_err(), ColumnError::Status);
    let mut row = columns("localhost", "", "Nothing");
    row.status = "Asleep".to_string();
    assert_eq!(record_from_columns(&row).unwrap_err(), ColumnError::Point);
}

#[test]
fn grants_are_read_from_their_columns() {
    assert_eq!(grant_kind_from_columns("super", &None), Some(AccessGrantKind::Super));
    assert_eq!(
        grant_kind_from_columns("priv", &Some("*".to_string())),
        Some(AccessGrantKind::Privilege(Privilege::Full))
    );
    assert_eq!(
        grant_kind_from_columns("priv", &Some("property:email:read".to_string())),
        Some(AccessGrantKind::Privilege(Privilege::Single("property:email:read".to_string())))
    );
    match grant_kind_from_columns("perm", &Some("+csd-RwX".to_string())) {
        Some(AccessGrantKind::PermissionsMask(mask)) => {
            assert_eq!(
                mask,
                PermissionsMask {
                    kind: PermissionsMaskKind::Or,
                    permissions: Permissions::from_str("csd-RwX").unwrap(),
                }
            );
        }
        other => panic!("{:?}", other),
    }
    assert_eq!(grant_kind_from_columns("perm", &Some("csd".to_string())), None);
    assert_eq!(grant_kind_from_columns("perm", &None), None);
    assert_eq!(grant_kind_from_columns("priv", &None), None);
    assert_eq!(grant_kind_from_columns("owner", &None), None);
}

#[test]
fn lanes_keep_the_last_report_of_each_lane() {
    let mut lanes = Lanes::new();
    lanes.add_lane(StarKey::new(2), 8);
    lanes.add_lane(StarKey::new(3), 8);
    lanes.add_lane(StarKey::new(4), 8);
    lanes.note_hits(2, &vec![SearchHit { star: StarKey::new(9), hops: 7 }]);
    let result = SearchResult {
        pattern: StarSearchPattern::StarKind(StarSub::Jump),
        hits: vec![],
        lane_hits: vec![
            LaneHits {
                lane: StarKey::new(2),
                hits: vec![SearchHit { star: StarKey::new(9), hops: 5 }],
            },
            LaneHits {
                lane: StarKey::new(7),
                hits: vec![SearchHit { star: StarKey::new(9), hops: 1 }],
            },
            LaneHits {
                lane: StarKey::new(3),
                hits: vec![
                    SearchHit { star: StarKey::new(9), hops: 3 },
                    SearchHit { star: StarKey::new(8), hops: 2 },
                ],
            },
            LaneHits {
                lane: StarKey::new(2),
                hits: vec![SearchHit { star: StarKey::new(9), hops: 4 }],
            },
        ],
    };
    lanes.commit(&result);
    assert_eq!(lanes.lane_with_shortest_path_to_star(&StarKey::new(9)), Some(1));
    assert_eq!(lanes.get_hops_to_star(&StarKey::new(9)), Some(3));
    assert_eq!(lanes.get_hops_to_star(&StarKey::new(8)), Some(2));
    assert_eq!(lanes.lane_with_shortest_path_to_star(&StarKey::new(8)), Some(1));
    assert_eq!(lanes.get_hops_to_star(&StarKey::new(7)), None);
}

#[test]
fn names_of_a_certificate_are_ascii() {
    let refused = CertGenerator::gen(vec!["localhost".to_string(), "müller.example".to_string()]);
    assert_eq!(refused.unwrap_err(), CertError::NotAscii);
    assert!(CertGenerator::gen(vec!["localhost".to_string()]).is_ok());
    assert!(CertGenerator::gen(vec![]).is_ok());
}

#[test]
fn the_version_that_was_read_decides() {
    let mut same = Handshake::new(Version::new(1, 2, 3));
    assert!(same.on_version(Ok(Version::new(1, 2, 3))).is_empty());
    assert_eq!(same.state, HandshakeState::Start);
    same.begin();
    assert_eq!(
        same.on_version(Ok(Version::new(1, 2, 3))),
        vec![HandshakeAction::Send(Frame::new(b"Ok".to_vec()))]
    );
    assert_eq!(same.state, HandshakeState::AwaitStatus);

    let mut other = Handshake::new(Version::new(1, 2, 3));
    other.begin();
    assert_eq!(
        other.on_version(Ok(Version::new(2, 0, 0))),
        vec![
            HandshakeAction::Report(HandshakeError::VersionMismatch),
            HandshakeAction::Send(Frame::new(
                b"Err(\"expected version 1.2.3. encountered version 2.0.0\")".to_vec()
            )),
            HandshakeAction::Close,
        ]
    );
    assert_eq!(other.state, HandshakeState::Failed(HandshakeError::VersionMismatch));

    let mut unread = Handshake::new(Version::new(1, 2, 3));
    unread.begin();
    assert_eq!(
        unread.on_version(Err(FrameError::NotAVersion)),
        vec![HandshakeAction::Report(HandshakeError::BadFrame), HandshakeAction::Close]
    );
    assert_eq!(unread.state, HandshakeState::Failed(HandshakeError::BadFrame));
}

#[test]
fn a_transport_goes_by_the_lane_with_the_shortest_path() {
    let star = nexus();
    assert!(star.well_formed());
    let mut lanes = Lanes::new();
    lanes.add_lane(StarKey::new(2), 8);
    lanes.add_lane(StarKey::new(5), 8);
    assert_eq!(lanes.remote_key(1), StarKey::new(5));
    let transport = || {
        read("localhost:app", "localhost").wrap_in_transport(
            "t-1".to_string(),
            at("star:1").to_surface(),
            at("star:9").to_surface(),
        )
    };
    assert_eq!(lanes.key_at(&at("star:9")), None);
    match star.to_hyperway_by_lanes(&mut lanes, &StarKey::new(9), transport()) {
        ToHyperway::Search { target, transport } => {
            assert_eq!(target, at("star:9"));
            assert_eq!(transport.id, "t-1");
        }
        other => panic!("{:?}", other),
    }
    lanes.note_hits(0, &vec![SearchHit { star: StarKey::new(9), hops: 4 }]);
    lanes.note_hits(1, &vec![SearchHit { star: StarKey::new(9), hops: 2 }]);
    assert_eq!(lanes.key_at(&at("star:9")), Some(StarKey::new(9)));
    assert_eq!(lanes.key_at(&at("star:8")), None);
    match star.to_hyperway_by_lanes(&mut lanes, &StarKey::new(9), transport()) {
        ToHyperway::Hop(hop) => {
            assert_eq!(hop.to, Recipients::Single(at("star:5").to_surface()));
            assert_eq!(hop.from, star.gravity());
            assert_eq!(hop.unwrap_from_hop().unwrap().id, "t-1");
        }
        other => panic!("{:?}", other),
    }
    assert_eq!(lanes.get_hops_to_star(&StarKey::new(9)), Some(2));
}

#[test]
fn a_star_that_is_adjacent_twice_is_not_well_formed() {
    let mut star = nexus();
    assert!(star.well_formed());
    let again = starlane::router::Adjacent {
        point: at("star:2"),
        stub: StarStub::new(StarKey::new(2), StarSub::Jump),
    };
    star.adjacents.push(again);
    assert!(!star.well_formed());
}

#[test]
fn one_request_goes_out_for_a_particle() {
    let owner = at("hyperspace:users:hyperuser");
    let mut registry = Registry::new();
    for (point, base) in [("space", BaseKind::Space), ("space:app", BaseKind::App)] {
        registry
            .register(&Registration {
                point: at(point),
                kind: Kind::of(base),
                properties: vec![],
                owner: owner.clone(),
                strategy: Strategy::Commit,
                status: Status::Unknown,
            })
            .unwrap();
    }
    let locator = SmartLocator::new(at("star:4"));
    let mut provisions = Provisions::new();
    assert!(!provisions.waits(&at("space")));
    assert_eq!(
        locator.locate_once(&registry, &mut provisions, &at("space:app")),
        LocateOnce::Request { point: at("space"), parent_star: at("star:0") }
    );
    assert!(provisions.waits(&at("space")));
    assert_eq!(
        locator.locate_once(&registry, &mut provisions, &at("space:app")),
        LocateOnce::Waiting { point: at("space") }
    );
    assert_eq!(
        locator.locate_once(&registry, &mut provisions, &at("space")),
        LocateOnce::Waiting { point: at("space") }
    );
    assert!(matches!(
        locator.locate_once(&registry, &mut provisions, &at("nowhere")),
        LocateOnce::Failed(_)
    ));
    provisions.done(&at("space"));
    assert!(!provisions.waits(&at("space")));
    registry.assign_star(&at("space"), &at("star:2")).unwrap();
    assert_eq!(
        locator.locate_once(&registry, &mut provisions, &at("space")),
        LocateOnce::Found(ParticleLocation::new(Some(at("star:2")), None))
    );
    assert_eq!(
        locator.locate_once(&registry, &mut provisions, &at("space:app")),
        LocateOnce::Request { point: at("space:app"), parent_star: at("star:2") }
    );
}

#[test]
fn a_selection_holds_no_particle_twice() {
    let owner = at("hyperspace:users:hyperuser");
    let mut registry = Registry::new();
    for (point, base) in [
        ("localhost", BaseKind::Space),
        ("localhost:app", BaseKind::App),
        ("localhost:app:one", BaseKind::Mechtron),
        ("localhost:app:two", BaseKind::Mechtron),
        ("localhost:files", BaseKind::FileSystem),
    ] {
        registry
            .register(&Registration {
                point: at(point),
                kind: Kind::of(base),
                properties: vec![],
                owner: owner.clone(),
                strategy: Strategy::Commit,
                status: Status::Unknown,
            })
            .unwrap();
    }
    let everything = Selector::new(vec![
        Hop {
            inclusive: true,
            segment_selector: PointSegSelector::Exact("localhost".to_string()),
            kind_selector: KindSelector::any(),
        },
        Hop {
            inclusive: false,
            segment_selector: PointSegSelector::Recursive,
            kind_selector: KindSelector::any(),
        },
    ]);
    let stubs = registry.select(&everything).unwrap();
    let mut points: Vec<String> = stubs.iter().map(|s| s.point.to_string()).collect();
    let found = points.len();
    points.sort();
    points.dedup();
    assert_eq!(points.len(), found);
    assert!(points.contains(&"localhost:app:two".to_string()));
    let deleted = registry.delete(&everything).unwrap();
    assert_eq!(deleted.len(), found);
    assert!(registry.find(&at("localhost:app")).is_none());
}

#[test]
fn a_ripple_to_many_is_parted_by_the_stars_of_its_recipients() {
    let owner = at("hyperspace:users:hyperuser");
    let mut registry = Registry::new();
    for (point, base, star) in [
        ("localhost", BaseKind::Space, Some("star:1")),
        ("localhost:app", BaseKind::App, Some("star:2")),
        ("localhost:app:one", BaseKind::Mechtron, Some("star:2")),
        ("localhost:app:two", BaseKind::Mechtron, Some("star:5")),
        ("localhost:files", BaseKind::FileSystem, None),
    ] {
        registry
            .register(&Registration {
                point: at(point),
                kind: Kind::of(base),
                properties: vec![],
                owner: owner.clone(),
                strategy: Strategy::Commit,
                status: Status::Unknown,
            })
            .unwrap();
        if let Some(star) = star {
            registry.assign_star(&at(point), &at(star)).unwrap();
        }
    }
    let star = nexus();
    let to = |points: &[&str]| {
        Recipients::Multi(points.iter().map(|p| at(p).to_surface()).collect())
    };
    let many = to(&["localhost:app:one", "localhost", "localhost:app:two", "localhost:app"]);
    let parts = star.shard_by_location(&registry, &many).unwrap();
    assert_eq!(
        parts,
        vec![
            (at("star:2"), to(&["localhost:app:one", "localhost:app"])),
            (at("star:1"), to(&["localhost"])),
            (at("star:5"), to(&["localhost:app:two"])),
        ]
    );

    let mut ripple = Wave::directed(
        WaveKind::Ripple,
        "r-9".to_string(),
        at("localhost:app:one").to_surface(),
        many,
        Method::Cmd(CmdMethod::Update),
    );
    ripple.add_to_history(&at("star:5"));
    match star.handle(&registry, HyperStarCall::Shard(ripple.clone())) {
        StarAction::Shard(ShardPlan::Ripple(parts)) => {
            assert_eq!(parts.len(), 2);
            match &parts[0] {
                ShardAction::Transport(transport) => {
                    assert_eq!(transport.to, Recipients::Single(at("star:2").to_surface()));
                    let inner = transport.clone().unwrap_from_transport().unwrap();
                    assert_eq!(inner.to, to(&["localhost:app:one", "localhost:app"]));
                    assert!(inner.history.contains(&at("star:1")));
                }
                other => panic!("{:?}", other),
            }
            match &parts[1] {
                ShardAction::Inject(injection) => {
                    assert_eq!(injection.wave.to, to(&["localhost"]));
                    assert_eq!(injection.wave.id, "r-9");
                    assert!(injection.from_gravity);
                }
                other => panic!("{:?}", other),
            }
        }
        other => panic!("{:?}", other),
    }

    ripple.to = to(&["localhost:app", "localhost:files"]);
    match star.shard(&registry, ripple.clone()) {
        ShardPlan::Failed { wave_id, reason } => {
            assert_eq!(wave_id, "r-9");
            assert_eq!(reason, RouterError::NotLocated);
        }
        other => panic!("{:?}", other),
    }
    ripple.to = to(&["localhost:app", "localhost:gone"]);
    assert_eq!(
        star.shard_ripple(&registry, &ripple).unwrap_err(),
        RouterError::NotFound
    );
    ripple.to = to(&[]);
    assert!(star.shard_ripple(&registry, &ripple).unwrap().is_empty());
    ripple.to = Recipients::Single(at("localhost:app:two").to_surface());
    assert!(star.shard_ripple(&registry, &ripple).unwrap().is_empty());
    ripple.to = Recipients::Single(at("localhost:app").to_surface());
    assert_eq!(star.shard_ripple(&registry, &ripple).unwrap().len(), 1);
}

#[test]
fn a_specific_needs_its_version() {
    let name = |text: &str| text.to_string();
    let specific = starlane::db::specific_from_columns(
        &name("mechtronhost.io"),
        &name("keycloak.com"),
        &name("keycloak"),
        &name("community"),
        Some(Version::new(11, 0, 2)),
    )
    .unwrap();
    assert_eq!(specific.provider, "mechtronhost.io");
    assert_eq!(specific.vendor, "keycloak.com");
    assert_eq!(specific.product, "keycloak");
    assert_eq!(specific.variant, "community");
    assert_eq!(specific.version, Version::new(11, 0, 2));
    assert_eq!(
        starlane::db::specific_from_columns(&name("a"), &name("b"), &name("c"), &name("d"), None),
        Err(ColumnError::Version)
    );
}

#[test]
fn the_handler_of_a_topic_is_found_or_refused() {
    let owner = at("hyperspace:users:hyperuser");
    let mut registry = Registry::new();
    for (point, base) in [("localhost", BaseKind::Space), ("localhost:app", BaseKind::App)] {
        registry
            .register(&Registration {
                point: at(point),
                kind: Kind::of(base),
                properties: vec![],
                owner: owner.clone(),
                strategy: Strategy::Commit,
                status: Status::Unknown,
            })
            .unwrap();
    }
    let apps = Selector::new(vec![
        Hop {
            inclusive: false,
            segment_selector: PointSegSelector::Exact("localhost".to_string()),
            kind_selector: KindSelector::any(),
        },
        Hop {
            inclusive: false,
            segment_selector: PointSegSelector::Any,
            kind_selector: KindSelector::from_base(BaseKind::App),
        },
    ]);
    let from = |point: &str| at(point).to_surface();
    assert_eq!(find_topic(&registry, None, &from("localhost:app")), TopicLookup::Absent);
    assert_eq!(find_topic(&registry, Some(&apps), &from("localhost:app")), TopicLookup::Found);
    assert_eq!(find_topic(&registry, Some(&apps), &from("localhost")), TopicLookup::Refused);
    assert_eq!(find_topic(&registry, Some(&apps), &from("localhost:gone")), TopicLookup::Refused);
}

#[test]
fn the_star_follows_its_drivers() {
    let failed = |why: &str| DriverStatus::Retrying(why.to_string());
    assert_eq!(DriverStatus::step(&DriverStatus::Unknown, &DriverStatus::Unknown), None);
    assert_eq!(
        DriverStatus::step(&DriverStatus::Unknown, &DriverStatus::Pending),
        Some(StatusStep { status: Status::Pending, start: false })
    );
    assert_eq!(
        DriverStatus::step(&DriverStatus::Pending, &DriverStatus::Init),
        Some(StatusStep { status: Status::Init, start: false })
    );
    assert_eq!(
        DriverStatus::step(&DriverStatus::Init, &DriverStatus::Ready),
        Some(StatusStep { status: Status::Ready, start: true })
    );
    assert_eq!(
        DriverStatus::step(&DriverStatus::Ready, &failed("no room")),
        Some(StatusStep { status: Status::Panic, start: false })
    );
    assert_eq!(DriverStatus::step(&failed("no room"), &failed("no room")), None);
    assert_eq!(
        DriverStatus::step(&failed("no room"), &failed("no disk")),
        Some(StatusStep { status: Status::Panic, start: false })
    );
    assert_eq!(
        DriverStatus::step(&DriverStatus::Ready, &DriverStatus::Fatal("gone".to_string())),
        Some(StatusStep { status: Status::Fatal, start: false })
    );
    assert_eq!(DriverStatus::Unknown.star_status(), Status::Unknown);
}
