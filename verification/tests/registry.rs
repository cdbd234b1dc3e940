use starlane::kind::{BaseKind, Kind, Specific, Status, Version};
use starlane::particle::{PropertyMod, Stub};
use starlane::point::Point;
use starlane::registry::{
    AccessGrant, AccessGrantKind, Registration, Registry, RegistryError, Strategy,
};
use starlane::security::{Access, Permissions, PermissionsMask, Privilege};
use starlane::selector::{Hop, KindSelector, PointSegSelector, Selector};

fn point(text: &str) -> Point {
    Point::from_str(text).expect("a point")
}

fn hop(text: &str) -> Hop {
    let (text, kind) = match text.find('<') {
        Some(at) => {
            let name = &text[at + 1..text.len() - 1];
            let base = match name {
                "User" => BaseKind::User,
                "Mechtron" => BaseKind::Mechtron,
                "App" => BaseKind::App,
                "Space" => BaseKind::Space,
                "UserBase" => BaseKind::UserBase,
                other => panic!("kind {}", other),
            };
            (&text[..at], KindSelector::from_base(base))
        }
        None => (text, KindSelector::any()),
    };
    let (text, inclusive) = match text.strip_suffix('+') {
        Some(rest) => (rest, true),
        None => (text, false),
    };
    let segment_selector = match text {
        "**" => PointSegSelector::Recursive,
        "*" => PointSegSelector::Any,
        exact => PointSegSelector::Exact(exact.to_string()),
    };
    Hop { inclusive, segment_selector, kind_selector: kind }
}

fn selector(text: &str) -> Selector {
    Selector::new(text.split(':').filter(|part| !part.is_empty()).map(hop).collect())
}

fn registration(at: &str, kind: Kind, owner: &Point) -> Registration {
    Registration {
        point: point(at),
        kind,
        properties: vec![],
        owner: owner.clone(),
        strategy: Strategy::Commit,
        status: Status::Unknown,
    }
}

fn userbase() -> Kind {
    Kind {
        base: BaseKind::UserBase,
        sub: Some("OAuth".to_string()),
        specific: Some(Specific {
            provider: "mechtronhost.io".to_string(),
            vendor: "keycloak.com".to_string(),
            product: "keycloak".to_string(),
            variant: "community".to_string(),
            version: Version::new(11, 0, 0),
        }),
    }
}

fn mask(text: &str) -> AccessGrantKind {
    AccessGrantKind::PermissionsMask(PermissionsMask::from_str(text).expect("a mask"))
}

fn fixture() -> Registry {
    let hyperuser = point("hyperspace:users:hyperuser");
    let superuser = point("localhost:users:superuser");
    let app = point("localhost:app");
    let mut registry = Registry::new();
    let root = Registration {
        point: Point::root(),
        kind: Kind::root(),
        properties: vec![],
        owner: hyperuser.clone(),
        strategy: Strategy::Commit,
        status: Status::Unknown,
    };
    registry.register(&root).unwrap();
    for (at, kind, owner) in [
        ("hyperspace", Kind::of(BaseKind::Space), &hyperuser),
        ("hyperspace:users", userbase(), &hyperuser),
        ("hyperspace:users:hyperuser", Kind::of(BaseKind::Space), &hyperuser),
        ("localhost", Kind::of(BaseKind::Space), &hyperuser),
        ("localhost:users", userbase(), &hyperuser),
        ("localhost:users:superuser", userbase(), &hyperuser),
        ("localhost:app", Kind::of(BaseKind::App), &superuser),
        ("localhost:app:users", userbase(), &app),
        ("localhost:app:users:scott", Kind::of(BaseKind::User), &app),
        ("localhost:app:mechtron", Kind::of(BaseKind::Mechtron), &app),
    ] {
        registry.register(&registration(at, kind, owner)).unwrap();
    }
    let grants = [
        AccessGrant {
            kind: AccessGrantKind::Super,
            on_point: selector("localhost+:**"),
            to_point: Selector::from_point(&superuser),
            by_particle: hyperuser.clone(),
        },
        AccessGrant {
            kind: mask("+csd-Rwx"),
            on_point: selector("localhost:app+:**"),
            to_point: selector("localhost:app:users:**<User>"),
            by_particle: app.clone(),
        },
        AccessGrant {
            kind: mask("+csd-rwX"),
            on_point: selector("localhost:app:**<Mechtron>"),
            to_point: selector("localhost:app:users:**<User>"),
            by_particle: app.clone(),
        },
        AccessGrant {
            kind: mask("+CSD-RWX"),
            on_point: selector("localhost:users:superuser"),
            to_point: Selector::from_point(&point("localhost:app:users:scott")),
            by_particle: app.clone(),
        },
        AccessGrant {
            kind: AccessGrantKind::Privilege(Privilege::Single("property:email:read".to_string())),
            on_point: selector("localhost:app:users:**<User>"),
            to_point: selector("localhost:app:**<Mechtron>"),
            by_particle: app.clone(),
        },
    ];
    for grant in grants.iter() {
        registry.grant(grant).unwrap();
    }
    registry
}

fn chowned() -> Registry {
    let mut registry = fixture();
    registry
        .chown(&selector("localhost:app+:**"), &point("localhost:app"), &point("localhost:users:superuser"))
        .unwrap();
    registry
}

fn points_of(stubs: &[Stub]) -> Vec<String> {
    let mut points: Vec<String> = stubs.iter().map(|s| s.point.to_string()).collect();
    points.sort();
    points
}

#[test]
fn test_compile_postgres() {}

#[test]
fn lib_test() {
    println!("It Works!");
}

#[test]
fn hyperuser_has_super_on_everything() {
    let registry = fixture();
    let access = registry
        .access(&point("hyperspace:users:hyperuser"), &point("localhost:users:superuser"))
        .unwrap();
    assert!(access.has_super());
    assert_eq!(access, Access::SuperOwner);
    let access =
        registry.access(&point("hyperspace:users:hyperuser"), &point("localhost:app")).unwrap();
    assert_eq!(access, Access::Super);
}

#[test]
fn super_grant_gives_super() {
    let registry = fixture();
    let superuser = point("localhost:users:superuser");
    assert_eq!(registry.access(&superuser, &point("localhost")).unwrap(), Access::Super);
    assert_eq!(registry.access(&superuser, &point("localhost:app")).unwrap(), Access::SuperOwner);
}

#[test]
fn owner_has_full_access() {
    let registry = fixture();
    let access =
        registry.access(&point("localhost:app"), &point("localhost:app:users:scott")).unwrap();
    assert!(!access.has_super());
    assert!(access.has_owner());
    assert!(access.has_full());
    assert_eq!(access, Access::Owner);
    assert_eq!(access.permissions().to_string(), "CSD-RWX");
}

#[test]
fn grant_by_a_grantor_without_full_access_gives_nothing() {
    let registry = fixture();
    let scott = point("localhost:app:users:scott");
    let access = registry.access(&scott, &point("localhost:users:superuser")).unwrap();
    assert!(!access.has_super());
    assert!(!access.has_full());
    assert_eq!(access.permissions().to_string(), "csd-rwx");
    let access = registry.access(&scott, &point("localhost:app")).unwrap();
    assert_eq!(access.permissions().to_string(), "csd-rwx");
}

#[test]
fn only_a_super_can_change_owners() {
    let mut registry = fixture();
    let pattern = selector("localhost:app+:**");
    let app = point("localhost:app");
    assert_eq!(
        registry.chown(&pattern, &app, &point("localhost:app:users:scott")),
        Err(RegistryError::Unauthorized)
    );
    assert_eq!(registry.record(&app).unwrap().details.stub.point, app);
    assert!(!registry.owns(&app, &app));
    assert_eq!(registry.chown(&pattern, &app, &point("localhost:users:superuser")), Ok(()));
    assert!(registry.owns(&app, &app));
    assert!(registry.owns(&app, &point("localhost:app:mechtron")));
    assert!(!registry.owns(&app, &point("localhost")));
}

#[test]
fn or_mask_counts_once_the_grantor_owns() {
    let registry = chowned();
    let scott = point("localhost:app:users:scott");
    let access = registry.access(&scott, &point("localhost:app")).unwrap();
    assert!(!access.has_super());
    assert_eq!(access.permissions().to_string(), "csd-Rwx");
    let access = registry.access(&scott, &point("localhost:users:superuser")).unwrap();
    assert_eq!(access.permissions().to_string(), "csd-rwx");
}

#[test]
fn access_of_scott_on_mechtron_is_or_masked() {
    let registry = chowned();
    let access = registry
        .access(&point("localhost:app:users:scott"), &point("localhost:app:mechtron"))
        .unwrap();
    assert!(!access.has_super());
    assert_eq!(access.permissions().to_string(), "csd-RwX");
}

#[test]
fn and_mask_narrows_the_access_of_scott_on_mechtron() {
    let mut registry = chowned();
    let grant = AccessGrant {
        kind: mask("&csd-rwX"),
        on_point: selector("localhost:app:**<Mechtron>"),
        to_point: selector("localhost:app:users:**<User>"),
        by_particle: point("localhost:app"),
    };
    registry.grant(&grant).unwrap();
    let access = registry
        .access(&point("localhost:app:users:scott"), &point("localhost:app:mechtron"))
        .unwrap();
    assert!(!access.has_super());
    assert_eq!(access.permissions().to_string(), "csd-rwX");
}

#[test]
fn mechtron_has_the_privilege_to_read_the_email_of_scott() {
    let registry = chowned();
    let access = registry
        .access(&point("localhost:app:mechtron"), &point("localhost:app:users:scott"))
        .unwrap();
    assert!(!access.has_super());
    assert_eq!(access.permissions().to_string(), "csd-rwx");
    assert!(access.check_privilege("property:email:read").is_ok());
    let refused = access.check_privilege("property:email:write").unwrap_err();
    assert_eq!(refused.privilege, "property:email:write");
}

#[test]
fn or_mask_widens_and_and_mask_narrows() {
    let mut registry = chowned();
    let scott = point("localhost:app:users:scott");
    let mechtron = point("localhost:app:mechtron");
    let before = registry.access(&scott, &mechtron).unwrap().permissions();
    registry
        .grant(&AccessGrant {
            kind: mask("+Csd-rwx"),
            on_point: selector("localhost:app:**<Mechtron>"),
            to_point: selector("localhost:app:users:**<User>"),
            by_particle: point("localhost:app"),
        })
        .unwrap();
    let wider = registry.access(&scott, &mechtron).unwrap().permissions();
    assert_eq!(wider.to_string(), "Csd-RwX");
    assert!(before.read <= wider.read && before.execute <= wider.execute);
    registry
        .grant(&AccessGrant {
            kind: mask("&CSD-Rwx"),
            on_point: selector("localhost+:**"),
            to_point: selector("localhost:app:users:**<User>"),
            by_particle: point("localhost:app"),
        })
        .unwrap();
    let narrower = registry.access(&scott, &mechtron).unwrap().permissions();
    assert_eq!(narrower.to_string(), "Csd-Rwx");
    let owner = registry.access(&point("localhost:app"), &mechtron).unwrap();
    assert_eq!(owner, Access::Owner);
}

#[test]
fn access_of_an_unknown_principal_is_not_found() {
    let registry = fixture();
    assert_eq!(
        registry.access(&point("localhost:nobody"), &point("localhost:app")),
        Err(RegistryError::NotFound)
    );
    assert_eq!(
        registry.access(&point("localhost:app"), &point("localhost:nothing")),
        Err(RegistryError::NotFound)
    );
}

#[test]
fn grant_needs_a_registered_grantor() {
    let mut registry = fixture();
    let grant = AccessGrant {
        kind: AccessGrantKind::Super,
        on_point: selector("**"),
        to_point: selector("**"),
        by_particle: point("localhost:ghost"),
    };
    assert_eq!(registry.grant(&grant), Err(RegistryError::NotFound));
    assert_eq!(registry.grants().len(), 5);
}

#[test]
fn grants_are_numbered_in_order() {
    let registry = fixture();
    let ids: Vec<i32> = registry.grants().iter().map(|g| g.id).collect();
    assert_eq!(ids, vec![1, 2, 3, 4, 5]);
}

#[test]
fn list_access_lists_by_query_root_and_principal() {
    let registry = chowned();
    let all = registry.list_access(None, &selector("**")).unwrap();
    let ids: Vec<i32> = all.iter().map(|g| g.id).collect();
    assert_eq!(ids, vec![2, 3, 4, 5]);
    let everything = Selector::new(vec![hop("**").inclusive()]);
    let with_root = registry.list_access(None, &everything).unwrap();
    let ids: Vec<i32> = with_root.iter().map(|g| g.id).collect();
    assert_eq!(ids, vec![1, 2, 3, 4, 5]);
    let scott = point("localhost:app:users:scott");
    let to_scott = registry.list_access(Some(&scott), &everything).unwrap();
    let ids: Vec<i32> = to_scott.iter().map(|g| g.id).collect();
    assert_eq!(ids, vec![2, 3, 4]);
    assert_eq!(
        registry.list_access(Some(&point("localhost:ghost")), &everything).unwrap_err(),
        RegistryError::NotFound
    );
}

#[test]
fn remove_access_needs_full_access_on_the_grantor() {
    let mut registry = chowned();
    let scott = point("localhost:app:users:scott");
    assert_eq!(registry.remove_access(2, &scott), Err(RegistryError::Unauthorized));
    assert_eq!(registry.remove_access(99, &scott), Err(RegistryError::NotFound));
    assert_eq!(registry.grants().len(), 5);
    assert_eq!(registry.remove_access(2, &point("localhost:users:superuser")), Ok(()));
    let ids: Vec<i32> = registry.grants().iter().map(|g| g.id).collect();
    assert_eq!(ids, vec![1, 3, 4, 5]);
    let access = registry.access(&scott, &point("localhost:app")).unwrap();
    assert_eq!(access.permissions().to_string(), "csd-rwx");
}

#[test]
fn register_commit_fails_on_a_duplicate() {
    let mut registry = Registry::new();
    let owner = point("hyperspace:users:hyperuser");
    let first = registration("localhost", Kind::of(BaseKind::Space), &owner);
    assert_eq!(registry.register(&first), Ok(()));
    assert_eq!(registry.register(&first), Err(RegistryError::Dupe));
    assert_eq!(registry.len(), 1);
}

#[test]
fn register_ensure_and_override_are_idempotent() {
    let mut registry = Registry::new();
    let owner = point("hyperspace:users:hyperuser");
    let mut again = registration("localhost", Kind::of(BaseKind::Space), &owner);
    assert_eq!(registry.register(&again), Ok(()));
    again.strategy = Strategy::Ensure;
    again.kind = Kind::of(BaseKind::App);
    assert_eq!(registry.register(&again), Ok(()));
    again.strategy = Strategy::Override;
    assert_eq!(registry.register(&again), Ok(()));
    assert_eq!(registry.len(), 1);
    assert_eq!(registry.record(&point("localhost")).unwrap().details.stub.kind.base, BaseKind::Space);
}

#[test]
fn register_needs_the_parent() {
    let mut registry = Registry::new();
    let owner = point("hyperspace:users:hyperuser");
    let orphan = registration("localhost:app", Kind::of(BaseKind::App), &owner);
    assert_eq!(registry.register(&orphan), Err(RegistryError::NotFound));
    assert_eq!(registry.len(), 0);
}

#[test]
fn a_new_particle_is_pending_and_nowhere() {
    let mut registry = Registry::new();
    let owner = point("hyperspace:users:hyperuser");
    let mut first = registration("localhost", Kind::of(BaseKind::Space), &owner);
    first.status = Status::Ready;
    first.properties = vec![PropertyMod::SetValue {
        key: "email".to_string(),
        value: "a@b".to_string(),
        lock: true,
    }];
    registry.register(&first).unwrap();
    let record = registry.record(&point("localhost")).unwrap();
    assert_eq!(record.details.stub.status, Status::Pending);
    assert_eq!(record.location.star, None);
    assert_eq!(record.location.host, None);
    assert_eq!(record.details.properties.len(), 1);
    assert!(record.details.properties[0].locked);
}

#[test]
fn the_root_has_a_record_of_its_own() {
    let registry = Registry::new();
    let record = registry.record(&Point::root()).unwrap();
    assert_eq!(record.details.stub.kind.base, BaseKind::Root);
    assert_eq!(record.details.stub.status, Status::Ready);
    assert_eq!(record.location.star.unwrap().to_string(), "star:0");
    assert_eq!(registry.record(&point("nowhere")).unwrap_err(), RegistryError::NotFound);
}

#[test]
fn assign_star_is_idempotent() {
    let mut registry = fixture();
    let app = point("localhost:app");
    let star = point("star:3");
    assert_eq!(registry.assign_star(&app, &star), Ok(()));
    assert_eq!(registry.assign_star(&app, &star), Ok(()));
    assert_eq!(registry.record(&app).unwrap().location.star, Some(star.clone()));
    assert_eq!(registry.assign_host(&app, &point("star:3:host")), Ok(()));
    let record = registry.record(&app).unwrap();
    assert_eq!(record.location.star, Some(star));
    assert_eq!(record.location.host, Some(point("star:3:host")));
    assert_eq!(registry.assign_star(&point("ghost"), &point("star:3")), Err(RegistryError::NotFound));
}

#[test]
fn status_moves_forward_and_between_ready_and_panic() {
    let mut registry = fixture();
    let app = point("localhost:app");
    assert_eq!(registry.set_status(&app, Status::Init), Ok(()));
    assert_eq!(registry.set_status(&app, Status::Ready), Ok(()));
    assert_eq!(registry.set_status(&app, Status::Panic), Ok(()));
    assert_eq!(registry.set_status(&app, Status::Ready), Ok(()));
    assert_eq!(registry.set_status(&app, Status::Pending), Err(RegistryError::StatusRegression));
    assert_eq!(registry.record(&app).unwrap().details.stub.status, Status::Ready);
    assert_eq!(registry.set_status(&app, Status::Fatal), Ok(()));
    assert_eq!(registry.set_status(&app, Status::Ready), Err(RegistryError::StatusRegression));
    assert_eq!(registry.set_status(&point("ghost"), Status::Ready), Err(RegistryError::NotFound));
}

#[test]
fn locked_properties_stay() {
    let mut registry = fixture();
    let app = point("localhost:app");
    let set = |key: &str, value: &str, lock: bool| PropertyMod::SetValue {
        key: key.to_string(),
        value: value.to_string(),
        lock,
    };
    registry
        .set_properties(&app, &vec![set("name", "one", false), set("secret", "s", true)])
        .unwrap();
    registry
        .set_properties(
            &app,
            &vec![
                set("name", "two", true),
                set("secret", "t", false),
                PropertyMod::UnSet("secret".to_string()),
                PropertyMod::UnSet("absent".to_string()),
            ],
        )
        .unwrap();
    let properties = registry.get_properties(&app).unwrap();
    assert_eq!(properties.len(), 2);
    assert_eq!((properties[0].key.as_str(), properties[0].value.as_str()), ("name", "two"));
    assert!(!properties[0].locked);
    assert_eq!((properties[1].key.as_str(), properties[1].value.as_str()), ("secret", "s"));
    assert!(properties[1].locked);
    registry.set_properties(&app, &vec![PropertyMod::UnSet("name".to_string())]).unwrap();
    assert_eq!(registry.get_properties(&app).unwrap().len(), 1);
}

#[test]
fn sequence_counts_up() {
    let mut registry = fixture();
    let app = point("localhost:app");
    assert_eq!(registry.sequence(&app), Ok(1));
    assert_eq!(registry.sequence(&app), Ok(2));
    assert_eq!(registry.sequence(&point("localhost")), Ok(1));
    assert_eq!(registry.sequence(&point("ghost")), Err(RegistryError::NotFound));
}

#[test]
fn query_walks_from_the_root() {
    let registry = fixture();
    let hierarchy = registry.query(&point("localhost:app:users:scott")).unwrap();
    let kinds: Vec<BaseKind> = hierarchy.segments.iter().map(|s| s.kind.base).collect();
    assert_eq!(kinds, vec![BaseKind::Space, BaseKind::App, BaseKind::UserBase, BaseKind::User]);
    let names: Vec<&str> = hierarchy.segments.iter().map(|s| s.segment.as_str()).collect();
    assert_eq!(names, vec!["localhost", "app", "users", "scott"]);
    assert_eq!(registry.query(&point("localhost:ghost:x")).unwrap_err(), RegistryError::NotFound);
    assert!(registry.query(&Point::root()).unwrap().is_root());
}

#[test]
fn select_everything_below_the_root() {
    let mut registry = Registry::new();
    let owner = point("hyperspace:users:hyperuser");
    registry.register(&registration("localhost", Kind::of(BaseKind::Space), &owner)).unwrap();
    registry
        .register(&registration("localhost:mechtron", Kind::of(BaseKind::Mechtron), &owner))
        .unwrap();
    let found = registry.select(&selector("**")).unwrap();
    assert_eq!(found.len(), 2);
    assert_eq!(points_of(&found), vec!["localhost", "localhost:mechtron"]);
}

#[test]
fn select_returns_exactly_the_matches() {
    let registry = fixture();
    assert_eq!(
        points_of(&registry.select(&selector("localhost:app+:**")).unwrap()),
        vec![
            "localhost:app",
            "localhost:app:mechtron",
            "localhost:app:users",
            "localhost:app:users:scott"
        ]
    );
    assert_eq!(
        points_of(&registry.select(&selector("localhost:app:**<User>")).unwrap()),
        vec!["localhost:app:users:scott"]
    );
    assert_eq!(
        points_of(&registry.select(&selector("localhost:app")).unwrap()),
        vec!["localhost:app"]
    );
    assert_eq!(
        points_of(&registry.select(&selector("localhost:*")).unwrap()),
        vec!["localhost:app", "localhost:users"]
    );
    assert_eq!(
        points_of(&registry.select(&selector("*:users:*")).unwrap()),
        vec!["hyperspace:users:hyperuser", "localhost:users:superuser"]
    );
    assert_eq!(
        points_of(&registry.select(&selector("**:users")).unwrap()),
        vec!["hyperspace:users", "localhost:app:users", "localhost:users"]
    );
    assert_eq!(points_of(&registry.select(&selector("localhost:app<Space>")).unwrap()).len(), 0);
    assert_eq!(registry.select(&selector("ghost:app:**")).unwrap_err(), RegistryError::NotFound);
    let every = registry.select(&Selector::new(vec![hop("**").inclusive()])).unwrap();
    assert_eq!(every.len(), 11);
    assert!(every.iter().any(|s| s.point.is_root()));
    let stored = registry.len();
    for stub in registry.select(&selector("**")).unwrap() {
        let hierarchy = registry.query(&stub.point).unwrap();
        assert!(selector("**").matches(&hierarchy));
    }
    assert_eq!(registry.select(&selector("**")).unwrap().len(), stored - 1);
}

#[test]
fn selectors_match_hierarchies() {
    let registry = fixture();
    let scott = registry.query(&point("localhost:app:users:scott")).unwrap();
    let localhost = registry.query(&point("localhost")).unwrap();
    assert!(selector("localhost:app:users:**<User>").matches(&scott));
    assert!(selector("localhost+:**").matches(&scott));
    assert!(selector("localhost+:**").matches(&localhost));
    assert!(!selector("localhost:**").matches(&localhost));
    assert!(!selector("localhost:app:**<Mechtron>").matches(&scott));
    assert!(!selector("localhost:app:users").matches(&scott));
    assert!(selector("**:scott").matches(&scott));
    assert!(!selector("*").matches(&scott));
    assert!(Selector::new(vec![]).matches_root());
    assert!(!selector("**").matches_root());
    assert!(Selector::new(vec![hop("**").inclusive()]).matches_root());
    assert_eq!(selector("localhost:app:**").query_root().to_string(), "localhost:app");
    assert_eq!(selector("localhost:app+:**").query_root().to_string(), "localhost");
    assert_eq!(selector("localhost:app").query_root().to_string(), "localhost");
    assert_eq!(selector("**").query_root().to_string(), "ROOT");
}

#[test]
fn delete_removes_the_matches_and_what_is_below_them() {
    let mut registry = fixture();
    let gone = registry.delete(&selector("localhost:users")).unwrap();
    assert_eq!(points_of(&gone), vec!["localhost:users"]);
    assert!(!registry.contains(&point("localhost:users")));
    assert!(!registry.contains(&point("localhost:users:superuser")));
    assert!(registry.contains(&point("localhost:app")));
    assert_eq!(registry.len(), 9);
}

#[test]
fn delete_spares_the_grantors() {
    let mut registry = fixture();
    assert_eq!(registry.delete(&selector("localhost:app")).unwrap_err(), RegistryError::InUse);
    assert_eq!(registry.len(), 11);
    assert_eq!(registry.delete(&selector("ghost:x")).unwrap_err(), RegistryError::NotFound);
}

#[test]
fn nuke_forgets_everything() {
    let mut registry = fixture();
    registry.nuke();
    assert_eq!(registry.len(), 0);
    assert_eq!(registry.grants().len(), 0);
}
