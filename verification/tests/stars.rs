use starlane::constellation::{
    FrameHold, Id, ManagerKind, ServerKindExt, ServerManagerBackingDefault, ServerStarVariant,
    ServerVariantBackingDefault, StarInfo, StarKind, StarManagerFactoryDefault, StarNotify,
    StarSkel, StoreKindExt,
};
use starlane::frame::Frame;
use starlane::paths::PathTable;
use starlane::search::{
    nearest, one_hop_further, Lanes, SearchHit, SearchSelf, SearchStep, StarSearch,
    StarSearchPattern, StarSearchTransaction, TransactionResult, MAX_SEARCH_HOPS,
};
use starlane::star::{StarCon, StarKey, StarStub, StarSub, StarTemplate};

fn key(subgraph: &[u16], index: u16) -> StarKey {
    StarKey::new_with_subgraph(subgraph.to_vec(), index)
}

fn hit(index: u16, hops: usize) -> SearchHit {
    SearchHit { star: StarKey::new(index), hops }
}

#[test]
fn star_keys() {
    assert_eq!(StarKey::central(), StarKey::new(0));
    assert_eq!(StarKey::new(5).with_index(7), StarKey::new(7));
    assert_eq!(key(&[1, 2], 3).with_index(9), key(&[1, 2], 9));
    assert_eq!(key(&[1, 2], 3).to_point().to_string(), "star:1:2:3");
    assert_eq!(StarKey::central().to_point().to_string(), "star:0");
    assert_eq!(key(&[65535], 10).to_point().to_string(), "star:65535:10");
}

#[test]
fn star_keys_are_ordered() {
    assert!(StarKey::new(1).precedes(&StarKey::new(2)));
    assert!(!StarKey::new(2).precedes(&StarKey::new(2)));
    assert!(StarKey::new(9).precedes(&key(&[0], 0)));
    assert!(key(&[1, 5], 9).precedes(&key(&[2, 0], 0)));
    assert!(key(&[1, 5], 9).precedes(&key(&[1, 6], 0)));
    assert!(!key(&[1, 6], 0).precedes(&key(&[1, 5], 9)));
    assert!(key(&[1, 5], 1).precedes(&key(&[1, 5], 2)));
    let (high, low) = StarKey::sort(StarKey::new(1), key(&[3], 0)).unwrap();
    assert_eq!((high, low), (key(&[3], 0), StarKey::new(1)));
    let (high, low) = StarKey::sort(StarKey::new(4), StarKey::new(2)).unwrap();
    assert_eq!((high, low), (StarKey::new(4), StarKey::new(2)));
    assert!(StarKey::sort(key(&[1], 1), key(&[1], 1)).is_err());
    assert_eq!(
        StarKey::sort(key(&[1, 20], 3), key(&[1, 20], 3)).unwrap_err().message,
        "both StarKeys are equal. ([1, 20],3)==([1, 20],3)"
    );
    assert_eq!(StarKey::new(7).to_string(), "([],7)");
    assert_eq!(key(&[5], 0).to_string(), "([5],0)");
}

#[test]
fn star_templates_and_connections() {
    let mut template = StarTemplate::new(StarKey::new(1), StarSub::Nexus);
    assert!(template.connections.is_empty());
    template.receive(StarStub::new(StarKey::new(2), StarSub::Jump));
    template.connect(StarStub::new(StarKey::new(3), StarSub::Machine));
    assert_eq!(template.to_stub(), StarStub::new(StarKey::new(1), StarSub::Nexus));
    let receiver = &template.connections[0];
    let connector = &template.connections[1];
    assert!(receiver.is_receiver() && !receiver.is_connector());
    assert!(connector.is_connector() && !connector.is_receiver());
    assert_eq!(receiver.key(), &StarKey::new(2));
    assert_eq!(connector.kind(), &StarSub::Machine);
    assert_eq!(connector.stub(), &StarStub::new(StarKey::new(3), StarSub::Machine));
    assert_eq!(*connector, StarCon::Connector(StarStub::new(StarKey::new(3), StarSub::Machine)));
    assert!(StarSub::Nexus.is_forwarder() && StarSub::Jump.is_forwarder());
    assert!(!StarSub::Central.is_forwarder() && !StarSub::Machine.is_forwarder());
}

#[test]
fn star_kinds() {
    let server = StarKind::Server(ServerKindExt::new("web".to_string()));
    let store = StarKind::Store(StoreKindExt::new("db".to_string()));
    assert!(StarKind::Central.is_central() && !StarKind::Mesh.is_central());
    assert!(StarKind::Supervisor.is_supervisor() && !server.is_supervisor());
    assert!(StarKind::Client.is_client() && !StarKind::Link.is_client());
    assert!(StarKind::Central.central_result().is_ok());
    assert_eq!(StarKind::Mesh.central_result().unwrap_err().message, "not central");
    assert!(StarKind::Supervisor.supervisor_result().is_ok());
    assert_eq!(server.supervisor_result().unwrap_err().message, "not supervisor");
    assert!(server.server_result().is_ok());
    assert_eq!(store.server_result().unwrap_err().message, "not server");
    assert!(StarKind::Client.client_result().is_ok());
    assert_eq!(StarKind::Gateway.client_result().unwrap_err().message, "not client");
    let relays: Vec<bool> = [
        StarKind::Central,
        StarKind::Mesh,
        StarKind::Supervisor,
        server.clone(),
        store.clone(),
        StarKind::Gateway,
        StarKind::Link,
        StarKind::Client,
    ]
    .iter()
    .map(|k| k.relay())
    .collect();
    assert_eq!(relays, vec![false, true, false, true, false, true, true, true]);
    assert_eq!(server.to_string(), "Server(web)");
    assert_eq!(store.to_string(), "Store(db)");
    assert_eq!(StarKind::Gateway.to_string(), "Gateway");
}

#[test]
fn managers_and_variants() {
    let factory = StarManagerFactoryDefault {};
    assert_eq!(factory.manager_for(&StarKind::Central), ManagerKind::Central);
    assert_eq!(
        factory.manager_for(&StarKind::Server(ServerKindExt::new("x".to_string()))),
        ManagerKind::Server
    );
    assert_eq!(factory.manager_for(&StarKind::Mesh), ManagerKind::Placeholder);
    let mut backing = ServerManagerBackingDefault::new();
    assert_eq!(backing.get_supervisor(), None);
    backing.set_supervisor(StarKey::new(4));
    assert_eq!(backing.get_supervisor(), Some(&StarKey::new(4)));
    assert_eq!(ServerVariantBackingDefault::new().supervisor, None);
    let skel = StarSkel { info: StarInfo { star_key: StarKey::new(1), kind: StarKind::Mesh } };
    let mut variant = ServerStarVariant::new(skel);
    assert_eq!(variant.get_supervisor(), None);
    variant.set_supervisor(StarKey::new(9));
    assert_eq!(variant.get_supervisor(), Some(&StarKey::new(9)));
    let notify = StarNotify::new(StarKey::new(2), Id { sequence: 1, index: 7 });
    assert_eq!(notify.transaction.index, 7);
}

#[test]
fn frames_wait_for_their_star() {
    let mut hold = FrameHold::new();
    let two = StarKey::new(2);
    let three = StarKey::new(3);
    assert!(!hold.has_hold(&two));
    hold.add(&two, Frame::new(vec![1]));
    hold.add(&three, Frame::new(vec![2]));
    hold.add(&two, Frame::new(vec![3]));
    assert!(hold.has_hold(&two) && hold.has_hold(&three));
    let released = hold.release(&two).unwrap();
    assert_eq!(released, vec![Frame::new(vec![1]), Frame::new(vec![3])]);
    assert!(!hold.has_hold(&two));
    assert!(hold.release(&two).is_none());
    assert_eq!(hold.release(&three).unwrap(), vec![Frame::new(vec![2])]);
}

#[test]
fn path_table_keeps_the_most_recent() {
    let mut table = PathTable::new(2);
    assert_eq!(table.capacity(), 2);
    assert_eq!(table.get(1), None);
    table.put(1, 10);
    table.put(2, 20);
    assert_eq!(table.get(1), Some(10));
    table.put(3, 30);
    assert_eq!(table.get(2), None);
    assert_eq!(table.get(1), Some(10));
    assert_eq!(table.get(3), Some(30));
    table.put(3, 31);
    assert_eq!(table.get(3), Some(31));
    assert_eq!(table.get(1), Some(10));
    let mut none = PathTable::new(0);
    none.put(1, 1);
    assert_eq!(none.get(1), None);
    let mut wide = PathTable::new(3);
    wide.put_all(&vec![(7, 1), (8, 2), (9, 3)]);
    assert_eq!((wide.get(7), wide.get(8), wide.get(9)), (Some(1), Some(2), Some(3)));
}

#[test]
fn nearest_hit_has_the_least_hops() {
    assert_eq!(nearest(&vec![]), None);
    assert_eq!(nearest(&vec![hit(1, 3), hit(2, 1), hit(3, 1), hit(4, 2)]), Some(hit(2, 1)));
    let further = one_hop_further(&vec![hit(1, 3), hit(2, usize::MAX)]);
    assert_eq!(further, vec![hit(1, 4), hit(2, usize::MAX)]);
}

fn search(pattern: StarSearchPattern, hops: &[u16], max_hops: usize) -> StarSearch {
    StarSearch {
        from: StarKey::new(100),
        pattern,
        hops: hops.iter().map(|h| StarKey::new(*h)).collect(),
        transactions: vec![11],
        max_hops,
    }
}

#[test]
fn search_hop() {
    assert_eq!(MAX_SEARCH_HOPS, 16);
    let me = SearchSelf { key: StarKey::new(5), kind: StarSub::Nexus, lanes: 3 };
    match me.on_star_search_hop(search(StarSearchPattern::StarKey(StarKey::new(5)), &[100, 4], 16), 77) {
        SearchStep::Reply(result) => {
            assert_eq!(result.hits, vec![hit(5, 2)]);
            assert_eq!(result.hops, vec![StarKey::new(100), StarKey::new(4)]);
            assert_eq!(result.transactions, vec![11]);
        }
        other => panic!("{:?}", other),
    }
    match me.on_star_search_hop(search(StarSearchPattern::StarKey(StarKey::new(6)), &[100], 16), 77) {
        SearchStep::Rebroadcast { search, waiting_for, local_hit } => {
            assert_eq!(search.hops, vec![StarKey::new(100), StarKey::new(5)]);
            assert_eq!(search.transactions, vec![11, 77]);
            assert_eq!(waiting_for, 2);
            assert!(!local_hit);
        }
        other => panic!("{:?}", other),
    }
    match me.on_star_search_hop(search(StarSearchPattern::StarKind(StarSub::Nexus), &[100], 16), 77) {
        SearchStep::Rebroadcast { local_hit, .. } => assert!(local_hit),
        other => panic!("{:?}", other),
    }
    assert_eq!(
        me.on_star_search_hop(search(StarSearchPattern::StarKey(StarKey::new(6)), &[100], 17), 77),
        SearchStep::Refuse
    );
    match me.on_star_search_hop(search(StarSearchPattern::StarKey(StarKey::new(6)), &[100, 1], 2), 77) {
        SearchStep::Reply(result) => assert!(result.hits.is_empty()),
        other => panic!("{:?}", other),
    }
    let leaf = SearchSelf { key: StarKey::new(5), kind: StarSub::Nexus, lanes: 1 };
    match leaf.on_star_search_hop(search(StarSearchPattern::StarKind(StarSub::Nexus), &[100], 16), 77) {
        SearchStep::Reply(result) => assert_eq!(result.hits, vec![hit(5, 1)]),
        other => panic!("{:?}", other),
    }
    let machine = SearchSelf { key: StarKey::new(5), kind: StarSub::Machine, lanes: 4 };
    match machine.on_star_search_hop(search(StarSearchPattern::StarKind(StarSub::Nexus), &[100], 16), 77) {
        SearchStep::Reply(result) => assert!(result.hits.is_empty()),
        other => panic!("{:?}", other),
    }
}

#[test]
fn search_results_collapse_to_the_least_hops() {
    let mut transaction = StarSearchTransaction::new(
        StarSearchPattern::StarKind(StarSub::Jump),
        2,
        Some(StarKey::new(1)),
    );
    assert_eq!(
        transaction.on_result(&StarKey::new(2), &vec![hit(7, 3), hit(8, 2), hit(7, 1)]),
        TransactionResult::Continue
    );
    assert_eq!(
        transaction.on_result(&StarKey::new(3), &vec![hit(8, 1), hit(9, 5)]),
        TransactionResult::Done
    );
    assert_eq!(transaction.hits[0].hits, vec![hit(7, 1), hit(8, 2)]);
    let result = transaction.commit();
    assert_eq!(result.hits, vec![hit(7, 1), hit(8, 1), hit(9, 5), hit(1, 0)]);
    assert_eq!(result.nearest(), Some(hit(1, 0)));
    assert_eq!(result.lane_hits.len(), 2);
}

#[test]
fn sends_choose_the_lane_with_the_cached_shortest_path() {
    let mut lanes = Lanes::new();
    lanes.add_lane(StarKey::new(2), 16);
    lanes.add_lane(StarKey::new(3), 16);
    lanes.add_lane(StarKey::new(4), 16);
    let target = StarKey::new(9);
    assert_eq!(lanes.lane_with_shortest_path_to_star(&target), None);
    assert_eq!(lanes.get_hops_to_star(&target), None);
    let mut transaction =
        StarSearchTransaction::new(StarSearchPattern::StarKey(target.clone()), 3, None);
    transaction.on_result(&StarKey::new(2), &vec![hit(9, 4)]);
    transaction.on_result(&StarKey::new(3), &vec![hit(9, 2), hit(8, 1)]);
    transaction.on_result(&StarKey::new(4), &vec![]);
    let result = transaction.commit();
    let found = result.hops_to(&target).unwrap();
    assert_eq!(found, 2);
    lanes.commit(&result);
    let lane = lanes.lane_with_shortest_path_to_star(&target).unwrap();
    assert_eq!(lanes.lane_to(&StarKey::new(3)), Some(lane));
    assert_eq!(lanes.get_hops_to_star(&target), Some(found));
    assert_eq!(lanes.get_hops_to_star(&StarKey::new(8)), Some(1));
    assert_eq!(lanes.get_hops_to_star(&StarKey::new(7)), None);
    lanes.note_hits(0, &vec![hit(9, 1)]);
    assert_eq!(lanes.lane_with_shortest_path_to_star(&target), Some(0));
}

#[test]
fn discoveries_are_sorted_by_hops() {
    let own = StarKey::new(3);
    let found = starlane::search::collate(
        &own,
        &vec![hit(9, 4), hit(2, 1), hit(3, 0), hit(7, 4), hit(5, 2), hit(1, 1)],
    );
    let order: Vec<(u16, usize)> = found.iter().map(|d| (d.hit.star.index, d.hit.hops)).collect();
    assert_eq!(order, vec![(2, 1), (1, 1), (5, 2), (9, 4), (7, 4)]);
    assert_eq!(found[0].pair, (StarKey::new(3), StarKey::new(2)));
    assert_eq!(found[2].pair, (StarKey::new(5), StarKey::new(3)));
    assert!(starlane::search::collate(&own, &vec![hit(3, 0)]).is_empty());
}
