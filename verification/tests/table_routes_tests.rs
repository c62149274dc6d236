use table_routes::error::Error;
use table_routes::keys::{encode_global_key, TableGlobalKey, TableName, TableReference, TableRouteKey};
use table_routes::kv::KvStore;
use table_routes::table_routes::{
    fetch_table, fetch_tables, get_table_global_value, get_table_route_value,
    put_table_route_value, table_route_key, Context, TableMetadataManager,
};
use table_routes::values::{
    check_route_value, encode_global_value, region_distribution, Peer, Region, RegionRoute,
    TableGlobalValue, TableInfoValue, TableRouteValue,
};

fn bv(s: &str) -> Vec<u8> {
    s.as_bytes().to_vec()
}

fn new_region_route(region_number: u64, peers: &[Peer], leader_node: u64) -> RegionRoute {
    let region = Region {
        id: region_number,
        partition: None,
    };
    let leader_peer_index = peers
        .iter()
        .enumerate()
        .find_map(|(i, peer)| {
            if peer.id == leader_node {
                Some(i as u64)
            } else {
                None
            }
        })
        .unwrap();
    RegionRoute {
        region,
        leader_peer_index,
        follower_peer_indexes: vec![],
    }
}

// Region routes: region number => leader node: 1 => 1, 2 => 1, 3 => 2, 4 => 3.
fn prepare_table_route_value(kv_store: &mut KvStore, table: &str) -> (TableRouteKey, TableRouteValue) {
    let key = TableRouteKey {
        table_id: 1,
        catalog_name: bv("greptime"),
        schema_name: bv("public"),
        table_name: bv(table),
    };

    let peers = (1..=3)
        .map(|id| Peer {
            id,
            addr: bv(""),
        })
        .collect::<Vec<_>>();

    let region_routes = vec![
        new_region_route(1, &peers, 1),
        new_region_route(2, &peers, 1),
        new_region_route(3, &peers, 2),
        new_region_route(4, &peers, 3),
    ];
    let value = TableRouteValue {
        peers,
        region_routes,
    };
    put_table_route_value(kv_store, &key, value.clone()).unwrap();
    (key, value)
}

#[test]
fn test_put_and_get_table_route_value() {
    let mut kv_store = KvStore::new();

    let key = TableRouteKey {
        table_id: 1,
        catalog_name: bv("not_exist_catalog"),
        schema_name: bv("not_exist_schema"),
        table_name: bv("not_exist_table"),
    };
    assert!(matches!(
        get_table_route_value(&kv_store, &key).unwrap_err(),
        Error::TableRouteNotFound { .. }
    ));

    let (key, value) = prepare_table_route_value(&mut kv_store, "my_table");
    let actual = get_table_route_value(&kv_store, &key).unwrap();
    assert_eq!(actual, value);
}

#[test]
fn test_overwrite_is_idempotent() {
    let mut kv_store = KvStore::new();
    let (key, value) = prepare_table_route_value(&mut kv_store, "twice");
    let after_once = get_table_route_value(&kv_store, &key).unwrap();
    put_table_route_value(&mut kv_store, &key, value.clone()).unwrap();
    let after_twice = get_table_route_value(&kv_store, &key).unwrap();
    assert_eq!(after_once, after_twice);
    assert_eq!(after_twice, value);
}

#[test]
fn test_not_found_distinction() {
    let kv_store = KvStore::new();
    let global_key = TableGlobalKey {
        catalog_name: bv("c"),
        schema_name: bv("s"),
        table_name: bv("t"),
    };
    assert!(matches!(
        get_table_global_value(&kv_store, &global_key),
        Ok(None)
    ));
    let route_key = TableRouteKey {
        table_id: 1,
        catalog_name: bv("c"),
        schema_name: bv("s"),
        table_name: bv("t"),
    };
    assert!(matches!(
        get_table_route_value(&kv_store, &route_key).unwrap_err(),
        Error::TableRouteNotFound { .. }
    ));
}

#[test]
fn test_put_then_get_concrete_table() {
    let mut kv_store = KvStore::new();
    let key = TableRouteKey {
        table_id: 7,
        catalog_name: bv("c"),
        schema_name: bv("s"),
        table_name: bv("t"),
    };
    let peers = vec![
        Peer { id: 1, addr: bv("n1") },
        Peer { id: 2, addr: bv("n2") },
        Peer { id: 3, addr: bv("n3") },
    ];
    let value = TableRouteValue {
        peers,
        region_routes: vec![RegionRoute {
            region: Region { id: 1, partition: None },
            leader_peer_index: 0,
            follower_peer_indexes: vec![],
        }],
    };
    put_table_route_value(&mut kv_store, &key, value.clone()).unwrap();
    assert_eq!(get_table_route_value(&kv_store, &key).unwrap(), value);

    let unwritten = TableRouteKey {
        table_id: 8,
        catalog_name: bv("c"),
        schema_name: bv("s"),
        table_name: bv("t"),
    };
    assert!(matches!(
        get_table_route_value(&kv_store, &unwritten).unwrap_err(),
        Error::TableRouteNotFound { .. }
    ));
}

fn register_table(ctx: &mut Context, table: &str, table_id: u32, with_route: bool) {
    ctx.table_metadata_manager
        .put_table_info(TableInfoValue {
            table_id,
            catalog_name: bv("greptime"),
            schema_name: bv("public"),
            table_name: bv(table),
        })
        .unwrap();
    if with_route {
        let key = TableRouteKey {
            table_id,
            catalog_name: bv("greptime"),
            schema_name: bv("public"),
            table_name: bv(table),
        };
        let peers = vec![Peer { id: 1, addr: bv("n1") }];
        let value = TableRouteValue {
            peers,
            region_routes: vec![RegionRoute {
                region: Region { id: 1, partition: None },
                leader_peer_index: 0,
                follower_peer_indexes: vec![],
            }],
        };
        put_table_route_value(&mut ctx.kv_store, &key, value).unwrap();
    }
}

fn name(table: &str) -> TableName {
    TableName::new(bv("greptime"), bv("public"), bv(table))
}

#[test]
fn test_fetch_tables_skips_name_without_info() {
    let mut ctx = Context {
        kv_store: KvStore::new(),
        table_metadata_manager: TableMetadataManager::new(),
    };
    register_table(&mut ctx, "a", 1, true);
    register_table(&mut ctx, "c", 3, true);
    // "b" has no table info at all.
    let result = fetch_tables(&ctx, vec![name("a"), name("b"), name("c")]).unwrap();
    assert_eq!(2, result.len());
    assert_eq!(bv("a"), result[0].0.table_name);
    assert_eq!(1, result[0].0.table_id);
    assert_eq!(bv("c"), result[1].0.table_name);
    assert_eq!(3, result[1].0.table_id);
}

#[test]
fn test_fetch_tables_aborts_on_missing_route() {
    let mut ctx = Context {
        kv_store: KvStore::new(),
        table_metadata_manager: TableMetadataManager::new(),
    };
    register_table(&mut ctx, "a", 1, true);
    register_table(&mut ctx, "b", 2, false);
    // Both resolve through the manager, but "b" has no route: the whole
    // batch fails, returning no results, not even "a"'s.
    let err = fetch_tables(&ctx, vec![name("a"), name("b")]).unwrap_err();
    assert!(matches!(err, Error::TableRouteNotFound { .. }));
}

#[test]
fn test_fetch_table_composition() {
    let mut kv_store = KvStore::new();
    let table_ref = TableReference {
        catalog: bv("greptime"),
        schema: bv("public"),
        table: bv("demo"),
    };

    // No catalog record: the table does not exist, which is Ok(None).
    assert!(matches!(fetch_table(&kv_store, &table_ref), Ok(None)));

    // Write the catalog record; its route is still missing, which is an
    // invariant violation, not "does not exist".
    let global_key = TableGlobalKey {
        catalog_name: bv("greptime"),
        schema_name: bv("public"),
        table_name: bv("demo"),
    };
    let global_value = TableGlobalValue {
        table_id: 42,
        table_meta: bv("engine=mito"),
    };
    let gk = encode_global_key(&global_key).unwrap();
    kv_store.put(gk, encode_global_value(&global_value), false);
    assert!(matches!(
        fetch_table(&kv_store, &table_ref).unwrap_err(),
        Error::TableRouteNotFound { .. }
    ));

    // Write the route under the key derived from the resolved table id.
    let route_key = table_route_key(42, &global_key);
    let value = TableRouteValue {
        peers: vec![Peer { id: 9, addr: bv("node9") }],
        region_routes: vec![RegionRoute {
            region: Region { id: 1, partition: None },
            leader_peer_index: 0,
            follower_peer_indexes: vec![],
        }],
    };
    put_table_route_value(&mut kv_store, &route_key, value.clone()).unwrap();
    let (got_global, got_route) = fetch_table(&kv_store, &table_ref).unwrap().unwrap();
    assert_eq!(global_value, got_global);
    assert_eq!(value, got_route);
}

#[test]
fn test_corrupt_values_surface_decode_errors() {
    let mut kv_store = KvStore::new();
    let global_key = TableGlobalKey {
        catalog_name: bv("c"),
        schema_name: bv("s"),
        table_name: bv("t"),
    };
    let gk = encode_global_key(&global_key).unwrap();
    // A catalog record needs at least four bytes of table id.
    kv_store.put(gk, vec![1, 2], false);
    assert!(matches!(
        get_table_global_value(&kv_store, &global_key).unwrap_err(),
        Error::InvalidCatalogValue { .. }
    ));

    let route_key = TableRouteKey {
        table_id: 5,
        catalog_name: bv("c"),
        schema_name: bv("s"),
        table_name: bv("t"),
    };
    let mut kv_store = KvStore::new();
    let peers = vec![Peer { id: 1, addr: bv("n1") }];
    let value = TableRouteValue {
        peers,
        region_routes: vec![],
    };
    put_table_route_value(&mut kv_store, &route_key, value).unwrap();
    // Overwrite the stored route with garbage bytes.
    let rk = table_routes::keys::encode_route_key(&route_key).unwrap();
    kv_store.put(rk, vec![7, 7, 7], false);
    assert!(matches!(
        get_table_route_value(&kv_store, &route_key).unwrap_err(),
        Error::DecodeTableRoute { .. }
    ));
}

#[test]
fn test_separator_in_name_is_rejected() {
    let kv_store = KvStore::new();
    let key = TableGlobalKey {
        catalog_name: bv("cat-alog"),
        schema_name: bv("s"),
        table_name: bv("t"),
    };
    assert!(matches!(
        get_table_global_value(&kv_store, &key).unwrap_err(),
        Error::MalformedKey { .. }
    ));
    assert!(matches!(
        encode_global_key(&key).unwrap_err(),
        Error::MalformedKey { .. }
    ));
}

#[test]
fn test_check_route_value_invariants() {
    let peers = vec![
        Peer { id: 1, addr: bv("n1") },
        Peer { id: 2, addr: bv("n2") },
    ];
    let good = TableRouteValue {
        peers: peers.clone(),
        region_routes: vec![RegionRoute {
            region: Region { id: 1, partition: None },
            leader_peer_index: 0,
            follower_peer_indexes: vec![1],
        }],
    };
    assert!(check_route_value(&good));

    // A leader index past the peer list.
    let mut bad = good.clone();
    bad.region_routes[0].leader_peer_index = 2;
    assert!(!check_route_value(&bad));

    // A follower repeating the leader.
    let mut bad = good.clone();
    bad.region_routes[0].follower_peer_indexes = vec![0];
    assert!(!check_route_value(&bad));

    // A repeated follower index.
    let mut bad = good.clone();
    bad.region_routes[0].follower_peer_indexes = vec![1, 1];
    assert!(!check_route_value(&bad));

    // Two peers with one identity.
    let mut bad = good.clone();
    bad.peers[1].id = 1;
    assert!(!check_route_value(&bad));

    // One region id in two routes.
    let mut bad = good.clone();
    bad.region_routes.push(RegionRoute {
        region: Region { id: 1, partition: None },
        leader_peer_index: 1,
        follower_peer_indexes: vec![],
    });
    assert!(!check_route_value(&bad));
}

#[test]
fn test_region_distribution_derived_view() {
    let peers = vec![
        Peer { id: 1, addr: bv("n1") },
        Peer { id: 2, addr: bv("n2") },
        Peer { id: 3, addr: bv("n3") },
    ];
    let region_routes = vec![
        new_region_route(1, &peers, 1),
        new_region_route(2, &peers, 1),
        new_region_route(3, &peers, 2),
        new_region_route(4, &peers, 3),
    ];
    let value = TableRouteValue { peers, region_routes };
    // Node => regions it leads: 1 => {1, 2}, 2 => {3}, 3 => {4}.
    let distribution = region_distribution(&value);
    assert_eq!(
        vec![(1, vec![1, 2]), (2, vec![3]), (3, vec![4])],
        distribution
    );
}
