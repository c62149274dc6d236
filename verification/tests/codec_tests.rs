use table_routes::keys::{
    decode_global_key, decode_route_key, encode_global_key, encode_route_key, TableGlobalKey,
    TableRouteKey,
};
use table_routes::error::Error;
use table_routes::values::{
    decode_global_value, decode_route_value, encode_global_value, encode_route_value, Peer,
    Region, RegionRoute, TableGlobalValue, TableRouteValue,
};

fn bv(s: &str) -> Vec<u8> {
    s.as_bytes().to_vec()
}

#[test]
fn test_global_key_exact_encoding_and_round_trip() {
    let key = TableGlobalKey {
        catalog_name: bv("greptime"),
        schema_name: bv("public"),
        table_name: bv("demo"),
    };
    let encoded = encode_global_key(&key).unwrap();
    assert_eq!(bv("__tg-greptime-public-demo"), encoded);
    let decoded = decode_global_key(&encoded).unwrap();
    assert_eq!(key, decoded);
}

#[test]
fn test_route_key_exact_encoding_and_round_trip() {
    let key = TableRouteKey {
        table_id: 258,
        catalog_name: bv("greptime"),
        schema_name: bv("public"),
        table_name: bv("demo"),
    };
    let encoded = encode_route_key(&key).unwrap();
    // The prefix, the id as four little-endian bytes, then the name fields.
    let mut expected = bv("__table_route-");
    expected.extend_from_slice(&[2, 1, 0, 0]);
    expected.extend_from_slice(b"-greptime-public-demo");
    assert_eq!(expected, encoded);
    let decoded = decode_route_key(&encoded).unwrap();
    assert_eq!(key, decoded);
}

#[test]
fn test_key_decode_rejects_malformed_bytes() {
    assert!(matches!(
        decode_global_key(&bv("garbage")).unwrap_err(),
        Error::MalformedKey { .. }
    ));
    // Right prefix, but only two name fields.
    assert!(matches!(
        decode_global_key(&bv("__tg-only-two")).unwrap_err(),
        Error::MalformedKey { .. }
    ));
    // Four fields are one too many.
    assert!(matches!(
        decode_global_key(&bv("__tg-a-b-c-d")).unwrap_err(),
        Error::MalformedKey { .. }
    ));
    assert!(matches!(
        decode_route_key(&bv("__tg-a-b-c")).unwrap_err(),
        Error::MalformedKey { .. }
    ));
}

#[test]
fn test_route_value_round_trip_preserves_order() {
    let peers = vec![
        Peer { id: 11, addr: bv("host-a:4001") },
        Peer { id: 12, addr: bv("host-b:4001") },
        Peer { id: 13, addr: bv("") },
    ];
    let region_routes = vec![
        RegionRoute {
            region: Region { id: 1, partition: Some(bv("range: [0, 100)")) },
            leader_peer_index: 2,
            follower_peer_indexes: vec![0, 1],
        },
        RegionRoute {
            region: Region { id: 2, partition: None },
            leader_peer_index: 0,
            follower_peer_indexes: vec![1, 0],
        },
    ];
    let value = TableRouteValue { peers, region_routes };
    let encoded = encode_route_value(&value);
    let decoded = decode_route_value(&encoded).unwrap();
    assert_eq!(value, decoded);
    // Order of peers, regions and per-region follower lists is preserved.
    assert_eq!(vec![0, 1], decoded.region_routes[0].follower_peer_indexes);
    assert_eq!(vec![1, 0], decoded.region_routes[1].follower_peer_indexes);
    assert_eq!(bv("host-b:4001"), decoded.peers[1].addr);
}

#[test]
fn test_route_value_decode_rejects_trailing_bytes() {
    let value = TableRouteValue {
        peers: vec![Peer { id: 1, addr: bv("n1") }],
        region_routes: vec![],
    };
    let mut encoded = encode_route_value(&value);
    encoded.push(0);
    assert!(matches!(
        decode_route_value(&encoded).unwrap_err(),
        Error::DecodeTableRoute { .. }
    ));
}

#[test]
fn test_global_value_round_trip() {
    let value = TableGlobalValue {
        table_id: 4096,
        table_meta: bv("columns: [a string], engine: mito"),
    };
    let encoded = encode_global_value(&value);
    let decoded = decode_global_value(&encoded).unwrap();
    assert_eq!(value, decoded);

    assert!(matches!(
        decode_global_value(&vec![1, 2, 3]).unwrap_err(),
        Error::InvalidCatalogValue { .. }
    ));
}

#[test]
fn test_region_leaders_map_back_to_nodes() {
    // Leader distribution: node 1 leads regions {1, 2}, node 2 leads {3},
    // node 3 leads {4}.
    let peers = vec![
        Peer { id: 1, addr: bv("n1") },
        Peer { id: 2, addr: bv("n2") },
        Peer { id: 3, addr: bv("n3") },
    ];
    let region_routes = vec![
        RegionRoute {
            region: Region { id: 1, partition: None },
            leader_peer_index: 0,
            follower_peer_indexes: vec![],
        },
        RegionRoute {
            region: Region { id: 2, partition: None },
            leader_peer_index: 0,
            follower_peer_indexes: vec![],
        },
        RegionRoute {
            region: Region { id: 3, partition: None },
            leader_peer_index: 1,
            follower_peer_indexes: vec![],
        },
        RegionRoute {
            region: Region { id: 4, partition: None },
            leader_peer_index: 2,
            follower_peer_indexes: vec![],
        },
    ];
    let value = TableRouteValue { peers, region_routes };
    let decoded = decode_route_value(&encode_route_value(&value)).unwrap();
    let expected_leaders = [1u64, 1, 2, 3];
    for (i, expected_node) in expected_leaders.iter().enumerate() {
        let leader_index = decoded.region_routes[i].leader_peer_index as usize;
        assert_eq!(*expected_node, decoded.peers[leader_index].id);
    }
}

#[test]
fn test_empty_names_round_trip() {
    let key = TableGlobalKey {
        catalog_name: Vec::new(),
        schema_name: Vec::new(),
        table_name: Vec::new(),
    };
    let encoded = encode_global_key(&key).unwrap();
    assert_eq!(bv("__tg---"), encoded);
    assert_eq!(key, decode_global_key(&encoded).unwrap());
}
