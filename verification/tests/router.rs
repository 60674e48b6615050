use std::collections::HashMap;

use common_meta::error::MetaError;
use common_meta::pb::{
    CreateRequest as PbCreateRequest, DeleteRequest as PbDeleteRequest, Partition as PbPartition,
    Peer as PbPeer, Region as PbRegion, RegionRoute as PbRegionRoute, ResponseHeader,
    RouteRequest as PbRouteRequest, RouteResponse as PbRouteResponse, ServerError,
    Table as PbTable, TableName as PbTableName, TableRoute as PbTableRoute,
};
use common_meta::peer::Peer;
use common_meta::rpc::router::{
    CreateRequest, DeleteRequest, Partition, Region, RegionRoute, RouteRequest, RouteResponse,
    Table, TableRoute,
};
use common_meta::table_name::TableName;
use serde_json::Value;

fn object(fields: Vec<(&str, Value)>) -> Value {
    let mut map = serde_json::Map::new();
    for (name, value) in fields {
        map.insert(name.to_string(), value);
    }
    Value::Object(map)
}

fn text(s: &str) -> Value {
    Value::String(s.to_string())
}

fn column(name: &str, is_nullable: bool) -> Value {
    object(vec![("name", text(name)), ("is_nullable", Value::Bool(is_nullable))])
}

fn new_table_info() -> Value {
    object(vec![
        ("ident", object(vec![("table_id", Value::from(0)), ("version", Value::from(0))])),
        ("name", text("t1")),
        ("desc", Value::Null),
        ("catalog_name", text("c1")),
        ("schema_name", text("s1")),
        (
            "meta",
            object(vec![
                (
                    "schema",
                    object(vec![
                        (
                            "column_schemas",
                            Value::Array(vec![
                                column("ts", false),
                                column("c1", true),
                                column("c2", true),
                            ]),
                        ),
                        ("timestamp_index", Value::from(0)),
                        ("version", Value::from(0)),
                    ]),
                ),
                ("primary_key_indices", Value::Array(vec![])),
                ("value_indices", Value::Array(vec![])),
                ("engine", text("mito")),
                ("next_column_id", Value::from(0)),
                ("region_numbers", Value::Array(vec![])),
                ("engine_options", object(vec![])),
            ]),
        ),
        ("table_type", text("Base")),
    ])
}

#[test]
fn test_create_request_trans() {
    let req = CreateRequest {
        table_name: TableName::new("c1", "s1", "t1"),
        partitions: vec![
            Partition {
                column_list: vec![b"c1".to_vec(), b"c2".to_vec()],
                value_list: vec![b"v1".to_vec(), b"v2".to_vec()],
            },
            Partition {
                column_list: vec![b"c1".to_vec(), b"c2".to_vec()],
                value_list: vec![b"v11".to_vec(), b"v22".to_vec()],
            },
        ],
        table_info: &new_table_info(),
    };
    let into_req: PbCreateRequest = req.try_into().unwrap();

    assert!(into_req.header.is_none());
    let table_name = into_req.table_name;
    assert_eq!("c1", table_name.as_ref().unwrap().catalog_name);
    assert_eq!("s1", table_name.as_ref().unwrap().schema_name);
    assert_eq!("t1", table_name.as_ref().unwrap().table_name);
    assert_eq!(
        vec![b"c1".to_vec(), b"c2".to_vec()],
        into_req.partitions.get(0).unwrap().column_list
    );
    assert_eq!(
        vec![b"v1".to_vec(), b"v2".to_vec()],
        into_req.partitions.get(0).unwrap().value_list
    );
    assert_eq!(
        vec![b"c1".to_vec(), b"c2".to_vec()],
        into_req.partitions.get(1).unwrap().column_list
    );
    assert_eq!(
        vec![b"v11".to_vec(), b"v22".to_vec()],
        into_req.partitions.get(1).unwrap().value_list
    );
}

#[test]
fn test_route_request_trans() {
    let req = RouteRequest {
        table_names: vec![
            TableName::new("c1", "s1", "t1"),
            TableName::new("c2", "s2", "t2"),
        ],
    };

    let into_req: PbRouteRequest = req.into();

    assert!(into_req.header.is_none());
    assert_eq!("c1", into_req.table_names.get(0).unwrap().catalog_name);
    assert_eq!("s1", into_req.table_names.get(0).unwrap().schema_name);
    assert_eq!("t1", into_req.table_names.get(0).unwrap().table_name);
    assert_eq!("c2", into_req.table_names.get(1).unwrap().catalog_name);
    assert_eq!("s2", into_req.table_names.get(1).unwrap().schema_name);
    assert_eq!("t2", into_req.table_names.get(1).unwrap().table_name);
}

#[test]
fn test_delete_request_trans() {
    let req = DeleteRequest {
        table_name: TableName::new("c1", "s1", "t1"),
    };

    let into_req: PbDeleteRequest = req.into();

    assert!(into_req.header.is_none());
    assert_eq!("c1", into_req.table_name.as_ref().unwrap().catalog_name);
    assert_eq!("s1", into_req.table_name.as_ref().unwrap().schema_name);
    assert_eq!("t1", into_req.table_name.as_ref().unwrap().table_name);
}

#[test]
fn test_route_response_trans() {
    let res = PbRouteResponse {
        header: None,
        peers: vec![
            PbPeer {
                id: 1,
                addr: "peer1".to_string(),
            },
            PbPeer {
                id: 2,
                addr: "peer2".to_string(),
            },
        ],
        table_routes: vec![PbTableRoute {
            table: Some(PbTable {
                id: 1,
                table_name: Some(PbTableName {
                    catalog_name: "c1".to_string(),
                    schema_name: "s1".to_string(),
                    table_name: "t1".to_string(),
                }),
                table_schema: b"schema".to_vec(),
            }),
            region_routes: vec![PbRegionRoute {
                region: Some(PbRegion {
                    id: 1,
                    name: "region1".to_string(),
                    partition: Some(PbPartition {
                        column_list: vec![b"c1".to_vec(), b"c2".to_vec()],
                        value_list: vec![b"v1".to_vec(), b"v2".to_vec()],
                    }),
                    attrs: Default::default(),
                }),
                leader_peer_index: 0,
                follower_peer_indexes: vec![1],
            }],
        }],
    };

    let res: RouteResponse = res.try_into().unwrap();
    let mut table_routes = res.table_routes;
    assert_eq!(1, table_routes.len());
    let table_route = table_routes.remove(0);
    let table = table_route.table;
    assert_eq!(1, table.id);
    assert_eq!("c1", table.table_name.catalog_name);
    assert_eq!("s1", table.table_name.schema_name);
    assert_eq!("t1", table.table_name.table_name);

    let mut region_routes = table_route.region_routes;
    assert_eq!(1, region_routes.len());
    let region_route = region_routes.remove(0);
    let region = region_route.region;
    assert_eq!(1, region.id);
    assert_eq!("region1", region.name);
    let partition = region.partition.unwrap();
    assert_eq!(vec![b"c1".to_vec(), b"c2".to_vec()], partition.column_list);
    assert_eq!(vec![b"v1".to_vec(), b"v2".to_vec()], partition.value_list);

    assert_eq!(1, region_route.leader_peer.as_ref().unwrap().id);
    assert_eq!("peer1", region_route.leader_peer.as_ref().unwrap().addr);

    assert_eq!(1, region_route.follower_peers.len());
    assert_eq!(2, region_route.follower_peers.get(0).unwrap().id);
    assert_eq!("peer2", region_route.follower_peers.get(0).unwrap().addr);
}

fn pb_peer(id: u64, addr: &str) -> PbPeer {
    PbPeer {
        id,
        addr: addr.to_string(),
    }
}

fn pb_table() -> PbTable {
    PbTable {
        id: 1,
        table_name: Some(PbTableName {
            catalog_name: "c1".to_string(),
            schema_name: "s1".to_string(),
            table_name: "t1".to_string(),
        }),
        table_schema: vec![],
    }
}

fn pb_region(id: u64, name: &str) -> PbRegion {
    PbRegion {
        id,
        name: name.to_string(),
        partition: None,
        attrs: HashMap::new(),
    }
}

fn pb_region_route(id: u64, name: &str, leader: u64, followers: Vec<u64>) -> PbRegionRoute {
    PbRegionRoute {
        region: Some(pb_region(id, name)),
        leader_peer_index: leader,
        follower_peer_indexes: followers,
    }
}

fn table() -> Table {
    Table {
        id: 1,
        table_name: TableName::new("c1", "s1", "t1"),
        table_schema: vec![],
    }
}

fn region_route(id: u64, name: &str, leader: Option<Peer>, followers: Vec<Peer>) -> RegionRoute {
    RegionRoute {
        region: Region {
            id,
            name: name.to_string(),
            partition: None,
            attrs: HashMap::new(),
        },
        leader_peer: leader,
        follower_peers: followers,
    }
}

fn corrupted(error: MetaError) -> String {
    match error {
        MetaError::RouteInfoCorrupted { err_msg } => err_msg,
        other => panic!("{:?}", other),
    }
}

#[test]
fn test_table_route_raw_conversion() {
    let raw_peers = vec![
        PbPeer {
            id: 1,
            addr: "a1".to_string(),
        },
        PbPeer {
            id: 2,
            addr: "a2".to_string(),
        },
        PbPeer {
            id: 3,
            addr: "a3".to_string(),
        },
    ];

    // region distribution:
    // region id => leader peer id + [follower peer id]
    // 1 => 2 + [1, 3]
    // 2 => 1 + [2, 3]

    let raw_table_route = PbTableRoute {
        table: Some(PbTable {
            id: 1,
            table_name: Some(PbTableName {
                catalog_name: "c1".to_string(),
                schema_name: "s1".to_string(),
                table_name: "t1".to_string(),
            }),
            table_schema: vec![],
        }),
        region_routes: vec![
            PbRegionRoute {
                region: Some(PbRegion {
                    id: 1,
                    name: "r1".to_string(),
                    partition: None,
                    attrs: HashMap::new(),
                }),
                leader_peer_index: 1,
                follower_peer_indexes: vec![0, 2],
            },
            PbRegionRoute {
                region: Some(PbRegion {
                    id: 2,
                    name: "r2".to_string(),
                    partition: None,
                    attrs: HashMap::new(),
                }),
                leader_peer_index: 0,
                follower_peer_indexes: vec![1, 2],
            },
        ],
    };
    let table_route = TableRoute {
        table: Table {
            id: 1,
            table_name: TableName::new("c1", "s1", "t1"),
            table_schema: vec![],
        },
        region_routes: vec![
            RegionRoute {
                region: Region {
                    id: 1,
                    name: "r1".to_string(),
                    partition: None,
                    attrs: HashMap::new(),
                },
                leader_peer: Some(Peer::new(2, "a2")),
                follower_peers: vec![Peer::new(1, "a1"), Peer::new(3, "a3")],
            },
            RegionRoute {
                region: Region {
                    id: 2,
                    name: "r2".to_string(),
                    partition: None,
                    attrs: HashMap::new(),
                },
                leader_peer: Some(Peer::new(1, "a1")),
                follower_peers: vec![Peer::new(2, "a2"), Peer::new(3, "a3")],
            },
        ],
    };

    let from_raw = TableRoute::try_from_raw(&raw_peers, raw_table_route.clone()).unwrap();
    assert_eq!(from_raw, table_route);

    let into_raw = table_route.try_into_raw().unwrap();
    assert_eq!(into_raw.0, raw_peers);
    assert_eq!(into_raw.1, raw_table_route);
}

#[test]
fn create_request_carries_the_table_info_as_json() {
    let info = object(vec![
        ("name", text("t1")),
        ("columns", Value::Array(vec![Value::Bool(true), Value::Null])),
        ("id", Value::from(42)),
    ]);
    let req = CreateRequest::new(TableName::new("c1", "s1", "t1"), &info).add_partition(Partition {
        column_list: vec![b"c".to_vec()],
        value_list: vec![b"v".to_vec()],
    });
    assert_eq!(1, req.partitions.len());

    let message: PbCreateRequest = req.try_into().unwrap();
    assert_eq!(
        br#"{"name":"t1","columns":[true,null],"id":42}"#.to_vec(),
        message.table_info
    );
    assert_eq!(1, message.partitions.len());
    assert_eq!(vec![b"c".to_vec()], message.partitions[0].column_list);
}

#[test]
fn create_request_fails_where_json_fails() {
    let info = Value::Null;
    let req = CreateRequest::new(TableName::new("c1", "s1", "t1"), &info);
    let error = serde_json::from_str::<Value>("{").unwrap_err();
    let reason = error.to_string();
    match req.clone().into_message(Err(error)) {
        Err(MetaError::SerdeJson { source }) => assert_eq!(reason, source.to_string()),
        other => panic!("{:?}", other),
    }

    let message = req.into_message(Ok(vec![1, 2, 3])).unwrap();
    assert_eq!(vec![1, 2, 3], message.table_info);
    assert!(message.header.is_none());
    assert!(message.partitions.is_empty());
    assert_eq!("t1", message.table_name.unwrap().table_name);
}

#[test]
fn route_request_keeps_the_order_of_names() {
    let req = RouteRequest::new()
        .add_table_name(TableName::new("c", "s", "b"))
        .add_table_name(TableName::new("c", "s", "a"));
    let message: PbRouteRequest = req.into();
    assert_eq!(2, message.table_names.len());
    assert_eq!("b", message.table_names[0].table_name);
    assert_eq!("a", message.table_names[1].table_name);

    assert!(RouteRequest::default().table_names.is_empty());
    let message: PbDeleteRequest = DeleteRequest::new(TableName::new("c", "s", "t")).into();
    assert_eq!("t", message.table_name.unwrap().table_name);
}

#[test]
fn missing_parts_are_reported() {
    let peers = vec![pb_peer(1, "a1")];

    let raw = PbTableRoute {
        table: None,
        region_routes: vec![],
    };
    let error = TableRoute::try_from_raw(&peers, raw).unwrap_err();
    assert_eq!("'table' is empty in table route", corrupted(error));

    let nameless = PbTable {
        table_name: None,
        ..pb_table()
    };
    let error = Table::try_from(nameless.clone()).unwrap_err();
    assert_eq!("table name required", corrupted(error));

    let lost = PbRegionRoute {
        region: None,
        leader_peer_index: 0,
        follower_peer_indexes: vec![],
    };
    let raw = PbTableRoute {
        table: Some(nameless),
        region_routes: vec![lost.clone()],
    };
    let error = TableRoute::try_from_raw(&peers, raw).unwrap_err();
    assert_eq!("table name required", corrupted(error));

    let raw = PbTableRoute {
        table: Some(pb_table()),
        region_routes: vec![pb_region_route(1, "r1", 0, vec![]), lost],
    };
    let error = TableRoute::try_from_raw(&peers, raw).unwrap_err();
    assert_eq!("'region' is empty in region route", corrupted(error));

    let route = TableRoute {
        table: table(),
        region_routes: vec![
            region_route(1, "r1", Some(Peer::new(1, "a1")), vec![]),
            region_route(2, "r2", None, vec![Peer::new(1, "a1")]),
        ],
    };
    let error = route.try_into_raw().unwrap_err();
    assert_eq!("'leader_peer' is empty in region route", corrupted(error));
}

#[test]
fn indexes_past_the_last_peer_stand_for_no_peer() {
    let peers = vec![pb_peer(1, "a1"), pb_peer(2, "a2")];
    let raw = PbTableRoute {
        table: Some(pb_table()),
        region_routes: vec![pb_region_route(1, "r1", 2, vec![7, 1, 2, 0, u64::MAX, 1])],
    };
    let route = TableRoute::try_from_raw(&peers, raw).unwrap();
    assert_eq!(None, route.region_routes[0].leader_peer);
    assert_eq!(
        vec![Peer::new(2, "a2"), Peer::new(1, "a1"), Peer::new(2, "a2")],
        route.region_routes[0].follower_peers
    );
    assert!(route.find_leaders().is_empty());
    assert_eq!(
        "'leader_peer' is empty in region route",
        corrupted(route.try_into_raw().unwrap_err())
    );
}

#[test]
fn a_table_without_regions_has_no_peers() {
    let route = TableRoute {
        table: table(),
        region_routes: vec![],
    };
    let (peers, raw) = route.clone().try_into_raw().unwrap();
    assert!(peers.is_empty());
    assert_eq!(Some(pb_table()), raw.table);
    assert!(raw.region_routes.is_empty());
    assert_eq!(route, TableRoute::try_from_raw(&peers, raw).unwrap());
}

#[test]
fn peers_are_listed_once_and_by_id() {
    let route = TableRoute {
        table: table(),
        region_routes: vec![
            region_route(
                1,
                "r1",
                Some(Peer::new(9, "a9")),
                vec![Peer::new(4, "a4"), Peer::new(9, "a9")],
            ),
            region_route(
                2,
                "r2",
                Some(Peer::new(5, "a5")),
                vec![Peer::new(1, "a1"), Peer::new(4, "a4"), Peer::new(4, "a4")],
            ),
            region_route(3, "r3", Some(Peer::new(9, "a9")), vec![]),
        ],
    };
    let (peers, raw) = route.clone().try_into_raw().unwrap();
    assert_eq!(
        vec![pb_peer(1, "a1"), pb_peer(4, "a4"), pb_peer(5, "a5"), pb_peer(9, "a9")],
        peers
    );
    assert_eq!(3, raw.region_routes[0].leader_peer_index);
    assert_eq!(vec![1, 3], raw.region_routes[0].follower_peer_indexes);
    assert_eq!(2, raw.region_routes[1].leader_peer_index);
    assert_eq!(vec![0, 1, 1], raw.region_routes[1].follower_peer_indexes);
    assert_eq!(3, raw.region_routes[2].leader_peer_index);
    assert_eq!(route, TableRoute::try_from_raw(&peers, raw).unwrap());
}

#[test]
fn peers_that_share_an_id_are_not_told_apart() {
    let route = TableRoute {
        table: table(),
        region_routes: vec![
            region_route(1, "r1", Some(Peer::new(1, "x")), vec![]),
            region_route(2, "r2", Some(Peer::new(1, "y")), vec![]),
        ],
    };
    let (peers, raw) = route.clone().try_into_raw().unwrap();
    assert_eq!(2, peers.len());
    assert!(peers.contains(&pb_peer(1, "x")));
    assert!(peers.contains(&pb_peer(1, "y")));
    assert_eq!(0, raw.region_routes[0].leader_peer_index);
    assert_eq!(0, raw.region_routes[1].leader_peer_index);

    let read = TableRoute::try_from_raw(&peers, raw).unwrap();
    assert_ne!(route, read);
    assert_eq!(
        read.region_routes[0].leader_peer,
        read.region_routes[1].leader_peer
    );
    assert_eq!(1, read.region_routes[0].leader_peer.as_ref().unwrap().id);
}

#[test]
fn a_raw_route_that_is_not_canonical_changes() {
    // The peers are out of order, and one of them serves no region.
    let peers = vec![pb_peer(3, "a3"), pb_peer(1, "a1"), pb_peer(2, "a2")];
    let raw = PbTableRoute {
        table: Some(pb_table()),
        region_routes: vec![pb_region_route(1, "r1", 0, vec![1])],
    };
    let route = TableRoute::try_from_raw(&peers, raw).unwrap();
    let (peers, raw) = route.try_into_raw().unwrap();
    assert_eq!(vec![pb_peer(1, "a1"), pb_peer(3, "a3")], peers);
    assert_eq!(1, raw.region_routes[0].leader_peer_index);
    assert_eq!(vec![0], raw.region_routes[0].follower_peer_indexes);

    let route = TableRoute::try_from_raw(&peers, raw.clone()).unwrap();
    assert_eq!((peers, raw), route.try_into_raw().unwrap());
}

#[test]
fn leaders_and_their_regions() {
    let (p, q, r) = (Peer::new(1, "a1"), Peer::new(2, "a2"), Peer::new(3, "a3"));
    let route = TableRoute {
        table: table(),
        region_routes: vec![
            region_route(0x5_0000_0002, "r2", Some(p.clone()), vec![r.clone()]),
            region_route(7, "r7", Some(q.clone()), vec![]),
            region_route(8, "r8", None, vec![q.clone()]),
            region_route(u64::MAX, "r", Some(p.clone()), vec![]),
        ],
    };
    let leaders = route.find_leaders();
    assert_eq!(2, leaders.len());
    assert!(leaders.contains(&p));
    assert!(leaders.contains(&q));

    assert_eq!(vec![2, u32::MAX], route.find_leader_regions(&p));
    assert_eq!(vec![7], route.find_leader_regions(&q));
    assert!(route.find_leader_regions(&r).is_empty());
    assert!(route.find_leader_regions(&Peer::new(1, "elsewhere")).is_empty());
}

#[test]
fn messages_are_read_back() {
    let peer = Peer::new(3, "a3");
    assert_eq!(peer, Peer::from(PbPeer::from(peer.clone())));
    let name = TableName::new("c", "s", "t");
    assert_eq!(name, TableName::from(PbTableName::from(name.clone())));
    let mut attrs = HashMap::new();
    attrs.insert("k".to_string(), "v".to_string());
    let partition = Partition {
        column_list: vec![b"c".to_vec()],
        value_list: vec![b"v".to_vec(), vec![]],
    };
    assert_eq!(partition, Partition::from(PbPartition::from(partition.clone())));
    let region = Region {
        id: 5,
        name: "r".to_string(),
        partition: Some(partition),
        attrs,
    };
    let message = PbRegion::from(region.clone());
    assert_eq!("v", message.attrs["k"]);
    assert_eq!(region, Region::from(message));
    let table = Table {
        table_schema: vec![1, 2],
        ..table()
    };
    let message = PbTable::from(table.clone());
    assert_eq!(vec![1, 2], message.table_schema);
    assert_eq!(table, Table::try_from(message).unwrap());
}

#[test]
fn unset_routes() {
    let route = RegionRoute::default();
    assert_eq!(Region::default(), route.region);
    assert_eq!(0, route.region.id);
    assert_eq!("", route.region.name);
    assert_eq!(None, route.region.partition);
    assert!(route.region.attrs.is_empty());
    assert_eq!(None, route.leader_peer);
    assert!(route.follower_peers.is_empty());
}

#[test]
fn a_response_is_read_whole() {
    let good = PbTableRoute {
        table: Some(pb_table()),
        region_routes: vec![pb_region_route(1, "r1", 0, vec![])],
    };
    let tableless = PbTableRoute {
        table: None,
        region_routes: vec![],
    };
    let regionless = PbTableRoute {
        table: Some(pb_table()),
        region_routes: vec![PbRegionRoute {
            region: None,
            leader_peer_index: 0,
            follower_peer_indexes: vec![],
        }],
    };
    let response = |header: Option<ResponseHeader>, table_routes: Vec<PbTableRoute>| {
        RouteResponse::try_from(PbRouteResponse {
            header,
            peers: vec![pb_peer(1, "a1")],
            table_routes,
        })
    };

    let read = response(None, vec![good.clone(), good.clone()]).unwrap();
    assert_eq!(2, read.table_routes.len());
    assert_eq!(
        Some(Peer::new(1, "a1")),
        read.table_routes[1].region_routes[0].leader_peer
    );

    let error = response(None, vec![good.clone(), regionless.clone(), tableless.clone()]);
    assert_eq!("'region' is empty in region route", corrupted(error.unwrap_err()));
    let error = response(None, vec![tableless.clone(), regionless]);
    assert_eq!("'table' is empty in table route", corrupted(error.unwrap_err()));

    let header = ResponseHeader {
        protocol_version: 1,
        error: None,
    };
    assert!(response(Some(header), vec![good]).is_ok());

    let header = ResponseHeader {
        protocol_version: 1,
        error: Some(ServerError {
            code: 2,
            err_msg: "not leader".to_string(),
        }),
    };
    match response(Some(header), vec![tableless]) {
        Err(MetaError::IllegalServerState { code, err_msg }) => {
            assert_eq!(2, code);
            assert_eq!("not leader", err_msg);
        }
        other => panic!("{:?}", other),
    }
}
