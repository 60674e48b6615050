//! What each call on table routes gives, told by the fields of what goes in and
//! of what comes out.

use vstd::prelude::*;

use crate::error::{ErrorView, MetaError};
use crate::pb;
use crate::peer::{Peer, PeerView};
use crate::rpc::laws::law_raw_form_reads_back;
use crate::rpc::region::{Table, TableView};
use crate::rpc::router::{
    peer_at, region_number, RegionRoute, RegionRouteView, TableRoute, TableRouteView,
};

verus! {

/// Where `f` gives the value of `g` for the elements that `p` accepts, and
/// nothing for the others, `filter_map` gives the values of those elements.
proof fn lemma_filter_map_is_filter<A, V, B>(
    s: Seq<A>,
    t: Seq<V>,
    f: spec_fn(V) -> Option<B>,
    p: spec_fn(A) -> bool,
    g: spec_fn(A) -> B,
)
    requires
        s.len() == t.len(),
        forall|i: int|
            0 <= i < s.len() ==> f(#[trigger] t[i]) == if p(s[i]) {
                Some(g(s[i]))
            } else {
                None
            },
    ensures
        t.filter_map(f).len() == s.filter(p).len(),
        forall|j: int|
            0 <= j < s.filter(p).len() ==> #[trigger] t.filter_map(f)[j] == g(s.filter(p)[j]),
    decreases s.len(),
{
    reveal(Seq::filter);
    if s.len() > 0 {
        let s0 = s.drop_last();
        let t0 = t.drop_last();
        assert forall|i: int| 0 <= i < s0.len() implies f(#[trigger] t0[i]) == if p(s0[i]) {
            Some(g(s0[i]))
        } else {
            None
        } by {
            assert(t0[i] == t[i]);
        }
        lemma_filter_map_is_filter(s0, t0, f, p, g);
        assert(f(t[t.len() - 1]) == f(t.last()));
    }
}

/// The table of a table route is written as it is: the same identifier, name and
/// schema.
pub proof fn law_written_table(table: Table, res: pb::Table)
    requires
        call_ensures(<pb::Table as From<Table>>::from, (table,), res),
    ensures
        res.id == table.id,
        res.table_name matches Some(name) && name.catalog_name == table.table_name.catalog_name
            && name.schema_name == table.table_name.schema_name && name.table_name
            == table.table_name.table_name,
        res.table_schema == table.table_schema,
{
}

/// A table is read exactly where its name is there, and then it has the
/// identifier, name and schema of the message.
pub proof fn law_read_table(message: pb::Table, res: Result<Table, MetaError>)
    requires
        call_ensures(<Table as TryFrom<pb::Table>>::try_from, (message,), res),
    ensures
        res is Ok <==> message.table_name is Some,
        res matches Ok(table) ==> {
            &&& table.id == message.id
            &&& table.table_name.catalog_name@ == message.table_name->0.catalog_name@
            &&& table.table_name.schema_name@ == message.table_name->0.schema_name@
            &&& table.table_name.table_name@ == message.table_name->0.table_name@
            &&& table.table_schema@ == message.table_schema@
        },
        res matches Err(error) ==> {
            &&& error matches MetaError::RouteInfoCorrupted { err_msg }
            &&& err_msg@ == "table name required"@
        },
{
}

/// A table route is read exactly where its table, the table's name and the
/// region of each region route are there, whatever `peers` holds and whatever
/// the indexes are. Otherwise the first of these that lacks is told.
pub proof fn law_read_route_needs_its_parts(
    peers: &[pb::Peer],
    raw: pb::TableRoute,
    res: Result<TableRoute, MetaError>,
)
    requires
        call_ensures(TableRoute::try_from_raw, (peers, raw), res),
    ensures
        res is Ok <==> {
            &&& raw.table is Some
            &&& raw.table->0.table_name is Some
            &&& forall|i: int|
                0 <= i < raw.region_routes@.len() ==> (#[trigger] raw.region_routes@[i]).region
                    is Some
        },
        res matches Err(error) ==> {
            &&& error matches MetaError::RouteInfoCorrupted { err_msg }
            &&& err_msg@ == if raw.table is None {
                "'table' is empty in table route"@
            } else if raw.table->0.table_name is None {
                "table name required"@
            } else {
                "'region' is empty in region route"@
            }
        },
{
    let routes = raw@.region_routes;
    assert forall|i: int| 0 <= i < raw.region_routes@.len() implies (routes[i].region is Some <==> (
    #[trigger] raw.region_routes@[i]).region is Some) by {}
    if exists|i: int| 0 <= i < routes.len() && (#[trigger] routes[i]).region is None {
        let i = choose|i: int| 0 <= i < routes.len() && (#[trigger] routes[i]).region is None;
        assert(raw.region_routes@[i].region is None);
    }
    if exists|i: int|
        0 <= i < raw.region_routes@.len() && (#[trigger] raw.region_routes@[i]).region is None {
        let i = choose|i: int|
            0 <= i < raw.region_routes@.len() && (#[trigger] raw.region_routes@[i]).region is None;
        assert(routes[i].region is None);
    }
}

/// What a table route that was read from `raw` holds of its table and of region
/// route `i`.
pub(crate) proof fn lemma_read(peers: Seq<pb::Peer>, raw: pb::TableRoute, route: TableRoute, i: int)
    requires
        TableRouteView::from_raw(
            Seq::new(peers.len(), |k: int| peers[k]@),
            raw@,
        ) == Ok::<_, ErrorView>(route@),
    ensures
        raw.table is Some,
        raw.table->0.table_name is Some,
        route.table.id == raw.table->0.id,
        route.table.table_name.catalog_name@ == raw.table->0.table_name->0.catalog_name@,
        route.table.table_name.schema_name@ == raw.table->0.table_name->0.schema_name@,
        route.table.table_name.table_name@ == raw.table->0.table_name->0.table_name@,
        route.table.table_schema@ == raw.table->0.table_schema@,
        route.region_routes@.len() == raw.region_routes@.len(),
        0 <= i < raw.region_routes@.len() ==> {
            let ours = route.region_routes@[i];
            let theirs = raw.region_routes@[i];
            let known = theirs.follower_peer_indexes@.filter(
                |index: u64| (index as usize) < peers.len(),
            );
            &&& theirs.region is Some
            &&& ours.region.id == theirs.region->0.id
            &&& ours.region.name@ == theirs.region->0.name@
            &&& ours.region.attrs.deep_view() == theirs.region->0.attrs.deep_view()
            &&& match (ours.region.partition, theirs.region->0.partition) {
                (Some(p), Some(q)) => p.column_list.deep_view() == q.column_list.deep_view()
                    && p.value_list.deep_view() == q.value_list.deep_view(),
                (None, None) => true,
                _ => false,
            }
            &&& match ours.leader_peer {
                Some(p) => {
                    let k = theirs.leader_peer_index as usize;
                    k < peers.len() && p.id == peers[k as int].id && p.addr@
                        == peers[k as int].addr@
                },
                None => (theirs.leader_peer_index as usize) >= peers.len(),
            }
            &&& ours.follower_peers@.len() == known.len()
            &&& forall|j: int|
                0 <= j < known.len() ==> {
                    &&& (#[trigger] ours.follower_peers@[j]).id == peers[(known[j] as usize) as int].id
                    &&& ours.follower_peers@[j].addr@ == peers[(known[j] as usize) as int].addr@
                }
        },
{
    let views = Seq::new(peers.len(), |k: int| peers[k]@);
    assert(route@.region_routes.len() == raw@.region_routes.len());
    assert(TableView::from_message(raw@.table->0) == Ok::<_, ErrorView>(route.table@));
    if 0 <= i < raw.region_routes@.len() {
        let ours = route.region_routes@[i];
        let theirs = raw.region_routes@[i];
        assert(raw@.region_routes[i] == theirs@);
        assert(raw@.region_routes[i].region is Some);
        assert(route@.region_routes[i] == ours@);
        assert(ours@ == RegionRouteView::from_raw(views, theirs@));
        let indexes = theirs.follower_peer_indexes@;
        let f = |index: u64| peer_at(views, index);
        let p = |index: u64| (index as usize) < peers.len();
        let g = |index: u64| peers[(index as usize) as int]@;
        assert forall|k: int| 0 <= k < indexes.len() implies f(#[trigger] indexes[k]) == if p(
            indexes[k],
        ) {
            Some(g(indexes[k]))
        } else {
            None
        } by {}
        lemma_filter_map_is_filter(indexes, indexes, f, p, g);
        let known = indexes.filter(p);
        assert(ours@.follower_peers == indexes.filter_map(f));
        assert(ours@.follower_peers.len() == ours.follower_peers@.len());
        assert forall|j: int| 0 <= j < known.len() implies {
            &&& (#[trigger] ours.follower_peers@[j]).id == peers[(known[j] as usize) as int].id
            &&& ours.follower_peers@[j].addr@ == peers[(known[j] as usize) as int].addr@
        } by {
            assert(ours@.follower_peers[j] == ours.follower_peers@[j]@);
            assert(indexes.filter_map(f)[j] == g(known[j]));
        }
    }
}

/// A table route that was read has the table of the raw one, and as many region
/// routes. Its region route `i` has the raw one's region; as leader, the peer at
/// the leader's index, or none where the index is past the last peer; and as
/// followers, in their order, the peers at those of the followers' indexes that
/// are not past the last peer.
pub proof fn law_read_route(
    peers: &[pb::Peer],
    raw: pb::TableRoute,
    res: Result<TableRoute, MetaError>,
    i: int,
)
    requires
        call_ensures(TableRoute::try_from_raw, (peers, raw), res),
        res is Ok,
    ensures
        res->Ok_0.table.id == raw.table->0.id,
        res->Ok_0.table.table_name.catalog_name@ == raw.table->0.table_name->0.catalog_name@,
        res->Ok_0.table.table_name.schema_name@ == raw.table->0.table_name->0.schema_name@,
        res->Ok_0.table.table_name.table_name@ == raw.table->0.table_name->0.table_name@,
        res->Ok_0.table.table_schema@ == raw.table->0.table_schema@,
        res->Ok_0.region_routes@.len() == raw.region_routes@.len(),
        0 <= i < raw.region_routes@.len() ==> {
            let ours = res->Ok_0.region_routes@[i];
            let theirs = raw.region_routes@[i];
            let known = theirs.follower_peer_indexes@.filter(
                |index: u64| (index as usize) < peers@.len(),
            );
            &&& ours.region.id == theirs.region->0.id
            &&& ours.region.name@ == theirs.region->0.name@
            &&& ours.region.attrs.deep_view() == theirs.region->0.attrs.deep_view()
            &&& match (ours.region.partition, theirs.region->0.partition) {
                (Some(p), Some(q)) => p.column_list.deep_view() == q.column_list.deep_view()
                    && p.value_list.deep_view() == q.value_list.deep_view(),
                (None, None) => true,
                _ => false,
            }
            &&& match ours.leader_peer {
                Some(p) => {
                    let k = theirs.leader_peer_index as usize;
                    k < peers@.len() && p.id == peers@[k as int].id && p.addr@
                        == peers@[k as int].addr@
                },
                None => (theirs.leader_peer_index as usize) >= peers@.len(),
            }
            &&& ours.follower_peers@.len() == known.len()
            &&& forall|j: int|
                0 <= j < known.len() ==> {
                    &&& (#[trigger] ours.follower_peers@[j]).id == peers@[(known[j] as usize) as int].id
                    &&& ours.follower_peers@[j].addr@ == peers@[(known[j] as usize) as int].addr@
                }
        },
{
    assert(peers.deep_view() =~= Seq::new(peers@.len(), |k: int| peers@[k]@));
    lemma_read(peers@, raw, res->Ok_0, i);
}

/// A table route is written exactly where each of its regions has a leader;
/// otherwise it is told that a leader lacks.
pub proof fn law_written_route_needs_leaders(
    route: TableRoute,
    res: Result<(Vec<pb::Peer>, pb::TableRoute), MetaError>,
)
    requires
        call_ensures(TableRoute::try_into_raw, (route,), res),
    ensures
        res is Ok <==> forall|i: int|
            0 <= i < route.region_routes@.len() ==> (
            #[trigger] route.region_routes@[i]).leader_peer is Some,
        res matches Err(error) ==> {
            &&& error matches MetaError::RouteInfoCorrupted { err_msg }
            &&& err_msg@ == "'leader_peer' is empty in region route"@
        },
{
    let routes = route@.region_routes;
    assert forall|i: int| 0 <= i < route.region_routes@.len() implies routes[i] == (
    #[trigger] route.region_routes@[i])@ by {}
    if route@.all_led() {
        assert forall|i: int| 0 <= i < route.region_routes@.len() implies (
        #[trigger] route.region_routes@[i]).leader_peer is Some by {
            assert(routes[i].leader_peer is Some);
        }
    }
    if forall|i: int|
        0 <= i < route.region_routes@.len() ==> (#[trigger] route.region_routes@[i]).leader_peer
            is Some {
        assert forall|i: int| 0 <= i < routes.len() implies (#[trigger] routes[i]).leader_peer
            is Some by {
            assert(route.region_routes@[i].leader_peer is Some);
        }
    }
}

/// A table route is written with its own table, and region route `i` with its own
/// region. Its leader, and each of its followers in their order, is given by the
/// first index at which the list has that peer's identifier.
pub proof fn law_written_route(
    route: TableRoute,
    res: Result<(Vec<pb::Peer>, pb::TableRoute), MetaError>,
    i: int,
)
    requires
        call_ensures(TableRoute::try_into_raw, (route,), res),
        res is Ok,
    ensures
        res->Ok_0.1.table matches Some(table) && table.id == route.table.id && (
        table.table_name matches Some(name) && name.catalog_name@
            == route.table.table_name.catalog_name@ && name.schema_name@
            == route.table.table_name.schema_name@ && name.table_name@
            == route.table.table_name.table_name@) && table.table_schema@
            == route.table.table_schema@,
        res->Ok_0.1.region_routes@.len() == route.region_routes@.len(),
        0 <= i < route.region_routes@.len() ==> {
            let peers = res->Ok_0.0@;
            let ours = route.region_routes@[i];
            let theirs = res->Ok_0.1.region_routes@[i];
            &&& theirs.region is Some
            &&& theirs.region->0.id == ours.region.id
            &&& theirs.region->0.name@ == ours.region.name@
            &&& theirs.region->0.attrs.deep_view() == ours.region.attrs.deep_view()
            &&& match (ours.region.partition, theirs.region->0.partition) {
                (Some(p), Some(q)) => p.column_list.deep_view() == q.column_list.deep_view()
                    && p.value_list.deep_view() == q.value_list.deep_view(),
                (None, None) => true,
                _ => false,
            }
            &&& ours.leader_peer is Some
            &&& theirs.leader_peer_index < peers.len()
            &&& peers[theirs.leader_peer_index as int].id == ours.leader_peer->0.id
            &&& forall|k: int|
                0 <= k < theirs.leader_peer_index ==> (#[trigger] peers[k]).id
                    != ours.leader_peer->0.id
            &&& theirs.follower_peer_indexes@.len() == ours.follower_peers@.len()
            &&& forall|j: int|
                0 <= j < ours.follower_peers@.len() ==> {
                    &&& (#[trigger] theirs.follower_peer_indexes@[j]) < peers.len()
                    &&& peers[theirs.follower_peer_indexes@[j] as int].id
                        == ours.follower_peers@[j].id
                    &&& forall|k: int|
                        0 <= k < theirs.follower_peer_indexes@[j] ==> (#[trigger] peers[k]).id
                            != ours.follower_peers@[j].id
                }
        },
{
    let peers = res->Ok_0.0;
    let raw = res->Ok_0.1;
    assert(route@.has_raw_form(peers.deep_view(), raw@));
    assert(raw@.table == Some(route.table@.message()));
    assert(raw.table is Some && raw.table->0@ == route.table@.message());
    assert(raw@.region_routes.len() == route@.region_routes.len());
    if 0 <= i < route.region_routes@.len() {
        let ours = route.region_routes@[i];
        let theirs = raw.region_routes@[i];
        assert(route@.region_routes[i] == ours@);
        assert(raw@.region_routes[i] == theirs@);
        assert(ours@.has_raw_form(peers.deep_view(), theirs@));
        assert(theirs@.region == Some(ours.region@));
        assert(theirs.region is Some && theirs.region->0@ == ours.region@);
        assert forall|k: int| 0 <= k < peers@.len() implies peers.deep_view()[k].id == (
        #[trigger] peers@[k]).id by {}
        assert forall|k: int| 0 <= k < theirs.leader_peer_index implies (#[trigger] peers@[k]).id
            != ours.leader_peer->0.id by {
            assert(peers.deep_view()[k].id != ours.leader_peer->0.id);
        }
        assert forall|j: int| 0 <= j < ours.follower_peers@.len() implies {
            &&& (#[trigger] theirs.follower_peer_indexes@[j]) < peers@.len()
            &&& peers@[theirs.follower_peer_indexes@[j] as int].id == ours.follower_peers@[j].id
            &&& forall|k: int|
                0 <= k < theirs.follower_peer_indexes@[j] ==> (#[trigger] peers@[k]).id
                    != ours.follower_peers@[j].id
        } by {
            let index = theirs@.follower_peer_indexes[j];
            assert(ours@.follower_peers[j] == ours.follower_peers@[j]@);
            assert forall|k: int| 0 <= k < index implies (#[trigger] peers@[k]).id
                != ours.follower_peers@[j].id by {
                assert(peers.deep_view()[k].id != ours.follower_peers@[j].id);
            }
        }
    }
}

/// The list with which a table route is written is in the order of identifiers,
/// holds no peer twice, holds the leader and the followers of every region, and
/// holds nobody else.
pub proof fn law_written_peers(
    route: TableRoute,
    res: Result<(Vec<pb::Peer>, pb::TableRoute), MetaError>,
    k: int,
)
    requires
        call_ensures(TableRoute::try_into_raw, (route,), res),
        res is Ok,
    ensures
        forall|a: int, b: int|
            0 <= a < b < res->Ok_0.0@.len() ==> {
                &&& (#[trigger] res->Ok_0.0@[a]).id <= (#[trigger] res->Ok_0.0@[b]).id
                &&& res->Ok_0.0@[a].id != res->Ok_0.0@[b].id || res->Ok_0.0@[a].addr@
                    != res->Ok_0.0@[b].addr@
            },
        forall|i: int|
            0 <= i < route.region_routes@.len() && (#[trigger] route.region_routes@[i]).leader_peer
                is Some ==> exists|k: int|
                0 <= k < res->Ok_0.0@.len() && (#[trigger] res->Ok_0.0@[k]).id
                    == route.region_routes@[i].leader_peer->0.id && res->Ok_0.0@[k].addr@
                    == route.region_routes@[i].leader_peer->0.addr@,
        forall|i: int, j: int|
            0 <= i < route.region_routes@.len() && 0 <= j
                < route.region_routes@[i].follower_peers@.len() ==> exists|k: int|
                0 <= k < res->Ok_0.0@.len() && (#[trigger] res->Ok_0.0@[k]).id == (
                #[trigger] route.region_routes@[i].follower_peers@[j]).id && res->Ok_0.0@[k].addr@
                    == route.region_routes@[i].follower_peers@[j].addr@,
        0 <= k < res->Ok_0.0@.len() ==> {
            ||| exists|i: int|
                0 <= i < route.region_routes@.len() && (
                #[trigger] route.region_routes@[i]).leader_peer is Some
                    && route.region_routes@[i].leader_peer->0.id == res->Ok_0.0@[k].id
                    && route.region_routes@[i].leader_peer->0.addr@ == res->Ok_0.0@[k].addr@
            ||| exists|i: int, j: int|
                0 <= i < route.region_routes@.len() && 0 <= j
                    < route.region_routes@[i].follower_peers@.len() && (
                #[trigger] route.region_routes@[i].follower_peers@[j]).id == res->Ok_0.0@[k].id
                    && route.region_routes@[i].follower_peers@[j].addr@ == res->Ok_0.0@[k].addr@
        },
{
    let peers = res->Ok_0.0;
    let list = peers.deep_view();
    let routes = route.region_routes@;
    assert(route@.has_raw_form(list, res->Ok_0.1@));
    assert forall|k: int| 0 <= k < peers@.len() implies list[k] == (#[trigger] peers@[k])@ by {}
    assert forall|i: int| 0 <= i < routes.len() implies route@.region_routes[i] == (
    #[trigger] routes[i])@ by {}
    assert forall|a: int, b: int| 0 <= a < b < peers@.len() implies {
        &&& (#[trigger] peers@[a]).id <= (#[trigger] peers@[b]).id
        &&& peers@[a].id != peers@[b].id || peers@[a].addr@ != peers@[b].addr@
    } by {
        assert(list[a].id <= list[b].id);
        assert(list[a] != list[b]);
    }
    assert forall|i: int|
        0 <= i < routes.len() && (#[trigger] routes[i]).leader_peer is Some implies exists|k: int|
        0 <= k < peers@.len() && (#[trigger] peers@[k]).id == routes[i].leader_peer->0.id
            && peers@[k].addr@ == routes[i].leader_peer->0.addr@ by {
        let p = routes[i].leader_peer->0@;
        assert(route@.region_routes[i].leader_peer == Some(p));
        assert(route@.leads(p) && route@.serves(p));
        assert(list.contains(p));
        let k = choose|k: int| 0 <= k < list.len() && list[k] == p;
        assert(peers@[k]@ == p);
    }
    assert forall|i: int, j: int|
        0 <= i < routes.len() && 0 <= j < routes[i].follower_peers@.len() implies exists|k: int|
        0 <= k < peers@.len() && (#[trigger] peers@[k]).id == (
        #[trigger] routes[i].follower_peers@[j]).id && peers@[k].addr@
            == routes[i].follower_peers@[j].addr@ by {
        let p = routes[i].follower_peers@[j]@;
        assert(route@.region_routes[i].follower_peers[j] == p);
        assert(route@.region_routes[i].follower_peers.contains(p));
        assert(route@.follows(p) && route@.serves(p));
        assert(list.contains(p));
        let k = choose|k: int| 0 <= k < list.len() && list[k] == p;
        assert(peers@[k]@ == p);
    }
    if 0 <= k < peers@.len() {
        let p = list[k];
        assert(list.contains(p));
        assert(route@.serves(p));
        if route@.leads(p) {
            let i = choose|i: int|
                0 <= i < route@.region_routes.len() && (
                #[trigger] route@.region_routes[i]).leader_peer == Some(p);
            assert(routes[i].leader_peer is Some && routes[i].leader_peer->0@ == p);
        } else {
            let i = choose|i: int|
                0 <= i < route@.region_routes.len() && (
                #[trigger] route@.region_routes[i]).follower_peers.contains(p);
            let followers = route@.region_routes[i].follower_peers;
            let j = choose|j: int| 0 <= j < followers.len() && followers[j] == p;
            assert(followers == routes[i].follower_peers.deep_view());
            assert(routes[i].follower_peers@[j]@ == p);
        }
    }
}

/// What was written is read again. Where no two peers of the list share an
/// identifier, each region has the leader and the followers that it had.
pub proof fn law_written_route_reads_back(
    route: TableRoute,
    written: Result<(Vec<pb::Peer>, pb::TableRoute), MetaError>,
    peers: &[pb::Peer],
    read: Result<TableRoute, MetaError>,
    i: int,
    j: int,
)
    requires
        call_ensures(TableRoute::try_into_raw, (route,), written),
        written is Ok,
        peers@ == written->Ok_0.0@,
        call_ensures(TableRoute::try_from_raw, (peers, written->Ok_0.1), read),
        0 <= i < route.region_routes@.len(),
    ensures
        read is Ok,
        (forall|a: int, b: int|
            0 <= a < b < peers@.len() ==> (#[trigger] peers@[a]).id != (#[trigger] peers@[b]).id)
            ==> {
            let ours = route.region_routes@[i];
            let again = read->Ok_0.region_routes@[i];
            &&& again.leader_peer is Some
            &&& again.leader_peer->0.id == ours.leader_peer->0.id
            &&& again.leader_peer->0.addr@ == ours.leader_peer->0.addr@
            &&& again.follower_peers@.len() == ours.follower_peers@.len()
            &&& 0 <= j < ours.follower_peers@.len() ==> again.follower_peers@[j].id
                == ours.follower_peers@[j].id && again.follower_peers@[j].addr@
                == ours.follower_peers@[j].addr@
        },
{
    let raw = written->Ok_0.1;
    let list = peers.deep_view();
    assert(list =~= written->Ok_0.0.deep_view());
    assert(peers.len() <= usize::MAX);
    law_raw_form_reads_back(route@, list, raw@);
    if forall|a: int, b: int|
        0 <= a < b < peers@.len() ==> (#[trigger] peers@[a]).id != (#[trigger] peers@[b]).id {
        assert forall|p: PeerView, q: PeerView| #[trigger]
            route@.serves(p) && #[trigger] route@.serves(q) && p.id == q.id implies p == q by {
            assert(list.contains(p) && list.contains(q));
            let a = choose|a: int| 0 <= a < list.len() && list[a] == p;
            let b = choose|b: int| 0 <= b < list.len() && list[b] == q;
            assert(peers@[a].id == peers@[b].id);
        }
        let ours = route.region_routes@[i];
        let again = read->Ok_0.region_routes@[i];
        assert(read->Ok_0@ == route@);
        assert(route@.region_routes[i] == ours@);
        assert(read->Ok_0@.region_routes.len() == route@.region_routes.len());
        assert(read->Ok_0@.region_routes[i] == again@);
        law_written_route(route, written, i);
        assert(again@.follower_peers.len() == ours@.follower_peers.len());
        if 0 <= j < ours.follower_peers@.len() {
            assert(ours@.follower_peers[j] == ours.follower_peers@[j]@);
            assert(again@.follower_peers[j] == again.follower_peers@[j]@);
        }
    }
}

/// The leaders that are found are those of the region routes, each once.
pub proof fn law_found_leaders(route: &TableRoute, res: Vec<Peer>, k: int)
    requires
        call_ensures(TableRoute::find_leaders, (route,), res),
    ensures
        forall|a: int, b: int|
            0 <= a < b < res@.len() ==> (#[trigger] res@[a]).id != (#[trigger] res@[b]).id
                || res@[a].addr@ != res@[b].addr@,
        forall|i: int|
            0 <= i < route.region_routes@.len() && (#[trigger] route.region_routes@[i]).leader_peer
                is Some ==> exists|k: int|
                0 <= k < res@.len() && (#[trigger] res@[k]).id
                    == route.region_routes@[i].leader_peer->0.id && res@[k].addr@
                    == route.region_routes@[i].leader_peer->0.addr@,
        0 <= k < res@.len() ==> exists|i: int|
            0 <= i < route.region_routes@.len() && (#[trigger] route.region_routes@[i]).leader_peer
                is Some && route.region_routes@[i].leader_peer->0.id == res@[k].id
                && route.region_routes@[i].leader_peer->0.addr@ == res@[k].addr@,
{
    let list = res.deep_view();
    let routes = route.region_routes@;
    assert forall|k: int| 0 <= k < res@.len() implies list[k] == (#[trigger] res@[k])@ by {}
    assert forall|a: int, b: int| 0 <= a < b < res@.len() implies (#[trigger] res@[a]).id != (
    #[trigger] res@[b]).id || res@[a].addr@ != res@[b].addr@ by {
        assert(list[a] != list[b]);
    }
    assert forall|i: int|
        0 <= i < routes.len() && (#[trigger] routes[i]).leader_peer is Some implies exists|k: int|
        0 <= k < res@.len() && (#[trigger] res@[k]).id == routes[i].leader_peer->0.id
            && res@[k].addr@ == routes[i].leader_peer->0.addr@ by {
        let p = routes[i].leader_peer->0@;
        assert(route@.region_routes[i].leader_peer == Some(p));
        assert(route@.leads(p));
        assert(list.contains(p));
        let k = choose|k: int| 0 <= k < list.len() && list[k] == p;
        assert(res@[k]@ == p);
    }
    if 0 <= k < res@.len() {
        let p = list[k];
        assert(list.contains(p));
        assert(route@.leads(p));
        let i = choose|i: int|
            0 <= i < route@.region_routes.len() && (#[trigger] route@.region_routes[i]).leader_peer
                == Some(p);
        assert(routes[i].leader_peer is Some && routes[i].leader_peer->0@ == p);
    }
}

/// The regions that are found for a peer are those whose leader has its
/// identifier and its address, in the order of the routes. Of each, the
/// remainder of its identifier by two to the power of thirty-two is given.
pub proof fn law_found_regions(route: &TableRoute, datanode: &Peer, res: Vec<u32>)
    requires
        call_ensures(TableRoute::find_leader_regions, (route, datanode), res),
    ensures
        ({
            let led = route.region_routes@.filter(
                |r: RegionRoute|
                    r.leader_peer is Some && r.leader_peer->0.id == datanode.id
                        && r.leader_peer->0.addr@ == datanode.addr@,
            );
            &&& res@.len() == led.len()
            &&& forall|j: int|
                0 <= j < led.len() ==> (#[trigger] res@[j]) as int == led[j].region.id as int
                    % 0x1_0000_0000
        }),
{
    let routes = route.region_routes@;
    let f = |r: RegionRouteView|
        if r.leader_peer == Some(datanode@) {
            Some(region_number(r.region.id))
        } else {
            None
        };
    let p = |r: RegionRoute|
        r.leader_peer is Some && r.leader_peer->0.id == datanode.id && r.leader_peer->0.addr@
            == datanode.addr@;
    let g = |r: RegionRoute| region_number(r.region.id);
    assert forall|i: int| 0 <= i < routes.len() implies f(
        #[trigger] route@.region_routes[i],
    ) == if p(routes[i]) {
        Some(g(routes[i]))
    } else {
        None
    } by {
        assert(route@.region_routes[i] == routes[i]@);
    }
    lemma_filter_map_is_filter(routes, route@.region_routes, f, p, g);
    assert(res@ == route@.region_routes.filter_map(f));
    let led = routes.filter(p);
    assert forall|j: int| 0 <= j < led.len() implies (#[trigger] res@[j]) as int
        == led[j].region.id as int % 0x1_0000_0000 by {
        assert(res@[j] == g(led[j]));
    }
}

/// A region whose identifier is made of a table's number and its own number
/// within the table is found by the latter.
pub proof fn law_found_region_number(
    route: &TableRoute,
    datanode: &Peer,
    res: Vec<u32>,
    i: int,
    t: u32,
    n: u32,
)
    requires
        call_ensures(TableRoute::find_leader_regions, (route, datanode), res),
        0 <= i < route.region_routes@.len(),
        route.region_routes@[i].region.id == t * 0x1_0000_0000 + n,
        route.region_routes@[i].leader_peer matches Some(p) && p.id == datanode.id && p.addr@
            == datanode.addr@,
    ensures
        res@.contains(n),
        route.region_routes@.len() == 1 ==> res@ == seq![n],
{
    let routes = route.region_routes@;
    law_found_regions(route, datanode, res);
    let p = |r: RegionRoute|
        r.leader_peer is Some && r.leader_peer->0.id == datanode.id && r.leader_peer->0.addr@
            == datanode.addr@;
    let led = routes.filter(p);
    routes.filter_lemma(p);
    assert(p(routes[i]));
    assert(led.contains(routes[i]));
    let j = choose|j: int| 0 <= j < led.len() && led[j] == routes[i];
    assert(res@[j] as int == led[j].region.id as int % 0x1_0000_0000);
    assert((t * 0x1_0000_0000 + n) % 0x1_0000_0000 == n);
    assert(res@[j] == n);
    if routes.len() == 1 {
        routes.lemma_filter_len(p);
        assert(res@ =~= seq![n]);
    }
}

} // verus!
