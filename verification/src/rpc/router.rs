//! Where the regions of a table are served.

use vstd::prelude::*;

use crate::error::{corrupted, outcome, route_info_corrupted, ErrorView, MetaError};
use crate::pb;
use crate::peer::{Peer, PeerView};
use crate::rpc::peers::{
    find_peer, insert_distinct, into_sorted_messages, points_at, sorted_by_id,
};
use crate::rpc::region::{RegionView, TableView};

pub use crate::rpc::region::{Partition, Region, Table};
pub use crate::rpc::request::{CreateRequest, DeleteRequest, RouteRequest};
pub use crate::rpc::response::RouteResponse;

verus! {

/// Where a region is served: by the leader for writes, by followers for reads.
#[derive(Debug, Clone, PartialEq)]
pub struct RegionRoute {
    pub region: Region,
    pub leader_peer: Option<Peer>,
    pub follower_peers: Vec<Peer>,
}

pub struct RegionRouteView {
    pub region: RegionView,
    pub leader_peer: Option<PeerView>,
    pub follower_peers: Seq<PeerView>,
}

impl View for RegionRoute {
    type V = RegionRouteView;

    open spec fn view(&self) -> RegionRouteView {
        RegionRouteView {
            region: self.region@,
            leader_peer: self.leader_peer.deep_view(),
            follower_peers: self.follower_peers.deep_view(),
        }
    }
}

impl DeepView for RegionRoute {
    type V = RegionRouteView;

    open spec fn deep_view(&self) -> RegionRouteView {
        self@
    }
}

impl Default for RegionRoute {
    fn default() -> (res: Self)
        ensures
            res@ == (RegionRouteView {
                region: RegionView::unset(),
                leader_peer: None,
                follower_peers: Seq::empty(),
            }),
            res.region.attrs@ == Map::<String, String>::empty(),
    {
        let res = RegionRoute {
            region: Region::default(),
            leader_peer: None,
            follower_peers: Vec::new(),
        };
        assert(res@.follower_peers =~= Seq::empty());
        res
    }
}

/// Where each region of a table is served.
#[derive(Debug, Clone, PartialEq)]
pub struct TableRoute {
    pub table: Table,
    pub region_routes: Vec<RegionRoute>,
}

pub struct TableRouteView {
    pub table: TableView,
    pub region_routes: Seq<RegionRouteView>,
}

impl View for TableRoute {
    type V = TableRouteView;

    open spec fn view(&self) -> TableRouteView {
        TableRouteView { table: self.table@, region_routes: self.region_routes.deep_view() }
    }
}

impl DeepView for TableRoute {
    type V = TableRouteView;

    open spec fn deep_view(&self) -> TableRouteView {
        self@
    }
}

/// The peer that `index` stands for, if there is one. The index is taken as a
/// `usize`, as the indexes of a list are.
pub open spec fn peer_at(peers: Seq<PeerView>, index: u64) -> Option<PeerView> {
    let position = (index as usize) as int;
    if position < peers.len() {
        Some(peers[position])
    } else {
        None
    }
}

impl RegionRouteView {
    /// The region route that a raw one stands for, given what its indexes point
    /// at. An index that points past the last peer stands for no peer: such a
    /// leader is unknown, and such a follower is left out.
    pub open spec fn from_raw(peers: Seq<PeerView>, raw: pb::RegionRouteView) -> Self
        recommends
            raw.region is Some,
    {
        RegionRouteView {
            region: raw.region->0,
            leader_peer: peer_at(peers, raw.leader_peer_index),
            follower_peers: raw.follower_peer_indexes.filter_map(
                |index: u64| peer_at(peers, index),
            ),
        }
    }
}

impl TableRouteView {
    /// The table route that a raw one stands for. The raw one must hold a table,
    /// that table's name, and the region of each of its region routes.
    pub open spec fn from_raw(peers: Seq<PeerView>, raw: pb::TableRouteView) -> Result<
        Self,
        ErrorView,
    > {
        match raw.table {
            None => Err(corrupted("'table' is empty in table route"@)),
            Some(table) => match TableView::from_message(table) {
                Err(error) => Err(error),
                Ok(table) => if exists|i: int|
                    0 <= i < raw.region_routes.len() && (#[trigger] raw.region_routes[i]).region
                        is None {
                    Err(corrupted("'region' is empty in region route"@))
                } else {
                    Ok(
                        TableRouteView {
                            table,
                            region_routes: raw.region_routes.map_values(
                                |route: pb::RegionRouteView|
                                    RegionRouteView::from_raw(peers, route),
                            ),
                        },
                    )
                },
            },
        }
    }
}

/// The number that a region has within its table: the lower half of its
/// identifier.
pub open spec fn region_number(id: u64) -> u32 {
    (id % 0x1_0000_0000) as u32
}

impl TableRouteView {
    /// `peer` leads a region.
    pub open spec fn leads(self, peer: PeerView) -> bool {
        exists|i: int|
            0 <= i < self.region_routes.len() && (#[trigger] self.region_routes[i]).leader_peer
                == Some(peer)
    }

    /// `peer` follows a region.
    pub open spec fn follows(self, peer: PeerView) -> bool {
        exists|i: int|
            0 <= i < self.region_routes.len() && (
            #[trigger] self.region_routes[i]).follower_peers.contains(peer)
    }

    /// `peer` leads or follows a region.
    pub open spec fn serves(self, peer: PeerView) -> bool {
        self.leads(peer) || self.follows(peer)
    }

    /// Every region has a leader.
    pub open spec fn all_led(self) -> bool {
        forall|i: int|
            0 <= i < self.region_routes.len() ==> (#[trigger] self.region_routes[i]).leader_peer
                is Some
    }

    /// The numbers of the regions that `peer` leads, in the order of the routes.
    pub open spec fn led_by(self, peer: PeerView) -> Seq<u32> {
        self.region_routes.filter_map(
            |route: RegionRouteView|
                if route.leader_peer == Some(peer) {
                    Some(region_number(route.region.id))
                } else {
                    None
                },
        )
    }

    /// `peers` and `raw` are a raw form of this table route: `peers` lists the
    /// peers that serve the table, each once and in the order of their
    /// identifiers, and `raw` gives every leader and follower by the first
    /// index at which `peers` has that identifier.
    pub open spec fn has_raw_form(self, peers: Seq<PeerView>, raw: pb::TableRouteView) -> bool {
        &&& peers.no_duplicates()
        &&& sorted_by_id(peers)
        &&& forall|p: PeerView|
            #![trigger peers.contains(p)]
            #![trigger self.serves(p)]
            peers.contains(p) <==> self.serves(p)
        &&& raw.table == Some(self.table.message())
        &&& raw.region_routes.len() == self.region_routes.len()
        &&& forall|i: int|
            0 <= i < self.region_routes.len() ==> (#[trigger] self.region_routes[i]).has_raw_form(
                peers,
                raw.region_routes[i],
            )
    }
}

impl RegionRouteView {
    /// `raw` is this region route, with its peers given by their first index in
    /// `peers`.
    pub open spec fn has_raw_form(self, peers: Seq<PeerView>, raw: pb::RegionRouteView) -> bool {
        &&& raw.region == Some(self.region)
        &&& self.leader_peer is Some
        &&& points_at(peers, raw.leader_peer_index, self.leader_peer->0.id)
        &&& raw.follower_peer_indexes.len() == self.follower_peers.len()
        &&& forall|i: int|
            0 <= i < self.follower_peers.len() ==> points_at(
                peers,
                #[trigger] raw.follower_peer_indexes[i],
                self.follower_peers[i].id,
            )
    }
}

/// The peer that `index` stands for, if there is one.
fn find_by_index(peers: &[pb::Peer], index: u64) -> (res: Option<Peer>)
    ensures
        res.deep_view() == peer_at(peers.deep_view(), index),
{
    let position: usize = index as usize;
    if position < peers.len() {
        Some(Peer::from(peers[position].clone()))
    } else {
        None
    }
}

/// The peers that `indexes` stand for, in that order.
fn find_by_indexes(peers: &[pb::Peer], indexes: &Vec<u64>) -> (res: Vec<Peer>)
    ensures
        res.deep_view() == indexes@.filter_map(|index: u64| peer_at(peers.deep_view(), index)),
{
    let mut res: Vec<Peer> = Vec::new();
    let ghost pick = |index: u64| peer_at(peers.deep_view(), index);
    assert(res.deep_view() =~= indexes@.take(0).filter_map(pick));
    for i in 0..indexes.len()
        invariant
            pick == (|index: u64| peer_at(peers.deep_view(), index)),
            res.deep_view() == indexes@.take(i as int).filter_map(pick),
    {
        let ghost before = res.deep_view();
        proof {
            indexes@.lemma_filter_map_take_succ(pick, i as int);
        }
        if let Some(peer) = find_by_index(peers, indexes[i]) {
            res.push(peer);
            assert(res.deep_view() =~= before.push(peer@));
        }
    }
    assert(indexes@.take(indexes.len() as int) =~= indexes@);
    res
}

impl TableRoute {
    /// Reads a raw table route, in which peers are given by their index in `peers`.
    pub fn try_from_raw(peers: &[pb::Peer], table_route: pb::TableRoute) -> (res: Result<
        Self,
        MetaError,
    >)
        ensures
            outcome(res) == TableRouteView::from_raw(peers.deep_view(), table_route@),
    {
        let ghost raw = table_route@;
        let table = match table_route.table {
            Some(table) => match Table::try_from(table) {
                Ok(table) => table,
                Err(error) => return Err(error),
            },
            None => return Err(route_info_corrupted("'table' is empty in table route")),
        };

        let mut region_routes: Vec<RegionRoute> = Vec::with_capacity(
            table_route.region_routes.len(),
        );
        for region_route in it: table_route.region_routes.into_iter()
            invariant
                raw == table_route@,
                raw.table is Some,
                TableView::from_message(raw.table->0) == Ok::<_, ErrorView>(table@),
                raw.region_routes.len() == it.seq().len(),
                forall|i: int| 0 <= i < it.seq().len() ==> raw.region_routes[i] == (
                #[trigger] it.seq()[i])@,
                region_routes.len() == it.index(),
                forall|i: int|
                    0 <= i < it.index() ==> {
                        &&& (#[trigger] raw.region_routes[i]).region is Some
                        &&& region_routes[i]@ == RegionRouteView::from_raw(
                            peers.deep_view(),
                            raw.region_routes[i],
                        )
                    },
        {
            assert(raw.region_routes[it.index() as int] == region_route@);
            let region = match region_route.region {
                Some(region) => Region::from(region),
                None => return Err(route_info_corrupted("'region' is empty in region route")),
            };
            let leader_peer = find_by_index(peers, region_route.leader_peer_index);
            let follower_peers = find_by_indexes(peers, &region_route.follower_peer_indexes);
            region_routes.push(RegionRoute { region, leader_peer, follower_peers });
        }
        assert(region_routes.deep_view() =~= raw.region_routes.map_values(
            |route: pb::RegionRouteView| RegionRouteView::from_raw(peers.deep_view(), route),
        ));
        Ok(TableRoute { table, region_routes })
    }

    /// Writes the raw table route, in which peers are given by their index in the
    /// list that comes with it. Every region must have a leader.
    pub fn try_into_raw(self) -> (res: Result<(Vec<pb::Peer>, pb::TableRoute), MetaError>)
        ensures
            res is Ok <==> self@.all_led(),
            match res {
                Ok((peers, raw)) => self@.has_raw_form(peers.deep_view(), raw@),
                Err(error) => error@ == corrupted("'leader_peer' is empty in region route"@),
            },
    {
        let ghost route = self@;
        let mut peers: Vec<Peer> = self.find_leaders();
        self.add_followers(&mut peers);
        let peers: Vec<pb::Peer> = into_sorted_messages(peers);

        let mut region_routes: Vec<pb::RegionRoute> = Vec::with_capacity(self.region_routes.len());
        for region_route in it: self.region_routes.into_iter()
            invariant
                route == self@,
                forall|p: PeerView|
                    #![trigger peers.deep_view().contains(p)]
                    peers.deep_view().contains(p) <==> route.serves(p),
                route.region_routes.len() == it.seq().len(),
                forall|i: int| 0 <= i < it.seq().len() ==> route.region_routes[i] == (
                #[trigger] it.seq()[i])@,
                region_routes.len() == it.index(),
                forall|i: int|
                    0 <= i < it.index() ==> (#[trigger] route.region_routes[i]).has_raw_form(
                        peers.deep_view(),
                        region_routes[i]@,
                    ),
        {
            let ghost n = it.index() as int;
            assert(route.region_routes[n] == region_route@);
            let leader_peer_index = match region_route.leader_peer {
                Some(leader) => {
                    assert(route.leads(leader@));
                    assert(peers.deep_view().contains(leader@));
                    find_peer(&peers, leader.id)
                },
                None => return Err(route_info_corrupted("'leader_peer' is empty in region route")),
            };

            let mut follower_peer_indexes: Vec<u64> = Vec::new();
            for i in 0..region_route.follower_peers.len()
                invariant
                    forall|p: PeerView|
                        region_route.follower_peers.deep_view().contains(p)
                            ==> #[trigger] peers.deep_view().contains(p),
                    follower_peer_indexes.len() == i,
                    forall|j: int|
                        0 <= j < i ==> points_at(
                            peers.deep_view(),
                            #[trigger] follower_peer_indexes[j],
                            region_route.follower_peers[j].id,
                        ),
            {
                let follower = &region_route.follower_peers[i];
                assert(region_route.follower_peers.deep_view()[i as int] == follower@);
                assert(peers.deep_view().contains(follower@));
                follower_peer_indexes.push(find_peer(&peers, follower.id));
            }
            region_routes.push(
                pb::RegionRoute {
                    region: Some(pb::Region::from(region_route.region)),
                    leader_peer_index,
                    follower_peer_indexes,
                },
            );
        }
        let table_route = pb::TableRoute {
            table: Some(pb::Table::from(self.table)),
            region_routes,
        };
        Ok((peers, table_route))
    }

    /// The peers that lead a region of the table, each once.
    pub fn find_leaders(&self) -> (res: Vec<Peer>)
        ensures
            res.deep_view().no_duplicates(),
            forall|p: PeerView|
                #![trigger res.deep_view().contains(p)]
                #![trigger self@.leads(p)]
                res.deep_view().contains(p) <==> self@.leads(p),
    {
        let mut leaders: Vec<Peer> = Vec::new();
        for n in 0..self.region_routes.len()
            invariant
                leaders.deep_view().no_duplicates(),
                forall|p: PeerView| #[trigger]
                    leaders.deep_view().contains(p) <==> exists|i: int|
                        0 <= i < n && (#[trigger] self@.region_routes[i]).leader_peer == Some(p),
        {
            let ghost before = leaders.deep_view();
            assert(self@.region_routes[n as int] == self.region_routes[n as int]@);
            if let Some(leader) = &self.region_routes[n].leader_peer {
                insert_distinct(&mut leaders, leader);
            }
            assert forall|p: PeerView| #[trigger]
                leaders.deep_view().contains(p) <==> exists|i: int|
                    0 <= i < n + 1 && (#[trigger] self@.region_routes[i]).leader_peer == Some(
                        p,
                    ) by {
                assert(before.contains(p) ==> leaders.deep_view().contains(p));
                if leaders.deep_view().contains(p) && !before.contains(p) {
                    assert(self@.region_routes[n as int].leader_peer == Some(p));
                }
            }
        }
        leaders
    }

    /// Adds the peers that follow a region of the table, unless they are there already.
    fn add_followers(&self, peers: &mut Vec<Peer>)
        requires
            old(peers).deep_view().no_duplicates(),
        ensures
            final(peers).deep_view().no_duplicates(),
            forall|p: PeerView|
                #![trigger final(peers).deep_view().contains(p)]
                final(peers).deep_view().contains(p) <==> old(peers).deep_view().contains(p)
                    || self@.follows(p),
    {
        let ghost start = peers.deep_view();
        for n in 0..self.region_routes.len()
            invariant
                peers.deep_view().no_duplicates(),
                forall|p: PeerView| #[trigger]
                    peers.deep_view().contains(p) <==> start.contains(p) || exists|i: int|
                        0 <= i < n && (
                        #[trigger] self@.region_routes[i]).follower_peers.contains(p),
        {
            let ghost before = peers.deep_view();
            let follower_peers = &self.region_routes[n].follower_peers;
            let ghost followers = self@.region_routes[n as int].follower_peers;
            for k in 0..follower_peers.len()
                invariant
                    followers == follower_peers.deep_view(),
                    peers.deep_view().no_duplicates(),
                    forall|p: PeerView| #[trigger]
                        peers.deep_view().contains(p) <==> before.contains(p) || exists|j: int|
                            0 <= j < k && #[trigger] followers[j] == p,
            {
                let ghost inner = peers.deep_view();
                insert_distinct(peers, &follower_peers[k]);
                assert forall|p: PeerView| #[trigger]
                    peers.deep_view().contains(p) <==> before.contains(p) || exists|j: int|
                        0 <= j < k + 1 && #[trigger] followers[j] == p by {
                    assert(inner.contains(p) ==> peers.deep_view().contains(p));
                    assert(followers[k as int] == follower_peers[k as int]@);
                }
            }
            assert forall|p: PeerView| #[trigger]
                peers.deep_view().contains(p) <==> start.contains(p) || exists|i: int|
                    0 <= i < n + 1 && (
                    #[trigger] self@.region_routes[i]).follower_peers.contains(p) by {
                if followers.contains(p) {
                    assert(self@.region_routes[n as int].follower_peers.contains(p));
                }
            }
        }
    }

    /// The numbers of the regions that `datanode` leads, in the order of the routes.
    pub fn find_leader_regions(&self, datanode: &Peer) -> (res: Vec<u32>)
        ensures
            res@ == self@.led_by(datanode@),
    {
        let mut numbers: Vec<u32> = Vec::new();
        let ghost routes = self@.region_routes;
        let ghost pick = |route: RegionRouteView|
            if route.leader_peer == Some(datanode@) {
                Some(region_number(route.region.id))
            } else {
                None
            };
        assert(numbers@ =~= routes.take(0).filter_map(pick));
        for n in 0..self.region_routes.len()
            invariant
                routes == self@.region_routes,
                pick == (|route: RegionRouteView|
                    if route.leader_peer == Some(datanode@) {
                        Some(region_number(route.region.id))
                    } else {
                        None
                    }),
                numbers@ == routes.take(n as int).filter_map(pick),
        {
            let region_route = &self.region_routes[n];
            proof {
                assert(routes[n as int] == region_route@);
                routes.lemma_filter_map_take_succ(pick, n as int);
            }
            if let Some(leader) = &region_route.leader_peer {
                if *leader == *datanode {
                    let id = region_route.region.id;
                    assert(id as u32 == (id % 0x1_0000_0000) as u32) by (bit_vector);
                    numbers.push(#[verifier::truncate] (id as u32));
                }
            }
        }
        assert(routes.take(routes.len() as int) =~= routes);
        numbers
    }
}

} // verus!
