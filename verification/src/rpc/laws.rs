//! What holds of routes, of their raw forms and of messages as a whole.

use vstd::prelude::*;
use vstd::std_specs::convert::FromSpec;
use vstd::utf8::encode_utf8;

use crate::error::ErrorView;
use crate::pb;
use crate::peer::{Peer, PeerView};
use crate::rpc::peers::points_at;
use crate::rpc::region::{Partition, Region, Table, TableView};
use crate::rpc::response::{collected, first_error_at, RouteResponseView};
use crate::rpc::router::{peer_at, region_number, RegionRouteView, TableRouteView};
use crate::rpc::text::text_of;
use crate::rpc::util::header_error;
use crate::table_name::TableName;

verus! {

impl TableRouteView {
    /// No two peers that serve the table share an identifier.
    pub open spec fn ids_identify_peers(self) -> bool {
        forall|p: PeerView, q: PeerView| #[trigger]
            self.serves(p) && #[trigger] self.serves(q) && p.id == q.id ==> p == q
    }

    /// The two routes differ in nothing but the addresses of peers.
    pub open spec fn same_but_addresses(self, other: Self) -> bool {
        &&& self.table == other.table
        &&& self.region_routes.len() == other.region_routes.len()
        &&& forall|i: int|
            0 <= i < self.region_routes.len() ==> (
            #[trigger] self.region_routes[i]).same_but_addresses(other.region_routes[i])
    }
}

impl RegionRouteView {
    /// The two routes differ in nothing but the addresses of peers.
    pub open spec fn same_but_addresses(self, other: Self) -> bool {
        &&& self.region == other.region
        &&& match (self.leader_peer, other.leader_peer) {
            (Some(p), Some(q)) => p.id == q.id,
            (None, None) => true,
            _ => false,
        }
        &&& self.follower_peers.len() == other.follower_peers.len()
        &&& forall|i: int|
            0 <= i < self.follower_peers.len() ==> (#[trigger] self.follower_peers[i]).id
                == other.follower_peers[i].id
    }
}

/// `index` stands for a peer of `peers`.
pub open spec fn in_range(peers: Seq<PeerView>, index: u64) -> bool {
    index < peers.len()
}

/// A region route of `raw` gives its leader or a follower by `index`.
pub open spec fn mentions(raw: pb::TableRouteView, index: u64) -> bool {
    exists|i: int|
        0 <= i < raw.region_routes.len() && {
            ||| (#[trigger] raw.region_routes[i]).leader_peer_index == index
            ||| raw.region_routes[i].follower_peer_indexes.contains(index)
        }
}

/// `peers` and `raw` are as they are written: all parts are there, identifiers
/// increase, every index stands for a peer, and every peer is mentioned.
pub open spec fn canonical(peers: Seq<PeerView>, raw: pb::TableRouteView) -> bool {
    &&& raw.table is Some
    &&& raw.table->0.table_name is Some
    &&& forall|i: int, j: int| 0 <= i < j < peers.len() ==> peers[i].id < peers[j].id
    &&& forall|i: int|
        0 <= i < raw.region_routes.len() ==> {
            &&& (#[trigger] raw.region_routes[i]).region is Some
            &&& in_range(peers, raw.region_routes[i].leader_peer_index)
            &&& forall|j: int|
                0 <= j < raw.region_routes[i].follower_peer_indexes.len() ==> in_range(
                    peers,
                    #[trigger] raw.region_routes[i].follower_peer_indexes[j],
                )
        }
    &&& forall|k: u64| #[trigger] in_range(peers, k) ==> mentions(raw, k)
}

/// Where `f` gives a value for every element, `filter_map` maps.
proof fn lemma_filter_map_total<A, B>(s: Seq<A>, f: spec_fn(A) -> Option<B>)
    requires
        forall|i: int| 0 <= i < s.len() ==> f(#[trigger] s[i]) is Some,
    ensures
        s.filter_map(f) == s.map_values(|a: A| f(a)->0),
    decreases s.len(),
{
    let g = |a: A| f(a)->0;
    if s.len() > 0 {
        let n = s.len() - 1;
        let t = s.drop_last();
        assert forall|i: int| 0 <= i < t.len() implies f(#[trigger] t[i]) is Some by {
            assert(t[i] == s[i]);
        }
        lemma_filter_map_total(t, f);
        s.lemma_filter_map_take_succ(f, n);
        assert(s.take(n + 1) =~= s);
        assert(s.take(n) =~= t);
        assert(f(s[n]) is Some);
    }
    assert(s.filter_map(f) =~= s.map_values(g));
}

/// What `filter_map` gives are the values that `f` gives.
proof fn lemma_filter_map_members<A, B>(s: Seq<A>, f: spec_fn(A) -> Option<B>, b: B)
    ensures
        s.filter_map(f).contains(b) <==> exists|i: int|
            0 <= i < s.len() && f(#[trigger] s[i]) == Some(b),
    decreases s.len(),
{
    if s.len() > 0 {
        let n = s.len() - 1;
        let t = s.drop_last();
        let picked = t.filter_map(f);
        lemma_filter_map_members(t, f, b);
        if picked.contains(b) {
            let i = choose|i: int| 0 <= i < t.len() && f(#[trigger] t[i]) == Some(b);
            assert(f(s[i]) == Some(b));
            let k = choose|k: int| 0 <= k < picked.len() && picked[k] == b;
            assert(s.filter_map(f)[k] == b);
        }
        if f(s[n]) == Some(b) {
            assert(s.filter_map(f)[picked.len() as int] == b);
        }
        if exists|i: int| 0 <= i < s.len() && f(#[trigger] s[i]) == Some(b) {
            let i = choose|i: int| 0 <= i < s.len() && f(#[trigger] s[i]) == Some(b);
            if i < n {
                assert(f(t[i]) == Some(b));
            }
        }
    }
}

/// What the region route that is read back from a raw form holds.
proof fn lemma_read_back(
    route: RegionRouteView,
    peers: Seq<PeerView>,
    raw: pb::RegionRouteView,
)
    requires
        route.has_raw_form(peers, raw),
        peers.len() <= usize::MAX,
    ensures
        ({
            let read = RegionRouteView::from_raw(peers, raw);
            &&& read.region == route.region
            &&& read.leader_peer == Some(peers[raw.leader_peer_index as int])
            &&& read.follower_peers.len() == route.follower_peers.len()
            &&& forall|j: int|
                0 <= j < route.follower_peers.len() ==> #[trigger] read.follower_peers[j]
                    == peers[raw.follower_peer_indexes[j] as int]
            &&& route.same_but_addresses(read)
        }),
{
    let f = |index: u64| peer_at(peers, index);
    assert forall|j: int| 0 <= j < raw.follower_peer_indexes.len() implies f(
        #[trigger] raw.follower_peer_indexes[j],
    ) is Some by {
        assert(points_at(peers, raw.follower_peer_indexes[j], route.follower_peers[j].id));
    }
    lemma_filter_map_total(raw.follower_peer_indexes, f);
    assert forall|j: int| 0 <= j < route.follower_peers.len() implies #[trigger] RegionRouteView::from_raw(
        peers,
        raw,
    ).follower_peers[j] == peers[raw.follower_peer_indexes[j] as int] by {
        assert(points_at(peers, raw.follower_peer_indexes[j], route.follower_peers[j].id));
    }
}

/// A raw form is always read back, and nothing but addresses can differ from
/// the route that was written. It is read back as that very route exactly where
/// no two of its peers share an identifier.
pub proof fn law_raw_form_reads_back(
    route: TableRouteView,
    peers: Seq<PeerView>,
    raw: pb::TableRouteView,
)
    requires
        route.has_raw_form(peers, raw),
        peers.len() <= usize::MAX,
    ensures
        TableRouteView::from_raw(peers, raw) is Ok,
        route.same_but_addresses(TableRouteView::from_raw(peers, raw)->Ok_0),
        TableRouteView::from_raw(peers, raw) == Ok::<_, ErrorView>(route)
            <==> route.ids_identify_peers(),
{
    assert forall|i: int| 0 <= i < raw.region_routes.len() implies (
    #[trigger] raw.region_routes[i]).region is Some by {
        assert(route.region_routes[i].has_raw_form(peers, raw.region_routes[i]));
    }
    let read = TableRouteView::from_raw(peers, raw)->Ok_0;
    assert forall|i: int| 0 <= i < route.region_routes.len() implies (
    #[trigger] route.region_routes[i]).same_but_addresses(read.region_routes[i]) by {
        lemma_read_back(route.region_routes[i], peers, raw.region_routes[i]);
    }
    if route.ids_identify_peers() {
        assert forall|i: int| 0 <= i < route.region_routes.len() implies read.region_routes[i]
            == #[trigger] route.region_routes[i] by {
            let ours = route.region_routes[i];
            let theirs = read.region_routes[i];
            lemma_read_back(ours, peers, raw.region_routes[i]);
            assert(route.leads(ours.leader_peer->0));
            assert(peers.contains(theirs.leader_peer->0));
            assert(route.serves(ours.leader_peer->0) && route.serves(theirs.leader_peer->0));
            assert forall|j: int| 0 <= j < ours.follower_peers.len() implies theirs.follower_peers[j]
                == #[trigger] ours.follower_peers[j] by {
                let p = ours.follower_peers[j];
                let q = theirs.follower_peers[j];
                assert(points_at(
                    peers,
                    raw.region_routes[i].follower_peer_indexes[j],
                    ours.follower_peers[j].id,
                ));
                assert(ours.follower_peers.contains(p));
                assert(route.follows(p));
                assert(peers.contains(q));
                assert(route.serves(p) && route.serves(q));
            }
            assert(theirs.follower_peers =~= ours.follower_peers);
        }
        assert(read.region_routes =~= route.region_routes);
    }
    if read == route {
        assert forall|p: PeerView, q: PeerView| #[trigger]
            route.serves(p) && #[trigger] route.serves(q) && p.id == q.id implies p == q by {
            let a = lemma_written_index(route, peers, raw, p);
            let b = lemma_written_index(route, peers, raw, q);
            assert(a == b) by {
                if a < b {
                    assert(peers[a as int].id != q.id);
                }
                if b < a {
                    assert(peers[b as int].id != p.id);
                }
            }
        }
    }
}

/// Where a raw form is read back as the route that was written, every peer that
/// serves the table stands at the index by which it was written.
proof fn lemma_written_index(
    route: TableRouteView,
    peers: Seq<PeerView>,
    raw: pb::TableRouteView,
    p: PeerView,
) -> (index: u64)
    requires
        route.has_raw_form(peers, raw),
        peers.len() <= usize::MAX,
        TableRouteView::from_raw(peers, raw) == Ok::<_, ErrorView>(route),
        route.serves(p),
    ensures
        points_at(peers, index, p.id),
        peers[index as int] == p,
        mentions(raw, index),
{
    if route.leads(p) {
        let i = choose|i: int|
            0 <= i < route.region_routes.len() && (#[trigger] route.region_routes[i]).leader_peer
                == Some(p);
        assert(route.region_routes[i].has_raw_form(peers, raw.region_routes[i]));
        lemma_read_back(route.region_routes[i], peers, raw.region_routes[i]);
        raw.region_routes[i].leader_peer_index
    } else {
        let i = choose|i: int|
            0 <= i < route.region_routes.len() && (
            #[trigger] route.region_routes[i]).follower_peers.contains(p);
        let ours = route.region_routes[i];
        let theirs = raw.region_routes[i];
        let j = choose|j: int| 0 <= j < ours.follower_peers.len() && ours.follower_peers[j] == p;
        assert(ours.has_raw_form(peers, theirs));
        lemma_read_back(ours, peers, theirs);
        assert(points_at(peers, theirs.follower_peer_indexes[j], ours.follower_peers[j].id));
        assert(RegionRouteView::from_raw(peers, theirs) == ours);
        assert(RegionRouteView::from_raw(peers, theirs).follower_peers[j]
            == peers[theirs.follower_peer_indexes[j] as int]);
        assert(theirs.follower_peer_indexes.contains(theirs.follower_peer_indexes[j]));
        theirs.follower_peer_indexes[j]
    }
}

/// Lists of peers with increasing identifiers and the same members are equal.
proof fn lemma_same_members(a: Seq<PeerView>, b: Seq<PeerView>)
    requires
        forall|i: int, j: int| 0 <= i < j < a.len() ==> a[i].id < a[j].id,
        forall|i: int, j: int| 0 <= i < j < b.len() ==> b[i].id < b[j].id,
        forall|p: PeerView| #[trigger] a.contains(p) <==> b.contains(p),
    ensures
        a == b,
    decreases a.len(),
{
    if a.len() == 0 {
        if b.len() > 0 {
            assert(b.contains(b[0]));
            assert(a.contains(b[0]));
        }
        assert(a =~= b);
    } else {
        let x = a.last();
        assert(a.contains(x));
        let j = choose|j: int| 0 <= j < b.len() && b[j] == x;
        let y = b.last();
        assert(b.contains(y));
        assert(a.contains(y));
        let i = choose|i: int| 0 <= i < a.len() && a[i] == y;
        assert(x == y);
        let s = a.drop_last();
        let t = b.drop_last();
        assert forall|p: PeerView| #[trigger] s.contains(p) <==> t.contains(p) by {
            if s.contains(p) {
                let k = choose|k: int| 0 <= k < s.len() && s[k] == p;
                assert(a[k] == p);
                assert(a.contains(p));
                let l = choose|l: int| 0 <= l < b.len() && b[l] == p;
                assert(t[l] == p);
            }
            if t.contains(p) {
                let k = choose|k: int| 0 <= k < t.len() && t[k] == p;
                assert(b[k] == p);
                assert(b.contains(p) && a.contains(p));
                let l = choose|l: int| 0 <= l < a.len() && a[l] == p;
                assert(s[l] == p);
            }
        }
        lemma_same_members(s, t);
        assert(a =~= s.push(x));
        assert(b =~= t.push(x));
    }
}

/// In a raw form of a route whose peers have identifiers of their own, these
/// increase.
proof fn lemma_ids_increase(route: TableRouteView, peers: Seq<PeerView>, raw: pb::TableRouteView)
    requires
        route.has_raw_form(peers, raw),
        route.ids_identify_peers(),
    ensures
        forall|i: int, j: int| 0 <= i < j < peers.len() ==> peers[i].id < peers[j].id,
{
    assert forall|i: int, j: int| 0 <= i < j < peers.len() implies peers[i].id < peers[j].id by {
        assert(peers.contains(peers[i]) && peers.contains(peers[j]));
        assert(route.serves(peers[i]) && route.serves(peers[j]));
        assert(peers[i] != peers[j]);
    }
}

/// A route whose peers have identifiers of their own has no more than one raw
/// form.
pub proof fn law_raw_form_is_unique(
    route: TableRouteView,
    peers1: Seq<PeerView>,
    raw1: pb::TableRouteView,
    peers2: Seq<PeerView>,
    raw2: pb::TableRouteView,
)
    requires
        route.ids_identify_peers(),
        route.has_raw_form(peers1, raw1),
        route.has_raw_form(peers2, raw2),
    ensures
        peers1 == peers2,
        raw1 == raw2,
{
    lemma_ids_increase(route, peers1, raw1);
    lemma_ids_increase(route, peers2, raw2);
    assert forall|p: PeerView| #[trigger] peers1.contains(p) <==> peers2.contains(p) by {
        assert(peers1.contains(p) <==> route.serves(p));
    }
    lemma_same_members(peers1, peers2);
    assert forall|i: int| 0 <= i < raw1.region_routes.len() implies raw1.region_routes[i]
        == raw2.region_routes[i] by {
        let ours = route.region_routes[i];
        let a = raw1.region_routes[i];
        let b = raw2.region_routes[i];
        assert(ours.has_raw_form(peers1, a));
        assert(ours.has_raw_form(peers2, b));
        lemma_first_index(peers1, a.leader_peer_index, b.leader_peer_index, ours.leader_peer->0.id);
        assert forall|j: int| 0 <= j < a.follower_peer_indexes.len() implies a.follower_peer_indexes[j]
            == b.follower_peer_indexes[j] by {
            lemma_first_index(
                peers1,
                a.follower_peer_indexes[j],
                b.follower_peer_indexes[j],
                ours.follower_peers[j].id,
            );
        }
        assert(a.follower_peer_indexes =~= b.follower_peer_indexes);
    }
    assert(raw1.region_routes =~= raw2.region_routes);
}

/// There is one first place.
proof fn lemma_first_index(peers: Seq<PeerView>, a: u64, b: u64, id: u64)
    requires
        points_at(peers, a, id),
        points_at(peers, b, id),
    ensures
        a == b,
{
    if a < b {
        assert(peers[a as int].id != id);
    }
    if b < a {
        assert(peers[b as int].id != id);
    }
}

/// A raw table route that is read and written again comes out as it went in
/// exactly where it is canonical; there is then nothing else that it can come
/// out as.
pub proof fn law_canonical_raw_form_is_kept(peers: Seq<PeerView>, raw: pb::TableRouteView)
    requires
        peers.len() <= usize::MAX,
    ensures
        canonical(peers, raw) <==> {
            &&& TableRouteView::from_raw(peers, raw) is Ok
            &&& TableRouteView::from_raw(peers, raw)->Ok_0.has_raw_form(peers, raw)
        },
        canonical(peers, raw) ==> forall|peers2: Seq<PeerView>, raw2: pb::TableRouteView|
            TableRouteView::from_raw(peers, raw)->Ok_0.has_raw_form(peers2, raw2) ==> peers2
                == peers && raw2 == raw,
{
    let read = TableRouteView::from_raw(peers, raw);
    if canonical(peers, raw) {
        lemma_canonical_is_raw_form(peers, raw);
        let route = read->Ok_0;
        assert(read == Ok::<_, ErrorView>(route));
        law_raw_form_reads_back(route, peers, raw);
        assert forall|peers2: Seq<PeerView>, raw2: pb::TableRouteView| route.has_raw_form(
            peers2,
            raw2,
        ) implies peers2 == peers && raw2 == raw by {
            law_raw_form_is_unique(route, peers, raw, peers2, raw2);
        }
    }
    if read is Ok && read->Ok_0.has_raw_form(peers, raw) {
        let route = read->Ok_0;
        assert(read == Ok::<_, ErrorView>(route));
        law_raw_form_reads_back(route, peers, raw);
        lemma_ids_increase(route, peers, raw);
        assert forall|i: int| 0 <= i < raw.region_routes.len() implies {
            &&& (#[trigger] raw.region_routes[i]).region is Some
            &&& in_range(peers, raw.region_routes[i].leader_peer_index)
            &&& forall|j: int|
                0 <= j < raw.region_routes[i].follower_peer_indexes.len() ==> in_range(
                    peers,
                    #[trigger] raw.region_routes[i].follower_peer_indexes[j],
                )
        } by {
            let ours = route.region_routes[i];
            assert(ours.has_raw_form(peers, raw.region_routes[i]));
            assert forall|j: int|
                0 <= j < raw.region_routes[i].follower_peer_indexes.len() implies in_range(
                peers,
                #[trigger] raw.region_routes[i].follower_peer_indexes[j],
            ) by {
                assert(points_at(
                    peers,
                    raw.region_routes[i].follower_peer_indexes[j],
                    ours.follower_peers[j].id,
                ));
            }
        }
        assert forall|k: u64| #[trigger] in_range(peers, k) implies mentions(raw, k) by {
            let p = peers[k as int];
            assert(peers.contains(p));
            assert(route.serves(p));
            let index = lemma_written_index(route, peers, raw, p);
            assert(index == k) by {
                if index < k {
                    assert(peers[index as int].id < peers[k as int].id);
                }
                if k < index {
                    assert(peers[k as int].id < peers[index as int].id);
                }
            }
        }
        assert(canonical(peers, raw));
    }
}

/// What a canonical raw table route stands for has it as a raw form.
proof fn lemma_canonical_is_raw_form(peers: Seq<PeerView>, raw: pb::TableRouteView)
    requires
        peers.len() <= usize::MAX,
        canonical(peers, raw),
    ensures
        TableRouteView::from_raw(peers, raw) is Ok,
        TableRouteView::from_raw(peers, raw)->Ok_0.has_raw_form(peers, raw),
{
    let read = TableRouteView::from_raw(peers, raw);
    assert(read is Ok);
    let route = read->Ok_0;
    let f = |index: u64| peer_at(peers, index);
    assert forall|i: int| 0 <= i < route.region_routes.len() implies {
        let ours = #[trigger] route.region_routes[i];
        let theirs = raw.region_routes[i];
        &&& ours.leader_peer == Some(peers[theirs.leader_peer_index as int])
        &&& ours.follower_peers == theirs.follower_peer_indexes.map_values(
            |index: u64| peers[index as int],
        )
        &&& ours.has_raw_form(peers, theirs)
    } by {
        let ours = route.region_routes[i];
        let theirs = raw.region_routes[i];
        let indexes = theirs.follower_peer_indexes;
        assert(theirs.region is Some);
        assert forall|j: int| 0 <= j < indexes.len() implies f(#[trigger] indexes[j]) == Some(
            peers[indexes[j] as int],
        ) by {
            assert(in_range(peers, theirs.follower_peer_indexes[j]));
        }
        lemma_filter_map_total(indexes, f);
        assert(ours.follower_peers =~= indexes.map_values(|index: u64| peers[index as int]));
        assert forall|j: int| 0 <= j < ours.follower_peers.len() implies points_at(
            peers,
            #[trigger] theirs.follower_peer_indexes[j],
            ours.follower_peers[j].id,
        ) by {
            assert(in_range(peers, theirs.follower_peer_indexes[j]));
        }
    }
    assert forall|p: PeerView|
        #![trigger peers.contains(p)]
        #![trigger route.serves(p)]
        peers.contains(p) <==> route.serves(p) by {
        if peers.contains(p) {
            let k = choose|k: int| 0 <= k < peers.len() && peers[k] == p;
            assert(in_range(peers, k as u64));
            assert(mentions(raw, k as u64));
            let i = choose|i: int|
                0 <= i < raw.region_routes.len() && {
                    ||| (#[trigger] raw.region_routes[i]).leader_peer_index == k as u64
                    ||| raw.region_routes[i].follower_peer_indexes.contains(k as u64)
                };
            let ours = route.region_routes[i];
            if raw.region_routes[i].leader_peer_index == k as u64 {
                assert(ours.leader_peer == Some(p));
                assert(route.leads(p));
            } else {
                let indexes = raw.region_routes[i].follower_peer_indexes;
                let j = choose|j: int| 0 <= j < indexes.len() && indexes[j] == k as u64;
                assert(ours.follower_peers[j] == p);
                assert(ours.follower_peers.contains(p));
                assert(route.follows(p));
            }
        }
        if route.leads(p) {
            let i = choose|i: int|
                0 <= i < route.region_routes.len() && (
                #[trigger] route.region_routes[i]).leader_peer == Some(p);
            assert(in_range(peers, raw.region_routes[i].leader_peer_index));
            assert(peers[raw.region_routes[i].leader_peer_index as int] == p);
        }
        if route.follows(p) {
            let i = choose|i: int|
                0 <= i < route.region_routes.len() && (
                #[trigger] route.region_routes[i]).follower_peers.contains(p);
            let ours = route.region_routes[i];
            let j = choose|j: int| 0 <= j < ours.follower_peers.len() && ours.follower_peers[j]
                == p;
            assert(in_range(peers, raw.region_routes[i].follower_peer_indexes[j]));
            assert(peers[raw.region_routes[i].follower_peer_indexes[j] as int] == p);
        }
    }
    assert(raw.table == Some(route.table.message()));
}

/// Whoever serves a table that was read is a peer of the list that came with it.
pub proof fn law_read_peers_are_listed(
    peers: Seq<PeerView>,
    raw: pb::TableRouteView,
    peer: PeerView,
)
    requires
        TableRouteView::from_raw(peers, raw) is Ok,
        TableRouteView::from_raw(peers, raw)->Ok_0.serves(peer),
    ensures
        peers.contains(peer),
{
    let route = TableRouteView::from_raw(peers, raw)->Ok_0;
    let pick = |index: u64| peer_at(peers, index);
    if route.follows(peer) {
        let i = choose|i: int|
            0 <= i < route.region_routes.len() && (
            #[trigger] route.region_routes[i]).follower_peers.contains(peer);
        let indexes = raw.region_routes[i].follower_peer_indexes;
        assert(route.region_routes[i].follower_peers == indexes.filter_map(pick));
        lemma_filter_map_members(indexes, pick, peer);
        let j = choose|j: int| 0 <= j < indexes.len() && pick(#[trigger] indexes[j]) == Some(peer);
        assert(peer_at(peers, indexes[j]) == Some(peer));
    }
}

/// A table route that was read can be written exactly where each leader's index
/// stood for a peer.
pub proof fn law_unknown_leaders_are_refused(peers: Seq<PeerView>, raw: pb::TableRouteView)
    requires
        TableRouteView::from_raw(peers, raw) is Ok,
    ensures
        TableRouteView::from_raw(peers, raw)->Ok_0.all_led() <==> forall|i: int|
            0 <= i < raw.region_routes.len() ==> peer_at(
                peers,
                (#[trigger] raw.region_routes[i]).leader_peer_index,
            ) is Some,
{
    let route = TableRouteView::from_raw(peers, raw)->Ok_0;
    assert forall|i: int| 0 <= i < raw.region_routes.len() implies (
    #[trigger] route.region_routes[i]).leader_peer == peer_at(
        peers,
        raw.region_routes[i].leader_peer_index,
    ) by {}
    if route.all_led() {
        assert forall|i: int| 0 <= i < raw.region_routes.len() implies peer_at(
            peers,
            (#[trigger] raw.region_routes[i]).leader_peer_index,
        ) is Some by {
            assert(route.region_routes[i].leader_peer is Some);
        }
    }
}

/// A peer leads a region exactly where a region is found that it leads, and
/// what is found are the numbers of the regions whose leader it is.
pub proof fn law_leaders_lead_regions(route: TableRouteView, peer: PeerView)
    ensures
        route.leads(peer) <==> route.led_by(peer).len() > 0,
        forall|number: u32| #[trigger]
            route.led_by(peer).contains(number) <==> exists|i: int|
                0 <= i < route.region_routes.len() && (
                #[trigger] route.region_routes[i]).leader_peer == Some(peer) && region_number(
                    route.region_routes[i].region.id,
                ) == number,
{
    let pick = |route: RegionRouteView|
        if route.leader_peer == Some(peer) {
            Some(region_number(route.region.id))
        } else {
            None
        };
    let routes = route.region_routes;
    let led = route.led_by(peer);
    assert(led == routes.filter_map(pick));
    assert forall|number: u32| #[trigger] led.contains(number) <==> exists|i: int|
        0 <= i < routes.len() && (#[trigger] routes[i]).leader_peer == Some(peer) && region_number(
            routes[i].region.id,
        ) == number by {
        lemma_filter_map_members(routes, pick, number);
        if led.contains(number) {
            let i = choose|i: int| 0 <= i < routes.len() && pick(#[trigger] routes[i]) == Some(
                number,
            );
            assert(routes[i].leader_peer == Some(peer));
        }
        if exists|i: int|
            0 <= i < routes.len() && (#[trigger] routes[i]).leader_peer == Some(peer)
                && region_number(routes[i].region.id) == number {
            let i = choose|i: int|
                0 <= i < routes.len() && (#[trigger] routes[i]).leader_peer == Some(peer)
                    && region_number(routes[i].region.id) == number;
            assert(pick(routes[i]) == Some(number));
        }
    }
    if led.len() > 0 {
        assert(led.contains(led[0]));
    }
    if route.leads(peer) {
        let i = choose|i: int|
            0 <= i < routes.len() && (#[trigger] routes[i]).leader_peer == Some(peer);
        assert(led.contains(region_number(routes[i].region.id)));
    }
}

/// A peer is its message's peer, and the other way round.
pub proof fn law_peer_messages(peer: Peer, message: pb::Peer)
    ensures
        <Peer as FromSpec<pb::Peer>>::from_spec(<pb::Peer as FromSpec<Peer>>::from_spec(peer))
            == peer,
        <pb::Peer as FromSpec<Peer>>::from_spec(<Peer as FromSpec<pb::Peer>>::from_spec(message))
            == message,
{
}

/// A table name is its message's table name, and the other way round.
pub proof fn law_table_name_messages(name: TableName, message: pb::TableName)
    ensures
        <TableName as FromSpec<pb::TableName>>::from_spec(
            <pb::TableName as FromSpec<TableName>>::from_spec(name),
        ) == name,
        <pb::TableName as FromSpec<TableName>>::from_spec(
            <TableName as FromSpec<pb::TableName>>::from_spec(message),
        ) == message,
{
}

/// A partition is its message's partition, and the other way round.
pub proof fn law_partition_messages(partition: Partition, message: pb::Partition)
    ensures
        <Partition as FromSpec<pb::Partition>>::from_spec(
            <pb::Partition as FromSpec<Partition>>::from_spec(partition),
        ) == partition,
        <pb::Partition as FromSpec<Partition>>::from_spec(
            <Partition as FromSpec<pb::Partition>>::from_spec(message),
        ) == message,
{
}

/// A region is its message's region, and the other way round.
pub proof fn law_region_messages(region: Region, message: pb::Region)
    ensures
        <Region as FromSpec<pb::Region>>::from_spec(
            <pb::Region as FromSpec<Region>>::from_spec(region),
        ) == region,
        <pb::Region as FromSpec<Region>>::from_spec(
            <Region as FromSpec<pb::Region>>::from_spec(message),
        ) == message,
{
}

/// A table is read back from its message, and a message from which a table is
/// read is that table's message. Nothing is read exactly where the name lacks.
pub proof fn law_table_messages(table: Table, message: pb::TableView)
    ensures
        TableView::from_message(<pb::Table as FromSpec<Table>>::from_spec(table)@) == Ok::<
            _,
            ErrorView,
        >(table@),
        match TableView::from_message(message) {
            Ok(read) => read.message() == message,
            Err(_) => message.table_name is None,
        },
{
}

/// There is a first error exactly where there is an error.
proof fn lemma_collected<T, E>(results: Seq<Result<T, E>>, n: int)
    requires
        0 <= n <= results.len(),
        forall|i: int| 0 <= i < n ==> (#[trigger] results[i]) is Ok,
    ensures
        (exists|i: int| first_error_at(results, i)) <==> exists|i: int|
            0 <= i < results.len() && (#[trigger] results[i]) is Err,
    decreases results.len() - n,
{
    if n < results.len() {
        if results[n] is Err {
            assert(first_error_at(results, n));
        } else {
            lemma_collected(results, n + 1);
        }
    }
}

/// A response is read whole or not at all: it is read exactly where its header
/// reports no error and each of its table routes can be read, and then it holds
/// what each of these stands for, in their order. Where its header reports an
/// error, that is what comes of it.
pub proof fn law_response_is_read_whole(message: pb::RouteResponseView)
    ensures
        RouteResponseView::from_message(message) is Ok <==> {
            &&& header_error(message.header) is None
            &&& forall|i: int|
                0 <= i < message.table_routes.len() ==> TableRouteView::from_raw(
                    message.peers,
                    #[trigger] message.table_routes[i],
                ) is Ok
        },
        match RouteResponseView::from_message(message) {
            Ok(response) => {
                &&& response.table_routes.len() == message.table_routes.len()
                &&& forall|i: int|
                    0 <= i < message.table_routes.len() ==> TableRouteView::from_raw(
                        message.peers,
                        #[trigger] message.table_routes[i],
                    ) == Ok::<_, ErrorView>(response.table_routes[i])
            },
            Err(error) => match header_error(message.header) {
                Some(reported) => error == reported,
                None => exists|i: int|
                    0 <= i < message.table_routes.len() && TableRouteView::from_raw(
                        message.peers,
                        #[trigger] message.table_routes[i],
                    ) == Err::<TableRouteView, _>(error) && forall|j: int|
                        0 <= j < i ==> TableRouteView::from_raw(
                            message.peers,
                            #[trigger] message.table_routes[j],
                        ) is Ok,
            },
        },
{
    let results = RouteResponseView::routes_of(message);
    lemma_collected(results, 0);
    assert forall|i: int| 0 <= i < message.table_routes.len() implies results[i]
        == TableRouteView::from_raw(message.peers, #[trigger] message.table_routes[i]) by {}
    if exists|i: int| first_error_at(results, i) {
        let first = choose|i: int| first_error_at(results, i);
        assert forall|j: int| 0 <= j < first implies TableRouteView::from_raw(
            message.peers,
            #[trigger] message.table_routes[j],
        ) is Ok by {
            assert(results[j] is Ok);
        }
        assert(TableRouteView::from_raw(message.peers, message.table_routes[first]) is Err);
    } else {
        assert forall|i: int| 0 <= i < message.table_routes.len() implies TableRouteView::from_raw(
            message.peers,
            #[trigger] message.table_routes[i],
        ) is Ok by {
            assert(results[i] is Ok);
        }
    }
}

/// Text that was written in UTF-8 is shown as it is.
pub proof fn law_text_is_shown(text: Seq<char>)
    ensures
        text_of(encode_utf8(text)) == text,
{
    vstd::utf8::encode_utf8_valid_utf8(text);
    vstd::utf8::encode_utf8_decode_utf8(text);
}

} // verus!
