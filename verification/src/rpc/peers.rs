//! Lists of peers: without duplicates, in the order of their identifiers, and
//! searched by identifier.

use vstd::prelude::*;

use crate::pb;
use crate::peer::{Peer, PeerView};

verus! {

/// The identifiers of `peers` never decrease.
pub open spec fn sorted_by_id(peers: Seq<PeerView>) -> bool {
    forall|i: int, j: int| 0 <= i <= j < peers.len() ==> peers[i].id <= peers[j].id
}

/// `index` is the first place in `peers` at which a peer has the identifier `id`.
pub open spec fn points_at(peers: Seq<PeerView>, index: u64, id: u64) -> bool {
    &&& index < peers.len()
    &&& peers[index as int].id == id
    &&& forall|i: int| 0 <= i < index ==> (#[trigger] peers[i]).id != id
}

/// Adds `peer` to `peers`, unless it is there already.
pub(crate) fn insert_distinct(peers: &mut Vec<Peer>, peer: &Peer)
    requires
        old(peers).deep_view().no_duplicates(),
    ensures
        final(peers).deep_view().no_duplicates(),
        forall|p: PeerView|
            #![trigger final(peers).deep_view().contains(p)]
            #![trigger old(peers).deep_view().contains(p)]
            final(peers).deep_view().contains(p) <==> old(peers).deep_view().contains(p) || p
                == peer@,
{
    let ghost before = peers.deep_view();
    for i in 0..peers.len()
        invariant
            before == peers.deep_view(),
            before == old(peers).deep_view(),
            before.no_duplicates(),
            forall|j: int| 0 <= j < i ==> #[trigger] before[j] != peer@,
    {
        if peers[i] == *peer {
            assert(before[i as int] == peer@);
            return ;
        }
        assert(before[i as int] != peer@);
    }
    assert(before == peers.deep_view());
    peers.push(peer.clone());
    let ghost after = peers.deep_view();
    proof {
        assert(after =~= before.push(peer@));
        assert forall|p: PeerView| after.contains(p) <==> before.contains(p) || p == peer@ by {
            if before.contains(p) {
                let j = choose|j: int| 0 <= j < before.len() && before[j] == p;
                assert(after[j] == p);
            }
            if p == peer@ {
                assert(after[before.len() as int] == p);
            }
        }
    }
}

/// The messages for `peers`, in the order of their identifiers.
pub(crate) fn into_sorted_messages(peers: Vec<Peer>) -> (res: Vec<pb::Peer>)
    requires
        peers.deep_view().no_duplicates(),
    ensures
        sorted_by_id(res.deep_view()),
        res.deep_view().no_duplicates(),
        forall|p: PeerView|
            #![trigger res.deep_view().contains(p)]
            #![trigger peers.deep_view().contains(p)]
            res.deep_view().contains(p) <==> peers.deep_view().contains(p),
{
    let ghost all = peers.deep_view();
    let mut res: Vec<pb::Peer> = Vec::with_capacity(peers.len());
    for peer in it: peers.into_iter()
        invariant
            all.no_duplicates(),
            all.len() == it.seq().len(),
            forall|i: int| 0 <= i < it.seq().len() ==> all[i] == (#[trigger] it.seq()[i])@,
            sorted_by_id(res.deep_view()),
            res.deep_view().no_duplicates(),
            forall|p: PeerView|
                res.deep_view().contains(p) <==> #[trigger] all.take(it.index() as int).contains(p),
    {
        let ghost before = res.deep_view();
        let ghost n = it.index() as int;
        assert(all[n] == peer@);
        let mut at: usize = res.len();
        while at > 0 && res[at - 1].id > peer.id
            invariant
                at <= res.len(),
                before == res.deep_view(),
                forall|i: int| at <= i < before.len() ==> (#[trigger] before[i]).id > peer.id,
            decreases at,
        {
            assert(before[at - 1].id > peer.id);
            at = at - 1;
        }
        assert(at > 0 ==> before[at - 1].id <= peer.id);
        let ghost view = peer@;
        res.insert(at, pb::Peer::from(peer));
        proof {
            let after = res.deep_view();
            assert(after =~= before.insert(at as int, view));
            lemma_insert(before, at as int, view);
            assert(all.take(n + 1) =~= all.take(n).push(view));
            assert(!before.contains(view)) by {
                if before.contains(view) {
                    assert(all.take(n).contains(view));
                    let j = choose|j: int| 0 <= j < n && all.take(n)[j] == view;
                    assert(all[j] == all[n]);
                }
            }
            assert forall|p: PeerView| after.contains(p) <==> #[trigger] all.take(n + 1).contains(
                p,
            ) by {
                assert(all.take(n).push(view).contains(p) <==> all.take(n).contains(p) || p
                    == view) by {
                    vstd::seq_lib::lemma_seq_contains_after_push(all.take(n), view, p);
                }
            }
        }
    }
    assert(all.take(all.len() as int) =~= all);
    res
}

/// Inserting `x` keeps order and adds nothing but `x`.
proof fn lemma_insert(s: Seq<PeerView>, at: int, x: PeerView)
    requires
        0 <= at <= s.len(),
        sorted_by_id(s),
        at > 0 ==> s[at - 1].id <= x.id,
        at < s.len() ==> s[at].id >= x.id,
    ensures
        sorted_by_id(s.insert(at, x)),
        forall|p: PeerView| s.insert(at, x).contains(p) <==> s.contains(p) || p == x,
        s.no_duplicates() && !s.contains(x) ==> s.insert(at, x).no_duplicates(),
{
    let t = s.insert(at, x);
    assert forall|p: PeerView| t.contains(p) <==> s.contains(p) || p == x by {
        if s.contains(p) {
            let j = choose|j: int| 0 <= j < s.len() && s[j] == p;
            assert(t[if j < at { j } else { j + 1 }] == p);
        }
        if p == x {
            assert(t[at] == p);
        }
        if t.contains(p) && p != x {
            let j = choose|j: int| 0 <= j < t.len() && t[j] == p;
            assert(s[if j < at { j } else { j - 1 }] == p);
        }
    }
}

/// The first place in `peers` at which a peer has the identifier `id`.
pub(crate) fn find_peer(peers: &Vec<pb::Peer>, id: u64) -> (res: u64)
    requires
        exists|i: int| 0 <= i < peers.len() && (#[trigger] peers[i])@.id == id,
    ensures
        points_at(peers.deep_view(), res, id),
{
    let mut at: usize = 0;
    while peers[at].id != id
        invariant
            exists|i: int| at <= i < peers.len() && (#[trigger] peers[i])@.id == id,
            forall|i: int| 0 <= i < at ==> (#[trigger] peers.deep_view()[i]).id != id,
        decreases peers.len() - at,
    {
        at = at + 1;
    }
    at as u64
}

} // verus!
