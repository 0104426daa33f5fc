//! Topology selection: which members this host peers with.

use vstd::prelude::*;

use crate::error::Mesh;
use crate::model::{peers_view, Peer, PeerView};

verus! {

/// The first member in `peers` that carries the public key `key`, if any.
pub open spec fn find_member(key: Seq<char>, peers: Seq<PeerView>) -> Option<PeerView>
    decreases peers.len(),
{
    if peers.len() == 0 {
        None
    } else if peers[0].public_key == key {
        Some(peers[0])
    } else {
        find_member(key, peers.drop_first())
    }
}

/// Whether this host (`me`) must keep a mesh link to the candidate `c`: never
/// to itself, never within its own site, and never when both sides have a
/// public IPv4 address.
pub open spec fn links_to(me: PeerView, c: PeerView) -> bool {
    &&& c.public_key != me.public_key
    &&& c.site != me.site
    &&& (!me.has_public_ipv4_address || !c.has_public_ipv4_address)
}

/// The members that `me` peers with, in the order in which they were listed.
pub open spec fn selection(me: PeerView, peers: Seq<PeerView>) -> Seq<PeerView> {
    peers.filter(|c: PeerView| links_to(me, c))
}

proof fn lemma_find_member_exists(key: Seq<char>, peers: Seq<PeerView>)
    ensures
        find_member(key, peers) is Some <==> exists|i: int|
            0 <= i < peers.len() && (#[trigger] peers[i]).public_key == key,
        find_member(key, peers) matches Some(me) ==> me.public_key == key,
    decreases peers.len(),
{
    if peers.len() > 0 {
        lemma_find_member_exists(key, peers.drop_first());
        if peers[0].public_key != key {
            assert forall|i: int| 0 <= i < peers.len() && (#[trigger] peers[i]).public_key == key
                implies (exists|j: int|
                0 <= j < peers.drop_first().len() && (#[trigger] peers.drop_first()[j]).public_key
                    == key) by {
                assert(peers.drop_first()[i - 1] == peers[i]);
            }
            assert forall|j: int|
                0 <= j < peers.drop_first().len() && (#[trigger] peers.drop_first()[j]).public_key
                    == key implies (exists|i: int|
                0 <= i < peers.len() && (#[trigger] peers[i]).public_key == key) by {
                assert(peers[j + 1] == peers.drop_first()[j]);
            }
        }
    }
}

/// For a key that some member carries, the selection never holds a member
/// with that key, nor one of the same site as this host, nor one with a
/// public IPv4 address when this host has one too.
pub proof fn lemma_selection_excludes(key: Seq<char>, peers: Seq<PeerView>)
    requires
        exists|i: int| 0 <= i < peers.len() && (#[trigger] peers[i]).public_key == key,
    ensures
        find_member(key, peers) matches Some(me) && me.public_key == key && forall|j: int|
            0 <= j < selection(me, peers).len() ==> {
                let c = #[trigger] selection(me, peers)[j];
                &&& c.public_key != key
                &&& c.site != me.site
                &&& !(me.has_public_ipv4_address && c.has_public_ipv4_address)
            },
{
    lemma_find_member_exists(key, peers);
    let me = find_member(key, peers)->0;
    assert forall|j: int| 0 <= j < selection(me, peers).len() implies links_to(
        me,
        #[trigger] selection(me, peers)[j],
    ) by {
        peers.lemma_filter_pred(|c: PeerView| links_to(me, c), j);
    }
}

/// For a key that no member carries, there is no host to select for: the
/// selection fails with `PeerNotPartOfMesh`.
pub proof fn lemma_non_member_rejected(key: Seq<char>, peers: Seq<PeerView>)
    requires
        forall|i: int| 0 <= i < peers.len() ==> (#[trigger] peers[i]).public_key != key,
    ensures
        find_member(key, peers) is None,
{
    lemma_find_member_exists(key, peers);
}

/// Given every member of the mesh, keeps those this host must peer with.
///
/// This host is the first member whose public key is `interface_pubkey`; a
/// host that is not a member gets `PeerNotPartOfMesh` naming its key.
pub fn filter_peers(interface_pubkey: &str, peers: Vec<Peer>) -> (r: Result<Vec<Peer>, Mesh>)
    ensures
        match find_member(interface_pubkey@, peers_view(peers@)) {
            None => r matches Err(Mesh::PeerNotPartOfMesh(k)) && k@ == interface_pubkey@,
            Some(me) => r matches Ok(sel) && peers_view(sel@) == selection(
                me,
                peers_view(peers@),
            ),
        },
{
    let ghost all = peers_view(peers@);
    let key = interface_pubkey.to_string();
    let mut found: Option<usize> = None;
    let mut i: usize = 0;
    proof {
        assert(all.skip(0) == all);
    }
    while i < peers.len()
        invariant
            all == peers_view(peers@),
            key@ == interface_pubkey@,
            i <= peers.len(),
            found is None ==> find_member(interface_pubkey@, all) == find_member(
                interface_pubkey@,
                all.skip(i as int),
            ),
            found matches Some(j) ==> j < peers.len() && find_member(interface_pubkey@, all)
                == Some(all[j as int]),
        decreases peers.len() - i,
    {
        if found.is_none() {
            proof {
                assert(all.skip(i as int).drop_first() == all.skip(i + 1));
            }
            if peers[i].public_key == key {
                found = Some(i);
            }
        }
        i = i + 1;
    }
    let me: usize = match found {
        None => {
            proof {
                assert(all.skip(peers.len() as int).len() == 0);
            }
            return Err(Mesh::PeerNotPartOfMesh(key));
        },
        Some(j) => j,
    };
    let ghost mev = all[me as int];
    let mut selected: Vec<Peer> = Vec::new();
    let mut k: usize = 0;
    while k < peers.len()
        invariant
            all == peers_view(peers@),
            me < peers.len(),
            mev == all[me as int],
            k <= peers.len(),
            peers_view(selected@) == selection(mev, all.take(k as int)),
        decreases peers.len() - k,
    {
        let c = &peers[k];
        let keep = !(c.public_key == peers[me].public_key) && !(c.site == peers[me].site) && (
        !peers[me].has_public_ipv4_address || !c.has_public_ipv4_address);
        proof {
            let pred = |c: PeerView| links_to(mev, c);
            assert(all.take(k + 1).drop_last() == all.take(k as int));
            assert(all.take(k + 1).last() == all[k as int]);
            reveal(Seq::filter);
            assert(keep == pred(all[k as int]));
        }
        if keep {
            selected.push(c.copy());
        }
        proof {
            assert(all.take(k + 1).filter(|c: PeerView| links_to(mev, c)) == if links_to(
                mev,
                all[k as int],
            ) {
                all.take(k as int).filter(|c: PeerView| links_to(mev, c)).push(all[k as int])
            } else {
                all.take(k as int).filter(|c: PeerView| links_to(mev, c))
            });
            assert(peers_view(selected@) =~= selection(mev, all.take(k + 1)));
        }
        k = k + 1;
    }
    proof {
        assert(all.take(peers.len() as int) == all);
    }
    Ok(selected)
}

} // verus!
