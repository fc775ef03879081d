//! Membership of the broadcast channel, driven by local-network discovery.
//!
//! Discovery reports peers that became visible and advertisements that ran
//! out. A peer may be advertised under several addresses at once, so an
//! advertisement that ran out removes the peer from the forwarding set only
//! when discovery holds no other advertisement for it.

use libp2p::floodsub::Floodsub;
use libp2p::mdns::Mdns;
use libp2p::PeerId;
use vstd::prelude::*;

verus! {

#[verifier::external_type_specification]
#[verifier::external_body]
pub struct ExPeerId(libp2p::PeerId);

#[verifier::external_type_specification]
#[verifier::external_body]
pub struct ExFloodsub(libp2p::floodsub::Floodsub);

#[verifier::external_type_specification]
#[verifier::external_body]
pub struct ExMdns(libp2p::mdns::Mdns);

/// The forwarding set of a `Floodsub`: the peers it propagates messages to.
pub uninterp spec fn partial_view(floodsub: Floodsub) -> Set<PeerId>;

/// The peers of the advertisements that an `Mdns` holds as live, one entry
/// for each advertisement, in the order in which it holds them.
pub uninterp spec fn advertised(mdns: Mdns) -> Seq<PeerId>;

/// `Floodsub::add_node_to_partial_view`: the peer joins the forwarding set,
/// which otherwise stays as it was.
#[verifier::external_body]
fn add_node_to_partial_view(floodsub: &mut Floodsub, peer: PeerId)
    ensures
        partial_view(*final(floodsub)) == partial_view(*old(floodsub)).insert(peer),
{
    floodsub.add_node_to_partial_view(peer)
}

/// `Floodsub::remove_node_from_partial_view`: the peer leaves the forwarding
/// set, which otherwise stays as it was.
#[verifier::external_body]
fn remove_node_from_partial_view(floodsub: &mut Floodsub, peer: &PeerId)
    ensures
        partial_view(*final(floodsub)) == partial_view(*old(floodsub)).remove(*peer),
{
    floodsub.remove_node_from_partial_view(peer)
}

/// `Mdns::has_node`: whether some live advertisement is for the peer.
#[verifier::external_body]
fn has_node(mdns: &Mdns, peer: &PeerId) -> (live: bool)
    ensures
        live == advertised(*mdns).contains(*peer),
{
    mdns.has_node(peer)
}

/// `Mdns::discovered_nodes`: the peers of the live advertisements, one entry
/// for each advertisement.
#[verifier::external_body]
fn discovered_nodes(mdns: &Mdns) -> (nodes: Vec<PeerId>)
    ensures
        nodes@ == advertised(*mdns),
{
    mdns.discovered_nodes().copied().collect()
}

/// `==` on `PeerId`: whether the two are the same peer.
#[verifier::external_body]
fn same_peer(a: &PeerId, b: &PeerId) -> (same: bool)
    ensures
        same == (*a == *b),
{
    a.eq(b)
}

/// The peers among `expired` for which no live advertisement is left.
pub open spec fn departed(expired: Seq<PeerId>, live: Seq<PeerId>) -> Set<PeerId> {
    Set::new(|p: PeerId| expired.contains(p) && !live.contains(p))
}

/// `peers` without the entries that repeat an earlier one.
pub open spec fn first_occurrences(peers: Seq<PeerId>) -> Seq<PeerId>
    decreases peers.len(),
{
    if peers.len() == 0 {
        peers
    } else {
        let before = first_occurrences(peers.drop_last());
        if before.contains(peers.last()) {
            before
        } else {
            before.push(peers.last())
        }
    }
}

/// Every discovered peer joins the forwarding set.
pub fn inject_discovered(floodsub: &mut Floodsub, discovered: &Vec<PeerId>)
    ensures
        partial_view(*final(floodsub)) == partial_view(*old(floodsub)).union(discovered@.to_set()),
{
    let mut i: usize = 0;
    while i < discovered.len()
        invariant
            i <= discovered.len(),
            partial_view(*floodsub) == partial_view(*old(floodsub)).union(
                discovered@.take(i as int).to_set(),
            ),
        decreases discovered.len() - i,
    {
        add_node_to_partial_view(floodsub, discovered[i]);
        proof {
            let seen = discovered@.take(i as int);
            assert(discovered@.take(i + 1) == seen.push(discovered@[i as int]));
            seen.lemma_push_to_set_commute(discovered@[i as int]);
        }
        i = i + 1;
    }
    assert(discovered@.take(discovered.len() as int) == discovered@);
}

/// A peer whose advertisement ran out leaves the forwarding set if discovery
/// holds no other advertisement for it, and stays otherwise.
pub fn inject_expired(floodsub: &mut Floodsub, mdns: &Mdns, expired: &Vec<PeerId>)
    ensures
        partial_view(*final(floodsub)) == partial_view(*old(floodsub)).difference(
            departed(expired@, advertised(*mdns)),
        ),
{
    let mut i: usize = 0;
    while i < expired.len()
        invariant
            i <= expired.len(),
            partial_view(*floodsub) == partial_view(*old(floodsub)).difference(
                departed(expired@.take(i as int), advertised(*mdns)),
            ),
        decreases expired.len() - i,
    {
        let live = has_node(mdns, &expired[i]);
        if !live {
            remove_node_from_partial_view(floodsub, &expired[i]);
        }
        proof {
            let seen = expired@.take(i as int);
            let next = expired@.take(i + 1);
            let peer = expired@[i as int];
            assert(next == seen.push(peer));
            assert forall|p: PeerId| next.contains(p) <==> (seen.contains(p) || p == peer) by {
                seen.lemma_push_to_set_commute(peer);
                assert(next.to_set().contains(p) <==> seen.to_set().insert(peer).contains(p));
            }
            assert(partial_view(*floodsub) =~= partial_view(*old(floodsub)).difference(
                departed(next, advertised(*mdns)),
            ));
        }
        i = i + 1;
    }
    assert(expired@.take(expired.len() as int) == expired@);
}

/// Whether `peer` is among `peers`.
fn contains_peer(peers: &Vec<PeerId>, peer: &PeerId) -> (found: bool)
    ensures
        found == peers@.contains(*peer),
{
    let mut i: usize = 0;
    while i < peers.len()
        invariant
            i <= peers.len(),
            forall|j: int| 0 <= j < i ==> peers@[j] != *peer,
        decreases peers.len() - i,
    {
        if same_peer(&peers[i], peer) {
            return true;
        }
        i = i + 1;
    }
    false
}

/// The peers of `nodes`, each once, in the order in which they first occur.
pub fn unique_peers(nodes: &Vec<PeerId>) -> (peers: Vec<PeerId>)
    ensures
        peers@ == first_occurrences(nodes@),
        peers@.no_duplicates(),
        forall|peer: PeerId| #[trigger] peers@.contains(peer) <==> nodes@.contains(peer),
{
    let mut peers: Vec<PeerId> = Vec::new();
    let mut i: usize = 0;
    assert(nodes@.take(0) == Seq::<PeerId>::empty());
    while i < nodes.len()
        invariant
            i <= nodes.len(),
            peers@ == first_occurrences(nodes@.take(i as int)),
        decreases nodes.len() - i,
    {
        assert(nodes@.take(i + 1).drop_last() == nodes@.take(i as int));
        if !contains_peer(&peers, &nodes[i]) {
            peers.push(nodes[i]);
        }
        i = i + 1;
    }
    proof {
        assert(nodes@.take(nodes.len() as int) == nodes@);
        lemma_first_occurrences(nodes@);
    }
    peers
}

/// The peers that discovery knows, each once.
pub fn handle_list_peers(mdns: &Mdns) -> (peers: Vec<PeerId>)
    ensures
        peers@ == first_occurrences(advertised(*mdns)),
        peers@.no_duplicates(),
        forall|peer: PeerId| #[trigger] peers@.contains(peer) <==> advertised(*mdns).contains(peer),
{
    let nodes = discovered_nodes(mdns);
    unique_peers(&nodes)
}

/// `first_occurrences` holds every peer of the sequence, and none twice.
pub proof fn lemma_first_occurrences(peers: Seq<PeerId>)
    ensures
        first_occurrences(peers).no_duplicates(),
        forall|peer: PeerId| #[trigger]
            first_occurrences(peers).contains(peer) <==> peers.contains(peer),
    decreases peers.len(),
{
    if peers.len() > 0 {
        let rest = peers.drop_last();
        let before = first_occurrences(rest);
        let last = peers.last();
        lemma_first_occurrences(rest);
        assert forall|peer: PeerId| #[trigger]
            first_occurrences(peers).contains(peer) <==> peers.contains(peer) by {
            if peers.contains(peer) {
                let i = choose|i: int| 0 <= i < peers.len() && peers[i] == peer;
                if i < rest.len() {
                    assert(rest[i] == peer);
                    assert(before.contains(peer));
                    let j = choose|j: int| 0 <= j < before.len() && before[j] == peer;
                    assert(first_occurrences(peers)[j] == peer);
                } else if !before.contains(last) {
                    assert(before.push(last)[before.len() as int] == peer);
                }
            }
            if first_occurrences(peers).contains(peer) {
                let j = choose|j: int|
                    0 <= j < first_occurrences(peers).len() && first_occurrences(peers)[j] == peer;
                if j < before.len() {
                    assert(before[j] == peer);
                    assert(before.contains(peer));
                    let i = choose|i: int| 0 <= i < rest.len() && rest[i] == peer;
                    assert(peers[i] == peer);
                } else {
                    assert(peers[peers.len() - 1] == peer);
                }
            }
        }
    }
}

/// A peer for which a live advertisement remains is never removed from the
/// forwarding set by advertisements that ran out; a peer that is removed had
/// an advertisement run out and has no live advertisement left.
pub proof fn lemma_expiry_removes_only_departed(
    view: Set<PeerId>,
    expired: Seq<PeerId>,
    live: Seq<PeerId>,
    peer: PeerId,
)
    requires
        view.contains(peer),
    ensures
        live.contains(peer) ==> view.difference(departed(expired, live)).contains(peer),
        !view.difference(departed(expired, live)).contains(peer) <==> expired.contains(peer)
            && !live.contains(peer),
{
}

} // verus!
