use libp2p::floodsub::Floodsub;
use libp2p::futures::executor::block_on;
use libp2p::futures::task::noop_waker;
use libp2p::mdns::{Mdns, MdnsConfig};
use libp2p::swarm::{AddressRecord, NetworkBehaviour, NetworkBehaviourAction, PollParameters};
use libp2p::{Multiaddr, PeerId};
use p2p_books::discovery::{handle_list_peers, inject_discovered, inject_expired, unique_peers};
use std::task::{Context, Poll};

struct Params {
    local: PeerId,
}

impl PollParameters for Params {
    type SupportedProtocolsIter = std::vec::IntoIter<Vec<u8>>;
    type ListenedAddressesIter = std::vec::IntoIter<Multiaddr>;
    type ExternalAddressesIter = std::vec::IntoIter<AddressRecord>;

    fn supported_protocols(&self) -> Self::SupportedProtocolsIter {
        Vec::new().into_iter()
    }

    fn listened_addresses(&self) -> Self::ListenedAddressesIter {
        Vec::new().into_iter()
    }

    fn external_addresses(&self) -> Self::ExternalAddressesIter {
        Vec::new().into_iter()
    }

    fn local_peer_id(&self) -> &PeerId {
        &self.local
    }
}

/// The peers that the floodsub layer asked to dial since the last call. It
/// asks for a peer exactly when that peer newly joins its forwarding set.
fn newly_joined(floodsub: &mut Floodsub) -> Vec<PeerId> {
    let waker = noop_waker();
    let mut cx = Context::from_waker(&waker);
    let mut params = Params { local: PeerId::random() };
    let mut joined = Vec::new();
    loop {
        match floodsub.poll(&mut cx, &mut params) {
            Poll::Ready(NetworkBehaviourAction::DialPeer { peer_id, .. }) => joined.push(peer_id),
            Poll::Ready(_) => {}
            Poll::Pending => break,
        }
    }
    joined
}

/// Discovery with no advertisement yet, where the host lets it start.
fn fresh_discovery() -> Option<Mdns> {
    block_on(Mdns::new(MdnsConfig::default())).ok()
}

#[test]
fn discovered_peers_join_the_forwarding_set() {
    let mut floodsub = Floodsub::new(PeerId::random());
    let a = PeerId::random();
    let b = PeerId::random();
    inject_discovered(&mut floodsub, &vec![a, b]);
    assert_eq!(newly_joined(&mut floodsub), vec![a, b]);
}

#[test]
fn a_peer_that_is_in_the_forwarding_set_does_not_join_again() {
    let mut floodsub = Floodsub::new(PeerId::random());
    let a = PeerId::random();
    let b = PeerId::random();
    let c = PeerId::random();
    inject_discovered(&mut floodsub, &vec![a, b, a]);
    assert_eq!(newly_joined(&mut floodsub), vec![a, b]);
    inject_discovered(&mut floodsub, &vec![b, c]);
    assert_eq!(newly_joined(&mut floodsub), vec![c]);
    inject_discovered(&mut floodsub, &Vec::new());
    assert_eq!(newly_joined(&mut floodsub), Vec::<PeerId>::new());
}

#[test]
fn a_peer_with_no_advertisement_left_leaves_the_forwarding_set() {
    let mdns = match fresh_discovery() {
        Some(mdns) => mdns,
        None => return,
    };
    let mut floodsub = Floodsub::new(PeerId::random());
    let a = PeerId::random();
    let b = PeerId::random();
    inject_discovered(&mut floodsub, &vec![a, b]);
    assert_eq!(newly_joined(&mut floodsub), vec![a, b]);
    inject_expired(&mut floodsub, &mdns, &vec![a]);
    inject_discovered(&mut floodsub, &vec![a, b]);
    assert_eq!(newly_joined(&mut floodsub), vec![a]);
}

#[test]
fn expiry_of_peers_outside_the_forwarding_set_changes_nothing() {
    let mdns = match fresh_discovery() {
        Some(mdns) => mdns,
        None => return,
    };
    let mut floodsub = Floodsub::new(PeerId::random());
    let a = PeerId::random();
    inject_discovered(&mut floodsub, &vec![a]);
    assert_eq!(newly_joined(&mut floodsub), vec![a]);
    inject_expired(&mut floodsub, &mdns, &vec![PeerId::random(), PeerId::random()]);
    inject_expired(&mut floodsub, &mdns, &Vec::new());
    inject_discovered(&mut floodsub, &vec![a]);
    assert_eq!(newly_joined(&mut floodsub), Vec::<PeerId>::new());
}

#[test]
fn fresh_discovery_knows_no_peer() {
    let mdns = match fresh_discovery() {
        Some(mdns) => mdns,
        None => return,
    };
    assert_eq!(handle_list_peers(&mdns), Vec::<PeerId>::new());
}

#[test]
fn peers_are_listed_once_in_the_order_of_their_first_entry() {
    let a = PeerId::random();
    let b = PeerId::random();
    let c = PeerId::random();
    assert_eq!(unique_peers(&vec![a, b, a, c, b, a]), vec![a, b, c]);
    assert_eq!(unique_peers(&vec![a, a]), vec![a]);
    assert_eq!(unique_peers(&Vec::new()), Vec::<PeerId>::new());
}
