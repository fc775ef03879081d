use libp2p::floodsub::Floodsub;
use libp2p::futures::executor::block_on;
use libp2p::futures::task::noop_waker;
use libp2p::mdns::{Mdns, MdnsConfig};
use libp2p::swarm::{AddressRecord, NetworkBehaviour, NetworkBehaviourAction, PollParameters};
use libp2p::{Multiaddr, PeerId};
use p2p_books::command::Command;
use p2p_books::event_loop::{handle_event, inject_event, Action, EventType, NetworkEvent};
use p2p_books::model::{Book, ListMode, ListRequest, ListResponse};
use p2p_books::protocol::{Payload, Reaction};
use std::task::{Context, Poll};

const LOCAL: &str = "12D3KooWLocal";
const OTHER: &str = "12D3KooWOther";

struct Params {
    local: PeerId,
}

impl PollParameters for Params {
    type SupportedProtocolsIter = std::vec::IntoIter<Vec<u8>>;
    type ListenedAddressesIter = std::vec::IntoIter<Multiaddr>;
    type ExternalAddressesIter = std::vec::IntoIter<AddressRecord>;

    fn supported_protocols(&self) -> Self::SupportedProtocolsIter {
        Vec::new().into_iter()
    }

    fn listened_addresses(&self) -> Self::ListenedAddressesIter {
        Vec::new().into_iter()
    }

    fn external_addresses(&self) -> Self::ExternalAddressesIter {
        Vec::new().into_iter()
    }

    fn local_peer_id(&self) -> &PeerId {
        &self.local
    }
}

/// The peers that the floodsub layer asked to dial since the last call. It
/// asks for a peer exactly when that peer newly joins its forwarding set.
fn newly_joined(floodsub: &mut Floodsub) -> Vec<PeerId> {
    let waker = noop_waker();
    let mut cx = Context::from_waker(&waker);
    let mut params = Params { local: PeerId::random() };
    let mut joined = Vec::new();
    loop {
        match floodsub.poll(&mut cx, &mut params) {
            Poll::Ready(NetworkBehaviourAction::DialPeer { peer_id, .. }) => joined.push(peer_id),
            Poll::Ready(_) => {}
            Poll::Pending => break,
        }
    }
    joined
}

/// Discovery with no advertisement yet, where the host lets it start.
fn fresh_discovery() -> Option<Mdns> {
    block_on(Mdns::new(MdnsConfig::default())).ok()
}

fn book(id: usize) -> Book {
    Book {
        id,
        title: "T".to_string(),
        genre: "G".to_string(),
        author: "A".to_string(),
        rating: "R".to_string(),
        review: "Rv".to_string(),
        public: true,
    }
}

#[test]
fn a_response_that_is_ready_is_published_as_it_is() {
    let response = ListResponse { mode: ListMode::ALL, data: vec![book(2)], receiver: OTHER.to_string() };
    assert_eq!(handle_event(EventType::Response(response.clone())), Action::Publish(response));
}

#[test]
fn an_empty_response_is_published_too() {
    let response = ListResponse { mode: ListMode::ALL, data: Vec::new(), receiver: String::new() };
    assert_eq!(handle_event(EventType::Response(response.clone())), Action::Publish(response));
}

#[test]
fn a_line_of_input_is_run_as_a_command() {
    assert_eq!(handle_event(EventType::Input("list peers".to_string())), Action::Run(Command::ListPeers));
    assert_eq!(
        handle_event(EventType::Input("list reviews all".to_string())),
        Action::Run(Command::RequestReviews(ListRequest { mode: ListMode::ALL }))
    );
    assert_eq!(handle_event(EventType::Input("delete review 3".to_string())), Action::Run(Command::DeleteReview(3)));
    assert_eq!(handle_event(EventType::Input("what".to_string())), Action::Run(Command::Unknown));
}

#[test]
fn discovery_changes_the_forwarding_set_and_calls_for_nothing() {
    let mdns = match fresh_discovery() {
        Some(mdns) => mdns,
        None => return,
    };
    let mut floodsub = Floodsub::new(PeerId::random());
    let a = PeerId::random();
    let b = PeerId::random();
    assert_eq!(
        inject_event(&mut floodsub, &mdns, LOCAL, NetworkEvent::Discovered(vec![a, b])),
        Reaction::Discard
    );
    assert_eq!(newly_joined(&mut floodsub), vec![a, b]);
    assert_eq!(inject_event(&mut floodsub, &mdns, LOCAL, NetworkEvent::Expired(vec![b])), Reaction::Discard);
    assert_eq!(
        inject_event(&mut floodsub, &mdns, LOCAL, NetworkEvent::Discovered(vec![a, b])),
        Reaction::Discard
    );
    assert_eq!(newly_joined(&mut floodsub), vec![b]);
}

#[test]
fn a_message_is_decided_on_and_leaves_the_forwarding_set_alone() {
    let mdns = match fresh_discovery() {
        Some(mdns) => mdns,
        None => return,
    };
    let mut floodsub = Floodsub::new(PeerId::random());
    let a = PeerId::random();
    inject_event(&mut floodsub, &mdns, LOCAL, NetworkEvent::Discovered(vec![a]));
    assert_eq!(newly_joined(&mut floodsub), vec![a]);

    let request = NetworkEvent::Message {
        source: OTHER.to_string(),
        payload: Payload::Request(ListRequest { mode: ListMode::ALL }),
    };
    assert_eq!(
        inject_event(&mut floodsub, &mdns, LOCAL, request),
        Reaction::Respond { receiver: OTHER.to_string() }
    );
    let response = NetworkEvent::Message {
        source: OTHER.to_string(),
        payload: Payload::Response(ListResponse {
            mode: ListMode::ALL,
            data: vec![book(1)],
            receiver: LOCAL.to_string(),
        }),
    };
    assert_eq!(
        inject_event(&mut floodsub, &mdns, LOCAL, response),
        Reaction::ShowResponse { source: OTHER.to_string(), records: vec![book(1)] }
    );
    let elsewhere = NetworkEvent::Message {
        source: OTHER.to_string(),
        payload: Payload::Request(ListRequest { mode: ListMode::One(OTHER.to_string()) }),
    };
    assert_eq!(inject_event(&mut floodsub, &mdns, LOCAL, elsewhere), Reaction::Discard);

    inject_event(&mut floodsub, &mdns, LOCAL, NetworkEvent::Discovered(vec![a]));
    assert_eq!(newly_joined(&mut floodsub), Vec::<PeerId>::new());
}

#[test]
fn other_network_events_change_nothing() {
    let mdns = match fresh_discovery() {
        Some(mdns) => mdns,
        None => return,
    };
    let mut floodsub = Floodsub::new(PeerId::random());
    let a = PeerId::random();
    inject_event(&mut floodsub, &mdns, LOCAL, NetworkEvent::Discovered(vec![a]));
    assert_eq!(newly_joined(&mut floodsub), vec![a]);
    assert_eq!(inject_event(&mut floodsub, &mdns, LOCAL, NetworkEvent::Other), Reaction::Discard);
    inject_event(&mut floodsub, &mdns, LOCAL, NetworkEvent::Discovered(vec![a]));
    assert_eq!(newly_joined(&mut floodsub), Vec::<PeerId>::new());
}
