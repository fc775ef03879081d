//! One turn of the node's loop.
//!
//! The loop gathers events from three sources: lines that the operator
//! enters, responses that are ready to be sent, and what the network
//! reports. It handles them one at a time, each to its end before the next is
//! picked. Which of two events that are ready together comes first is not
//! settled, and nothing here depends on it: what is done about an event
//! depends on that event, on who this node is and, for the forwarding set, on
//! what discovery holds.

use crate::command::{command, parse_command, Command, CommandView};
use crate::discovery::{advertised, departed, inject_discovered, inject_expired, partial_view};
use crate::model::{ListResponse, ListResponseView};
use crate::protocol::{inject_message, reaction, Payload, PayloadView, Reaction, ReactionView};
use libp2p::floodsub::Floodsub;
use libp2p::mdns::Mdns;
use libp2p::PeerId;
use vstd::prelude::*;

verus! {

/// An event that the loop handles itself.
#[derive(Debug, PartialEq, Eq)]
pub enum EventType {
    /// An answer to a peer's request is ready to be sent.
    Response(ListResponse),
    /// The operator entered a line.
    Input(String),
}

/// What an [`EventType`] stands for.
pub enum EventTypeView {
    Response(ListResponseView),
    Input(Seq<char>),
}

impl View for EventType {
    type V = EventTypeView;

    open spec fn view(&self) -> EventTypeView {
        match self {
            EventType::Response(response) => EventTypeView::Response(response@),
            EventType::Input(line) => EventTypeView::Input(line@),
        }
    }
}

/// What the loop does in one turn.
#[derive(Debug, PartialEq, Eq)]
pub enum Action {
    /// Broadcast the response.
    Publish(ListResponse),
    /// Carry out the command.
    Run(Command),
}

/// What an [`Action`] stands for.
pub enum ActionView {
    Publish(ListResponseView),
    Run(CommandView),
}

impl View for Action {
    type V = ActionView;

    open spec fn view(&self) -> ActionView {
        match self {
            Action::Publish(response) => ActionView::Publish(response@),
            Action::Run(parsed) => ActionView::Run(parsed@),
        }
    }
}

/// What the network reports.
#[derive(Debug, PartialEq, Eq)]
pub enum NetworkEvent {
    /// Peers became visible on the local network.
    Discovered(Vec<PeerId>),
    /// Advertisements of these peers ran out.
    Expired(Vec<PeerId>),
    /// The peer `source` broadcast a payload.
    Message { source: String, payload: Payload },
    /// Anything else. It changes nothing.
    Other,
}

/// What a [`NetworkEvent`] stands for.
pub enum NetworkEventView {
    Discovered(Seq<PeerId>),
    Expired(Seq<PeerId>),
    Message { source: Seq<char>, payload: PayloadView },
    Other,
}

impl View for NetworkEvent {
    type V = NetworkEventView;

    open spec fn view(&self) -> NetworkEventView {
        match self {
            NetworkEvent::Discovered(peers) => NetworkEventView::Discovered(peers@),
            NetworkEvent::Expired(peers) => NetworkEventView::Expired(peers@),
            NetworkEvent::Message { source, payload } => NetworkEventView::Message {
                source: source@,
                payload: payload@,
            },
            NetworkEvent::Other => NetworkEventView::Other,
        }
    }
}

/// The forwarding set after `event`, where it was `view` before and `live`
/// are the peers of the advertisements that discovery holds. Only discovery
/// changes it.
pub open spec fn membership(view: Set<PeerId>, live: Seq<PeerId>, event: NetworkEventView) -> Set<
    PeerId,
> {
    match event {
        NetworkEventView::Discovered(peers) => view.union(peers.to_set()),
        NetworkEventView::Expired(peers) => view.difference(departed(peers, live)),
        _ => view,
    }
}

/// What the peer `local` does about `event`. Only a message calls for
/// anything.
pub open spec fn network_reaction(local: Seq<char>, event: NetworkEventView) -> ReactionView {
    match event {
        NetworkEventView::Message { source, payload } => reaction(local, source, payload),
        _ => ReactionView::Discard,
    }
}

/// The turn that `event` calls for: a response is broadcast as it is, a line
/// of input is read as a command.
pub open spec fn turn(event: EventTypeView) -> ActionView {
    match event {
        EventTypeView::Response(response) => ActionView::Publish(response),
        EventTypeView::Input(line) => ActionView::Run(command(line)),
    }
}

/// A response that is ready is always broadcast, and nothing else is.
pub proof fn lemma_responses_are_published(event: EventTypeView)
    ensures
        turn(event) is Publish <==> event is Response,
        event is Response ==> turn(event) == ActionView::Publish(event->Response_0),
{
}

/// Decides what the loop does about `event`.
pub fn handle_event(event: EventType) -> (action: Action)
    ensures
        action@ == turn(event@),
{
    match event {
        EventType::Response(response) => Action::Publish(response),
        EventType::Input(line) => Action::Run(parse_command(line.as_str())),
    }
}

/// Handles what the network reported: discovery changes the forwarding set
/// of `floodsub`, a message is decided on for the peer `local_peer`.
pub fn inject_event(
    floodsub: &mut Floodsub,
    mdns: &Mdns,
    local_peer: &str,
    event: NetworkEvent,
) -> (decision: Reaction)
    ensures
        partial_view(*final(floodsub)) == membership(
            partial_view(*old(floodsub)),
            advertised(*mdns),
            event@,
        ),
        decision@ == network_reaction(local_peer@, event@),
{
    match event {
        NetworkEvent::Discovered(peers) => {
            inject_discovered(floodsub, &peers);
            Reaction::Discard
        },
        NetworkEvent::Expired(peers) => {
            inject_expired(floodsub, mdns, &peers);
            Reaction::Discard
        },
        NetworkEvent::Message { source, payload } => inject_message(local_peer, source, payload),
        NetworkEvent::Other => Reaction::Discard,
    }
}

} // verus!
