//! Requests and responses on a broadcast channel.
//!
//! Every message reaches every peer, so a peer decides for itself which
//! messages concern it: a request names the peer it asks, or asks all; a
//! response names the peer it answers. A payload is read as a response
//! first and as a request only if it is no response; one that is neither is
//! dropped without a word, since other software may use the channel.
//!
//! A response does not say which request it answers. A peer that asked the
//! same peer twice cannot tell the two answers apart, and it is never told
//! that an answer will not come.

use crate::model::{
    Book, BookView, ListMode, ListModeView, ListRequest, ListRequestView, ListResponse,
    ListResponseView,
};
use crate::store::published;
use crate::text::same_text;
use vstd::prelude::*;

verus! {

/// What a payload turned out to be.
#[derive(Debug, PartialEq, Eq)]
pub enum Payload {
    Response(ListResponse),
    Request(ListRequest),
    /// Neither a response nor a request.
    Unreadable,
}

/// What a [`Payload`] stands for.
pub enum PayloadView {
    Response(ListResponseView),
    Request(ListRequestView),
    Unreadable,
}

impl View for Payload {
    type V = PayloadView;

    open spec fn view(&self) -> PayloadView {
        match self {
            Payload::Response(response) => PayloadView::Response(response@),
            Payload::Request(request) => PayloadView::Request(request@),
            Payload::Unreadable => PayloadView::Unreadable,
        }
    }
}

/// A payload as it is to be handled, and whether it could have been read in
/// two ways.
#[derive(Debug, PartialEq, Eq)]
pub struct Decoded {
    pub payload: Payload,
    /// The payload can be read both as a response and as a request. It is
    /// handled as a response.
    pub ambiguous: bool,
}

/// What a peer does about a message.
#[derive(Debug, PartialEq, Eq)]
pub enum Reaction {
    /// Show the operator the records that the peer `source` sent in answer.
    ShowResponse { source: String, records: Vec<Book> },
    /// Answer with this node's public records, addressed to `receiver`.
    Respond { receiver: String },
    /// Do nothing.
    Discard,
}

/// What a [`Reaction`] stands for.
pub enum ReactionView {
    ShowResponse { source: Seq<char>, records: Seq<BookView> },
    Respond { receiver: Seq<char> },
    Discard,
}

impl View for Reaction {
    type V = ReactionView;

    open spec fn view(&self) -> ReactionView {
        match self {
            Reaction::ShowResponse { source, records } => ReactionView::ShowResponse {
                source: source@,
                records: records.deep_view(),
            },
            Reaction::Respond { receiver } => ReactionView::Respond { receiver: receiver@ },
            Reaction::Discard => ReactionView::Discard,
        }
    }
}

/// The payload that two attempts to read it yield: a response if it reads as
/// one, else a request if it reads as one.
pub open spec fn payload_of(
    as_response: Option<ListResponseView>,
    as_request: Option<ListRequestView>,
) -> PayloadView {
    match as_response {
        Some(response) => PayloadView::Response(response),
        None => match as_request {
            Some(request) => PayloadView::Request(request),
            None => PayloadView::Unreadable,
        },
    }
}

/// What the peer `local` does about `payload`, sent by the peer `source`.
///
/// A response is shown if it is addressed to `local`. A request is answered
/// if it asks all peers or names `local`; the answer goes to `source`.
pub open spec fn reaction(local: Seq<char>, source: Seq<char>, payload: PayloadView) -> ReactionView {
    match payload {
        PayloadView::Response(response) => {
            if response.receiver == local {
                ReactionView::ShowResponse { source, records: response.data }
            } else {
                ReactionView::Discard
            }
        },
        PayloadView::Request(request) => match request.mode {
            ListModeView::ALL => ReactionView::Respond { receiver: source },
            ListModeView::One(peer) => {
                if peer == local {
                    ReactionView::Respond { receiver: source }
                } else {
                    ReactionView::Discard
                }
            },
        },
        PayloadView::Unreadable => ReactionView::Discard,
    }
}

/// The records of `books` that other peers may see, in their order.
pub open spec fn public_books(books: Seq<BookView>) -> Seq<BookView> {
    books.filter(|book: BookView| book.public)
}

/// The answer to a request from `receiver`, given the local collection.
pub open spec fn response_to(receiver: Seq<char>, books: Seq<BookView>) -> ListResponseView {
    ListResponseView { mode: ListModeView::ALL, data: public_books(books), receiver }
}

/// A request that names another peer is never answered.
pub proof fn lemma_request_for_another_peer(local: Seq<char>, source: Seq<char>, target: Seq<char>)
    requires
        target != local,
    ensures
        reaction(
            local,
            source,
            PayloadView::Request(ListRequestView { mode: ListModeView::One(target) }),
        ) == ReactionView::Discard,
{
}

/// A response is shown by the peer it is addressed to and by no other.
pub proof fn lemma_response_for_another_peer(
    local: Seq<char>,
    source: Seq<char>,
    response: ListResponseView,
)
    ensures
        reaction(local, source, PayloadView::Response(response)) is ShowResponse
            <==> response.receiver == local,
        response.receiver != local ==> reaction(local, source, PayloadView::Response(response))
            == ReactionView::Discard,
{
}

/// A peer answers exactly the requests that ask all peers or name it, and
/// addresses the answer to the peer that asked.
pub proof fn lemma_answered_requests(local: Seq<char>, source: Seq<char>, payload: PayloadView)
    ensures
        reaction(local, source, payload) is Respond <==> payload is Request && (
        payload->Request_0.mode is ALL || payload->Request_0.mode == ListModeView::One(local)),
        reaction(local, source, payload) is Respond ==> reaction(local, source, payload)
            == (ReactionView::Respond { receiver: source }),
{
}

/// An empty collection has no public records.
pub proof fn lemma_public_books_empty()
    ensures
        public_books(Seq::<BookView>::empty()) == Seq::<BookView>::empty(),
{
    reveal(Seq::filter);
}

/// The public records of a collection with one record more are those of the
/// collection, and after them the new record if it is public.
pub proof fn lemma_public_books_push(books: Seq<BookView>, book: BookView)
    ensures
        public_books(books.push(book)) == if book.public {
            public_books(books).push(book)
        } else {
            public_books(books)
        },
{
    reveal(Seq::filter);
    assert(books.push(book).drop_last() == books);
}

/// A response holds public records only, and every public record of the
/// collection.
pub proof fn lemma_response_holds_the_public_books(receiver: Seq<char>, books: Seq<BookView>)
    ensures
        forall|book: BookView| #[trigger]
            response_to(receiver, books).data.contains(book) <==> books.contains(book)
                && book.public,
{
    let shared = public_books(books);
    let is_public = |book: BookView| book.public;
    assert forall|book: BookView| #[trigger] shared.contains(book) <==> books.contains(book)
        && book.public by {
        if shared.contains(book) {
            let i = choose|i: int| 0 <= i < shared.len() && shared[i] == book;
            books.lemma_filter_pred(is_public, i);
            books.lemma_filter_contains_rev(is_public, book);
        }
        if books.contains(book) && book.public {
            let i = choose|i: int| 0 <= i < books.len() && books[i] == book;
            books.lemma_filter_contains(is_public, i);
        }
    }
}

/// Once a record is published, the answers to requests hold it.
pub proof fn lemma_published_book_is_shared(receiver: Seq<char>, books: Seq<BookView>, i: int)
    requires
        0 <= i < books.len(),
    ensures
        response_to(receiver, published(books, books[i].id)).data.contains(
            BookView { public: true, ..books[i] },
        ),
{
    let after = published(books, books[i].id);
    assert(after[i] == BookView { public: true, ..books[i] });
    lemma_response_holds_the_public_books(receiver, after);
}

/// Settles how a payload is handled from the two attempts to read it.
pub fn classify_payload(
    as_response: Option<ListResponse>,
    as_request: Option<ListRequest>,
) -> (decoded: Decoded)
    ensures
        decoded.payload@ == payload_of(
            match as_response {
                Some(response) => Some(response@),
                None => None,
            },
            match as_request {
                Some(request) => Some(request@),
                None => None,
            },
        ),
        decoded.ambiguous == (as_response is Some && as_request is Some),
{
    match as_response {
        Some(response) => Decoded {
            payload: Payload::Response(response),
            ambiguous: as_request.is_some(),
        },
        None => match as_request {
            Some(request) => Decoded { payload: Payload::Request(request), ambiguous: false },
            None => Decoded { payload: Payload::Unreadable, ambiguous: false },
        },
    }
}

/// Decides what the peer `local_peer` does about a payload that the peer
/// `source` broadcast.
pub fn inject_message(local_peer: &str, source: String, payload: Payload) -> (decision: Reaction)
    ensures
        decision@ == reaction(local_peer@, source@, payload@),
{
    match payload {
        Payload::Response(response) => {
            if same_text(response.receiver.as_str(), local_peer) {
                Reaction::ShowResponse { source, records: response.data }
            } else {
                Reaction::Discard
            }
        },
        Payload::Request(request) => match request.mode {
            ListMode::ALL => Reaction::Respond { receiver: source },
            ListMode::One(peer) => {
                if same_text(peer.as_str(), local_peer) {
                    Reaction::Respond { receiver: source }
                } else {
                    Reaction::Discard
                }
            },
        },
        Payload::Unreadable => Reaction::Discard,
    }
}

/// Builds the answer to a request from `receiver`: the public records of the
/// collection, in their order.
pub fn respond_with_public_books(books: Vec<Book>, receiver: String) -> (response: ListResponse)
    ensures
        response@ == response_to(receiver@, books.deep_view()),
{
    let ghost all = books.deep_view();
    let mut data: Vec<Book> = Vec::new();
    proof {
        assert(all.take(0) == Seq::<BookView>::empty());
        lemma_public_books_empty();
    }
    for book in it: books
        invariant
            it.seq().len() == all.len(),
            forall|j: int| 0 <= j < all.len() ==> (#[trigger] it.seq()[j])@ == all[j],
            data.deep_view() == public_books(all.take(it.index() as int)),
    {
        let ghost seen = all.take(it.index() as int);
        let ghost kept = data.deep_view();
        let ghost view = book@;
        proof {
            assert(all.take(it.index() + 1) == seen.push(view));
            lemma_public_books_push(seen, view);
        }
        if book.public {
            data.push(book);
            assert(data.deep_view() =~= kept.push(view));
        }
    }
    assert(all.take(all.len() as int) == all);
    ListResponse { mode: ListMode::ALL, data, receiver }
}

} // verus!
