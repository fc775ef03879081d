//! The records a peer holds and the two messages peers exchange about them.
//!
//! Every type has a view made of mathematical values: text is a sequence of
//! characters, a collection a sequence of record views. The contracts of
//! the other modules are stated over these views.

use vstd::prelude::*;

verus! {

/// One book review of a peer's local collection.
///
/// A record is identified by `id`. Only records with `public` set are shown
/// to other peers.
#[derive(Debug, PartialEq, Eq)]
pub struct Book {
    pub id: usize,
    pub title: String,
    pub genre: String,
    pub author: String,
    pub rating: String,
    pub review: String,
    pub public: bool,
}

/// What a [`Book`] stands for.
pub struct BookView {
    pub id: nat,
    pub title: Seq<char>,
    pub genre: Seq<char>,
    pub author: Seq<char>,
    pub rating: Seq<char>,
    pub review: Seq<char>,
    pub public: bool,
}

impl View for Book {
    type V = BookView;

    open spec fn view(&self) -> BookView {
        BookView {
            id: self.id as nat,
            title: self.title@,
            genre: self.genre@,
            author: self.author@,
            rating: self.rating@,
            review: self.review@,
            public: self.public,
        }
    }
}

impl Clone for Book {
    fn clone(&self) -> (copy: Self)
        ensures
            copy@ == self@,
    {
        Book {
            id: self.id,
            title: self.title.clone(),
            genre: self.genre.clone(),
            author: self.author.clone(),
            rating: self.rating.clone(),
            review: self.review.clone(),
            public: self.public,
        }
    }
}

impl DeepView for Book {
    type V = BookView;

    open spec fn deep_view(&self) -> BookView {
        self@
    }
}

/// Whose records a request asks for: those of every peer, or those of one.
#[derive(Debug, PartialEq, Eq)]
pub enum ListMode {
    ALL,
    One(String),
}

/// What a [`ListMode`] stands for.
pub enum ListModeView {
    ALL,
    One(Seq<char>),
}

impl View for ListMode {
    type V = ListModeView;

    open spec fn view(&self) -> ListModeView {
        match self {
            ListMode::ALL => ListModeView::ALL,
            ListMode::One(peer) => ListModeView::One(peer@),
        }
    }
}

impl Clone for ListMode {
    fn clone(&self) -> (copy: Self)
        ensures
            copy@ == self@,
    {
        match self {
            ListMode::ALL => ListMode::ALL,
            ListMode::One(peer) => ListMode::One(peer.clone()),
        }
    }
}

/// A query for records, broadcast to every peer.
#[derive(Debug, PartialEq, Eq)]
pub struct ListRequest {
    pub mode: ListMode,
}

/// What a [`ListRequest`] stands for.
pub struct ListRequestView {
    pub mode: ListModeView,
}

impl View for ListRequest {
    type V = ListRequestView;

    open spec fn view(&self) -> ListRequestView {
        ListRequestView { mode: self.mode@ }
    }
}

impl Clone for ListRequest {
    fn clone(&self) -> (copy: Self)
        ensures
            copy@ == self@,
    {
        ListRequest { mode: self.mode.clone() }
    }
}

/// An answer to a [`ListRequest`]. It is broadcast like every message; the
/// peer named by `receiver` is the one it is meant for.
#[derive(Debug, PartialEq, Eq)]
pub struct ListResponse {
    pub mode: ListMode,
    pub data: Vec<Book>,
    pub receiver: String,
}

/// What a [`ListResponse`] stands for.
pub struct ListResponseView {
    pub mode: ListModeView,
    pub data: Seq<BookView>,
    pub receiver: Seq<char>,
}

impl View for ListResponse {
    type V = ListResponseView;

    open spec fn view(&self) -> ListResponseView {
        ListResponseView {
            mode: self.mode@,
            data: self.data.deep_view(),
            receiver: self.receiver@,
        }
    }
}

impl Clone for ListResponse {
    fn clone(&self) -> (copy: Self)
        ensures
            copy@ == self@,
    {
        let data = self.data.clone();
        assert(data.deep_view() =~= self.data.deep_view());
        ListResponse { mode: self.mode.clone(), data, receiver: self.receiver.clone() }
    }
}

} // verus!
