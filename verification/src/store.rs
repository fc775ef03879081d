//! What the commands do to a peer's collection of reviews.
//!
//! The collection is kept elsewhere and handed over whole: a function here
//! takes the collection as it was read and leaves it as it is to be written
//! back.

use crate::model::{Book, BookView};
use vstd::prelude::*;

verus! {

/// Why a command left the collection as it was.
#[derive(Debug, Clone, Copy, PartialEq, Eq)]
pub enum StoreError {
    /// No record has the id that the command names.
    NotFound,
    /// The id after the largest one in use is more than a `usize` holds.
    IdsExhausted,
}

impl StoreError {
    /// The error in words.
    pub fn message(&self) -> (words: &'static str)
        ensures
            words@ == match self {
                StoreError::NotFound => "Book review not found"@,
                StoreError::IdsExhausted => "No id is left for a new book review"@,
            },
    {
        match self {
            StoreError::NotFound => "Book review not found",
            StoreError::IdsExhausted => "No id is left for a new book review",
        }
    }
}

/// Whether no two records of `books` have the same id.
pub open spec fn unique_ids(books: Seq<BookView>) -> bool {
    forall|i: int, j: int|
        0 <= i < books.len() && 0 <= j < books.len() && i != j ==> books[i].id != books[j].id
}

/// Whether a record of `books` has the id `id`.
pub open spec fn has_id(books: Seq<BookView>, id: nat) -> bool {
    exists|i: int| 0 <= i < books.len() && books[i].id == id
}

/// The id of the next record: one more than the largest id in `books`, and 0
/// for an empty collection.
pub open spec fn next_id(books: Seq<BookView>) -> nat
    decreases books.len(),
{
    if books.len() == 0 {
        0
    } else {
        let before = next_id(books.drop_last());
        if books.last().id < before {
            before
        } else {
            books.last().id + 1
        }
    }
}

/// The index of the first record of `books` with the id `id`, or the length
/// of `books` if there is none.
pub open spec fn first_with_id(books: Seq<BookView>, id: nat) -> int
    decreases books.len(),
{
    if books.len() == 0 || books.first().id == id {
        0
    } else {
        1 + first_with_id(books.drop_first(), id)
    }
}

/// `books` with every record of the id `id` made public.
pub open spec fn published(books: Seq<BookView>, id: nat) -> Seq<BookView> {
    books.map_values(
        |book: BookView|
            if book.id == id {
                BookView { public: true, ..book }
            } else {
                book
            },
    )
}

/// A record that was just created: it has the given id and texts, and is not
/// public.
pub open spec fn new_book(
    id: nat,
    title: Seq<char>,
    genre: Seq<char>,
    author: Seq<char>,
    rating: Seq<char>,
    review: Seq<char>,
) -> BookView {
    BookView { id, title, genre, author, rating, review, public: false }
}

/// The new record is given the id 0 in an empty collection, and otherwise an
/// id that is one more than the largest id in use.
pub proof fn lemma_next_id(books: Seq<BookView>)
    ensures
        books.len() == 0 ==> next_id(books) == 0,
        forall|i: int| 0 <= i < books.len() ==> (#[trigger] books[i]).id < next_id(books),
        books.len() > 0 ==> exists|i: int|
            0 <= i < books.len() && (#[trigger] books[i]).id + 1 == next_id(books),
    decreases books.len(),
{
    if books.len() > 0 {
        let rest = books.drop_last();
        let n = rest.len() as int;
        lemma_next_id(rest);
        assert forall|i: int| 0 <= i < books.len() implies (#[trigger] books[i]).id < next_id(
            books,
        ) by {
            if i < n {
                assert(rest[i] == books[i]);
            }
        }
        if books.last().id < next_id(rest) {
            let i = choose|i: int| 0 <= i < rest.len() && (#[trigger] rest[i]).id + 1 == next_id(rest);
            assert(books[i] == rest[i]);
        } else {
            assert(books[n].id + 1 == next_id(books));
        }
    }
}

/// `first_with_id` is the one index before which no record has the id and at
/// which a record has it or the collection ends.
pub proof fn lemma_first_with_id(books: Seq<BookView>, id: nat, k: int)
    requires
        0 <= k <= books.len(),
        forall|j: int| 0 <= j < k ==> (#[trigger] books[j]).id != id,
        k == books.len() || books[k].id == id,
    ensures
        first_with_id(books, id) == k,
        has_id(books, id) <==> k < books.len(),
    decreases books.len(),
{
    if k > 0 {
        let rest = books.drop_first();
        assert(books[0].id != id);
        assert forall|j: int| 0 <= j < k - 1 implies (#[trigger] rest[j]).id != id by {
            assert(rest[j] == books[j + 1]);
        }
        lemma_first_with_id(rest, id, k - 1);
    }
    if k == books.len() {
        assert forall|i: int| 0 <= i < books.len() implies books[i].id != id by {
            assert(books[i].id != id);
        }
    }
}

/// The first record with an id: where it is, and that there is none before
/// it.
pub proof fn lemma_first_with_id_found(books: Seq<BookView>, id: nat)
    ensures
        0 <= first_with_id(books, id) <= books.len(),
        forall|j: int| 0 <= j < first_with_id(books, id) ==> (#[trigger] books[j]).id != id,
        has_id(books, id) <==> first_with_id(books, id) < books.len(),
        first_with_id(books, id) < books.len() ==> books[first_with_id(books, id)].id == id,
    decreases books.len(),
{
    if books.len() > 0 && books.first().id != id {
        let rest = books.drop_first();
        lemma_first_with_id_found(rest, id);
        let k = first_with_id(rest, id);
        assert forall|j: int| 0 <= j < k + 1 implies (#[trigger] books[j]).id != id by {
            if j > 0 {
                assert(rest[j - 1] == books[j]);
            }
        }
        if k < rest.len() {
            assert(rest[k] == books[k + 1]);
        }
        lemma_first_with_id(books, id, k + 1);
    } else {
        lemma_first_with_id(books, id, 0);
    }
}

/// Deleting an id that is in use takes out one record, which has that id,
/// and keeps every other record, in the order they had.
pub proof fn lemma_delete_removes_one_record(books: Seq<BookView>, id: nat)
    requires
        has_id(books, id),
    ensures
        ({
            let k = first_with_id(books, id);
            let after = books.remove(k);
            &&& 0 <= k < books.len()
            &&& books[k].id == id
            &&& after.len() == books.len() - 1
            &&& forall|j: int| 0 <= j < k ==> #[trigger] after[j] == books[j]
            &&& forall|j: int| k <= j < after.len() ==> #[trigger] after[j] == books[j + 1]
        }),
{
    lemma_first_with_id_found(books, id);
}

/// In a collection without a repeated id, no record has a deleted id any
/// more.
pub proof fn lemma_delete_frees_the_id(books: Seq<BookView>, id: nat)
    requires
        unique_ids(books),
        has_id(books, id),
    ensures
        !has_id(books.remove(first_with_id(books, id)), id),
        unique_ids(books.remove(first_with_id(books, id))),
{
    lemma_delete_removes_one_record(books, id);
    let k = first_with_id(books, id);
    let after = books.remove(k);
    assert forall|j: int| 0 <= j < after.len() implies after[j].id != id by {
        if j < k {
            assert(after[j] == books[j]);
        } else {
            assert(after[j] == books[j + 1]);
        }
    }
}

/// Publishing an id makes the records with that id public and changes
/// nothing else: no other record, and no other field.
pub proof fn lemma_publish_changes_only_visibility(books: Seq<BookView>, id: nat)
    ensures
        published(books, id).len() == books.len(),
        forall|i: int|
            0 <= i < books.len() ==> #[trigger] published(books, id)[i] == (BookView {
                public: books[i].public || books[i].id == id,
                ..books[i]
            }),
        !has_id(books, id) ==> published(books, id) == books,
{
    if !has_id(books, id) {
        assert(published(books, id) =~= books);
    }
}

/// The largest id among `books`, if there is a record.
fn largest_id(books: &Vec<Book>) -> (largest: Option<usize>)
    ensures
        match largest {
            Some(id) => next_id(books.deep_view()) == id + 1,
            None => next_id(books.deep_view()) == 0 && books.len() == 0,
        },
{
    let mut largest: Option<usize> = None;
    let mut i: usize = 0;
    assert(books.deep_view().take(0) == Seq::<BookView>::empty());
    while i < books.len()
        invariant
            i <= books.len(),
            match largest {
                Some(id) => next_id(books.deep_view().take(i as int)) == id + 1,
                None => next_id(books.deep_view().take(i as int)) == 0 && i == 0,
            },
        decreases books.len() - i,
    {
        let id = books[i].id;
        proof {
            let seen = books.deep_view().take(i + 1);
            assert(seen.drop_last() == books.deep_view().take(i as int));
            assert(seen.last() == books@[i as int]@);
        }
        largest = match largest {
            Some(other) if id < other => Some(other),
            _ => Some(id),
        };
        i = i + 1;
    }
    assert(books.deep_view().take(books.len() as int) == books.deep_view());
    largest
}

/// Adds a record with the given texts to the end of the collection. The
/// record is not public, and its id, which is returned, is `next_id` of the
/// collection.
///
/// If that id is more than a `usize` holds, the collection stays as it was.
pub fn create_new_book(
    books: &mut Vec<Book>,
    title: &str,
    genre: &str,
    author: &str,
    rating: &str,
    review: &str,
) -> (created: Result<usize, StoreError>)
    ensures
        match created {
            Ok(id) => {
                &&& id == next_id(old(books).deep_view())
                &&& final(books).deep_view() == old(books).deep_view().push(
                    new_book(id as nat, title@, genre@, author@, rating@, review@),
                )
                &&& final(books)@.len() == old(books)@.len() + 1
                &&& final(books)@.drop_last() == old(books)@
                &&& final(books)@.last()@ == new_book(
                    id as nat,
                    title@,
                    genre@,
                    author@,
                    rating@,
                    review@,
                )
            },
            Err(error) => {
                &&& error == StoreError::IdsExhausted
                &&& next_id(old(books).deep_view()) > usize::MAX
                &&& *final(books) == *old(books)
            },
        },
        unique_ids(old(books).deep_view()) ==> unique_ids(final(books).deep_view()),
{
    let new_id: usize = match largest_id(books) {
        Some(id) => {
            if id == usize::MAX {
                return Err(StoreError::IdsExhausted);
            }
            id + 1
        },
        None => 0,
    };
    let book = Book {
        id: new_id,
        title: title.to_owned(),
        genre: genre.to_owned(),
        author: author.to_owned(),
        rating: rating.to_owned(),
        review: review.to_owned(),
        public: false,
    };
    let ghost before = books.deep_view();
    let ghost added = book@;
    books.push(book);
    proof {
        lemma_next_id(before);
        assert(books.deep_view() =~= before.push(added));
        assert(books@.drop_last() =~= old(books)@);
    }
    Ok(new_id)
}

/// Removes the first record with the id `id`. If no record has that id, the
/// collection stays as it was and the error is [`StoreError::NotFound`].
pub fn delete_book_review(books: &mut Vec<Book>, id: usize) -> (deleted: Result<(), StoreError>)
    ensures
        match deleted {
            Ok(()) => {
                &&& has_id(old(books).deep_view(), id as nat)
                &&& final(books).deep_view() == old(books).deep_view().remove(
                    first_with_id(old(books).deep_view(), id as nat),
                )
                &&& final(books)@ == old(books)@.remove(
                    first_with_id(old(books).deep_view(), id as nat),
                )
            },
            Err(error) => {
                &&& error == StoreError::NotFound
                &&& !has_id(old(books).deep_view(), id as nat)
                &&& *final(books) == *old(books)
            },
        },
        unique_ids(old(books).deep_view()) ==> unique_ids(final(books).deep_view()),
{
    let mut i: usize = 0;
    while i < books.len()
        invariant
            i <= books.len(),
            *books == *old(books),
            forall|j: int| 0 <= j < i ==> (#[trigger] books.deep_view()[j]).id != id,
        decreases books.len() - i,
    {
        if books[i].id == id {
            let ghost before = books.deep_view();
            books.remove(i);
            proof {
                lemma_first_with_id(before, id as nat, i as int);
                assert(books.deep_view() =~= before.remove(i as int));
            }
            return Ok(());
        }
        i = i + 1;
    }
    proof {
        lemma_first_with_id(books.deep_view(), id as nat, books.len() as int);
    }
    Err(StoreError::NotFound)
}

/// Makes every record with the id `id` public, and says whether there is
/// one. Without one the collection stays as it was.
pub fn publish_book(books: &mut Vec<Book>, id: usize) -> (found: bool)
    ensures
        found == has_id(old(books).deep_view(), id as nat),
        final(books).deep_view() == published(old(books).deep_view(), id as nat),
        final(books)@.len() == old(books)@.len(),
        unique_ids(old(books).deep_view()) ==> unique_ids(final(books).deep_view()),
{
    let mut found = false;
    let mut i: usize = 0;
    while i < books.len()
        invariant
            i <= books.len(),
            books.len() == old(books).len(),
            found == has_id(old(books).deep_view().take(i as int), id as nat),
            forall|j: int|
                0 <= j < i ==> (#[trigger] books.deep_view()[j]) == published(
                    old(books).deep_view(),
                    id as nat,
                )[j],
            forall|j: int|
                i <= j < books.len() ==> (#[trigger] books.deep_view()[j]) == old(
                    books,
                ).deep_view()[j],
            forall|j: int| 0 <= j < books.len() ==> (#[trigger] books@[j]).id == old(books)@[j].id,
        decreases books.len() - i,
    {
        let ghost before = books@;
        let ghost views = books.deep_view();
        assert(views[i as int] == old(books).deep_view()[i as int]);
        if books[i].id == id {
            books[i].public = true;
            found = true;
            assert(books@.len() == before.len());
            assert(forall|j: int| 0 <= j < books.len() && j != i ==> books@[j] == before[j]);
            assert(books@[i as int]@ == BookView { public: true, ..before[i as int]@ });
        }
        proof {
            let seen = old(books).deep_view().take(i as int);
            let next = old(books).deep_view().take(i + 1);
            assert(before[i as int]@ == views[i as int]);
            if has_id(seen, id as nat) {
                let k = choose|k: int| 0 <= k < seen.len() && seen[k].id == id as nat;
                assert(next[k].id == id as nat);
            }
            if old(books).deep_view()[i as int].id == id as nat {
                assert(next[i as int].id == id as nat);
            }
            if has_id(next, id as nat) {
                let k = choose|k: int| 0 <= k < next.len() && next[k].id == id as nat;
                if k < i {
                    assert(seen[k].id == id as nat);
                }
            }
            assert forall|j: int| 0 <= j < i + 1 implies (#[trigger] books.deep_view()[j])
                == published(old(books).deep_view(), id as nat)[j] by {
                if j < i {
                    assert(books@[j] == before[j]);
                    assert(views[j] == before[j]@);
                }
            }
            assert forall|j: int| i + 1 <= j < books.len() implies (#[trigger] books.deep_view()[j])
                == old(books).deep_view()[j] by {
                assert(books@[j] == before[j]);
                assert(views[j] == before[j]@);
            }
        }
        i = i + 1;
    }
    assert(old(books).deep_view().take(books.len() as int) == old(books).deep_view());
    assert(books.deep_view() =~= published(old(books).deep_view(), id as nat));
    found
}

} // verus!
