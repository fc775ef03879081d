//! The commands an operator types, one to a line.
//!
//! | line | command |
//! |---|---|
//! | `list peers` | [`Command::ListPeers`] |
//! | `list reviews all` | [`Command::RequestReviews`] of every peer |
//! | `list reviews <peer>` | [`Command::RequestReviews`] of that peer |
//! | `list reviews` | [`Command::ShowLocalReviews`] |
//! | `create review <title>\|<genre>\|<author>\|<rating>\|<review>` | [`Command::CreateReview`] |
//! | `publish review <id>` | [`Command::PublishReview`] |
//! | `delete review <id>` | [`Command::DeleteReview`] |
//!
//! The words of a command are matched letter for letter. [`command`] says
//! which command a line is; [`parse_command`] computes it.

use crate::model::{ListMode, ListModeView, ListRequest, ListRequestView};
use crate::text::{fields, number, parse_usize, same_text, split, starts_with, strip_prefix, texts, trim, trimmed};
use vstd::prelude::*;

verus! {

/// What a line of input asks for.
#[derive(Debug, PartialEq, Eq)]
pub enum Command {
    /// Show the peers that discovery knows, each once.
    ListPeers,
    /// Broadcast a request for the reviews of other peers.
    RequestReviews(ListRequest),
    /// Show this node's own collection. Nothing is sent.
    ShowLocalReviews,
    /// Add a review to the collection.
    CreateReview { title: String, genre: String, author: String, rating: String, review: String },
    /// Share the review with this id.
    PublishReview(usize),
    /// Remove the review with this id.
    DeleteReview(usize),
    /// A `create review` with fewer than five fields.
    TooFewFields,
    /// A `publish review` or `delete review` whose argument, held here, is no
    /// id.
    InvalidId(String),
    /// A line handed to the handler of another command.
    NotApplicable,
    /// A line that is none of the commands.
    Unknown,
}

/// What a [`Command`] stands for.
pub enum CommandView {
    ListPeers,
    RequestReviews(ListRequestView),
    ShowLocalReviews,
    CreateReview {
        title: Seq<char>,
        genre: Seq<char>,
        author: Seq<char>,
        rating: Seq<char>,
        review: Seq<char>,
    },
    PublishReview(nat),
    DeleteReview(nat),
    TooFewFields,
    InvalidId(Seq<char>),
    NotApplicable,
    Unknown,
}

impl View for Command {
    type V = CommandView;

    open spec fn view(&self) -> CommandView {
        match self {
            Command::ListPeers => CommandView::ListPeers,
            Command::RequestReviews(request) => CommandView::RequestReviews(request@),
            Command::ShowLocalReviews => CommandView::ShowLocalReviews,
            Command::CreateReview { title, genre, author, rating, review } => {
                CommandView::CreateReview {
                    title: title@,
                    genre: genre@,
                    author: author@,
                    rating: rating@,
                    review: review@,
                }
            },
            Command::PublishReview(id) => CommandView::PublishReview(*id as nat),
            Command::DeleteReview(id) => CommandView::DeleteReview(*id as nat),
            Command::TooFewFields => CommandView::TooFewFields,
            Command::InvalidId(text) => CommandView::InvalidId(text@),
            Command::NotApplicable => CommandView::NotApplicable,
            Command::Unknown => CommandView::Unknown,
        }
    }
}

/// What follows `keyword` in `cmd`. It is meant for a `cmd` that begins with
/// `keyword`.
pub open spec fn after(cmd: Seq<char>, keyword: Seq<char>) -> Seq<char> {
    cmd.skip(keyword.len() as int)
}

/// `list reviews`, followed by a space and `all` or a peer's identity, asks
/// the other peers; every other line given to this handler asks for the local
/// collection.
pub open spec fn list_reviews(cmd: Seq<char>) -> CommandView {
    if "list reviews "@.is_prefix_of(cmd) {
        let target = after(cmd, "list reviews "@);
        if target == "all"@ {
            CommandView::RequestReviews(ListRequestView { mode: ListModeView::ALL })
        } else {
            CommandView::RequestReviews(ListRequestView { mode: ListModeView::One(target) })
        }
    } else {
        CommandView::ShowLocalReviews
    }
}

/// The arguments of `create review`: what follows the two words, without the
/// one space that sets it apart from them.
pub open spec fn create_arguments(cmd: Seq<char>) -> Seq<char> {
    let rest = after(cmd, "create review"@);
    if " "@.is_prefix_of(rest) {
        after(rest, " "@)
    } else {
        rest
    }
}

/// `create review` takes five fields, set apart by `|`: title, genre, author,
/// rating and review. Fields after the fifth are not read.
pub open spec fn create_review(cmd: Seq<char>) -> CommandView {
    if "create review"@.is_prefix_of(cmd) {
        let parts = fields(create_arguments(cmd), '|');
        if parts.len() < 5 {
            CommandView::TooFewFields
        } else {
            CommandView::CreateReview {
                title: parts[0],
                genre: parts[1],
                author: parts[2],
                rating: parts[3],
                review: parts[4],
            }
        }
    } else {
        CommandView::NotApplicable
    }
}

/// The text in which a command that begins with `keyword` names an id: what
/// follows the keyword, without the white space around it.
pub open spec fn id_argument(cmd: Seq<char>, keyword: Seq<char>) -> Seq<char> {
    trimmed(after(cmd, keyword))
}

/// `publish review` takes the id of the review to share.
pub open spec fn publish_review(cmd: Seq<char>) -> CommandView {
    if "publish review"@.is_prefix_of(cmd) {
        let argument = id_argument(cmd, "publish review"@);
        match number(argument) {
            Some(id) => CommandView::PublishReview(id as nat),
            None => CommandView::InvalidId(argument),
        }
    } else {
        CommandView::NotApplicable
    }
}

/// `delete review` takes the id of the review to remove.
pub open spec fn delete_review(cmd: Seq<char>) -> CommandView {
    if "delete review"@.is_prefix_of(cmd) {
        let argument = id_argument(cmd, "delete review"@);
        match number(argument) {
            Some(id) => CommandView::DeleteReview(id as nat),
            None => CommandView::InvalidId(argument),
        }
    } else {
        CommandView::NotApplicable
    }
}

/// The command that `line` is. `list peers` is the whole line; the other
/// commands are known by the words they begin with.
pub open spec fn command(line: Seq<char>) -> CommandView {
    if line == "list peers"@ {
        CommandView::ListPeers
    } else if "list reviews"@.is_prefix_of(line) {
        list_reviews(line)
    } else if "create review"@.is_prefix_of(line) {
        create_review(line)
    } else if "publish review"@.is_prefix_of(line) {
        publish_review(line)
    } else if "delete review"@.is_prefix_of(line) {
        delete_review(line)
    } else {
        CommandView::Unknown
    }
}

/// Reads a `list reviews` command.
pub fn handle_list_reviews(cmd: &str) -> (parsed: Command)
    ensures
        parsed@ == list_reviews(cmd@),
{
    match strip_prefix(cmd, "list reviews ") {
        Some(target) => {
            if same_text(target, "all") {
                Command::RequestReviews(ListRequest { mode: ListMode::ALL })
            } else {
                Command::RequestReviews(ListRequest { mode: ListMode::One(target.to_owned()) })
            }
        },
        None => Command::ShowLocalReviews,
    }
}

/// Reads a `create review` command.
pub fn handle_create_book_review(cmd: &str) -> (parsed: Command)
    ensures
        parsed@ == create_review(cmd@),
{
    match strip_prefix(cmd, "create review") {
        Some(rest) => {
            let arguments = match strip_prefix(rest, " ") {
                Some(arguments) => arguments,
                None => rest,
            };
            let elements = split(arguments, '|');
            assert(texts(elements@).len() == elements@.len());
            if elements.len() < 5 {
                Command::TooFewFields
            } else {
                assert(forall|i: int| 0 <= i < 5 ==> texts(elements@)[i] == elements@[i]@);
                Command::CreateReview {
                    title: elements[0].to_owned(),
                    genre: elements[1].to_owned(),
                    author: elements[2].to_owned(),
                    rating: elements[3].to_owned(),
                    review: elements[4].to_owned(),
                }
            }
        },
        None => Command::NotApplicable,
    }
}

/// Reads a `publish review` command.
pub fn handle_publish_book_review(cmd: &str) -> (parsed: Command)
    ensures
        parsed@ == publish_review(cmd@),
{
    match strip_prefix(cmd, "publish review") {
        Some(rest) => {
            let argument = trim(rest);
            match parse_usize(argument) {
                Some(id) => Command::PublishReview(id),
                None => Command::InvalidId(argument.to_owned()),
            }
        },
        None => Command::NotApplicable,
    }
}

/// Reads a `delete review` command.
pub fn handle_delete_book_review(cmd: &str) -> (parsed: Command)
    ensures
        parsed@ == delete_review(cmd@),
{
    match strip_prefix(cmd, "delete review") {
        Some(rest) => {
            let argument = trim(rest);
            match parse_usize(argument) {
                Some(id) => Command::DeleteReview(id),
                None => Command::InvalidId(argument.to_owned()),
            }
        },
        None => Command::NotApplicable,
    }
}

/// Reads a line of input.
pub fn parse_command(line: &str) -> (parsed: Command)
    ensures
        parsed@ == command(line@),
{
    if same_text(line, "list peers") {
        Command::ListPeers
    } else if starts_with(line, "list reviews") {
        handle_list_reviews(line)
    } else if starts_with(line, "create review") {
        handle_create_book_review(line)
    } else if starts_with(line, "publish review") {
        handle_publish_book_review(line)
    } else if starts_with(line, "delete review") {
        handle_delete_book_review(line)
    } else {
        Command::Unknown
    }
}

} // verus!
