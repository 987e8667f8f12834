//! The steps by which a book is taken into a library.
//!
//! Storing is left to the caller. This module decides what is to be done
//! next: the caller carries out the action it is given and comes back with
//! what happened. A book whose checksum is stored already is not stored
//! again; every author of the book is linked to it, and stored first where
//! the library does not know the author yet.

use vstd::prelude::*;
use crate::metadata::BookMetadata;

verus! {

/// What is stored of a new book.
#[derive(Debug)]
pub struct NewBook {
    pub title: String,
    pub published_date: Option<String>,
    pub publisher_id: Option<i32>,
    pub isbn: Option<String>,
    pub file_type: Option<String>,
    pub file_path: Option<String>,
    pub cover_image_path: Option<String>,
    pub checksum: Option<String>,
}

/// The record that is stored for the book with the metadata `meta`. The file
/// type is `epub`, and no path to a cover image is stored.
pub fn new_book(meta: &BookMetadata, publisher_id: Option<i32>) -> (book: NewBook)
    ensures
        book.title == meta.title,
        book.published_date == meta.published_date,
        book.publisher_id == publisher_id,
        book.isbn == meta.isbn,
        book.file_type matches Some(t) && t@ == "epub"@,
        book.file_path == Some(meta.file_path),
        book.cover_image_path is None,
        book.checksum == Some(meta.checksum),
{
    NewBook {
        title: meta.title.clone(),
        published_date: meta.published_date.clone(),
        publisher_id,
        isbn: meta.isbn.clone(),
        file_type: Some("epub".to_owned()),
        file_path: Some(meta.file_path.clone()),
        cover_image_path: None,
        checksum: Some(meta.checksum.clone()),
    }
}

/// Why a book was not taken in.
#[derive(Clone, Copy, Debug, PartialEq, Eq, Structural)]
pub enum ImportError {
    /// A book with the same checksum is stored already.
    DuplicateContent,
    /// The book was added but could not be found afterwards.
    BookNotStored,
    /// An author was added but could not be found afterwards.
    AuthorNotStored,
    /// The store reported a failure.
    Storage,
    /// The caller came back with something that no step had asked for.
    OutOfTurn,
}

/// How an import ended.
#[derive(Clone, Copy, Debug, PartialEq, Eq, Structural)]
pub enum Outcome {
    /// The book and its authors are stored.
    Imported,
    /// The import was given up.
    Failed(ImportError),
}

/// How far an import has come. In the states that name an author, `author`
/// is the index of that author among the authors of the book.
#[derive(Clone, Copy, Debug, PartialEq, Eq, Structural)]
pub enum ImportState {
    /// Nothing has been done yet.
    Start,
    /// The store is asked whether it holds a book with the checksum.
    CheckingDuplicate,
    /// The book is being added.
    AddingBook,
    /// The book that was added is looked up for its key.
    FetchingBook,
    /// The author is looked up.
    FindingAuthor { book_id: i32, author: usize },
    /// The author, whom the store does not know, is being added.
    AddingAuthor { book_id: i32, author: usize },
    /// The author who was added is looked up for the key.
    FetchingAuthor { book_id: i32, author: usize },
    /// The author is being linked to the book.
    Linking { book_id: i32, author: usize },
    /// The import is over.
    Finished,
}

/// What the caller is to do next.
#[derive(Clone, Copy, Debug, PartialEq, Eq, Structural)]
pub enum ImportAction {
    /// Look up the book with the checksum of the metadata.
    FindBook,
    /// Add the record of the book.
    AddBook,
    /// Look up the author with the given index by name.
    FindAuthor { author: usize },
    /// Add the author with the given index.
    AddAuthor { author: usize },
    /// Link the author with the given key to the book with the given key.
    Link { book_id: i32, author_id: i32 },
    /// Stop, with the given outcome.
    Finish(Outcome),
}

/// What happened when the caller did as it was told.
#[derive(Clone, Copy, Debug, PartialEq, Eq, Structural)]
pub enum ImportEvent {
    /// The import begins.
    Begin,
    /// The lookup of a book ended, with the key of the book if there is one.
    Book(Option<i32>),
    /// The lookup of an author ended, with the key of the first author of
    /// that name if there is one.
    Author(Option<i32>),
    /// What was to be added or linked is added or linked.
    Done,
    /// The store reported a failure.
    Failed,
}

/// The end of an import with the given error.
pub open spec fn give_up(error: ImportError) -> (ImportState, ImportAction) {
    (ImportState::Finished, ImportAction::Finish(Outcome::Failed(error)))
}

/// The step that turns to the author with the index `author`: the author is
/// looked up, and where there is no such author the import is complete.
pub open spec fn turn_to_author(authors: nat, book_id: i32, author: usize) -> (
    ImportState,
    ImportAction,
) {
    if author < authors {
        (ImportState::FindingAuthor { book_id, author }, ImportAction::FindAuthor { author })
    } else {
        (ImportState::Finished, ImportAction::Finish(Outcome::Imported))
    }
}

/// The next state and the next action of the import of a book with
/// `authors` authors, from the state it is in and from what happened.
pub open spec fn next_step(authors: nat, state: ImportState, event: ImportEvent) -> (
    ImportState,
    ImportAction,
) {
    match (state, event) {
        (ImportState::Finished, _) => give_up(ImportError::OutOfTurn),
        (_, ImportEvent::Failed) => give_up(ImportError::Storage),
        (ImportState::Start, ImportEvent::Begin) => (
            ImportState::CheckingDuplicate,
            ImportAction::FindBook,
        ),
        (ImportState::CheckingDuplicate, ImportEvent::Book(Some(_))) => give_up(
            ImportError::DuplicateContent,
        ),
        (ImportState::CheckingDuplicate, ImportEvent::Book(None)) => (
            ImportState::AddingBook,
            ImportAction::AddBook,
        ),
        (ImportState::AddingBook, ImportEvent::Done) => (
            ImportState::FetchingBook,
            ImportAction::FindBook,
        ),
        (ImportState::FetchingBook, ImportEvent::Book(Some(book_id))) => turn_to_author(
            authors,
            book_id,
            0,
        ),
        (ImportState::FetchingBook, ImportEvent::Book(None)) => give_up(ImportError::BookNotStored),
        (ImportState::FindingAuthor { book_id, author }, ImportEvent::Author(Some(author_id))) => (
            ImportState::Linking { book_id, author },
            ImportAction::Link { book_id, author_id },
        ),
        (ImportState::FindingAuthor { book_id, author }, ImportEvent::Author(None)) => (
            ImportState::AddingAuthor { book_id, author },
            ImportAction::AddAuthor { author },
        ),
        (ImportState::AddingAuthor { book_id, author }, ImportEvent::Done) => (
            ImportState::FetchingAuthor { book_id, author },
            ImportAction::FindAuthor { author },
        ),
        (ImportState::FetchingAuthor { book_id, author }, ImportEvent::Author(Some(author_id))) => (
            ImportState::Linking { book_id, author },
            ImportAction::Link { book_id, author_id },
        ),
        (ImportState::FetchingAuthor { book_id, author }, ImportEvent::Author(None)) => give_up(
            ImportError::AuthorNotStored,
        ),
        (ImportState::Linking { book_id, author }, ImportEvent::Done) => if author < authors {
            turn_to_author(authors, book_id, (author + 1) as usize)
        } else {
            give_up(ImportError::OutOfTurn)
        },
        _ => give_up(ImportError::OutOfTurn),
    }
}

fn turn_to(authors: usize, book_id: i32, author: usize) -> (step: (ImportState, ImportAction))
    ensures
        step == turn_to_author(authors as nat, book_id, author),
{
    if author < authors {
        (ImportState::FindingAuthor { book_id, author }, ImportAction::FindAuthor { author })
    } else {
        (ImportState::Finished, ImportAction::Finish(Outcome::Imported))
    }
}

fn stop(error: ImportError) -> (step: (ImportState, ImportAction))
    ensures
        step == give_up(error),
{
    (ImportState::Finished, ImportAction::Finish(Outcome::Failed(error)))
}

/// Decides the next step of the import of the book with the metadata
/// `meta`: the state that the import is in from now on, and what the caller
/// is to do. The caller begins in the state `Start` with the event `Begin`
/// and goes on until it is told to finish.
pub fn import_step(meta: &BookMetadata, state: ImportState, event: ImportEvent) -> (step: (
    ImportState,
    ImportAction,
))
    ensures
        step == next_step(meta.authors@.len(), state, event),
{
    let authors = meta.authors.len();
    match (state, event) {
        (ImportState::Finished, _) => stop(ImportError::OutOfTurn),
        (_, ImportEvent::Failed) => stop(ImportError::Storage),
        (ImportState::Start, ImportEvent::Begin) => (
            ImportState::CheckingDuplicate,
            ImportAction::FindBook,
        ),
        (ImportState::CheckingDuplicate, ImportEvent::Book(Some(_))) => stop(
            ImportError::DuplicateContent,
        ),
        (ImportState::CheckingDuplicate, ImportEvent::Book(None)) => (
            ImportState::AddingBook,
            ImportAction::AddBook,
        ),
        (ImportState::AddingBook, ImportEvent::Done) => (
            ImportState::FetchingBook,
            ImportAction::FindBook,
        ),
        (ImportState::FetchingBook, ImportEvent::Book(Some(book_id))) => turn_to(
            authors,
            book_id,
            0,
        ),
        (ImportState::FetchingBook, ImportEvent::Book(None)) => stop(ImportError::BookNotStored),
        (ImportState::FindingAuthor { book_id, author }, ImportEvent::Author(Some(author_id))) => (
            ImportState::Linking { book_id, author },
            ImportAction::Link { book_id, author_id },
        ),
        (ImportState::FindingAuthor { book_id, author }, ImportEvent::Author(None)) => (
            ImportState::AddingAuthor { book_id, author },
            ImportAction::AddAuthor { author },
        ),
        (ImportState::AddingAuthor { book_id, author }, ImportEvent::Done) => (
            ImportState::FetchingAuthor { book_id, author },
            ImportAction::FindAuthor { author },
        ),
        (ImportState::FetchingAuthor { book_id, author }, ImportEvent::Author(Some(author_id))) => (
            ImportState::Linking { book_id, author },
            ImportAction::Link { book_id, author_id },
        ),
        (ImportState::FetchingAuthor { book_id, author }, ImportEvent::Author(None)) => stop(
            ImportError::AuthorNotStored,
        ),
        (ImportState::Linking { book_id, author }, ImportEvent::Done) => {
            if author < authors {
                turn_to(authors, book_id, author + 1)
            } else {
                stop(ImportError::OutOfTurn)
            }
        },
        _ => stop(ImportError::OutOfTurn),
    }
}

/// An action that names an author names one of the authors of the book.
pub open spec fn names_an_author(authors: nat, action: ImportAction) -> bool {
    match action {
        ImportAction::FindAuthor { author } => author < authors,
        ImportAction::AddAuthor { author } => author < authors,
        _ => true,
    }
}

/// A state that names an author names one of the authors of the book.
pub open spec fn is_in_range(authors: nat, state: ImportState) -> bool {
    match state {
        ImportState::FindingAuthor { author, .. } => author < authors,
        ImportState::AddingAuthor { author, .. } => author < authors,
        ImportState::FetchingAuthor { author, .. } => author < authors,
        ImportState::Linking { author, .. } => author < authors,
        _ => true,
    }
}

/// From a state that names one of the authors of the book, every step leads
/// to such a state again and asks only for authors of the book.
pub proof fn lemma_steps_stay_in_range(authors: nat, state: ImportState, event: ImportEvent)
    requires
        is_in_range(authors, state),
    ensures
        is_in_range(authors, next_step(authors, state, event).0),
        names_an_author(authors, next_step(authors, state, event).1),
{
}

/// A book whose checksum is stored already is not added: the import ends
/// at once, and says why.
pub proof fn lemma_duplicate_is_not_added(authors: nat, stored: i32)
    ensures
        next_step(authors, ImportState::CheckingDuplicate, ImportEvent::Book(Some(stored)))
            == give_up(ImportError::DuplicateContent),
{
}

/// A failure of the store ends the import, whatever state it is in.
pub proof fn lemma_failure_ends_the_import(authors: nat, state: ImportState)
    ensures
        next_step(authors, state, ImportEvent::Failed).0 == ImportState::Finished,
        next_step(authors, state, ImportEvent::Failed).1 matches ImportAction::Finish(
            Outcome::Failed(_),
        ),
{
}

} // verus!
