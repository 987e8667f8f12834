use epub_core::import::{
    import_step, new_book, ImportAction, ImportError, ImportEvent, ImportState, Outcome,
};
use epub_core::metadata::BookMetadata;

fn metadata(authors: &[&str]) -> BookMetadata {
    BookMetadata {
        title: "T".to_string(),
        authors: authors.iter().map(|a| a.to_string()).collect(),
        published_date: Some("2001".to_string()),
        publishers: vec!["P".to_string()],
        isbn: Some("urn:isbn:1".to_string()),
        file_path: "/books/t.epub".to_string(),
        cover_data: Some((vec![1], "image/png".to_string())),
        checksum: "00ff".to_string(),
    }
}

/// A store that keeps books by checksum and authors by name.
struct Store {
    books: Vec<String>,
    authors: Vec<String>,
    links: Vec<(i32, i32)>,
    adds_nothing: bool,
}

impl Store {
    fn new() -> Store {
        Store { books: Vec::new(), authors: Vec::new(), links: Vec::new(), adds_nothing: false }
    }

    fn perform(&mut self, meta: &BookMetadata, action: ImportAction) -> ImportEvent {
        match action {
            ImportAction::FindBook => ImportEvent::Book(
                self.books.iter().position(|c| *c == meta.checksum).map(|i| i as i32),
            ),
            ImportAction::AddBook => {
                if !self.adds_nothing {
                    self.books.push(meta.checksum.clone());
                }
                ImportEvent::Done
            }
            ImportAction::FindAuthor { author } => ImportEvent::Author(
                self.authors.iter().position(|n| *n == meta.authors[author]).map(|i| i as i32),
            ),
            ImportAction::AddAuthor { author } => {
                if !self.adds_nothing {
                    self.authors.push(meta.authors[author].clone());
                }
                ImportEvent::Done
            }
            ImportAction::Link { book_id, author_id } => {
                self.links.push((book_id, author_id));
                ImportEvent::Done
            }
            ImportAction::Finish(_) => unreachable!(),
        }
    }
}

fn run(store: &mut Store, meta: &BookMetadata) -> (Outcome, Vec<ImportAction>) {
    let mut taken = Vec::new();
    let (mut state, mut action) = import_step(meta, ImportState::Start, ImportEvent::Begin);
    for _ in 0..1000 {
        if let ImportAction::Finish(outcome) = action {
            assert_eq!(state, ImportState::Finished);
            return (outcome, taken);
        }
        taken.push(action);
        let event = store.perform(meta, action);
        let next = import_step(meta, state, event);
        state = next.0;
        action = next.1;
    }
    panic!("the import does not end");
}

#[test]
fn new_book_and_unknown_authors_are_stored_and_linked() {
    let mut store = Store::new();
    let meta = metadata(&["A", "B"]);
    let (outcome, taken) = run(&mut store, &meta);
    assert_eq!(outcome, Outcome::Imported);
    assert_eq!(
        taken,
        vec![
            ImportAction::FindBook,
            ImportAction::AddBook,
            ImportAction::FindBook,
            ImportAction::FindAuthor { author: 0 },
            ImportAction::AddAuthor { author: 0 },
            ImportAction::FindAuthor { author: 0 },
            ImportAction::Link { book_id: 0, author_id: 0 },
            ImportAction::FindAuthor { author: 1 },
            ImportAction::AddAuthor { author: 1 },
            ImportAction::FindAuthor { author: 1 },
            ImportAction::Link { book_id: 0, author_id: 1 },
        ]
    );
    assert_eq!(store.links, vec![(0, 0), (0, 1)]);
}

#[test]
fn known_author_is_linked_without_being_added() {
    let mut store = Store::new();
    store.authors.push("Z".to_string());
    store.authors.push("B".to_string());
    let meta = metadata(&["B"]);
    let (outcome, taken) = run(&mut store, &meta);
    assert_eq!(outcome, Outcome::Imported);
    assert_eq!(
        taken,
        vec![
            ImportAction::FindBook,
            ImportAction::AddBook,
            ImportAction::FindBook,
            ImportAction::FindAuthor { author: 0 },
            ImportAction::Link { book_id: 0, author_id: 1 },
        ]
    );
    assert_eq!(store.authors.len(), 2);
}

#[test]
fn book_with_a_stored_checksum_is_not_added_again() {
    let mut store = Store::new();
    store.books.push("00ff".to_string());
    let meta = metadata(&["A"]);
    let (outcome, taken) = run(&mut store, &meta);
    assert_eq!(outcome, Outcome::Failed(ImportError::DuplicateContent));
    assert_eq!(taken, vec![ImportAction::FindBook]);
    assert_eq!(store.books.len(), 1);
    assert!(store.authors.is_empty());
}

#[test]
fn book_that_is_not_found_after_adding_ends_the_import() {
    let mut store = Store::new();
    store.adds_nothing = true;
    let (outcome, _) = run(&mut store, &metadata(&["A"]));
    assert_eq!(outcome, Outcome::Failed(ImportError::BookNotStored));
}

#[test]
fn author_that_is_not_found_after_adding_ends_the_import() {
    let meta = metadata(&["A"]);
    let state = ImportState::FetchingAuthor { book_id: 3, author: 0 };
    assert_eq!(
        import_step(&meta, state, ImportEvent::Author(None)),
        (ImportState::Finished, ImportAction::Finish(Outcome::Failed(ImportError::AuthorNotStored)))
    );
}

#[test]
fn book_without_authors_is_imported_once_it_is_stored() {
    let mut store = Store::new();
    let mut meta = metadata(&[]);
    meta.authors.clear();
    let (outcome, taken) = run(&mut store, &meta);
    assert_eq!(outcome, Outcome::Imported);
    assert_eq!(taken, vec![ImportAction::FindBook, ImportAction::AddBook, ImportAction::FindBook]);
}

#[test]
fn failure_of_the_store_ends_the_import() {
    let meta = metadata(&["A"]);
    for state in [
        ImportState::Start,
        ImportState::CheckingDuplicate,
        ImportState::AddingBook,
        ImportState::FetchingBook,
        ImportState::FindingAuthor { book_id: 1, author: 0 },
        ImportState::AddingAuthor { book_id: 1, author: 0 },
        ImportState::FetchingAuthor { book_id: 1, author: 0 },
        ImportState::Linking { book_id: 1, author: 0 },
    ] {
        assert_eq!(
            import_step(&meta, state, ImportEvent::Failed),
            (ImportState::Finished, ImportAction::Finish(Outcome::Failed(ImportError::Storage)))
        );
    }
}

#[test]
fn event_that_was_not_asked_for_ends_the_import() {
    let meta = metadata(&["A"]);
    let out_of_turn =
        (ImportState::Finished, ImportAction::Finish(Outcome::Failed(ImportError::OutOfTurn)));
    assert_eq!(import_step(&meta, ImportState::Start, ImportEvent::Done), out_of_turn);
    assert_eq!(import_step(&meta, ImportState::AddingBook, ImportEvent::Book(None)), out_of_turn);
    assert_eq!(import_step(&meta, ImportState::Finished, ImportEvent::Begin), out_of_turn);
    assert_eq!(import_step(&meta, ImportState::Finished, ImportEvent::Failed), out_of_turn);
    assert_eq!(
        import_step(&meta, ImportState::Linking { book_id: 1, author: 5 }, ImportEvent::Done),
        out_of_turn
    );
}

#[test]
fn record_of_a_new_book_is_drawn_from_the_metadata() {
    let book = new_book(&metadata(&["A"]), Some(4));
    assert_eq!(book.title, "T");
    assert_eq!(book.published_date, Some("2001".to_string()));
    assert_eq!(book.publisher_id, Some(4));
    assert_eq!(book.isbn, Some("urn:isbn:1".to_string()));
    assert_eq!(book.file_type, Some("epub".to_string()));
    assert_eq!(book.file_path, Some("/books/t.epub".to_string()));
    assert_eq!(book.cover_image_path, None);
    assert_eq!(book.checksum, Some("00ff".to_string()));
}
