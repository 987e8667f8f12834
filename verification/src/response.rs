//! The record of a book as it is handed to a caller.

use vstd::prelude::*;

verus! {

/// A book as it is stored.
#[derive(Debug)]
pub struct BookRecord {
    pub book_id: i32,
    pub title: String,
    pub published_date: Option<String>,
    pub publisher_id: Option<i32>,
    pub isbn: Option<String>,
    pub file_type: Option<String>,
    pub file_path: Option<String>,
    pub cover_image_path: Option<String>,
    pub checksum: Option<String>,
    pub added_at: Option<String>,
}

/// A book as it is handed to a caller: the stored record with the names of
/// its first author and of its publisher in place of their keys.
#[derive(Debug)]
pub struct BookResponse {
    pub book_id: i32,
    pub title: String,
    pub author: Option<String>,
    pub published_date: Option<String>,
    pub publisher: Option<String>,
    pub isbn: Option<String>,
    pub file_type: Option<String>,
    pub file_path: Option<String>,
    pub cover_image_path: Option<String>,
    pub checksum: Option<String>,
    pub added_at: Option<String>,
}

/// The first of the names, if there is any.
pub open spec fn first_author(authors: Option<Vec<String>>) -> Option<String> {
    match authors {
        Some(names) => if names@.len() > 0 {
            Some(names@[0])
        } else {
            None
        },
        None => None,
    }
}

impl BookResponse {
    /// Builds the response for `book` from the names of its authors and the
    /// name found for its publisher. The author is the first of the names.
    /// The publisher's name is taken only where the record names a
    /// publisher. Every other field is that of the record.
    pub fn from_book(
        book: BookRecord,
        authors: Option<Vec<String>>,
        publisher: Option<String>,
    ) -> (response: BookResponse)
        ensures
            response.book_id == book.book_id,
            response.title == book.title,
            response.author == first_author(authors),
            response.published_date == book.published_date,
            response.publisher == (if book.publisher_id is Some {
                publisher
            } else {
                None
            }),
            response.isbn == book.isbn,
            response.file_type == book.file_type,
            response.file_path == book.file_path,
            response.cover_image_path == book.cover_image_path,
            response.checksum == book.checksum,
            response.added_at == book.added_at,
    {
        let author = match authors {
            Some(mut names) => if names.len() > 0 {
                Some(names.swap_remove(0))
            } else {
                None
            },
            None => None,
        };
        let publisher = match book.publisher_id {
            Some(_) => publisher,
            None => None,
        };
        BookResponse {
            book_id: book.book_id,
            title: book.title,
            author,
            published_date: book.published_date,
            publisher,
            isbn: book.isbn,
            file_type: book.file_type,
            file_path: book.file_path,
            cover_image_path: book.cover_image_path,
            checksum: book.checksum,
            added_at: book.added_at,
        }
    }
}

} // verus!
