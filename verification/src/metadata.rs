//! The descriptive record of a book.
//!
//! The record is drawn from the package's declared fields, with a fixed
//! value wherever a field that a caller relies on was not declared.

use vstd::prelude::*;
use crate::checksum::{checksum_of, compute_checksum};
use crate::container::{cover_index, Container, Resource};
use crate::text::{starts_with, strings_view};

verus! {

/// The descriptive record of a book.
#[derive(Debug)]
pub struct BookMetadata {
    /// The title.
    pub title: String,
    /// The authors, in the order of their declaration; never empty.
    pub authors: Vec<String>,
    /// The publication date as it was written.
    pub published_date: Option<String>,
    /// The publishers, in the order of their declaration; never empty.
    pub publishers: Vec<String>,
    /// The ISBN, as the identifier that carries it.
    pub isbn: Option<String>,
    /// The path of the file that the record was made from.
    pub file_path: String,
    /// The bytes of the cover image and their media type.
    pub cover_data: Option<(Vec<u8>, String)>,
    /// The checksum of the file.
    pub checksum: String,
}

/// The title of a package: the first declared, or `Unknown Title`.
pub open spec fn title_of(titles: Seq<String>) -> Seq<char> {
    if titles.len() > 0 {
        titles[0]@
    } else {
        "Unknown Title"@
    }
}

/// The declared names, or `fallback` alone where none was declared.
pub open spec fn names_or(names: Seq<String>, fallback: Seq<char>) -> Seq<Seq<char>> {
    if names.len() > 0 {
        strings_view(names)
    } else {
        seq![fallback]
    }
}

/// An identifier that carries an ISBN.
pub open spec fn is_isbn(identifier: Seq<char>) -> bool {
    "urn:isbn:"@.is_prefix_of(identifier)
}

/// The index of the first identifier that carries an ISBN.
pub open spec fn isbn_index(identifiers: Seq<String>) -> Option<int>
    decreases identifiers.len(),
{
    if identifiers.len() == 0 {
        None
    } else {
        match isbn_index(identifiers.drop_last()) {
            Some(i) => Some(i),
            None => if is_isbn(identifiers.last()@) {
                Some(identifiers.len() - 1)
            } else {
                None
            },
        }
    }
}

/// The cover of a container: the bytes and the media type of the resource
/// that the manifest declares as the cover image, where it declares one
/// whose bytes can be read.
pub open spec fn cover_of(manifest: Seq<Resource>, cover_id: Option<String>) -> Option<
    (Seq<u8>, Seq<char>),
> {
    match cover_index(manifest, cover_id) {
        Some(i) => match manifest[i].data {
            Some(bytes) => Some((bytes@, manifest[i].media_type@)),
            None => None,
        },
        None => None,
    }
}

/// The bytes of the cover of a container, and no bytes where it has none.
pub open spec fn cover_bytes(manifest: Seq<Resource>, cover_id: Option<String>) -> Seq<u8> {
    match cover_of(manifest, cover_id) {
        Some(cover) => cover.0,
        None => Seq::<u8>::empty(),
    }
}

/// A copy of `bytes`.
pub fn copy_bytes(bytes: &Vec<u8>) -> (copy: Vec<u8>)
    ensures
        copy@ == bytes@,
{
    let mut copy: Vec<u8> = Vec::new();
    let mut i: usize = 0;
    while i < bytes.len()
        invariant
            i <= bytes.len(),
            copy@ == bytes@.take(i as int),
        decreases bytes.len() - i,
    {
        copy.push(bytes[i]);
        i += 1;
    }
    copy
}

/// The declared names, or `fallback` alone where none was declared.
fn names_or_default(names: &Vec<String>, fallback: &str) -> (out: Vec<String>)
    ensures
        strings_view(out@) == names_or(names@, fallback@),
{
    let mut out: Vec<String> = Vec::new();
    if names.len() == 0 {
        out.push(fallback.to_owned());
        assert(strings_view(out@) == seq![fallback@]);
        return out;
    }
    let mut i: usize = 0;
    while i < names.len()
        invariant
            i <= names.len(),
            out@ == names@.take(i as int),
        decreases names.len() - i,
    {
        out.push(names[i].clone());
        i += 1;
    }
    assert(names@.take(names@.len() as int) == names@);
    out
}

/// The first identifier that carries an ISBN.
fn find_isbn(identifiers: &Vec<String>) -> (isbn: Option<String>)
    ensures
        match isbn_index(identifiers@) {
            Some(i) => isbn == Some(identifiers@[i]),
            None => isbn is None,
        },
{
    let mut i: usize = 0;
    while i < identifiers.len()
        invariant
            i <= identifiers.len(),
            isbn_index(identifiers@.take(i as int)) is None,
        decreases identifiers.len() - i,
    {
        if starts_with(identifiers[i].as_str(), "urn:isbn:") {
            proof {
                lemma_isbn_index_extends(identifiers@, i as int);
            }
            return Some(identifiers[i].clone());
        }
        assert(identifiers@.take(i + 1).drop_last() == identifiers@.take(i as int));
        i += 1;
    }
    assert(identifiers@.take(identifiers@.len() as int) == identifiers@);
    None
}

/// The first identifier with an ISBN is found however many follow it.
proof fn lemma_isbn_index_extends(identifiers: Seq<String>, at: int)
    requires
        0 <= at < identifiers.len(),
        isbn_index(identifiers.take(at)) is None,
        is_isbn(identifiers[at]@),
    ensures
        isbn_index(identifiers) == Some(at),
    decreases identifiers.len(),
{
    if at == identifiers.len() - 1 {
        assert(identifiers.drop_last() == identifiers.take(at));
    } else {
        assert(identifiers.drop_last().take(at) == identifiers.take(at));
        lemma_isbn_index_extends(identifiers.drop_last(), at);
    }
}

/// The cover of `container`: the bytes and the media type of the resource
/// that its manifest declares as the cover image; `None` where it declares
/// none or the bytes cannot be read.
pub fn cover_data(container: &Container) -> (cover: Option<(Vec<u8>, String)>)
    ensures
        match cover_of(container.manifest_view(), container.cover_id_view()) {
            Some(c) => cover matches Some(found) && found.0@ == c.0 && found.1@ == c.1,
            None => cover is None,
        },
{
    match container.cover_image() {
        Some(resource) => match &resource.data {
            Some(bytes) => Some((copy_bytes(bytes), resource.media_type.clone())),
            None => None,
        },
        None => None,
    }
}

/// Retrieves the bytes of the cover image of `container`. Where the manifest
/// declares no cover image, or the bytes of the declared one cannot be read,
/// the result is empty: a book without a cover is no failure.
pub fn get_cover_image_streamed(container: &Container) -> (bytes: Vec<u8>)
    ensures
        bytes@ == cover_bytes(container.manifest_view(), container.cover_id_view()),
{
    match container.cover_image() {
        Some(resource) => match &resource.data {
            Some(bytes) => copy_bytes(bytes),
            None => Vec::new(),
        },
        None => Vec::new(),
    }
}

/// Draws the record of a book from its container, the path of its file and
/// the bytes of that file.
///
/// The title is the first declared title, or `Unknown Title`. The authors
/// are the declared creators in their order, or `Unknown Author` alone; the
/// publishers likewise, with `Unknown Publisher`. The publication date is
/// handed on as it was written. The ISBN is the first identifier that begins
/// with `urn:isbn:`. The cover is that of the container, and the checksum
/// that of the file's bytes.
pub fn parse_epub_meta(path: String, file: &[u8], container: &Container) -> (meta: BookMetadata)
    ensures
        meta.title@ == title_of(container.package_view().titles@),
        strings_view(meta.authors@) == names_or(
            container.package_view().creators@,
            "Unknown Author"@,
        ),
        strings_view(meta.publishers@) == names_or(
            container.package_view().publishers@,
            "Unknown Publisher"@,
        ),
        meta.published_date == container.package_view().publication_date,
        match isbn_index(container.package_view().identifiers@) {
            Some(i) => meta.isbn == Some(container.package_view().identifiers@[i]),
            None => meta.isbn is None,
        },
        meta.file_path == path,
        match cover_of(container.manifest_view(), container.cover_id_view()) {
            Some(c) => meta.cover_data matches Some(found) && found.0@ == c.0 && found.1@ == c.1,
            None => meta.cover_data is None,
        },
        meta.checksum@ == checksum_of(file@),
{
    let checksum = compute_checksum(file);
    let package = container.package();
    let title = if package.titles.len() > 0 {
        package.titles[0].clone()
    } else {
        "Unknown Title".to_owned()
    };
    let authors = names_or_default(&package.creators, "Unknown Author");
    let publishers = names_or_default(&package.publishers, "Unknown Publisher");
    let published_date = package.publication_date.clone();
    let isbn = find_isbn(&package.identifiers);
    let cover_data = cover_data(container);
    BookMetadata {
        title,
        authors,
        publishers,
        published_date,
        isbn,
        file_path: path,
        cover_data,
        checksum,
    }
}

/// A package that declares no creator has the one author `Unknown Author`,
/// and one that declares no publisher the one publisher `Unknown
/// Publisher`; in every case there is at least one name.
pub proof fn lemma_names_are_never_empty(names: Seq<String>, fallback: Seq<char>)
    ensures
        names_or(names, fallback).len() > 0,
        names.len() == 0 ==> names_or(names, fallback) == seq![fallback],
        names.len() > 0 ==> names_or(names, fallback) == strings_view(names),
{
}

/// A container whose manifest declares no cover image has no cover, and the
/// bytes retrieved for it are empty.
pub proof fn lemma_no_declared_cover(manifest: Seq<Resource>)
    ensures
        cover_of(manifest, None) is None,
        cover_bytes(manifest, None) == Seq::<u8>::empty(),
{
}

} // verus!
