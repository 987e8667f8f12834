//! The files that are written beside a book: its fonts, its cover and the
//! record of its metadata.
//!
//! Nothing here touches a file system. The functions say which files there
//! are to write, under which names and with which contents; writing them is
//! left to the caller.

use vstd::prelude::*;
use vstd::string::StringExecFns;
use crate::container::{
    entries_are_sound, is_font_type, lemma_font_kind, Container, Resource, ResourceKind,
};
use crate::metadata::{copy_bytes, BookMetadata};
use crate::path::{file_name, file_name_of};
use crate::text::{chars_of, string_of};

verus! {

/// Whether a character is a letter or a digit, as `char::is_alphanumeric`
/// tells it.
pub uninterp spec fn is_alphanumeric(c: char) -> bool;

/// `char::is_alphanumeric` depends on the character alone.
pub assume_specification[ char::is_alphanumeric ](c: char) -> (b: bool)
    ensures
        b == is_alphanumeric(c),
;

/// A font that is to be written out.
#[derive(Debug)]
pub struct FontFile {
    /// The name of the file, without a directory.
    pub name: String,
    /// The bytes of the font.
    pub data: Vec<u8>,
}

/// A resource that is written out as a font: its media type is one of
/// fonts, and its bytes can be read.
pub open spec fn is_font_to_write(resource: Resource) -> bool {
    is_font_type(resource.media_type@) && resource.data is Some
}

/// The name made up for a font from the identifier of its resource.
pub open spec fn generated_font_name(id: Seq<char>) -> Seq<char> {
    "font_"@ + id
}

/// The name under which a font is written: the name of the file at its
/// location, unless the location names no file or the name is taken by a
/// font before it; then the name made up from its identifier.
pub open spec fn font_name(resource: Resource, taken: Seq<Seq<char>>) -> Seq<char> {
    match file_name_of(resource.href@) {
        Some(name) => if taken.contains(name) {
            generated_font_name(resource.id@)
        } else {
            name
        },
        None => generated_font_name(resource.id@),
    }
}

/// The names of the fonts of a manifest, in the order of the manifest.
pub open spec fn font_names(manifest: Seq<Resource>) -> Seq<Seq<char>>
    decreases manifest.len(),
{
    if manifest.len() == 0 {
        Seq::<Seq<char>>::empty()
    } else {
        let before = font_names(manifest.drop_last());
        if is_font_to_write(manifest.last()) {
            before.push(font_name(manifest.last(), before))
        } else {
            before
        }
    }
}

/// The bytes of the fonts of a manifest, in the order of the manifest.
pub open spec fn font_contents(manifest: Seq<Resource>) -> Seq<Seq<u8>>
    decreases manifest.len(),
{
    if manifest.len() == 0 {
        Seq::<Seq<u8>>::empty()
    } else {
        let before = font_contents(manifest.drop_last());
        if is_font_to_write(manifest.last()) {
            before.push(manifest.last().data.unwrap()@)
        } else {
            before
        }
    }
}

/// The names of a vector of font files.
pub open spec fn names_of(files: Seq<FontFile>) -> Seq<Seq<char>> {
    Seq::new(files.len(), |i: int| files[i].name@)
}

/// The contents of a vector of font files.
pub open spec fn contents_of(files: Seq<FontFile>) -> Seq<Seq<u8>> {
    Seq::new(files.len(), |i: int| files[i].data@)
}

fn is_taken(files: &Vec<FontFile>, name: &str) -> (taken: bool)
    ensures
        taken == names_of(files@).contains(name@),
{
    let mut i: usize = 0;
    while i < files.len()
        invariant
            i <= files.len(),
            forall|k: int| 0 <= k < i ==> names_of(files@)[k] != name@,
        decreases files.len() - i,
    {
        if files[i].name.as_str().eq(name) {
            assert(names_of(files@)[i as int] == name@);
            return true;
        }
        i += 1;
    }
    false
}

/// The fonts of `container` that are to be written out, in the order of the
/// manifest: every resource whose media type is one of fonts and whose bytes
/// can be read. Each is written under the name of the file at its location.
/// Where the location names no file, or an earlier font has taken the name,
/// the name is `font_` followed by the identifier of the resource.
pub fn font_files(container: &Container) -> (files: Vec<FontFile>)
    ensures
        names_of(files@) == font_names(container.manifest_view()),
        contents_of(files@) == font_contents(container.manifest_view()),
{
    let manifest = container.manifest();
    let mut files: Vec<FontFile> = Vec::new();
    let mut i: usize = 0;
    while i < manifest.len()
        invariant
            i <= manifest.len(),
            entries_are_sound(manifest@),
            names_of(files@) == font_names(manifest@.take(i as int)),
            contents_of(files@) == font_contents(manifest@.take(i as int)),
        decreases manifest.len() - i,
    {
        let resource = &manifest[i];
        proof {
            assert(manifest@.take(i + 1).drop_last() == manifest@.take(i as int));
            lemma_font_kind(resource.media_type@);
        }
        if resource.kind == ResourceKind::Font {
            match &resource.data {
                Some(bytes) => {
                    let name = match file_name(resource.href.as_str()) {
                        Some(declared) => {
                            if is_taken(&files, declared.as_str()) {
                                None
                            } else {
                                Some(declared)
                            }
                        },
                        None => None,
                    };
                    let name = match name {
                        Some(declared) => declared,
                        None => {
                            let mut made = "font_".to_owned();
                            made.append(resource.id.as_str());
                            made
                        },
                    };
                    let ghost before = files@;
                    files.push(FontFile { name, data: copy_bytes(bytes) });
                    assert(names_of(files@) == names_of(before).push(name@));
                    assert(contents_of(files@) == contents_of(before).push(bytes@));
                },
                None => {},
            }
        }
        i += 1;
    }
    assert(manifest@.take(manifest@.len() as int) == manifest@);
    files
}

/// The extension of the file that a cover of the given media type is
/// written to: `png` and `gif` for their types, `jpg` for every other.
pub open spec fn cover_extension_of(media_type: Seq<char>) -> Seq<char> {
    if media_type == "image/png"@ {
        "png"@
    } else if media_type == "image/gif"@ {
        "gif"@
    } else {
        "jpg"@
    }
}

/// The extension of the file that a cover of the given media type is
/// written to.
pub fn cover_extension(media_type: &str) -> (extension: &'static str)
    ensures
        extension@ == cover_extension_of(media_type@),
{
    if media_type.eq("image/png") {
        "png"
    } else if media_type.eq("image/gif") {
        "gif"
    } else {
        "jpg"
    }
}

/// The characters that a file name keeps: letters, digits, `.`, `-` and `_`.
pub open spec fn is_kept(c: char) -> bool {
    is_alphanumeric(c) || c == '.' || c == '-' || c == '_'
}

/// `name` without the characters that a file name does not keep.
pub open spec fn sanitized(name: Seq<char>) -> Seq<char> {
    name.filter(|c: char| is_kept(c))
}

/// Removes from `filename` every character that is neither a letter, a
/// digit, `.`, `-` nor `_`.
pub fn sanitize_filename(filename: &str) -> (clean: String)
    ensures
        clean@ == sanitized(filename@),
{
    let chars = chars_of(filename);
    let mut kept: Vec<char> = Vec::new();
    let mut i: usize = 0;
    proof {
        reveal(Seq::filter);
    }
    while i < chars.len()
        invariant
            i <= chars.len(),
            chars@ == filename@,
            kept@ == sanitized(chars@.take(i as int)),
        decreases chars.len() - i,
    {
        let c = chars[i];
        proof {
            reveal(Seq::filter);
            assert(chars@.take(i + 1).drop_last() == chars@.take(i as int));
        }
        if c.is_alphanumeric() || c == '.' || c == '-' || c == '_' {
            kept.push(c);
        }
        i += 1;
    }
    assert(chars@.take(chars@.len() as int) == chars@);
    string_of(&kept)
}

/// The name of the file that a cover is written to: the sanitized base
/// name, a dot, and the extension that goes with the media type.
pub open spec fn cover_file_name_of(base: Seq<char>, media_type: Seq<char>) -> Seq<char> {
    sanitized(base) + "."@ + cover_extension_of(media_type)
}

/// The name of the file that a cover of the given media type is written
/// to, made from `base_filename`.
pub fn cover_file_name(base_filename: &str, media_type: &str) -> (name: String)
    ensures
        name@ == cover_file_name_of(base_filename@, media_type@),
{
    let mut name = sanitize_filename(base_filename);
    name.append(".");
    name.append(cover_extension(media_type));
    name
}

/// The record of a book's metadata as it is written beside the book: the
/// fields of the metadata, and in place of the cover the mere fact that
/// there is one.
#[derive(Debug)]
pub struct SidecarRecord {
    pub title: String,
    pub authors: Vec<String>,
    pub publishers: Vec<String>,
    pub published_date: Option<String>,
    pub isbn: Option<String>,
    pub file_path: String,
    pub checksum: String,
    pub has_cover: bool,
}

fn copy_names(names: &Vec<String>) -> (copy: Vec<String>)
    ensures
        copy@ == names@,
{
    let mut copy: Vec<String> = Vec::new();
    let mut i: usize = 0;
    while i < names.len()
        invariant
            i <= names.len(),
            copy@ == names@.take(i as int),
        decreases names.len() - i,
    {
        copy.push(names[i].clone());
        i += 1;
    }
    copy
}

/// The end of the name of the file at `path`: separators and `.` segments
/// at the end of the path are no part of the name.
pub open spec fn name_end(path: Seq<char>) -> int
    decreases path.len(),
{
    if path.len() == 0 {
        0
    } else if path.last() == '/' || (path.last() == '.' && (path.len() == 1 || path[path.len() - 2]
        == '/')) {
        name_end(path.drop_last())
    } else {
        path.len() as int
    }
}

/// The place where the segment that ends at `end` begins: after the last
/// `/` before `end`, or at the beginning of the path.
pub open spec fn name_start(path: Seq<char>, end: int) -> int
    decreases end,
{
    if end <= 0 {
        0
    } else if path[end - 1] == '/' {
        end
    } else {
        name_start(path, end - 1)
    }
}

/// The place of the last dot of the name between `start` and `end` that is
/// not the first character of the name.
pub open spec fn last_dot(path: Seq<char>, start: int, end: int) -> Option<int>
    decreases end - start,
{
    if end <= start + 1 {
        None
    } else if path[end - 1] == '.' {
        Some(end - 1)
    } else {
        last_dot(path, start, end - 1)
    }
}

/// Whether `path` names a file: it has a last segment, and that is not `..`.
pub open spec fn names_a_file(path: Seq<char>) -> bool {
    let end = name_end(path);
    let start = name_start(path, end);
    end > 0 && !(end - start == 2 && path[start] == '.' && path[start + 1] == '.')
}

/// The end of the stem of the file's name: the place of the last dot of the
/// name, unless the name has no dot after its first character; then the end
/// of the name.
pub open spec fn stem_end(path: Seq<char>) -> int {
    let end = name_end(path);
    match last_dot(path, name_start(path, end), end) {
        Some(dot) => dot,
        None => end,
    }
}

/// `path` with the extension of its file replaced by `json`: the path up to
/// the end of the stem of the file's name, followed by `.json`. A name
/// without an extension gets one. A path that names no file stays as it is.
pub open spec fn with_json_extension(path: Seq<char>) -> Seq<char> {
    if names_a_file(path) {
        path.take(stem_end(path)) + ".json"@
    } else {
        path
    }
}

/// Whether the character before `end` trails the name of the file: it is a
/// separator, or a `.` that is a segment of its own.
fn trails(chars: &Vec<char>, end: usize) -> (b: bool)
    requires
        0 < end <= chars.len(),
    ensures
        b == (chars@[end - 1] == '/' || (chars@[end - 1] == '.' && (end == 1 || chars@[end - 2]
            == '/'))),
{
    chars[end - 1] == '/' || (chars[end - 1] == '.' && (end == 1 || chars[end - 2] == '/'))
}

/// The path of the file that the record of a book's metadata is written to:
/// the path of the book with its extension replaced by `json`, so that the
/// record lies beside the book.
pub fn sidecar_path(file_path: &str) -> (path: String)
    ensures
        path@ == with_json_extension(file_path@),
{
    let chars = chars_of(file_path);
    let mut end: usize = chars.len();
    assert(chars@.take(end as int) == chars@);
    while end > 0 && trails(&chars, end)
        invariant
            end <= chars.len(),
            name_end(chars@) == name_end(chars@.take(end as int)),
        decreases end,
    {
        assert(chars@.take(end as int).drop_last() == chars@.take(end - 1));
        end -= 1;
    }
    assert(name_end(chars@) == end);
    let mut start: usize = end;
    while start > 0 && chars[start - 1] != '/'
        invariant
            start <= end <= chars.len(),
            name_start(chars@, end as int) == name_start(chars@, start as int),
        decreases start,
    {
        start -= 1;
    }
    if end == 0 || (end - start == 2 && chars[start] == '.' && chars[start + 1] == '.') {
        return file_path.to_owned();
    }
    let mut stem: usize = end;
    while stem - start > 1 && chars[stem - 1] != '.'
        invariant
            start <= stem <= end <= chars.len(),
            last_dot(chars@, start as int, end as int) == last_dot(chars@, start as int, stem as int),
        decreases stem,
    {
        stem -= 1;
    }
    if stem - start > 1 {
        stem -= 1;
    } else {
        stem = end;
    }
    assert(stem == stem_end(chars@));
    let mut kept: Vec<char> = Vec::new();
    let mut i: usize = 0;
    while i < stem
        invariant
            i <= stem <= chars.len(),
            kept@ == chars@.take(i as int),
        decreases stem - i,
    {
        kept.push(chars[i]);
        i += 1;
    }
    let mut path = string_of(&kept);
    path.append(".json");
    path
}

/// The record that is written beside the book with the metadata `meta`. It
/// holds every field of the metadata but the cover, of which it only says
/// whether there is one.
pub fn sidecar_record(meta: &BookMetadata) -> (record: SidecarRecord)
    ensures
        record.title == meta.title,
        record.authors@ == meta.authors@,
        record.publishers@ == meta.publishers@,
        record.published_date == meta.published_date,
        record.isbn == meta.isbn,
        record.file_path == meta.file_path,
        record.checksum == meta.checksum,
        record.has_cover == meta.cover_data is Some,
{
    SidecarRecord {
        title: meta.title.clone(),
        authors: copy_names(&meta.authors),
        publishers: copy_names(&meta.publishers),
        published_date: meta.published_date.clone(),
        isbn: meta.isbn.clone(),
        file_path: meta.file_path.clone(),
        checksum: meta.checksum.clone(),
        has_cover: meta.cover_data.is_some(),
    }
}

/// Whether `c` is `letter` in either case; `letter` is a lowercase letter.
pub open spec fn is_letter(c: char, letter: char) -> bool {
    c == letter || c as int == letter as int - 32
}

/// A path that names a book: it ends in `.epub`, in any mix of upper and
/// lower case, and the dot is not the first character of the file's name.
pub open spec fn has_epub_extension(path: Seq<char>) -> bool {
    let n = path.len() as int;
    &&& n >= 6
    &&& path[n - 6] != '/'
    &&& path[n - 5] == '.'
    &&& is_letter(path[n - 4], 'e')
    &&& is_letter(path[n - 3], 'p')
    &&& is_letter(path[n - 2], 'u')
    &&& is_letter(path[n - 1], 'b')
}

/// Whether the file at `path` is taken for a book.
pub fn is_epub_path(path: &str) -> (is_book: bool)
    ensures
        is_book == has_epub_extension(path@),
{
    let chars = chars_of(path);
    let n = chars.len();
    if n < 6 {
        return false;
    }
    chars[n - 6] != '/' && chars[n - 5] == '.' && (chars[n - 4] == 'e' || chars[n - 4] == 'E') && (
    chars[n - 3] == 'p' || chars[n - 3] == 'P') && (chars[n - 2] == 'u' || chars[n - 2] == 'U')
        && (chars[n - 1] == 'b' || chars[n - 1] == 'B')
}

} // verus!
