use epub_core::container::{Container, PackageInfo};
use epub_core::files::{
    cover_extension, cover_file_name, font_files, is_epub_path, sanitize_filename, sidecar_path,
    sidecar_record,
};
use epub_core::metadata::BookMetadata;

fn empty_package() -> PackageInfo {
    PackageInfo {
        titles: Vec::new(),
        creators: Vec::new(),
        publishers: Vec::new(),
        publication_date: None,
        identifiers: Vec::new(),
    }
}

fn add(container: &mut Container, id: &str, href: &str, media_type: &str, data: Option<&[u8]>) {
    let added = container.add_resource(
        id.to_string(),
        href.to_string(),
        media_type.to_string(),
        data.map(|d| d.to_vec()),
    );
    assert_eq!(added, Ok(()));
}

fn names_and_data(container: &Container) -> Vec<(String, Vec<u8>)> {
    font_files(container).into_iter().map(|f| (f.name, f.data)).collect()
}

#[test]
fn fonts_are_the_resources_with_font_media_types() {
    let mut container = Container::new(empty_package());
    add(&mut container, "ch", "OEBPS/ch.xhtml", "application/xhtml+xml", Some(b"<p/>"));
    add(&mut container, "f1", "OEBPS/fonts/serif.ttf", "font/ttf", Some(b"one"));
    add(&mut container, "img", "OEBPS/a.png", "image/png", Some(b"png"));
    add(&mut container, "f2", "OEBPS/fonts/sans.otf", "application/vnd.ms-opentype", Some(b"two"));
    add(&mut container, "f3", "OEBPS/fonts/mono.woff", "application/font-woff", Some(b"three"));
    add(&mut container, "f4", "OEBPS/fonts/gone.woff2", "font/woff2", None);
    assert_eq!(
        names_and_data(&container),
        vec![
            ("serif.ttf".to_string(), b"one".to_vec()),
            ("sans.otf".to_string(), b"two".to_vec()),
            ("mono.woff".to_string(), b"three".to_vec()),
        ]
    );
}

#[test]
fn container_without_fonts_has_no_font_files() {
    let mut container = Container::new(empty_package());
    assert!(font_files(&container).is_empty());
    add(&mut container, "img", "a.png", "image/png", Some(b"png"));
    assert!(font_files(&container).is_empty());
}

#[test]
fn font_with_a_taken_name_gets_a_name_from_its_identifier() {
    let mut container = Container::new(empty_package());
    add(&mut container, "first", "a/serif.ttf", "font/ttf", Some(b"1"));
    add(&mut container, "second", "b/serif.ttf", "font/ttf", Some(b"2"));
    add(&mut container, "third", "c/other.ttf", "font/ttf", Some(b"3"));
    assert_eq!(
        names_and_data(&container),
        vec![
            ("serif.ttf".to_string(), b"1".to_vec()),
            ("font_second".to_string(), b"2".to_vec()),
            ("other.ttf".to_string(), b"3".to_vec()),
        ]
    );
}

#[test]
fn font_without_a_file_name_gets_a_name_from_its_identifier() {
    let mut container = Container::new(empty_package());
    add(&mut container, "odd", "fonts/..", "font/ttf", Some(b"1"));
    add(&mut container, "bare", "", "font/otf", Some(b"2"));
    assert_eq!(
        names_and_data(&container),
        vec![("font_bare".to_string(), b"2".to_vec()), ("font_odd".to_string(), b"1".to_vec())]
    );
}

#[test]
fn cover_extension_follows_media_type() {
    assert_eq!(cover_extension("image/jpeg"), "jpg");
    assert_eq!(cover_extension("image/png"), "png");
    assert_eq!(cover_extension("image/gif"), "gif");
    assert_eq!(cover_extension("image/webp"), "jpg");
    assert_eq!(cover_extension(""), "jpg");
    assert_eq!(cover_extension("IMAGE/PNG"), "jpg");
}

#[test]
fn file_names_keep_letters_digits_and_three_marks() {
    assert_eq!(sanitize_filename("My Book: Vol. 1 (2nd_ed-rev)"), "MyBookVol.12nd_ed-rev");
    assert_eq!(sanitize_filename("../../etc/passwd"), "....etcpasswd");
    assert_eq!(sanitize_filename("été 漢字 №5"), "été漢字5");
    assert_eq!(sanitize_filename(""), "");
    assert_eq!(sanitize_filename("/\\ :*?\"<>|"), "");
}

#[test]
fn cover_file_name_is_sanitized_name_and_extension() {
    assert_eq!(cover_file_name("Moby Dick", "image/png"), "MobyDick.png");
    assert_eq!(cover_file_name("a/b", "image/jpeg"), "ab.jpg");
    assert_eq!(cover_file_name("", "image/gif"), ".gif");
    assert_eq!(cover_file_name("x", "application/octet-stream"), "x.jpg");
}

fn metadata(cover: Option<(Vec<u8>, String)>) -> BookMetadata {
    BookMetadata {
        title: "T".to_string(),
        authors: vec!["A".to_string(), "B".to_string()],
        published_date: Some("2001".to_string()),
        publishers: vec!["P".to_string()],
        isbn: None,
        file_path: "/books/t.epub".to_string(),
        cover_data: cover,
        checksum: "00ff".to_string(),
    }
}

#[test]
fn sidecar_record_holds_the_fields_and_no_cover_bytes() {
    let record = sidecar_record(&metadata(Some((vec![1, 2, 3], "image/png".to_string()))));
    assert_eq!(record.title, "T");
    assert_eq!(record.authors, vec!["A".to_string(), "B".to_string()]);
    assert_eq!(record.publishers, vec!["P".to_string()]);
    assert_eq!(record.published_date, Some("2001".to_string()));
    assert_eq!(record.isbn, None);
    assert_eq!(record.file_path, "/books/t.epub");
    assert_eq!(record.checksum, "00ff");
    assert!(record.has_cover);
}

#[test]
fn sidecar_record_says_when_there_is_no_cover() {
    let record = sidecar_record(&metadata(None));
    assert!(!record.has_cover);
}

#[test]
fn books_are_told_by_their_extension() {
    assert!(is_epub_path("book.epub"));
    assert!(is_epub_path("/library/a/b/Book.EPUB"));
    assert!(is_epub_path("x.EpUb"));
    assert!(is_epub_path("archive.tar.epub"));
    assert!(!is_epub_path("book.epub.bak"));
    assert!(!is_epub_path("book.pdf"));
    assert!(!is_epub_path("bookepub"));
    assert!(!is_epub_path(".epub"));
    assert!(!is_epub_path("dir/.epub"));
    assert!(!is_epub_path("epub"));
    assert!(!is_epub_path(""));
    assert!(!is_epub_path("book.epubx"));
}

#[test]
fn fonts_come_in_the_order_of_their_identifiers() {
    let mut container = Container::new(empty_package());
    add(&mut container, "z", "fonts/z.ttf", "font/ttf", Some(b"z"));
    add(&mut container, "a", "fonts/a.ttf", "font/ttf", Some(b"a"));
    add(&mut container, "m", "other/a.ttf", "font/ttf", Some(b"m"));
    assert_eq!(
        names_and_data(&container),
        vec![
            ("a.ttf".to_string(), b"a".to_vec()),
            ("font_m".to_string(), b"m".to_vec()),
            ("z.ttf".to_string(), b"z".to_vec()),
        ]
    );
}

#[test]
fn sidecar_lies_beside_the_book_with_the_extension_json() {
    assert_eq!(sidecar_path("dir/b.epub"), "dir/b.json");
    assert_eq!(sidecar_path("/books/moby dick.epub"), "/books/moby dick.json");
    assert_eq!(sidecar_path("b.epub"), "b.json");
    assert_eq!(sidecar_path("archive.tar.epub"), "archive.tar.json");
    assert_eq!(sidecar_path("dir.d/book.EPUB"), "dir.d/book.json");
}

#[test]
fn sidecar_of_a_book_without_extension_gets_one() {
    assert_eq!(sidecar_path("book"), "book.json");
    assert_eq!(sidecar_path("dir.d/book"), "dir.d/book.json");
    assert_eq!(sidecar_path(".hidden"), ".hidden.json");
    assert_eq!(sidecar_path("dir/.hidden"), "dir/.hidden.json");
    assert_eq!(sidecar_path("book."), "book.json");
    assert_eq!(sidecar_path("..book"), "..json");
}

#[test]
fn sidecar_passes_over_what_trails_the_name() {
    assert_eq!(sidecar_path("dir/book.epub/"), "dir/book.json");
    assert_eq!(sidecar_path("dir/book.epub/."), "dir/book.json");
    assert_eq!(sidecar_path("dir/book.epub//./"), "dir/book.json");
}

#[test]
fn path_that_names_no_file_has_itself_as_sidecar() {
    assert_eq!(sidecar_path(""), "");
    assert_eq!(sidecar_path("/"), "/");
    assert_eq!(sidecar_path("."), ".");
    assert_eq!(sidecar_path(".."), "..");
    assert_eq!(sidecar_path("dir/.."), "dir/..");
    assert_eq!(sidecar_path("dir/../"), "dir/../");
}
