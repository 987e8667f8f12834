use epub_core::container::{Container, PackageInfo};
use epub_core::metadata::{cover_data, get_cover_image_streamed, parse_epub_meta};

fn strings(values: &[&str]) -> Vec<String> {
    values.iter().map(|v| v.to_string()).collect()
}

fn empty_package() -> PackageInfo {
    PackageInfo {
        titles: Vec::new(),
        creators: Vec::new(),
        publishers: Vec::new(),
        publication_date: None,
        identifiers: Vec::new(),
    }
}

fn full_package() -> PackageInfo {
    PackageInfo {
        titles: strings(&["Moby-Dick", "The Whale"]),
        creators: strings(&["Herman Melville", "An Editor"]),
        publishers: strings(&["Harper & Brothers"]),
        publication_date: Some("1851-10-18T00:00:00Z".to_string()),
        identifiers: strings(&["uuid:1234", "urn:isbn:9780142437247", "urn:isbn:0000000000"]),
    }
}

fn add(container: &mut Container, id: &str, href: &str, media_type: &str, data: Option<&[u8]>) {
    let added = container.add_resource(
        id.to_string(),
        href.to_string(),
        media_type.to_string(),
        data.map(|d| d.to_vec()),
    );
    assert_eq!(added, Ok(()));
}

#[test]
fn declared_fields_are_taken_over() {
    let mut container = Container::new(full_package());
    add(&mut container, "cover", "cover.jpg", "image/jpeg", Some(b"jpeg bytes"));
    container.set_cover("cover".to_string());
    let meta = parse_epub_meta("/books/moby.epub".to_string(), b"abc", &container);
    assert_eq!(meta.title, "Moby-Dick");
    assert_eq!(meta.authors, strings(&["Herman Melville", "An Editor"]));
    assert_eq!(meta.publishers, strings(&["Harper & Brothers"]));
    assert_eq!(meta.published_date, Some("1851-10-18T00:00:00Z".to_string()));
    assert_eq!(meta.isbn, Some("urn:isbn:9780142437247".to_string()));
    assert_eq!(meta.file_path, "/books/moby.epub");
    assert_eq!(meta.cover_data, Some((b"jpeg bytes".to_vec(), "image/jpeg".to_string())));
    assert_eq!(
        meta.checksum,
        "ba7816bf8f01cfea414140de5dae2223b00361a396177a9cb410ff61f20015ad"
    );
}

#[test]
fn missing_creator_gives_unknown_author() {
    let container = Container::new(empty_package());
    let meta = parse_epub_meta("book.epub".to_string(), b"", &container);
    assert_eq!(meta.authors, vec!["Unknown Author".to_string()]);
}

#[test]
fn missing_publisher_gives_unknown_publisher() {
    let container = Container::new(empty_package());
    let meta = parse_epub_meta("book.epub".to_string(), b"", &container);
    assert_eq!(meta.publishers, vec!["Unknown Publisher".to_string()]);
}

#[test]
fn missing_title_gives_unknown_title() {
    let container = Container::new(empty_package());
    let meta = parse_epub_meta("book.epub".to_string(), b"", &container);
    assert_eq!(meta.title, "Unknown Title");
    assert_eq!(meta.published_date, None);
    assert_eq!(meta.isbn, None);
    assert_eq!(meta.cover_data, None);
    assert_eq!(
        meta.checksum,
        "e3b0c44298fc1c149afbf4c8996fb92427ae41e4649b934ca495991b7852b855"
    );
}

#[test]
fn defaults_apply_to_each_field_by_itself() {
    let mut package = empty_package();
    package.creators = strings(&["Someone"]);
    let meta = parse_epub_meta("b.epub".to_string(), b"", &Container::new(package));
    assert_eq!(meta.authors, strings(&["Someone"]));
    assert_eq!(meta.publishers, strings(&["Unknown Publisher"]));
}

#[test]
fn publication_date_is_not_interpreted() {
    let mut package = empty_package();
    package.publication_date = Some("not a date at all".to_string());
    let meta = parse_epub_meta("b.epub".to_string(), b"", &Container::new(package));
    assert_eq!(meta.published_date, Some("not a date at all".to_string()));
}

#[test]
fn isbn_is_first_identifier_with_the_prefix() {
    let mut package = empty_package();
    package.identifiers = strings(&["URN:ISBN:1", "isbn:2", " urn:isbn:3", "urn:isbn:4", "urn:isbn:5"]);
    let meta = parse_epub_meta("b.epub".to_string(), b"", &Container::new(package));
    assert_eq!(meta.isbn, Some("urn:isbn:4".to_string()));
    let mut package = empty_package();
    package.identifiers = strings(&["uuid:abc", "urn:uuid:def"]);
    let meta = parse_epub_meta("b.epub".to_string(), b"", &Container::new(package));
    assert_eq!(meta.isbn, None);
}

#[test]
fn container_without_declared_cover_gives_no_bytes() {
    let mut container = Container::new(empty_package());
    add(&mut container, "img", "img.png", "image/png", Some(b"png"));
    assert_eq!(get_cover_image_streamed(&container), Vec::<u8>::new());
    assert_eq!(cover_data(&container), None);
}

#[test]
fn cover_that_cannot_be_read_gives_no_bytes() {
    let mut container = Container::new(empty_package());
    add(&mut container, "cover", "cover.png", "image/png", None);
    container.set_cover("cover".to_string());
    assert_eq!(get_cover_image_streamed(&container), Vec::<u8>::new());
    assert_eq!(cover_data(&container), None);
    container.set_cover("nothing".to_string());
    assert_eq!(get_cover_image_streamed(&container), Vec::<u8>::new());
}

#[test]
fn declared_cover_gives_its_bytes() {
    let mut container = Container::new(empty_package());
    add(&mut container, "img", "img.png", "image/png", Some(b"other"));
    add(&mut container, "cover", "cover.png", "image/png", Some(&[1, 2, 3, 255]));
    container.set_cover("cover".to_string());
    assert_eq!(get_cover_image_streamed(&container), vec![1, 2, 3, 255]);
    assert_eq!(cover_data(&container), Some((vec![1, 2, 3, 255], "image/png".to_string())));
}
