use epub_core::container::{Container, PackageInfo};
use epub_core::content::{
    extract_fragment, get_epub_content, inline_images, rewrite_pass, rewrite_reference,
    ImageElement, ImageRef,
};

fn empty_package() -> PackageInfo {
    PackageInfo {
        titles: Vec::new(),
        creators: Vec::new(),
        publishers: Vec::new(),
        publication_date: None,
        identifiers: Vec::new(),
    }
}

fn add(container: &mut Container, id: &str, href: &str, media_type: &str, data: Option<&[u8]>) {
    let added = container.add_resource(
        id.to_string(),
        href.to_string(),
        media_type.to_string(),
        data.map(|d| d.to_vec()),
    );
    assert_eq!(added, Ok(()));
}

fn page(body: &str) -> Vec<u8> {
    format!("<html><head><title>t</title></head><body>{}</body></html>", body).into_bytes()
}

fn add_page(container: &mut Container, id: &str, href: &str, body: &str) {
    add(container, id, href, "application/xhtml+xml", Some(&page(body)));
    container.add_spine_entry(id.to_string());
}

fn library_with_images() -> Container {
    let mut container = Container::new(empty_package());
    add(&mut container, "a", "OEBPS/img/a.png", "image/png", Some(b"Man"));
    add(&mut container, "b", "OEBPS/img/b.jpg", "image/jpeg", Some(b"Ma"));
    add(&mut container, "broken", "OEBPS/img/broken.png", "image/png", None);
    container
}

fn image_ref(prefix: &str, url: &str, suffix: &str) -> ImageRef {
    ImageRef { prefix: prefix.to_string(), url: url.to_string(), suffix: suffix.to_string() }
}

#[test]
fn content_of_empty_spine_is_empty() {
    let container = Container::new(empty_package());
    assert_eq!(get_epub_content(&container), "");
}

#[test]
fn bodies_follow_the_order_of_the_spine() {
    let mut container = Container::new(empty_package());
    add(&mut container, "one", "one.xhtml", "application/xhtml+xml", Some(&page("<p>1</p>")));
    add(&mut container, "two", "two.xhtml", "application/xhtml+xml", Some(&page("<p>2</p>")));
    add(&mut container, "three", "three.xhtml", "application/xhtml+xml", Some(&page("<p>3</p>")));
    container.add_spine_entry("three".to_string());
    container.add_spine_entry("one".to_string());
    container.add_spine_entry("two".to_string());
    assert_eq!(get_epub_content(&container), "<p>3</p><p>1</p><p>2</p>");
}

#[test]
fn content_has_one_fragment_for_each_markup_document() {
    let mut container = Container::new(empty_package());
    let count = 7;
    for k in 0..count {
        let id = format!("doc{}", k);
        let href = format!("text/{}.xhtml", k);
        add_page(&mut container, &id, &href, &format!("<section>{}</section>", k));
    }
    let content = get_epub_content(&container);
    assert_eq!(content.matches("<section>").count(), count);
    let expected: String = (0..count).map(|k| format!("<section>{}</section>", k)).collect();
    assert_eq!(content, expected);
}

#[test]
fn a_document_that_stands_twice_in_the_spine_is_read_twice() {
    let mut container = Container::new(empty_package());
    add_page(&mut container, "one", "one.xhtml", "<p>1</p>");
    container.add_spine_entry("one".to_string());
    assert_eq!(get_epub_content(&container), "<p>1</p><p>1</p>");
}

#[test]
fn head_of_a_document_is_dropped() {
    let mut container = Container::new(empty_package());
    add_page(&mut container, "one", "one.xhtml", "<h1>Title</h1><p>Text</p>");
    let content = get_epub_content(&container);
    assert_eq!(content, "<h1>Title</h1><p>Text</p>");
    assert!(!content.contains("<title>"));
    assert!(!content.contains("<body>"));
}

#[test]
fn entries_that_are_no_markup_are_skipped() {
    let mut container = library_with_images();
    add_page(&mut container, "one", "OEBPS/one.xhtml", "<p>1</p>");
    container.add_spine_entry("a".to_string());
    container.add_spine_entry("missing".to_string());
    add(&mut container, "style", "OEBPS/style.css", "text/css", Some(b"p { }"));
    container.add_spine_entry("style".to_string());
    add(&mut container, "plain", "OEBPS/plain.html", "text/html", Some(&page("<p>no</p>")));
    container.add_spine_entry("plain".to_string());
    add_page(&mut container, "two", "OEBPS/two.xhtml", "<p>2</p>");
    assert_eq!(get_epub_content(&container), "<p>1</p><p>2</p>");
}

#[test]
fn markup_that_cannot_be_read_is_skipped() {
    let mut container = Container::new(empty_package());
    add(&mut container, "gone", "gone.xhtml", "application/xhtml+xml", None);
    container.add_spine_entry("gone".to_string());
    add(&mut container, "bad", "bad.xhtml", "application/xhtml+xml", Some(&[0x3c, 0x70, 0xff, 0xfe]));
    container.add_spine_entry("bad".to_string());
    add_page(&mut container, "one", "one.xhtml", "<p>1</p>");
    assert_eq!(get_epub_content(&container), "<p>1</p>");
}

#[test]
fn image_is_inlined_with_media_type_and_base64() {
    let mut container = library_with_images();
    add_page(&mut container, "ch1", "OEBPS/text/ch1.xhtml", "<p><img src=\"../img/a.png\"></p>");
    assert_eq!(
        get_epub_content(&container),
        "<p><img src=\"data:image/png;base64,TWFu\"></p>"
    );
}

#[test]
fn base64_is_padded() {
    let container = library_with_images();
    let out = inline_images(&container, "OEBPS/text/ch1.xhtml", "<img src=\"../img/b.jpg\"/>");
    assert_eq!(out, "<img src=\"data:image/jpeg;base64,TWE=\"/>");
}

#[test]
fn base64_uses_the_standard_alphabet() {
    let mut container = Container::new(empty_package());
    add(&mut container, "x", "x.png", "image/png", Some(&[0xff, 0xfe, 0xfd, 0xfb, 0xef, 0xbe]));
    let out = inline_images(&container, "doc.xhtml", "<img src=\"x.png\">");
    assert_eq!(out, "<img src=\"data:image/png;base64,//79++++\">");
}

#[test]
fn empty_image_is_inlined_as_empty_data() {
    let mut container = Container::new(empty_package());
    add(&mut container, "x", "x.png", "image/png", Some(b""));
    let out = inline_images(&container, "doc.xhtml", "<img src=\"x.png\">");
    assert_eq!(out, "<img src=\"data:image/png;base64,\">");
}

#[test]
fn quotes_around_a_reference_are_kept() {
    let container = library_with_images();
    let double = rewrite_reference(
        &container,
        "OEBPS/ch.xhtml",
        &image_ref("<img alt=\"x\" src=\"", "img/a.png", "\" class=\"c\"/>"),
    );
    assert_eq!(double, "<img alt=\"x\" src=\"data:image/png;base64,TWFu\" class=\"c\"/>");
    let single = rewrite_reference(
        &container,
        "OEBPS/ch.xhtml",
        &image_ref("<img src='", "img/a.png", "'>"),
    );
    assert_eq!(single, "<img src='data:image/png;base64,TWFu'>");
    let text = "<p>a<img src='img/a.png' />b</p>";
    assert_eq!(
        inline_images(&container, "OEBPS/ch.xhtml", text),
        "<p>a<img src='data:image/png;base64,TWFu' />b</p>"
    );
}

#[test]
fn embedded_reference_is_untouched() {
    let container = library_with_images();
    let text = "<p><img src=\"data:image/png;base64,AAAA\" alt='x'/></p>";
    assert_eq!(inline_images(&container, "OEBPS/ch.xhtml", text), text);
    let r = image_ref("<img src=\"", "data:image/gif;base64,R0lG", "\"/>");
    assert_eq!(
        rewrite_reference(&container, "OEBPS/ch.xhtml", &r),
        "<img src=\"data:image/gif;base64,R0lG\"/>"
    );
}

#[test]
fn remote_reference_is_untouched() {
    let mut container = library_with_images();
    add(&mut container, "trap", "OEBPS/http:/example.com/a.png", "image/png", Some(b"Man"));
    let text = "<img src=\"http://example.com/a.png\"><img src='https://example.com/b.png'>";
    assert_eq!(inline_images(&container, "OEBPS/ch.xhtml", text), text);
}

#[test]
fn reference_to_missing_resource_is_untouched() {
    let mut container = library_with_images();
    let text = "<p>before<img src=\"img/none.png\" alt=\"n\"/>after</p>";
    assert_eq!(inline_images(&container, "OEBPS/ch.xhtml", text), text);
    add_page(&mut container, "ch", "OEBPS/ch.xhtml", "<p><img src=\"img/none.png\"></p><p>rest</p>");
    add_page(&mut container, "next", "OEBPS/next.xhtml", "<p>next</p>");
    assert_eq!(
        get_epub_content(&container),
        "<p><img src=\"img/none.png\"></p><p>rest</p><p>next</p>"
    );
}

#[test]
fn reference_to_unreadable_resource_is_untouched() {
    let container = library_with_images();
    let text = "<img src=\"img/broken.png\">";
    assert_eq!(inline_images(&container, "OEBPS/ch.xhtml", text), text);
}

#[test]
fn only_references_that_resolve_are_rewritten() {
    let container = library_with_images();
    let text = "<img src=\"img/a.png\">-<img src=\"img/none.png\">-<img src=\"http://x/y.png\">-<img src=\"./img/../img/b.jpg\">";
    assert_eq!(
        inline_images(&container, "OEBPS/ch.xhtml", text),
        "<img src=\"data:image/png;base64,TWFu\">-<img src=\"img/none.png\">-<img src=\"http://x/y.png\">-<img src=\"data:image/jpeg;base64,TWE=\">"
    );
}

#[test]
fn reference_is_resolved_against_the_location_of_the_document() {
    let container = library_with_images();
    let text = "<img src=\"../img/a.png\">";
    assert_eq!(
        inline_images(&container, "OEBPS/text/ch.xhtml", text),
        "<img src=\"data:image/png;base64,TWFu\">"
    );
    assert_eq!(inline_images(&container, "OEBPS/ch.xhtml", text), text);
}

#[test]
fn vector_graphics_image_references_are_rewritten() {
    let container = library_with_images();
    let text = "<svg><image width=\"10\" xlink:href=\"img/a.png\"/><image href='img/b.jpg'/></svg>";
    assert_eq!(
        inline_images(&container, "OEBPS/ch.xhtml", text),
        "<svg><image width=\"10\" xlink:href=\"data:image/png;base64,TWFu\"/><image href='data:image/jpeg;base64,TWE='/></svg>"
    );
}

#[test]
fn each_pass_rewrites_its_own_elements() {
    let container = library_with_images();
    let text = "<img src=\"img/a.png\"><image href=\"img/a.png\"/>";
    assert_eq!(
        rewrite_pass(&container, "OEBPS/ch.xhtml", ImageElement::Inline, text),
        "<img src=\"data:image/png;base64,TWFu\"><image href=\"img/a.png\"/>"
    );
    assert_eq!(
        rewrite_pass(&container, "OEBPS/ch.xhtml", ImageElement::Vector, text),
        "<img src=\"img/a.png\"><image href=\"data:image/png;base64,TWFu\"/>"
    );
}

#[test]
fn elements_are_found_in_any_case() {
    let container = library_with_images();
    assert_eq!(
        inline_images(&container, "OEBPS/ch.xhtml", "<IMG SRC=\"img/a.png\">"),
        "<IMG SRC=\"data:image/png;base64,TWFu\">"
    );
}

#[test]
fn text_without_image_elements_is_unchanged() {
    let container = library_with_images();
    let text = "<p>nothing to see, src=\"img/a.png\" is no element</p>";
    assert_eq!(inline_images(&container, "OEBPS/ch.xhtml", text), text);
    assert_eq!(inline_images(&container, "OEBPS/ch.xhtml", ""), "");
}

#[test]
fn text_beyond_ascii_is_kept() {
    let container = library_with_images();
    let text = "<p>été — 漢字</p><img src=\"img/a.png\"><p>ñ</p>";
    assert_eq!(
        inline_images(&container, "OEBPS/ch.xhtml", text),
        "<p>été — 漢字</p><img src=\"data:image/png;base64,TWFu\"><p>ñ</p>"
    );
}

#[test]
fn fragment_of_a_markup_document_is_its_body() {
    let mut container = library_with_images();
    add(
        &mut container,
        "ch",
        "OEBPS/ch.xhtml",
        "application/xhtml+xml",
        Some(&page("<p><img src=\"img/a.png\"></p>")),
    );
    assert_eq!(
        extract_fragment(&container, "ch"),
        "<p><img src=\"data:image/png;base64,TWFu\"></p>"
    );
    assert_eq!(extract_fragment(&container, "a"), "");
    assert_eq!(extract_fragment(&container, "nothing"), "");
}

#[test]
fn document_of_a_real_book_is_assembled() {
    let mut container = Container::new(empty_package());
    add(&mut container, "a", "/EPUB/img/a.png", "image/png", Some(b"Man"));
    let document = "<?xml version=\"1.0\"?><html xmlns=\"http://www.w3.org/1999/xhtml\"><head><title>t</title></head>\n<body>\n<p><img alt=\"x\" src=\"../img/a.png\"/></p>\n</body>\n</html>\n";
    add(&mut container, "ch", "/EPUB/text/ch.xhtml", "application/xhtml+xml", Some(document.as_bytes()));
    container.add_spine_entry("ch".to_string());
    assert_eq!(
        get_epub_content(&container),
        "\n<p><img alt=\"x\" src=\"data:image/png;base64,TWFu\"></p>\n\n\n"
    );
}

#[test]
fn relative_reference_that_begins_with_http_is_inlined() {
    let mut container = Container::new(empty_package());
    add(&mut container, "a", "OEBPS/http_imgs/a.png", "image/png", Some(b"Man"));
    add(&mut container, "b", "OEBPS/https/b.png", "image/png", Some(b"Ma"));
    add(&mut container, "c", "OEBPS/httpfoo.png", "image/png", Some(b"Man"));
    add(&mut container, "d", "OEBPS/data/d.png", "image/png", Some(b"Ma"));
    assert_eq!(
        inline_images(&container, "OEBPS/ch.xhtml", "<img src=\"http_imgs/a.png\">"),
        "<img src=\"data:image/png;base64,TWFu\">"
    );
    assert_eq!(
        inline_images(&container, "OEBPS/ch.xhtml", "<img src=\"https/b.png\">"),
        "<img src=\"data:image/png;base64,TWE=\">"
    );
    assert_eq!(
        inline_images(&container, "OEBPS/ch.xhtml", "<img src=\"httpfoo.png\">"),
        "<img src=\"data:image/png;base64,TWFu\">"
    );
    assert_eq!(
        inline_images(&container, "OEBPS/ch.xhtml", "<img src=\"data/d.png\">"),
        "<img src=\"data:image/png;base64,TWE=\">"
    );
    let r = image_ref("<img src=\"", "http_imgs/a.png", "\"/>");
    assert_eq!(
        rewrite_reference(&container, "OEBPS/ch.xhtml", &r),
        "<img src=\"data:image/png;base64,TWFu\"/>"
    );
}

#[test]
fn absolute_network_address_is_not_looked_up() {
    let mut container = Container::new(empty_package());
    add(&mut container, "a", "OEBPS/http:/example.com/a.png", "image/png", Some(b"Man"));
    add(&mut container, "b", "OEBPS/https:/example.com/b.png", "image/png", Some(b"Man"));
    let text = "<img src=\"http://example.com/a.png\"><img src=\"https://example.com/b.png\">";
    assert_eq!(inline_images(&container, "OEBPS/ch.xhtml", text), text);
}
