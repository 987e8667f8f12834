use epub_core::path::{file_name, resolve_path};

#[test]
fn resolves_parent_directory() {
    assert_eq!(resolve_path("chapter1/page.xhtml", "../images/cover.png"), "images/cover.png");
}

#[test]
fn resolves_current_directory() {
    assert_eq!(resolve_path("page.xhtml", "./img/a.png"), "img/a.png");
}

#[test]
fn discards_parent_segments_beyond_the_top() {
    assert_eq!(resolve_path("a/b/c.xhtml", "../../../../x.png"), "x.png");
}

#[test]
fn joins_reference_with_directory_of_document() {
    assert_eq!(resolve_path("OEBPS/text/ch1.xhtml", "img/a.png"), "OEBPS/text/img/a.png");
    assert_eq!(resolve_path("OEBPS/text/ch1.xhtml", "../img/a.png"), "OEBPS/img/a.png");
}

#[test]
fn keeps_leading_slash_of_absolute_location() {
    assert_eq!(resolve_path("/EPUB/text/ch1.xhtml", "../img/a.png"), "/EPUB/img/a.png");
    assert_eq!(resolve_path("/EPUB/text/ch1.xhtml", "../../../a.png"), "/a.png");
}

#[test]
fn absolute_reference_replaces_directory() {
    assert_eq!(resolve_path("a/b/c.xhtml", "/img/a.png"), "/img/a.png");
}

#[test]
fn drops_empty_and_dot_segments() {
    assert_eq!(resolve_path("a/b.xhtml", "x//y/./z/"), "a/x/y/z");
}

#[test]
fn converts_backslashes_to_forward_slashes() {
    assert_eq!(resolve_path("a/b.xhtml", "img\\pic.png"), "a/img/pic.png");
    assert_eq!(resolve_path("a\\b\\c.xhtml", "..\\x.png"), "a/x.png");
}

#[test]
fn empty_reference_gives_directory() {
    assert_eq!(resolve_path("a/b/c.xhtml", ""), "a/b");
    assert_eq!(resolve_path("c.xhtml", ""), "");
}

#[test]
fn document_without_location_resolves_reference_alone() {
    assert_eq!(resolve_path("", "a/../b/./c.png"), "b/c.png");
    assert_eq!(resolve_path("/", "a.png"), "/a.png");
}

#[test]
fn parent_segments_in_the_location_of_the_document_are_applied() {
    assert_eq!(resolve_path("a/../b/c.xhtml", "d.png"), "b/d.png");
}

#[test]
fn resolving_a_resolved_path_again_changes_nothing() {
    let once = resolve_path("a/b/c.xhtml", "../x/./y//z.png");
    assert_eq!(once, "a/x/y/z.png");
    assert_eq!(resolve_path("top.xhtml", &once), once);
    let absolute = resolve_path("/a/b/c.xhtml", "../x.png");
    assert_eq!(absolute, "/a/x.png");
    assert_eq!(resolve_path("any/where/doc.xhtml", &absolute), absolute);
}

#[test]
fn keeps_characters_beyond_ascii() {
    assert_eq!(resolve_path("livre/chapitre.xhtml", "../images/é/couverture.png"), "images/é/couverture.png");
}

#[test]
fn file_name_is_last_component() {
    assert_eq!(file_name("OEBPS/fonts/serif.ttf"), Some("serif.ttf".to_string()));
    assert_eq!(file_name("serif.ttf"), Some("serif.ttf".to_string()));
    assert_eq!(file_name("fonts/serif.ttf/"), Some("serif.ttf".to_string()));
    assert_eq!(file_name("fonts/."), Some("fonts".to_string()));
}

#[test]
fn file_name_is_missing_where_path_names_no_file() {
    assert_eq!(file_name(""), None);
    assert_eq!(file_name("/"), None);
    assert_eq!(file_name("fonts/.."), None);
    assert_eq!(file_name("."), None);
}
