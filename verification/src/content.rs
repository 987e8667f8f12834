//! Assembly of the reading content.
//!
//! The spine is walked in order. Each markup document has its image
//! references rewritten to inline data, its body taken out, and the body
//! added to the output. A reference that cannot be followed is left as it
//! stands: nothing that goes wrong with one resource stops the assembly.

use base64::engine::general_purpose;
use base64::Engine as _;
use regex::Regex;
use scraper::{Html, Selector};
use vstd::prelude::*;
use vstd::string::StringExecFns;
use crate::container::{
    index_of_href, index_of_id, is_markup_type, lemma_index_of_id, Container, Resource,
    ResourceKind,
};
use crate::path::{resolve, resolve_path};
use crate::text::{starts_with, strings_view, text_of, utf8_text};

verus! {

/// The pattern of an inline image element with its `src` attribute.
pub const IMG_PATTERN: &'static str = "(?i)(<img[^>]*?src=[\"'])([^\"']+)([\"'][^>]*?>)";

/// The pattern of a vector-graphics image element with its `href` or
/// `xlink:href` attribute.
pub const SVG_IMAGE_PATTERN: &'static str =
    "(?i)(<image[^>]*?(?:xlink:)?href=[\"'])([^\"']+)([\"'][^>]*?>)";

/// The two patterns that this module searches markup for.
pub open spec fn is_reference_pattern(pattern: Seq<char>) -> bool {
    pattern == IMG_PATTERN@ || pattern == SVG_IMAGE_PATTERN@
}

/// The two kinds of element that hold a reference to an image.
#[derive(Clone, Copy, Debug, PartialEq, Eq, Structural)]
pub enum ImageElement {
    /// An inline image element, `img`, with its `src` attribute.
    Inline,
    /// A vector-graphics image element, `image`, with its `href` or
    /// `xlink:href` attribute.
    Vector,
}

/// The pattern that finds the elements of a kind.
pub open spec fn pattern_of(element: ImageElement) -> Seq<char> {
    match element {
        ImageElement::Inline => IMG_PATTERN@,
        ImageElement::Vector => SVG_IMAGE_PATTERN@,
    }
}

/// An image reference as it stands in the markup, in three parts.
#[derive(Debug)]
pub struct ImageRef {
    /// The element up to and with the quote that opens the reference.
    pub prefix: String,
    /// The reference itself.
    pub url: String,
    /// The quote that closes the reference and the rest of the element.
    pub suffix: String,
}

/// The three parts of an image reference as sequences of characters.
pub struct RefParts {
    pub prefix: Seq<char>,
    pub url: Seq<char>,
    pub suffix: Seq<char>,
}

impl View for ImageRef {
    type V = RefParts;

    open spec fn view(&self) -> RefParts {
        RefParts { prefix: self.prefix@, url: self.url@, suffix: self.suffix@ }
    }
}

/// The parts of each reference of a vector of references.
pub open spec fn refs_view(refs: Seq<ImageRef>) -> Seq<RefParts> {
    Seq::new(refs.len(), |i: int| refs[i]@)
}

/// The element as it stands in the markup.
pub open spec fn as_written(r: RefParts) -> Seq<char> {
    r.prefix + r.url + r.suffix
}

/// The elements as they stand in the markup.
pub open spec fn all_as_written(refs: Seq<RefParts>) -> Seq<Seq<char>> {
    Seq::new(refs.len(), |i: int| as_written(refs[i]))
}

/// The text that begins with `gaps[0]` and goes on with the first `n` of
/// `pieces`, each followed by the next of `gaps`.
pub open spec fn weave_first(gaps: Seq<Seq<char>>, pieces: Seq<Seq<char>>, n: nat) -> Seq<char>
    decreases n,
{
    if n == 0 {
        gaps[0]
    } else {
        weave_first(gaps, pieces, (n - 1) as nat) + pieces[n - 1] + gaps[n as int]
    }
}

/// The text in which `pieces` stand between `gaps`: one more gap than
/// pieces, beginning and ending with a gap.
pub open spec fn weave(gaps: Seq<Seq<char>>, pieces: Seq<Seq<char>>) -> Seq<char> {
    weave_first(gaps, pieces, pieces.len())
}

/// The matches of `pattern` in `text`, from left to right, as the `regex`
/// crate finds them: the three capture groups of each match.
pub uninterp spec fn regex_captures(pattern: Seq<char>, text: Seq<char>) -> Seq<RefParts>;

/// The stretches of `text` that no match of `pattern` covers, from left to
/// right, as the `regex` crate splits the text.
pub uninterp spec fn regex_gaps(pattern: Seq<char>, text: Seq<char>) -> Seq<Seq<char>>;

/// Searches `text` with `Regex::captures_iter` and hands out the three
/// capture groups of every match, in order. Both patterns are three groups
/// written one after the other, so a match is its three groups in a row;
/// and the matches stand between the stretches that `Regex::split` gives,
/// which are one more than the matches.
#[verifier::external_body]
fn find_references(pattern: &str, text: &str) -> (found: Vec<ImageRef>)
    requires
        is_reference_pattern(pattern@),
    ensures
        refs_view(found@) == regex_captures(pattern@, text@),
        regex_gaps(pattern@, text@).len() == found@.len() + 1,
        text@ == weave(regex_gaps(pattern@, text@), all_as_written(refs_view(found@))),
{
    let part = |m: Option<regex::Match>| m.map_or(String::new(), |m| m.as_str().to_string());
    Regex::new(pattern).unwrap().captures_iter(text).map(
        |c| ImageRef { prefix: part(c.get(1)), url: part(c.get(2)), suffix: part(c.get(3)) },
    ).collect()
}

/// Splits `text` with `Regex::split`: the stretches between the matches of
/// `pattern`, in order.
#[verifier::external_body]
fn split_at_references(pattern: &str, text: &str) -> (gaps: Vec<String>)
    requires
        is_reference_pattern(pattern@),
    ensures
        strings_view(gaps@) == regex_gaps(pattern@, text@),
{
    Regex::new(pattern).unwrap().split(text).map(|s| s.to_string()).collect()
}

/// The character that stands for a value of six bits in the standard
/// alphabet of base64: `A` to `Z`, `a` to `z`, `0` to `9`, `+` and `/`.
pub open spec fn base64_digit(value: int) -> char {
    if value < 26 {
        (65 + value) as char
    } else if value < 52 {
        (97 + value - 26) as char
    } else if value < 62 {
        (48 + value - 52) as char
    } else if value == 62 {
        '+'
    } else {
        '/'
    }
}

/// The four characters that stand for a group of one, two or three bytes:
/// the bits of the bytes six at a time, and `=` in place of each character
/// that no byte of the group reaches.
pub open spec fn base64_group(group: Seq<u8>) -> Seq<char> {
    let second = if group.len() > 1 { group[1] as int } else { 0 };
    let third = if group.len() > 2 { group[2] as int } else { 0 };
    let bits = group[0] as int * 65536 + second * 256 + third;
    seq![
        base64_digit(bits / 262144),
        base64_digit(bits / 4096 % 64),
        if group.len() > 1 { base64_digit(bits / 64 % 64) } else { '=' },
        if group.len() > 2 { base64_digit(bits % 64) } else { '=' },
    ]
}

/// `data` in base64 with the standard alphabet and padding: four characters
/// for every three bytes, and four for the one or two bytes that remain.
pub open spec fn base64_standard(data: Seq<u8>) -> Seq<char>
    decreases data.len(),
{
    if data.len() == 0 {
        Seq::<char>::empty()
    } else if data.len() <= 3 {
        base64_group(data)
    } else {
        base64_group(data.take(3)) + base64_standard(data.skip(3))
    }
}

/// The lengths of data that can be written in base64: the encoded length,
/// four characters for every three bytes, has to be one that a string can
/// have.
pub open spec fn fits_base64(len: nat) -> bool {
    len / 3 * 4 + 4 <= usize::MAX / 2
}

/// Encodes `data` with `general_purpose::STANDARD.encode`, which writes
/// base64 with the standard alphabet and padding. The encoder panics where
/// the encoded length is more than a buffer can hold; such data is left
/// out.
#[verifier::external_body]
fn encode_base64(data: &[u8]) -> (encoded: String)
    requires
        fits_base64(data@.len()),
    ensures
        encoded@ == base64_standard(data@),
{
    general_purpose::STANDARD.encode(data)
}

/// The inner markup of the body of `document`, as the `scraper` crate parses
/// the document and writes the body's children out again; `None` where the
/// parsed document has no body.
pub uninterp spec fn body_inner_html(document: Seq<char>) -> Option<Seq<char>>;

/// Parses `document` with `Html::parse_document`, selects the first `body`
/// element and writes its children out with `inner_html`. The result
/// depends on the document alone.
#[verifier::external_body]
fn extract_body(document: &str) -> (body: Option<String>)
    ensures
        match body {
            Some(b) => body_inner_html(document@) == Some(b@),
            None => body_inner_html(document@) is None,
        },
{
    match Selector::parse("body") {
        Ok(selector) => Html::parse_document(document).select(&selector).next().map(
            |b| b.inner_html(),
        ),
        Err(_) => None,
    }
}

/// A reference that is left alone whatever the manifest holds: a data value,
/// which begins with `data:`, or an absolute network address, which begins
/// with `http://` or `https://`.
pub open spec fn is_embedded_or_remote(url: Seq<char>) -> bool {
    "data:"@.is_prefix_of(url) || "http://"@.is_prefix_of(url) || "https://"@.is_prefix_of(url)
}

/// The inline form of a resource: its media type and its bytes in base64.
pub open spec fn data_url(media_type: Seq<char>, data: Seq<u8>) -> Seq<char> {
    "data:"@ + media_type + ";base64,"@ + base64_standard(data)
}

/// The entry of the manifest that the reference `url`, found in the document
/// at `base`, points to: the first entry at the resolved location.
pub open spec fn target_of(manifest: Seq<Resource>, base: Seq<char>, url: Seq<char>) -> Option<
    int,
> {
    index_of_href(manifest, resolve(base, url))
}

/// Whether a reference is rewritten: it is neither inline data nor remote,
/// it points to an entry of the manifest, and the bytes of that entry can be
/// read and written in base64.
pub open spec fn is_inlined(manifest: Seq<Resource>, base: Seq<char>, url: Seq<char>) -> bool {
    &&& !is_embedded_or_remote(url)
    &&& target_of(manifest, base, url) matches Some(i)
    &&& manifest[i].data matches Some(bytes)
    &&& fits_base64(bytes@.len())
}

/// The element after rewriting: where the reference is inlined, the element
/// with the inline form of the resource in place of the reference, between
/// the same quotes; otherwise the element as it stands.
pub open spec fn rewritten(manifest: Seq<Resource>, base: Seq<char>, r: RefParts) -> Seq<char> {
    if is_inlined(manifest, base, r.url) {
        let target = manifest[target_of(manifest, base, r.url).unwrap()];
        r.prefix + data_url(target.media_type@, target.data.unwrap()@) + r.suffix
    } else {
        as_written(r)
    }
}

/// The elements after rewriting.
pub open spec fn all_rewritten(manifest: Seq<Resource>, base: Seq<char>, refs: Seq<RefParts>) -> Seq<
    Seq<char>,
> {
    Seq::new(refs.len(), |i: int| rewritten(manifest, base, refs[i]))
}

/// `text` after one pass: every match of `pattern` rewritten, everything
/// between the matches as it was.
pub open spec fn pass_over(
    manifest: Seq<Resource>,
    base: Seq<char>,
    pattern: Seq<char>,
    text: Seq<char>,
) -> Seq<char> {
    weave(regex_gaps(pattern, text), all_rewritten(manifest, base, regex_captures(pattern, text)))
}

/// `text` after both passes: first over inline image elements, then over
/// vector-graphics image elements.
pub open spec fn with_images_inlined(manifest: Seq<Resource>, base: Seq<char>, text: Seq<char>) -> Seq<
    char,
> {
    pass_over(manifest, base, SVG_IMAGE_PATTERN@, pass_over(manifest, base, IMG_PATTERN@, text))
}

/// No match of `pattern` in `text` is rewritten.
pub open spec fn nothing_to_inline(
    manifest: Seq<Resource>,
    base: Seq<char>,
    pattern: Seq<char>,
    text: Seq<char>,
) -> bool {
    forall|i: int|
        0 <= i < regex_captures(pattern, text).len() ==> !is_inlined(
            manifest,
            base,
            (#[trigger] regex_captures(pattern, text)[i]).url,
        )
}

/// The element as it stands in the markup.
fn unchanged(r: &ImageRef) -> (out: String)
    ensures
        out@ == as_written(r@),
{
    let mut out = String::new();
    out.append(r.prefix.as_str());
    out.append(r.url.as_str());
    out.append(r.suffix.as_str());
    out
}

/// Rewrites one image element of the document at `base_href`.
///
/// A reference that is inline data already (it begins with `data:`) or an
/// absolute network address (it begins with `http://` or `https://`) is left
/// alone. Any other is resolved against the location of the document and
/// looked up in the manifest. Where an entry is found and its bytes can be
/// read, the reference is replaced by the inline form of the entry, between
/// the quotes that stood around it. In every other case the element comes
/// back as it stands.
pub fn rewrite_reference(container: &Container, base_href: &str, r: &ImageRef) -> (out: String)
    ensures
        out@ == rewritten(container.manifest_view(), base_href@, r@),
{
    if starts_with(r.url.as_str(), "data:") || starts_with(r.url.as_str(), "http://")
        || starts_with(r.url.as_str(), "https://") {
        return unchanged(r);
    }
    let location = resolve_path(base_href, r.url.as_str());
    match container.resource_by_href(location.as_str()) {
        Some(target) => match &target.data {
            Some(bytes) => {
                if bytes.len() / 3 <= (usize::MAX / 2 - 4) / 4 {
                    let encoded = encode_base64(bytes.as_slice());
                    let mut out = String::new();
                    out.append(r.prefix.as_str());
                    out.append("data:");
                    out.append(target.media_type.as_str());
                    out.append(";base64,");
                    out.append(encoded.as_str());
                    out.append(r.suffix.as_str());
                    assert(out@ == r@.prefix + data_url(target.media_type@, bytes@) + r@.suffix);
                    out
                } else {
                    unchanged(r)
                }
            },
            None => unchanged(r),
        },
        None => unchanged(r),
    }
}

/// One pass over `text`, the markup of the document at `base_href`: every
/// element of the given kind is rewritten, and what stands between the
/// elements is kept. Where no element is rewritten, the text comes back
/// unchanged.
pub fn rewrite_pass(container: &Container, base_href: &str, element: ImageElement, text: &str) -> (out:
    String)
    ensures
        out@ == pass_over(container.manifest_view(), base_href@, pattern_of(element), text@),
        nothing_to_inline(container.manifest_view(), base_href@, pattern_of(element), text@)
            ==> out@ == text@,
{
    let pattern = match element {
        ImageElement::Inline => IMG_PATTERN,
        ImageElement::Vector => SVG_IMAGE_PATTERN,
    };
    let refs = find_references(pattern, text);
    let gaps = split_at_references(pattern, text);
    let ghost manifest = container.manifest_view();
    let ghost parts = refs_view(refs@);
    let ghost between = strings_view(gaps@);
    let ghost pieces = all_rewritten(manifest, base_href@, parts);
    let mut out = String::new();
    out.append(gaps[0].as_str());
    let mut i: usize = 0;
    while i < refs.len()
        invariant
            i <= refs.len(),
            gaps@.len() == refs@.len() + 1,
            manifest == container.manifest_view(),
            parts == refs_view(refs@),
            between == strings_view(gaps@),
            pieces == all_rewritten(manifest, base_href@, parts),
            out@ == weave_first(between, pieces, i as nat),
        decreases refs.len() - i,
    {
        let piece = rewrite_reference(container, base_href, &refs[i]);
        out.append(piece.as_str());
        out.append(gaps[i + 1].as_str());
        i += 1;
    }
    proof {
        if nothing_to_inline(manifest, base_href@, pattern@, text@) {
            assert(pieces =~= all_as_written(parts)) by {
                assert forall|k: int| 0 <= k < parts.len() implies pieces[k] == all_as_written(
                    parts,
                )[k] by {
                    assert(regex_captures(pattern@, text@)[k] == parts[k]);
                }
            }
        }
    }
    out
}

/// Rewrites the image references of `text`, the markup of the document at
/// `base_href`: one pass over inline image elements, then one over
/// vector-graphics image elements. Where neither pass has anything to
/// rewrite, the text comes back unchanged.
pub fn inline_images(container: &Container, base_href: &str, text: &str) -> (out: String)
    ensures
        out@ == with_images_inlined(container.manifest_view(), base_href@, text@),
        nothing_to_inline(container.manifest_view(), base_href@, IMG_PATTERN@, text@)
            && nothing_to_inline(container.manifest_view(), base_href@, SVG_IMAGE_PATTERN@, text@)
            ==> out@ == text@,
{
    let first = rewrite_pass(container, base_href, ImageElement::Inline, text);
    rewrite_pass(container, base_href, ImageElement::Vector, first.as_str())
}

/// What one resource adds to the reading content: the inner markup of the
/// body of the document, after its images were inlined. A resource that is
/// no markup document, whose bytes cannot be read or are no text, or whose
/// markup has no body adds nothing.
pub open spec fn fragment_of(manifest: Seq<Resource>, resource: Resource) -> Seq<char> {
    if !is_markup_type(resource.media_type@) {
        Seq::<char>::empty()
    } else {
        match resource.data {
            Some(bytes) => match utf8_text(bytes@) {
                Some(text) => match body_inner_html(
                    with_images_inlined(manifest, resource.href@, text),
                ) {
                    Some(body) => body,
                    None => Seq::<char>::empty(),
                },
                None => Seq::<char>::empty(),
            },
            None => Seq::<char>::empty(),
        }
    }
}

/// What one entry of the spine adds to the reading content: the fragment of
/// the resource it names, and nothing where it names none.
pub open spec fn spine_fragment(manifest: Seq<Resource>, idref: Seq<char>) -> Seq<char> {
    match index_of_id(manifest, idref) {
        Some(i) => fragment_of(manifest, manifest[i]),
        None => Seq::<char>::empty(),
    }
}

/// The fragments of the entries of the spine, one for each entry, in the
/// order of the spine.
pub open spec fn fragments(manifest: Seq<Resource>, spine: Seq<String>) -> Seq<Seq<char>> {
    Seq::new(spine.len(), |i: int| spine_fragment(manifest, spine[i]@))
}

/// The parts written one after the other, with nothing between them.
pub open spec fn concat_all(parts: Seq<Seq<char>>) -> Seq<char>
    decreases parts.len(),
{
    if parts.len() == 0 {
        Seq::<char>::empty()
    } else {
        concat_all(parts.drop_last()) + parts.last()
    }
}

/// The reading content of a container.
pub open spec fn assembled(manifest: Seq<Resource>, spine: Seq<String>) -> Seq<char> {
    concat_all(fragments(manifest, spine))
}

/// The fragment that the entry `idref` of the spine adds to the reading
/// content: the body of the markup document that it names, with the images
/// inlined; nothing where it names no resource, or one that is no markup
/// document or cannot be read.
pub fn extract_fragment(container: &Container, idref: &str) -> (fragment: String)
    ensures
        fragment@ == spine_fragment(container.manifest_view(), idref@),
{
    let manifest = container.manifest();
    let mut fragment = String::new();
    proof {
        lemma_index_of_id(manifest@, idref@);
    }
    match container.resource_by_id(idref) {
        Some(resource) => {
            if resource.kind == ResourceKind::Markup {
                match &resource.data {
                    Some(bytes) => match text_of(bytes.as_slice()) {
                        Some(text) => {
                            let markup = inline_images(container, resource.href.as_str(), text);
                            match extract_body(markup.as_str()) {
                                Some(body) => {
                                    fragment.append(body.as_str());
                                },
                                None => {},
                            }
                        },
                        None => {},
                    },
                    None => {},
                }
            }
        },
        None => {},
    }
    fragment
}

/// Assembles the reading content of `container`: the fragments of the
/// entries of its spine, in the order of the spine and with nothing between
/// them.
pub fn get_epub_content(container: &Container) -> (html: String)
    ensures
        html@ == assembled(container.manifest_view(), container.spine_view()),
{
    let spine = container.spine();
    let ghost manifest = container.manifest_view();
    let mut html = String::new();
    let mut i: usize = 0;
    while i < spine.len()
        invariant
            i <= spine.len(),
            spine@ == container.spine_view(),
            manifest == container.manifest_view(),
            html@ == concat_all(fragments(manifest, spine@).take(i as int)),
        decreases spine.len() - i,
    {
        proof {
            let all = fragments(manifest, spine@);
            assert(all.take(i + 1).drop_last() == all.take(i as int));
        }
        let fragment = extract_fragment(container, spine[i].as_str());
        html.append(fragment.as_str());
        i += 1;
    }
    assert(fragments(manifest, spine@).take(spine@.len() as int) == fragments(manifest, spine@));
    html
}

} // verus!
