//! The container: a manifest of resources, the spine that orders them for
//! reading, and the package's descriptive fields.
//!
//! A `Container` holds what was read from an archive as plain values. It is
//! filled once, through `add_resource` and its companions, and then only
//! read. The manifest is kept in the order of its identifiers, so that what
//! a container holds, and what is found in it, does not depend on the order
//! in which the entries came.

use vstd::prelude::*;
use crate::text::{chars_of, contains, occurs_at, occurs_in, starts_with, string_of};

verus! {

/// What a resource is, as far as this crate treats resources differently.
#[derive(Clone, Copy, Debug, PartialEq, Eq, Structural)]
pub enum ResourceKind {
    /// A markup document that belongs to the reading content.
    Markup,
    /// A font.
    Font,
    /// An image.
    Image,
    /// Anything else.
    Other,
}

/// The media type of the markup documents that make up the reading content.
pub open spec fn is_markup_type(media_type: Seq<char>) -> bool {
    media_type == "application/xhtml+xml"@
}

/// The media types of fonts: every type that mentions `font`, and the few
/// older types that do not.
pub open spec fn is_font_type(media_type: Seq<char>) -> bool {
    ||| occurs_in(media_type, "font"@)
    ||| media_type == "application/vnd.ms-opentype"@
    ||| media_type == "application/x-font-ttf"@
    ||| media_type == "application/x-font-otf"@
    ||| media_type == "application/font-woff"@
    ||| media_type == "application/font-woff2"@
}

/// The media types of images.
pub open spec fn is_image_type(media_type: Seq<char>) -> bool {
    "image/"@.is_prefix_of(media_type)
}

/// The kind of a resource with the given declared media type.
pub open spec fn kind_of(media_type: Seq<char>) -> ResourceKind {
    if is_markup_type(media_type) {
        ResourceKind::Markup
    } else if is_font_type(media_type) {
        ResourceKind::Font
    } else if is_image_type(media_type) {
        ResourceKind::Image
    } else {
        ResourceKind::Other
    }
}

/// The media type of markup documents is no media type of fonts, so a
/// resource is of the kind `Font` exactly when its media type is one of
/// fonts.
pub proof fn lemma_font_kind(media_type: Seq<char>)
    ensures
        kind_of(media_type) == ResourceKind::Font <==> is_font_type(media_type),
{
    if is_markup_type(media_type) {
        reveal_strlit("application/xhtml+xml");
        reveal_strlit("font");
        reveal_strlit("application/vnd.ms-opentype");
        reveal_strlit("application/x-font-ttf");
        reveal_strlit("application/x-font-otf");
        reveal_strlit("application/font-woff");
        reveal_strlit("application/font-woff2");
        assert(media_type.len() == 21);
        assert(media_type[12] == 'x');
        assert("application/vnd.ms-opentype"@.len() == 27);
        assert("application/x-font-ttf"@.len() == 22);
        assert("application/x-font-otf"@.len() == 22);
        assert("application/font-woff"@[12] == 'f');
        assert("application/font-woff2"@.len() == 22);
        assert forall|at: int| !occurs_at(media_type, "font"@, at) by {
            if occurs_at(media_type, "font"@, at) {
                assert(media_type.subrange(at, at + 4)[0] == 'f');
                assert(media_type[at] == 'f');
            }
        }
    }
}

/// Derives the kind of a resource from its declared media type.
pub fn classify(media_type: &str) -> (kind: ResourceKind)
    ensures
        kind == kind_of(media_type@),
{
    if media_type.eq("application/xhtml+xml") {
        ResourceKind::Markup
    } else if contains(media_type, "font") || media_type.eq("application/vnd.ms-opentype")
        || media_type.eq("application/x-font-ttf") || media_type.eq("application/x-font-otf")
        || media_type.eq("application/font-woff") || media_type.eq("application/font-woff2") {
        ResourceKind::Font
    } else if starts_with(media_type, "image/") {
        ResourceKind::Image
    } else {
        ResourceKind::Other
    }
}

/// `path` with every backslash replaced by `/`.
pub open spec fn forward_slashes(path: Seq<char>) -> Seq<char> {
    Seq::new(path.len(), |i: int| if path[i] == '\\' { '/' } else { path[i] })
}

/// Replaces every backslash of `path` by `/`.
pub fn to_forward_slashes(path: &str) -> (out: String)
    ensures
        out@ == forward_slashes(path@),
{
    let chars = chars_of(path);
    let mut out: Vec<char> = Vec::new();
    let mut i: usize = 0;
    while i < chars.len()
        invariant
            i <= chars.len(),
            chars@ == path@,
            out@ == forward_slashes(path@).take(i as int),
        decreases chars.len() - i,
    {
        let c = chars[i];
        out.push(if c == '\\' { '/' } else { c });
        i += 1;
    }
    string_of(&out)
}

/// One entry of the manifest.
#[derive(Debug)]
pub struct Resource {
    /// The identifier, which no other entry of the same container has.
    pub id: String,
    /// The location inside the container, with `/` between its segments.
    pub href: String,
    /// The declared media type.
    pub media_type: String,
    /// The kind, derived from the media type when the entry was added.
    pub kind: ResourceKind,
    /// The bytes of the resource, or `None` where they cannot be read. A
    /// markup document is held as its text in UTF-8.
    pub data: Option<Vec<u8>>,
}

/// The descriptive fields of the package, each as it was declared.
#[derive(Debug)]
pub struct PackageInfo {
    /// The declared titles, in the order of their declaration.
    pub titles: Vec<String>,
    /// The declared creators, in the order of their declaration.
    pub creators: Vec<String>,
    /// The declared publishers, in the order of their declaration.
    pub publishers: Vec<String>,
    /// The publication date as it was written, if one was declared.
    pub publication_date: Option<String>,
    /// The values of the declared identifiers, in the order of their
    /// declaration.
    pub identifiers: Vec<String>,
}

/// Why a container could not be built.
#[derive(Clone, Copy, Debug, PartialEq, Eq, Structural)]
pub enum ContainerError {
    /// The manifest declares two resources under one identifier.
    DuplicateId,
}

/// The index of the first entry of `manifest` with the identifier `id`.
pub open spec fn index_of_id(manifest: Seq<Resource>, id: Seq<char>) -> Option<int>
    decreases manifest.len(),
{
    if manifest.len() == 0 {
        None
    } else {
        match index_of_id(manifest.drop_last(), id) {
            Some(i) => Some(i),
            None => if manifest.last().id@ == id {
                Some(manifest.len() - 1)
            } else {
                None
            },
        }
    }
}

/// The index of the first entry of `manifest` at the location `href`.
pub open spec fn index_of_href(manifest: Seq<Resource>, href: Seq<char>) -> Option<int>
    decreases manifest.len(),
{
    if manifest.len() == 0 {
        None
    } else {
        match index_of_href(manifest.drop_last(), href) {
            Some(i) => Some(i),
            None => if manifest.last().href@ == href {
                Some(manifest.len() - 1)
            } else {
                None
            },
        }
    }
}

/// `a` stands before `b` in the order of strings: at the first place where
/// the two differ `a` has the smaller character, or `a` ends there and `b`
/// goes on.
pub open spec fn precedes(a: Seq<char>, b: Seq<char>) -> bool
    decreases a.len(),
{
    if b.len() == 0 {
        false
    } else if a.len() == 0 {
        true
    } else if a[0] != b[0] {
        a[0] < b[0]
    } else {
        precedes(a.drop_first(), b.drop_first())
    }
}

/// The identifiers of `manifest` stand in the order of strings, each before
/// the next.
pub open spec fn ids_are_sorted(manifest: Seq<Resource>) -> bool {
    forall|i: int, j: int|
        0 <= i < j < manifest.len() ==> precedes(
            (#[trigger] manifest[i]).id@,
            (#[trigger] manifest[j]).id@,
        )
}

/// The number of entries of `manifest` whose identifier stands before `id`:
/// the place in a sorted manifest at which an entry with the identifier `id`
/// belongs.
pub open spec fn insertion_point(manifest: Seq<Resource>, id: Seq<char>) -> int
    decreases manifest.len(),
{
    if manifest.len() == 0 {
        0
    } else {
        insertion_point(manifest.drop_last(), id) + if precedes(manifest.last().id@, id) {
            1int
        } else {
            0int
        }
    }
}

/// No two entries of `manifest` share an identifier.
pub open spec fn ids_are_unique(manifest: Seq<Resource>) -> bool {
    forall|i: int, j: int|
        0 <= i < j < manifest.len() ==> #[trigger] manifest[i].id@ != #[trigger] manifest[j].id@
}

/// Every entry of `manifest` is as `add_resource` leaves it: its location
/// holds no backslash and its kind is the one that its media type gives.
pub open spec fn entries_are_sound(manifest: Seq<Resource>) -> bool {
    forall|i: int|
        0 <= i < manifest.len() ==> {
            &&& (#[trigger] manifest[i]).href@ == forward_slashes(manifest[i].href@)
            &&& manifest[i].kind == kind_of(manifest[i].media_type@)
        }
}

/// An opened container.
pub struct Container {
    manifest: Vec<Resource>,
    spine: Vec<String>,
    cover_id: Option<String>,
    package: PackageInfo,
}

impl Container {
    #[verifier::type_invariant]
    spec fn well_formed(self) -> bool {
        ids_are_sorted(self.manifest@) && entries_are_sound(self.manifest@)
    }

    /// The entries of the manifest, in the order of their identifiers.
    pub closed spec fn manifest_view(self) -> Seq<Resource> {
        self.manifest@
    }

    /// The identifiers of the spine, in reading order.
    pub closed spec fn spine_view(self) -> Seq<String> {
        self.spine@
    }

    /// The identifier of the resource that the manifest declares as the
    /// cover image, if it declares one.
    pub closed spec fn cover_id_view(self) -> Option<String> {
        self.cover_id
    }

    /// The descriptive fields of the package.
    pub closed spec fn package_view(self) -> PackageInfo {
        self.package
    }

    /// A container with the given descriptive fields, an empty manifest, an
    /// empty spine and no declared cover.
    pub fn new(package: PackageInfo) -> (container: Container)
        ensures
            container.manifest_view().len() == 0,
            container.spine_view().len() == 0,
            container.cover_id_view() is None,
            container.package_view() == package,
    {
        Container { manifest: Vec::new(), spine: Vec::new(), cover_id: None, package }
    }

    /// The manifest. In every container its entries stand in the order of
    /// their identifiers, whatever the order in which they were added; so
    /// the identifiers are unique. Its locations hold no backslash, and its
    /// kinds follow from the media types.
    pub fn manifest(&self) -> (manifest: &Vec<Resource>)
        ensures
            manifest@ == self.manifest_view(),
            ids_are_sorted(manifest@),
            ids_are_unique(manifest@),
            entries_are_sound(manifest@),
    {
        proof {
            use_type_invariant(self);
            lemma_sorted_ids_are_unique(self.manifest@);
        }
        &self.manifest
    }

    /// The spine: the identifiers of the resources in reading order.
    pub fn spine(&self) -> (spine: &Vec<String>)
        ensures
            spine@ == self.spine_view(),
    {
        &self.spine
    }

    /// The descriptive fields of the package.
    pub fn package(&self) -> (package: &PackageInfo)
        ensures
            *package == self.package_view(),
    {
        &self.package
    }

    /// Adds an entry to the manifest, at the place where its identifier
    /// belongs in the order of strings. Backslashes in `href` are replaced
    /// by `/`, and the kind is derived from `media_type`. Where the manifest
    /// already holds an entry with the identifier `id`, nothing is added and
    /// the error says so.
    pub fn add_resource(
        &mut self,
        id: String,
        href: String,
        media_type: String,
        data: Option<Vec<u8>>,
    ) -> (added: Result<(), ContainerError>)
        ensures
            final(self).spine_view() == old(self).spine_view(),
            final(self).cover_id_view() == old(self).cover_id_view(),
            final(self).package_view() == old(self).package_view(),
            match added {
                Ok(()) => {
                    let at = insertion_point(old(self).manifest_view(), id@);
                    &&& index_of_id(old(self).manifest_view(), id@) is None
                    &&& 0 <= at <= old(self).manifest_view().len()
                    &&& final(self).manifest_view().len() == old(self).manifest_view().len() + 1
                    &&& final(self).manifest_view().remove(at) == old(self).manifest_view()
                    &&& final(self).manifest_view()[at].id == id
                    &&& final(self).manifest_view()[at].href@ == forward_slashes(href@)
                    &&& final(self).manifest_view()[at].media_type == media_type
                    &&& final(self).manifest_view()[at].kind == kind_of(media_type@)
                    &&& final(self).manifest_view()[at].data == data
                },
                Err(e) => {
                    &&& e == ContainerError::DuplicateId
                    &&& index_of_id(old(self).manifest_view(), id@) is Some
                    &&& final(self).manifest_view() == old(self).manifest_view()
                },
            },
    {
        proof {
            use_type_invariant(&*self);
        }
        if find_id(&self.manifest, id.as_str()).is_some() {
            return Err(ContainerError::DuplicateId);
        }
        let kind = classify(media_type.as_str());
        let href = to_forward_slashes(href.as_str());
        let at = find_place(&self.manifest, id.as_str());
        proof {
            lemma_index_of_id_none(self.manifest@, id@);
            lemma_forward_slashes_twice(href@);
        }
        // The manifest is taken out while it grows: the container keeps its
        // invariant at every step.
        let mut manifest: Vec<Resource> = Vec::new();
        core::mem::swap(&mut self.manifest, &mut manifest);
        let ghost before = manifest@;
        let ghost name = id@;
        manifest.insert(at, Resource { id, href, media_type, kind, data });
        proof {
            assert(manifest@.remove(at as int) == before);
            assert forall|k: int| at <= k < before.len() implies precedes(
                name,
                (#[trigger] before[k]).id@,
            ) by {
                lemma_precedes_total(name, before[at as int].id@);
                if k > at {
                    lemma_precedes_transitive(name, before[at as int].id@, before[k].id@);
                }
            }
            assert forall|i: int, j: int| 0 <= i < j < manifest@.len() implies precedes(
                (#[trigger] manifest@[i]).id@,
                (#[trigger] manifest@[j]).id@,
            ) by {
                if i < at {
                    assert(manifest@[i] == before[i]);
                } else if i > at {
                    assert(manifest@[i] == before[i - 1]);
                }
                if j < at {
                    assert(manifest@[j] == before[j]);
                } else if j > at {
                    assert(manifest@[j] == before[j - 1]);
                }
            }
            assert forall|i: int| 0 <= i < manifest@.len() implies {
                &&& (#[trigger] manifest@[i]).href@ == forward_slashes(manifest@[i].href@)
                &&& manifest@[i].kind == kind_of(manifest@[i].media_type@)
            } by {
                if i < at {
                    assert(manifest@[i] == before[i]);
                } else if i > at {
                    assert(manifest@[i] == before[i - 1]);
                }
            }
        }
        core::mem::swap(&mut self.manifest, &mut manifest);
        Ok(())
    }

    /// Adds an identifier to the end of the spine.
    pub fn add_spine_entry(&mut self, idref: String)
        ensures
            final(self).spine_view() == old(self).spine_view().push(idref),
            final(self).manifest_view() == old(self).manifest_view(),
            final(self).cover_id_view() == old(self).cover_id_view(),
            final(self).package_view() == old(self).package_view(),
    {
        proof {
            use_type_invariant(&*self);
        }
        let mut spine: Vec<String> = Vec::new();
        core::mem::swap(&mut self.spine, &mut spine);
        spine.push(idref);
        core::mem::swap(&mut self.spine, &mut spine);
    }

    /// Records which resource the manifest declares as the cover image.
    pub fn set_cover(&mut self, id: String)
        ensures
            final(self).cover_id_view() == Some(id),
            final(self).manifest_view() == old(self).manifest_view(),
            final(self).spine_view() == old(self).spine_view(),
            final(self).package_view() == old(self).package_view(),
    {
        proof {
            use_type_invariant(&*self);
        }
        self.cover_id = Some(id);
    }

    /// The entry of the manifest with the identifier `id`, or `None` when
    /// there is none.
    pub fn resource_by_id(&self, id: &str) -> (found: Option<&Resource>)
        ensures
            match index_of_id(self.manifest_view(), id@) {
                Some(i) => found == Some(&self.manifest_view()[i]),
                None => found is None,
            },
    {
        match find_id(&self.manifest, id) {
            Some(i) => Some(&self.manifest[i]),
            None => None,
        }
    }

    /// The first entry of the manifest at the location `href`, or `None` when
    /// there is none.
    pub fn resource_by_href(&self, href: &str) -> (found: Option<&Resource>)
        ensures
            match index_of_href(self.manifest_view(), href@) {
                Some(i) => found == Some(&self.manifest_view()[i]),
                None => found is None,
            },
    {
        match find_href(&self.manifest, href) {
            Some(i) => Some(&self.manifest[i]),
            None => None,
        }
    }

    /// The resource that the manifest declares as the cover image, or `None`
    /// when it declares none or the declared identifier names no entry.
    pub fn cover_image(&self) -> (found: Option<&Resource>)
        ensures
            match cover_index(self.manifest_view(), self.cover_id_view()) {
                Some(i) => found == Some(&self.manifest_view()[i]),
                None => found is None,
            },
    {
        match &self.cover_id {
            Some(id) => {
                match find_id(&self.manifest, id.as_str()) {
                    Some(i) => Some(&self.manifest[i]),
                    None => None,
                }
            },
            None => None,
        }
    }
}

/// The index of the declared cover image: of the entry of `manifest` that
/// `cover_id` names.
pub open spec fn cover_index(manifest: Seq<Resource>, cover_id: Option<String>) -> Option<int> {
    match cover_id {
        Some(id) => index_of_id(manifest, id@),
        None => None,
    }
}

/// Where `index_of_id` finds an entry, it is the first with that identifier;
/// where it finds none, no entry has it.
pub proof fn lemma_index_of_id(manifest: Seq<Resource>, id: Seq<char>)
    ensures
        match index_of_id(manifest, id) {
            Some(i) => {
                &&& 0 <= i < manifest.len()
                &&& manifest[i].id@ == id
                &&& forall|j: int| 0 <= j < i ==> (#[trigger] manifest[j]).id@ != id
            },
            None => forall|j: int| 0 <= j < manifest.len() ==> (#[trigger] manifest[j]).id@ != id,
        },
    decreases manifest.len(),
{
    if manifest.len() > 0 {
        lemma_index_of_id(manifest.drop_last(), id);
        let front = manifest.drop_last();
        assert forall|j: int| 0 <= j < front.len() implies front[j] == manifest[j] by {}
        match index_of_id(front, id) {
            Some(i) => {
                assert forall|j: int| 0 <= j < i implies (#[trigger] manifest[j]).id@ != id by {
                    assert(front[j] == manifest[j]);
                }
            },
            None => {
                assert forall|j: int| 0 <= j < manifest.len() - 1 implies (
                #[trigger] manifest[j]).id@ != id by {
                    assert(front[j] == manifest[j]);
                }
            },
        }
    }
}

proof fn lemma_index_of_id_none(manifest: Seq<Resource>, id: Seq<char>)
    requires
        index_of_id(manifest, id) is None,
    ensures
        forall|j: int| 0 <= j < manifest.len() ==> (#[trigger] manifest[j]).id@ != id,
{
    lemma_index_of_id(manifest, id);
}

/// Where `index_of_href` finds an entry, it is the first at that location;
/// where it finds none, no entry is there.
pub proof fn lemma_index_of_href(manifest: Seq<Resource>, href: Seq<char>)
    ensures
        match index_of_href(manifest, href) {
            Some(i) => {
                &&& 0 <= i < manifest.len()
                &&& manifest[i].href@ == href
                &&& forall|j: int| 0 <= j < i ==> (#[trigger] manifest[j]).href@ != href
            },
            None => forall|j: int|
                0 <= j < manifest.len() ==> (#[trigger] manifest[j]).href@ != href,
        },
    decreases manifest.len(),
{
    if manifest.len() > 0 {
        lemma_index_of_href(manifest.drop_last(), href);
        let front = manifest.drop_last();
        match index_of_href(front, href) {
            Some(i) => {
                assert forall|j: int| 0 <= j < i implies (#[trigger] manifest[j]).href@ != href by {
                    assert(front[j] == manifest[j]);
                }
            },
            None => {
                assert forall|j: int| 0 <= j < manifest.len() - 1 implies (
                #[trigger] manifest[j]).href@ != href by {
                    assert(front[j] == manifest[j]);
                }
            },
        }
    }
}

proof fn lemma_forward_slashes_twice(path: Seq<char>)
    ensures
        forward_slashes(forward_slashes(path)) == forward_slashes(path),
{
    assert(forward_slashes(forward_slashes(path)) =~= forward_slashes(path));
}

fn find_id(manifest: &Vec<Resource>, id: &str) -> (found: Option<usize>)
    ensures
        match found {
            Some(i) => i < manifest.len() && index_of_id(manifest@, id@) == Some(i as int),
            None => index_of_id(manifest@, id@) is None,
        },
{
    let mut i: usize = 0;
    while i < manifest.len()
        invariant
            i <= manifest.len(),
            index_of_id(manifest@.take(i as int), id@) is None,
        decreases manifest.len() - i,
    {
        if manifest[i].id.as_str().eq(id) {
            proof {
                lemma_index_of_id_extends(manifest@, id@, i as int);
            }
            return Some(i);
        }
        assert(manifest@.take(i + 1).drop_last() == manifest@.take(i as int));
        i += 1;
    }
    assert(manifest@.take(manifest@.len() as int) == manifest@);
    None
}

/// The first entry with the identifier is found however many entries
/// follow it.
proof fn lemma_index_of_id_extends(manifest: Seq<Resource>, id: Seq<char>, at: int)
    requires
        0 <= at < manifest.len(),
        index_of_id(manifest.take(at), id) is None,
        manifest[at].id@ == id,
    ensures
        index_of_id(manifest, id) == Some(at),
    decreases manifest.len(),
{
    if at == manifest.len() - 1 {
        assert(manifest.drop_last() == manifest.take(at));
    } else {
        assert(manifest.drop_last().take(at) == manifest.take(at));
        lemma_index_of_id_extends(manifest.drop_last(), id, at);
    }
}

fn find_href(manifest: &Vec<Resource>, href: &str) -> (found: Option<usize>)
    ensures
        match found {
            Some(i) => i < manifest.len() && index_of_href(manifest@, href@) == Some(i as int),
            None => index_of_href(manifest@, href@) is None,
        },
{
    let mut i: usize = 0;
    while i < manifest.len()
        invariant
            i <= manifest.len(),
            index_of_href(manifest@.take(i as int), href@) is None,
        decreases manifest.len() - i,
    {
        if manifest[i].href.as_str().eq(href) {
            proof {
                lemma_index_of_href_extends(manifest@, href@, i as int);
            }
            return Some(i);
        }
        assert(manifest@.take(i + 1).drop_last() == manifest@.take(i as int));
        i += 1;
    }
    assert(manifest@.take(manifest@.len() as int) == manifest@);
    None
}

/// The first entry at the location is found however many entries follow it.
proof fn lemma_index_of_href_extends(manifest: Seq<Resource>, href: Seq<char>, at: int)
    requires
        0 <= at < manifest.len(),
        index_of_href(manifest.take(at), href) is None,
        manifest[at].href@ == href,
    ensures
        index_of_href(manifest, href) == Some(at),
    decreases manifest.len(),
{
    if at == manifest.len() - 1 {
        assert(manifest.drop_last() == manifest.take(at));
    } else {
        assert(manifest.drop_last().take(at) == manifest.take(at));
        lemma_index_of_href_extends(manifest.drop_last(), href, at);
    }
}

/// No string stands before itself.
pub proof fn lemma_precedes_irreflexive(a: Seq<char>)
    ensures
        !precedes(a, a),
    decreases a.len(),
{
    if a.len() > 0 {
        lemma_precedes_irreflexive(a.drop_first());
    }
}

/// Of two different strings one stands before the other.
pub proof fn lemma_precedes_total(a: Seq<char>, b: Seq<char>)
    ensures
        a != b ==> precedes(a, b) || precedes(b, a),
        !(precedes(a, b) && precedes(b, a)),
    decreases a.len(),
{
    if a.len() == 0 || b.len() == 0 {
        if a.len() == 0 && b.len() == 0 {
            assert(a =~= b);
        }
    } else if a[0] == b[0] {
        lemma_precedes_total(a.drop_first(), b.drop_first());
        if a.drop_first() == b.drop_first() {
            assert(a =~= seq![a[0]] + a.drop_first());
            assert(b =~= seq![b[0]] + b.drop_first());
        }
    }
}

/// What stands before a string stands before everything after it.
pub proof fn lemma_precedes_transitive(a: Seq<char>, b: Seq<char>, c: Seq<char>)
    requires
        precedes(a, b),
        precedes(b, c),
    ensures
        precedes(a, c),
    decreases a.len(),
{
    if a.len() > 0 && a[0] == b[0] && b[0] == c[0] {
        lemma_precedes_transitive(a.drop_first(), b.drop_first(), c.drop_first());
    }
}

/// Identifiers that stand in order are all different.
pub proof fn lemma_sorted_ids_are_unique(manifest: Seq<Resource>)
    requires
        ids_are_sorted(manifest),
    ensures
        ids_are_unique(manifest),
{
    assert forall|i: int, j: int| 0 <= i < j < manifest.len() implies (#[trigger] manifest[i]).id@
        != (#[trigger] manifest[j]).id@ by {
        lemma_precedes_irreflexive(manifest[i].id@);
    }
}

/// In a manifest whose first `at` identifiers stand before `id` and whose
/// others do not, `at` is the place where `id` belongs.
proof fn lemma_insertion_point(manifest: Seq<Resource>, id: Seq<char>, at: int)
    requires
        0 <= at <= manifest.len(),
        forall|k: int| 0 <= k < at ==> precedes((#[trigger] manifest[k]).id@, id),
        forall|k: int| at <= k < manifest.len() ==> !precedes((#[trigger] manifest[k]).id@, id),
    ensures
        insertion_point(manifest, id) == at,
    decreases manifest.len(),
{
    if manifest.len() > 0 {
        let front = manifest.drop_last();
        assert forall|k: int| 0 <= k < front.len() implies front[k] == manifest[k] by {}
        if at == manifest.len() {
            assert(precedes(manifest[at - 1].id@, id));
            lemma_insertion_point(front, id, at - 1);
        } else {
            assert(!precedes(manifest[manifest.len() - 1].id@, id));
            lemma_insertion_point(front, id, at);
        }
    }
}

/// Whether `a` stands before `b` in the order of strings.
fn comes_before(a: &str, b: &str) -> (before: bool)
    ensures
        before == precedes(a@, b@),
{
    let av = chars_of(a);
    let bv = chars_of(b);
    let mut i: usize = 0;
    assert(av@.skip(0) == av@ && bv@.skip(0) == bv@);
    loop
        invariant
            i <= av.len(),
            i <= bv.len(),
            av@ == a@,
            bv@ == b@,
            precedes(a@, b@) == precedes(av@.skip(i as int), bv@.skip(i as int)),
        decreases av.len() - i,
    {
        if i == bv.len() {
            return false;
        }
        if i == av.len() {
            return true;
        }
        proof {
            assert(av@.skip(i as int)[0] == av@[i as int]);
            assert(bv@.skip(i as int)[0] == bv@[i as int]);
            assert(av@.skip(i as int).drop_first() == av@.skip(i + 1));
            assert(bv@.skip(i as int).drop_first() == bv@.skip(i + 1));
        }
        if av[i] != bv[i] {
            return av[i] < bv[i];
        }
        i += 1;
    }
}

/// The place where an entry with the identifier `id`, which the sorted
/// manifest does not hold, belongs.
fn find_place(manifest: &Vec<Resource>, id: &str) -> (at: usize)
    requires
        ids_are_sorted(manifest@),
    ensures
        at <= manifest.len(),
        at == insertion_point(manifest@, id@),
        forall|k: int| 0 <= k < at ==> precedes((#[trigger] manifest@[k]).id@, id@),
        at < manifest.len() ==> !precedes(manifest@[at as int].id@, id@),
{
    let mut at: usize = 0;
    while at < manifest.len() && comes_before(manifest[at].id.as_str(), id)
        invariant
            at <= manifest.len(),
            forall|k: int| 0 <= k < at ==> precedes((#[trigger] manifest@[k]).id@, id@),
        decreases manifest.len() - at,
    {
        at += 1;
    }
    proof {
        assert forall|k: int| at <= k < manifest@.len() implies !precedes(
            (#[trigger] manifest@[k]).id@,
            id@,
        ) by {
            if k > at {
                lemma_precedes_total(manifest@[at as int].id@, manifest@[k].id@);
                if precedes(manifest@[k].id@, id@) {
                    lemma_precedes_transitive(manifest@[at as int].id@, manifest@[k].id@, id@);
                }
            }
        }
        lemma_insertion_point(manifest@, id@, at as int);
    }
    at
}

} // verus!
