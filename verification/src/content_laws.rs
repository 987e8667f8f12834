//! What holds of the assembled content and of rewritten references.

use vstd::prelude::*;
use crate::container::Resource;
use crate::content::{
    as_written, assembled, base64_group, base64_standard, concat_all, fragments,
    is_embedded_or_remote, rewritten, spine_fragment, target_of, RefParts,
};

verus! {

/// A reference that is inline data already, or that points to the network,
/// is left as it stands: the element comes back character for character.
pub proof fn lemma_embedded_or_remote_is_untouched(
    manifest: Seq<Resource>,
    base: Seq<char>,
    r: RefParts,
)
    requires
        is_embedded_or_remote(r.url),
    ensures
        rewritten(manifest, base, r) == as_written(r),
{
}

/// A reference that points to nothing in the manifest is left as it stands.
pub proof fn lemma_missing_resource_is_untouched(
    manifest: Seq<Resource>,
    base: Seq<char>,
    r: RefParts,
)
    requires
        target_of(manifest, base, r.url) is None,
    ensures
        rewritten(manifest, base, r) == as_written(r),
{
}

/// A reference to a resource whose bytes cannot be read is left as it
/// stands.
pub proof fn lemma_unreadable_resource_is_untouched(
    manifest: Seq<Resource>,
    base: Seq<char>,
    r: RefParts,
)
    requires
        target_of(manifest, base, r.url) matches Some(i) && manifest[i].data is None,
    ensures
        rewritten(manifest, base, r) == as_written(r),
{
}

/// Base64 writes four characters for every three bytes, and pads what
/// remains: `Man` is `TWFu`, `Ma` is `TWE=`, `M` is `TQ==`, and `foobar` is
/// `Zm9vYmFy`.
pub proof fn lemma_base64_known_values()
    ensures
        base64_standard(Seq::<u8>::empty()) == Seq::<char>::empty(),
        base64_standard(seq![77u8, 97u8, 110u8]) == seq!['T', 'W', 'F', 'u'],
        base64_standard(seq![77u8, 97u8]) == seq!['T', 'W', 'E', '='],
        base64_standard(seq![77u8]) == seq!['T', 'Q', '=', '='],
        base64_standard(seq![102u8, 111u8, 111u8, 98u8, 97u8, 114u8]) == seq![
            'Z',
            'm',
            '9',
            'v',
            'Y',
            'm',
            'F',
            'y',
        ],
        base64_standard(seq![255u8, 254u8, 253u8]) == seq!['/', '/', '7', '9'],
{
    assert(base64_group(seq![77u8, 97u8, 110u8]) =~= seq!['T', 'W', 'F', 'u']);
    assert(base64_group(seq![77u8, 97u8]) =~= seq!['T', 'W', 'E', '=']);
    assert(base64_group(seq![77u8]) =~= seq!['T', 'Q', '=', '=']);
    assert(base64_group(seq![255u8, 254u8, 253u8]) =~= seq!['/', '/', '7', '9']);
    let foobar = seq![102u8, 111u8, 111u8, 98u8, 97u8, 114u8];
    assert(foobar.take(3) =~= seq![102u8, 111u8, 111u8]);
    assert(foobar.skip(3) =~= seq![98u8, 97u8, 114u8]);
    assert(base64_group(seq![102u8, 111u8, 111u8]) =~= seq!['Z', 'm', '9', 'v']);
    assert(base64_group(seq![98u8, 97u8, 114u8]) =~= seq!['Y', 'm', 'F', 'y']);
    assert(base64_standard(foobar.skip(3)) == base64_group(foobar.skip(3)));
    assert(seq!['Z', 'm', '9', 'v'] + seq!['Y', 'm', 'F', 'y'] =~= seq![
        'Z',
        'm',
        '9',
        'v',
        'Y',
        'm',
        'F',
        'y',
    ]);
}

/// Base64 writes four characters for every group of three bytes, whole or
/// not.
pub proof fn lemma_base64_length(data: Seq<u8>)
    ensures
        base64_standard(data).len() == (data.len() + 2) / 3 * 4,
    decreases data.len(),
{
    if data.len() > 3 {
        lemma_base64_length(data.skip(3));
    }
}

/// Writing out two runs of parts one after the other is writing out the two
/// runs joined.
pub proof fn lemma_concat_all_append(a: Seq<Seq<char>>, b: Seq<Seq<char>>)
    ensures
        concat_all(a + b) == concat_all(a) + concat_all(b),
    decreases b.len(),
{
    if b.len() == 0 {
        assert(a + b == a);
        assert(concat_all(a) + Seq::<char>::empty() == concat_all(a));
    } else {
        assert((a + b).drop_last() == a + b.drop_last());
        lemma_concat_all_append(a, b.drop_last());
        assert(concat_all(a) + concat_all(b.drop_last()) + b.last() == concat_all(a) + (
        concat_all(b.drop_last()) + b.last()));
    }
}

/// The content of a spine has one fragment for each entry of the spine, and
/// the content of a spine of one entry is the fragment of that entry.
pub proof fn lemma_one_fragment_per_entry(manifest: Seq<Resource>, spine: Seq<String>)
    ensures
        fragments(manifest, spine).len() == spine.len(),
        forall|i: int|
            0 <= i < spine.len() ==> #[trigger] fragments(manifest, spine)[i] == spine_fragment(
                manifest,
                spine[i]@,
            ),
        spine.len() == 1 ==> assembled(manifest, spine) == spine_fragment(manifest, spine[0]@),
{
    if spine.len() == 1 {
        let parts = fragments(manifest, spine);
        assert(parts.drop_last().len() == 0);
        assert(concat_all(parts.drop_last()) == Seq::<char>::empty());
        assert(Seq::<char>::empty() + parts.last() == parts.last());
    }
}

/// The content follows the order of the spine: the content of two spines
/// joined is the content of the first followed by the content of the second.
pub proof fn lemma_content_follows_spine(
    manifest: Seq<Resource>,
    first: Seq<String>,
    second: Seq<String>,
)
    ensures
        assembled(manifest, first + second) == assembled(manifest, first) + assembled(
            manifest,
            second,
        ),
{
    assert(fragments(manifest, first + second) == fragments(manifest, first) + fragments(
        manifest,
        second,
    ));
    lemma_concat_all_append(fragments(manifest, first), fragments(manifest, second));
}

} // verus!
