//! What holds of every resolved path.
//!
//! A resolved path is normalized, and resolving a normalized path again
//! gives it back unchanged.

use vstd::prelude::*;
use crate::path::{
    apply_segments, lemma_apply_concat, components, directory_segments, is_absolute, is_plain, is_separator,
    join_segments, resolve, resolve_absolute, resolve_segments, split_segments,
};

verus! {

/// No character of `seg` is a separator.
pub open spec fn has_no_separator(seg: Seq<char>) -> bool {
    forall|i: int| 0 <= i < seg.len() ==> !is_separator(#[trigger] seg[i])
}

/// No segment of `segs` holds a separator.
pub open spec fn are_segments(segs: Seq<Seq<char>>) -> bool {
    forall|i: int| 0 <= i < segs.len() ==> has_no_separator(#[trigger] segs[i])
}

/// Every segment of `segs` names a file or a directory.
pub open spec fn are_plain(segs: Seq<Seq<char>>) -> bool {
    forall|i: int| 0 <= i < segs.len() ==> is_plain(#[trigger] segs[i])
}

/// A normalized path: it holds no backslash, and but for the leading `/` of
/// an absolute path every one of its segments names a file or a directory, so
/// that it has no empty segment, no `.` and no `..`. The empty path and `/`
/// alone are normalized too.
pub open spec fn is_normalized(path: Seq<char>) -> bool {
    let segs = split_segments(path);
    let first = if is_absolute(path) { 1int } else { 0int };
    &&& forall|i: int| 0 <= i < path.len() ==> #[trigger] path[i] != '\\'
    &&& (path.len() == 0 || path == seq!['/'] || are_plain(segs.skip(first)))
}

proof fn lemma_split_len(path: Seq<char>)
    ensures
        split_segments(path).len() > 0,
    decreases path.len(),
{
    if path.len() > 0 {
        lemma_split_len(path.drop_last());
    }
}

proof fn lemma_split_are_segments(path: Seq<char>)
    ensures
        are_segments(split_segments(path)),
    decreases path.len(),
{
    if path.len() > 0 {
        lemma_split_len(path.drop_last());
        lemma_split_are_segments(path.drop_last());
    }
}

/// Characters that are no separators lengthen the last segment.
proof fn lemma_split_append(path: Seq<char>, tail: Seq<char>)
    requires
        has_no_separator(tail),
    ensures
        split_segments(path + tail) == split_segments(path).drop_last().push(
            split_segments(path).last() + tail,
        ),
    decreases tail.len(),
{
    lemma_split_len(path);
    let segs = split_segments(path);
    if tail.len() == 0 {
        assert(path + tail == path);
        assert(segs.last() + tail == segs.last());
        assert(segs.drop_last().push(segs.last()) == segs);
    } else {
        let shorter = tail.drop_last();
        assert(has_no_separator(shorter)) by {
            assert forall|i: int| 0 <= i < shorter.len() implies !is_separator(
                #[trigger] shorter[i],
            ) by {
                assert(shorter[i] == tail[i]);
            }
        }
        lemma_split_append(path, shorter);
        assert((path + tail).drop_last() == path + shorter);
        assert((path + tail).last() == tail.last());
        assert(!is_separator(tail[tail.len() - 1]));
        let front = split_segments(path + shorter);
        assert(front.last() == segs.last() + shorter);
        assert(front.drop_last() == segs.drop_last());
        assert((segs.last() + shorter).push(tail.last()) == segs.last() + tail);
    }
}

/// A separator followed by characters that are none starts a new segment.
proof fn lemma_split_append_segment(path: Seq<char>, seg: Seq<char>)
    requires
        has_no_separator(seg),
    ensures
        split_segments(path + seq!['/'] + seg) == split_segments(path).push(seg),
{
    let cut = path + seq!['/'];
    assert(cut.drop_last() == path);
    assert(cut.last() == '/');
    lemma_split_len(path);
    lemma_split_append(cut, seg);
    assert(split_segments(cut) == split_segments(path).push(Seq::<char>::empty()));
    assert(Seq::<char>::empty() + seg == seg);
    assert(split_segments(cut).drop_last() == split_segments(path));
}

/// Splitting what was joined gives the segments back.
proof fn lemma_split_join(segs: Seq<Seq<char>>)
    requires
        segs.len() > 0,
        are_segments(segs),
    ensures
        split_segments(join_segments(segs)) == segs,
    decreases segs.len(),
{
    let empty = Seq::<char>::empty();
    if segs.len() == 1 {
        lemma_split_append(empty, segs[0]);
        assert(empty + segs[0] == segs[0]);
        assert(split_segments(empty) == seq![empty]);
        assert(seq![empty].drop_last().push(empty + segs[0]) == segs);
    } else {
        let front = segs.drop_last();
        assert(are_segments(front)) by {
            assert forall|i: int| 0 <= i < front.len() implies has_no_separator(
                #[trigger] front[i],
            ) by {
                assert(front[i] == segs[i]);
            }
        }
        lemma_split_join(front);
        lemma_split_append_segment(join_segments(front), segs.last());
        assert(front.push(segs.last()) == segs);
    }
}

/// Splitting an absolute path gives an empty segment, then its segments.
proof fn lemma_split_root_join(segs: Seq<Seq<char>>)
    requires
        segs.len() > 0,
        are_segments(segs),
    ensures
        split_segments(seq!['/'] + join_segments(segs)) == seq![Seq::<char>::empty()] + segs,
    decreases segs.len(),
{
    let empty = Seq::<char>::empty();
    let root = seq![empty];
    if segs.len() == 1 {
        lemma_split_append_segment(empty, segs[0]);
        assert(empty + seq!['/'] + segs[0] == seq!['/'] + segs[0]);
        assert(split_segments(empty) == root);
        assert(root.push(segs[0]) == root + segs);
    } else {
        let front = segs.drop_last();
        assert(are_segments(front)) by {
            assert forall|i: int| 0 <= i < front.len() implies has_no_separator(
                #[trigger] front[i],
            ) by {
                assert(front[i] == segs[i]);
            }
        }
        lemma_split_root_join(front);
        lemma_split_append_segment(seq!['/'] + join_segments(front), segs.last());
        assert(seq!['/'] + join_segments(front) + seq!['/'] + segs.last() == seq!['/']
            + join_segments(segs));
        assert((root + front).push(segs.last()) == root + segs);
    }
}

/// A joined path holds no backslash.
proof fn lemma_join_has_no_backslash(segs: Seq<Seq<char>>)
    requires
        are_segments(segs),
    ensures
        forall|i: int| 0 <= i < join_segments(segs).len() ==> #[trigger] join_segments(segs)[i]
            != '\\',
    decreases segs.len(),
{
    if segs.len() == 1 {
        assert(has_no_separator(segs[0]));
        assert forall|i: int| 0 <= i < segs[0].len() implies #[trigger] segs[0][i] != '\\' by {
            assert(!is_separator(segs[0][i]));
        }
    } else if segs.len() > 1 {
        let front = segs.drop_last();
        assert(are_segments(front)) by {
            assert forall|i: int| 0 <= i < front.len() implies has_no_separator(
                #[trigger] front[i],
            ) by {
                assert(front[i] == segs[i]);
            }
        }
        lemma_join_has_no_backslash(front);
        let head = join_segments(front);
        let last = segs.last();
        assert(has_no_separator(last));
        assert forall|i: int| 0 <= i < join_segments(segs).len() implies #[trigger] join_segments(
            segs,
        )[i] != '\\' by {
            if i < head.len() {
                assert(join_segments(segs)[i] == head[i]);
            } else if i > head.len() {
                assert(join_segments(segs)[i] == last[i - head.len() - 1]);
            }
        }
    }
}

/// Applying segments keeps only those that name a file or a directory.
proof fn lemma_apply_keeps_plain(stack: Seq<Seq<char>>, segs: Seq<Seq<char>>)
    requires
        are_segments(stack),
        are_plain(stack),
        are_segments(segs),
    ensures
        are_segments(apply_segments(stack, segs)),
        are_plain(apply_segments(stack, segs)),
    decreases segs.len(),
{
    if segs.len() > 0 {
        let front = segs.drop_last();
        assert(are_segments(front)) by {
            assert forall|i: int| 0 <= i < front.len() implies has_no_separator(
                #[trigger] front[i],
            ) by {
                assert(front[i] == segs[i]);
            }
        }
        lemma_apply_keeps_plain(stack, front);
        assert(has_no_separator(segs.last()));
    }
}

proof fn lemma_components_are_segments(segs: Seq<Seq<char>>)
    requires
        are_segments(segs),
    ensures
        are_segments(components(segs)),
    decreases segs.len(),
{
    if segs.len() > 0 {
        let front = segs.drop_last();
        assert(are_segments(front)) by {
            assert forall|i: int| 0 <= i < front.len() implies has_no_separator(
                #[trigger] front[i],
            ) by {
                assert(front[i] == segs[i]);
            }
        }
        lemma_components_are_segments(front);
        assert(has_no_separator(segs.last()));
    }
}

/// The segments of a resolved path name files and directories.
pub proof fn lemma_resolve_segments_are_plain(base: Seq<char>, reference: Seq<char>)
    ensures
        are_segments(resolve_segments(base, reference)),
        are_plain(resolve_segments(base, reference)),
{
    let empty = Seq::<Seq<char>>::empty();
    let lead = if is_absolute(reference) {
        empty
    } else {
        directory_segments(base)
    };
    lemma_split_are_segments(base);
    lemma_components_are_segments(split_segments(base));
    lemma_split_are_segments(reference);
    let all = components(split_segments(base));
    let tail = split_segments(reference);
    assert(are_segments(lead + tail)) by {
        assert forall|i: int| 0 <= i < (lead + tail).len() implies has_no_separator(
            #[trigger] (lead + tail)[i],
        ) by {
            if i < lead.len() {
                assert((lead + tail)[i] == all[i]);
            } else {
                assert((lead + tail)[i] == tail[i - lead.len()]);
            }
        }
    }
    lemma_apply_keeps_plain(empty, lead + tail);
}

/// Every resolved path is normalized.
pub proof fn lemma_resolve_is_normalized(base: Seq<char>, reference: Seq<char>)
    ensures
        is_normalized(resolve(base, reference)),
{
    let segs = resolve_segments(base, reference);
    let absolute = resolve_absolute(base, reference);
    let path = resolve(base, reference);
    lemma_resolve_segments_are_plain(base, reference);
    lemma_join_has_no_backslash(segs);
    if segs.len() == 0 {
        if absolute {
            assert(path == seq!['/']);
        }
    } else {
        assert(segs[0].len() > 0 && has_no_separator(segs[0]));
        assert(join_segments(segs).len() > 0 && !is_separator(join_segments(segs)[0])) by {
            lemma_join_starts_with_first(segs);
        }
        if absolute {
            lemma_split_root_join(segs);
            assert(is_absolute(path));
            assert(split_segments(path).skip(1) == segs);
        } else {
            lemma_split_join(segs);
            assert(!is_absolute(path));
            assert(split_segments(path).skip(0) == segs);
        }
    }
}

/// A joined path begins with its first segment.
proof fn lemma_join_starts_with_first(segs: Seq<Seq<char>>)
    requires
        segs.len() > 0,
        segs[0].len() > 0,
    ensures
        join_segments(segs).len() > 0,
        join_segments(segs)[0] == segs[0][0],
    decreases segs.len(),
{
    if segs.len() > 1 {
        lemma_join_starts_with_first(segs.drop_last());
    }
}

/// Joining the segments of a path that holds no backslash gives the path
/// back.
proof fn lemma_join_split(path: Seq<char>)
    requires
        forall|i: int| 0 <= i < path.len() ==> #[trigger] path[i] != '\\',
    ensures
        join_segments(split_segments(path)) == path,
    decreases path.len(),
{
    if path.len() > 0 {
        let shorter = path.drop_last();
        assert forall|i: int| 0 <= i < shorter.len() implies #[trigger] shorter[i] != '\\' by {
            assert(shorter[i] == path[i]);
        }
        lemma_join_split(shorter);
        lemma_split_len(shorter);
        let front = split_segments(shorter);
        let c = path.last();
        assert(path[path.len() - 1] != '\\');
        assert(shorter.push(c) == path);
        if is_separator(c) {
            assert(c == '/');
            let segs = front.push(Seq::<char>::empty());
            assert(segs.drop_last() == front);
            assert(join_segments(front) + seq!['/'] + Seq::<char>::empty() == shorter.push(c));
        } else {
            let segs = front.drop_last().push(front.last().push(c));
            assert(segs.drop_last() == front.drop_last());
            if front.len() == 1 {
                assert(join_segments(front) == front[0]);
            } else {
                assert(join_segments(front.drop_last()) + seq!['/'] + front.last().push(c) == (
                join_segments(front.drop_last()) + seq!['/'] + front.last()).push(c));
            }
        }
    }
}

/// An absolute path splits into an empty segment and at least one more.
proof fn lemma_split_absolute(path: Seq<char>)
    requires
        is_absolute(path),
    ensures
        split_segments(path).len() >= 2,
        split_segments(path)[0].len() == 0,
    decreases path.len(),
{
    let shorter = path.drop_last();
    if shorter.len() == 0 {
        assert(split_segments(shorter) == seq![Seq::<char>::empty()]);
        assert(path.last() == path[0]);
    } else {
        assert(shorter[0] == path[0]);
        lemma_split_absolute(shorter);
    }
}

/// Segments that all name a file or a directory are all kept.
proof fn lemma_apply_plain(stack: Seq<Seq<char>>, segs: Seq<Seq<char>>)
    requires
        are_plain(segs),
    ensures
        apply_segments(stack, segs) == stack + segs,
    decreases segs.len(),
{
    if segs.len() == 0 {
        assert(stack + segs == stack);
    } else {
        let front = segs.drop_last();
        assert(are_plain(front)) by {
            assert forall|i: int| 0 <= i < front.len() implies is_plain(#[trigger] front[i]) by {
                assert(front[i] == segs[i]);
            }
        }
        lemma_apply_plain(stack, front);
        assert(is_plain(segs.last()));
        assert((stack + front).push(segs.last()) == stack + segs);
    }
}

/// Joining an empty segment and then others writes a `/` before the others.
proof fn lemma_join_root(rest: Seq<Seq<char>>)
    requires
        rest.len() > 0,
    ensures
        join_segments(seq![Seq::<char>::empty()] + rest) == seq!['/'] + join_segments(rest),
    decreases rest.len(),
{
    let empty = Seq::<char>::empty();
    let root = seq![empty];
    let all = root + rest;
    assert(all.drop_last() == root + rest.drop_last());
    assert(all.last() == rest.last());
    if rest.len() == 1 {
        assert(root + rest.drop_last() == root);
        assert(join_segments(root) == empty);
        assert(empty + seq!['/'] + rest[0] == seq!['/'] + rest[0]);
    } else {
        lemma_join_root(rest.drop_last());
        assert(seq!['/'] + join_segments(rest.drop_last()) + seq!['/'] + rest.last() == seq!['/']
            + (join_segments(rest.drop_last()) + seq!['/'] + rest.last()));
    }
}

/// A location without a separator lies at the top of the container: it has
/// no directory portion.
pub proof fn lemma_top_level_has_no_directory(base: Seq<char>)
    requires
        has_no_separator(base),
    ensures
        !is_absolute(base),
        directory_segments(base).len() == 0,
{
    let empty = Seq::<char>::empty();
    lemma_split_append(empty, base);
    assert(empty + base == base);
    assert(split_segments(empty) == seq![empty]);
    let segs = split_segments(base);
    assert(segs == seq![base]) by {
        assert(seq![empty].drop_last().push(empty + base) == seq![base]);
    }
    assert(segs.drop_last().len() == 0);
    assert(components(segs.drop_last()).len() == 0);
}

/// Resolving a normalized path again returns it unchanged. This holds of an
/// absolute path whatever document it is resolved against, and of a relative
/// one when the document lies at the top of the container.
pub proof fn lemma_resolve_normalized_is_identity(base: Seq<char>, path: Seq<char>)
    requires
        is_normalized(path),
        is_absolute(path) || has_no_separator(base),
    ensures
        resolve(base, path) == path,
{
    let empty = Seq::<Seq<char>>::empty();
    let segs = split_segments(path);
    if !is_absolute(path) {
        lemma_top_level_has_no_directory(base);
    }
    assert(empty + segs == segs);
    assert(resolve_segments(base, path) == apply_segments(empty, segs));
    assert(resolve_absolute(base, path) == is_absolute(path));
    lemma_join_split(path);
    lemma_split_len(path);
    if path.len() == 0 {
        assert(segs == seq![Seq::<char>::empty()]);
        lemma_apply_empty_segment(empty, segs);
    } else if path == seq!['/'] {
        assert(path.drop_last().len() == 0);
        assert(split_segments(path.drop_last()) == seq![Seq::<char>::empty()]);
        assert(segs == seq![Seq::<char>::empty(), Seq::<char>::empty()]);
        assert(segs.drop_last() == seq![Seq::<char>::empty()]);
        lemma_apply_empty_segment(empty, segs.drop_last());
    } else if is_absolute(path) {
        lemma_split_absolute(path);
        let rest = segs.skip(1);
        let root = seq![segs[0]];
        assert(root + rest == segs);
        lemma_apply_concat(empty, root, rest);
        lemma_apply_empty_segment(empty, root);
        lemma_apply_plain(empty, rest);
        assert(empty + rest == rest);
        assert(segs[0] =~= Seq::<char>::empty());
        assert(root == seq![Seq::<char>::empty()]);
        lemma_join_root(rest);
    } else {
        assert(segs.skip(0) == segs);
        lemma_apply_plain(empty, segs);
    }
}

/// Resolving twice, the second time against a document at the top of the
/// container, gives what resolving once gave.
pub proof fn lemma_resolve_is_idempotent(top: Seq<char>, base: Seq<char>, reference: Seq<char>)
    requires
        has_no_separator(top),
    ensures
        resolve(top, resolve(base, reference)) == resolve(base, reference),
{
    lemma_resolve_is_normalized(base, reference);
    lemma_resolve_normalized_is_identity(top, resolve(base, reference));
}

/// A lone empty segment changes nothing.
proof fn lemma_apply_empty_segment(stack: Seq<Seq<char>>, segs: Seq<Seq<char>>)
    requires
        segs.len() == 1,
        segs[0].len() == 0,
    ensures
        apply_segments(stack, segs) == stack,
{
    assert(segs.drop_last().len() == 0);
    assert(apply_segments(stack, segs.drop_last()) == stack);
}

} // verus!
