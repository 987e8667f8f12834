//! Resolution of a reference found in one document against the place of that
//! document inside the container.
//!
//! Paths inside a container are sequences of segments separated by `/`. A
//! backslash in an input counts as a separator too, so that no backslash ever
//! reaches a resolved path. Resolution never looks at a file system.

use vstd::prelude::*;
use crate::path_laws::{is_normalized, lemma_resolve_is_normalized};
use crate::text::{chars_of, push_chars, string_of};

verus! {

/// The characters that separate the segments of a path.
pub open spec fn is_separator(c: char) -> bool {
    c == '/' || c == '\\'
}

/// The segment `.`, which stands for the directory it is found in.
pub open spec fn is_dot(seg: Seq<char>) -> bool {
    seg.len() == 1 && seg[0] == '.'
}

/// The segment `..`, which stands for the parent directory.
pub open spec fn is_dot_dot(seg: Seq<char>) -> bool {
    seg.len() == 2 && seg[0] == '.' && seg[1] == '.'
}

/// A segment that names a file or a directory: not empty, not `.`, not `..`.
pub open spec fn is_plain(seg: Seq<char>) -> bool {
    seg.len() > 0 && !is_dot(seg) && !is_dot_dot(seg)
}

/// A path that begins with a separator starts at the root of the container.
pub open spec fn is_absolute(path: Seq<char>) -> bool {
    path.len() > 0 && is_separator(path[0])
}

/// The segments of `path`: the runs of characters between its separators. A
/// path with `n` separators has `n + 1` segments, some of which may be empty.
pub open spec fn split_segments(path: Seq<char>) -> Seq<Seq<char>>
    decreases path.len(),
{
    if path.len() == 0 {
        seq![Seq::<char>::empty()]
    } else {
        let front = split_segments(path.drop_last());
        if is_separator(path.last()) {
            front.push(Seq::<char>::empty())
        } else {
            front.drop_last().push(front.last().push(path.last()))
        }
    }
}

/// The segments that count as components of a path: empty segments and `.`
/// are passed over.
pub open spec fn components(segs: Seq<Seq<char>>) -> Seq<Seq<char>>
    decreases segs.len(),
{
    if segs.len() == 0 {
        segs
    } else if segs.last().len() == 0 || is_dot(segs.last()) {
        components(segs.drop_last())
    } else {
        components(segs.drop_last()).push(segs.last())
    }
}

/// `segs` without its last element; the empty sequence stays empty.
pub open spec fn all_but_last(segs: Seq<Seq<char>>) -> Seq<Seq<char>> {
    if segs.len() == 0 {
        segs
    } else {
        segs.drop_last()
    }
}

/// The directory portion of a document's location: all its components but the
/// last, which names the document itself.
pub open spec fn directory_segments(base: Seq<char>) -> Seq<Seq<char>> {
    all_but_last(components(split_segments(base)))
}

/// What one segment does to the segments gathered so far: an empty segment
/// or `.` changes nothing, `..` takes the last one away (and does nothing
/// when there is none), any other segment is added.
pub open spec fn apply_segment(stack: Seq<Seq<char>>, seg: Seq<char>) -> Seq<Seq<char>> {
    if seg.len() == 0 || is_dot(seg) {
        stack
    } else if is_dot_dot(seg) {
        if stack.len() > 0 {
            stack.drop_last()
        } else {
            stack
        }
    } else {
        stack.push(seg)
    }
}

/// `apply_segment` for each of `segs` in turn, starting from `stack`.
pub open spec fn apply_segments(stack: Seq<Seq<char>>, segs: Seq<Seq<char>>) -> Seq<Seq<char>>
    decreases segs.len(),
{
    if segs.len() == 0 {
        stack
    } else {
        apply_segment(apply_segments(stack, segs.drop_last()), segs.last())
    }
}

/// The segments written one after the other with `/` between them.
pub open spec fn join_segments(segs: Seq<Seq<char>>) -> Seq<char>
    decreases segs.len(),
{
    if segs.len() == 0 {
        Seq::<char>::empty()
    } else if segs.len() == 1 {
        segs[0]
    } else {
        join_segments(segs.drop_last()) + seq!['/'] + segs.last()
    }
}

/// The path made of `segs`, with a leading `/` when it is absolute.
pub open spec fn render(absolute: bool, segs: Seq<Seq<char>>) -> Seq<char> {
    if absolute {
        seq!['/'] + join_segments(segs)
    } else {
        join_segments(segs)
    }
}

/// Whether a resolved path starts at the root: it does when the reference
/// does, and otherwise when the document's own location does.
pub open spec fn resolve_absolute(base: Seq<char>, reference: Seq<char>) -> bool {
    is_absolute(reference) || is_absolute(base)
}

/// The segments of a resolved path: the directory of the document joined with
/// the reference (the reference alone when it is absolute), each segment
/// applied in turn.
pub open spec fn resolve_segments(base: Seq<char>, reference: Seq<char>) -> Seq<Seq<char>> {
    let lead = if is_absolute(reference) {
        Seq::<Seq<char>>::empty()
    } else {
        directory_segments(base)
    };
    apply_segments(Seq::<Seq<char>>::empty(), lead + split_segments(reference))
}

/// The location that `reference`, found in the document at `base`, points to.
pub open spec fn resolve(base: Seq<char>, reference: Seq<char>) -> Seq<char> {
    render(resolve_absolute(base, reference), resolve_segments(base, reference))
}

/// The segments held by a vector of character vectors.
pub open spec fn segments_view(v: Seq<Vec<char>>) -> Seq<Seq<char>> {
    Seq::new(v.len(), |i: int| v[i]@)
}

fn is_separator_char(c: char) -> (b: bool)
    ensures
        b == is_separator(c),
{
    c == '/' || c == '\\'
}

/// Applies one segment to the gathered segments.
fn apply_one(stack: &mut Vec<Vec<char>>, seg: Vec<char>)
    ensures
        segments_view(final(stack)@) == apply_segment(segments_view(old(stack)@), seg@),
{
    let n = seg.len();
    if n == 0 || (n == 1 && seg[0] == '.') {
    } else if n == 2 && seg[0] == '.' && seg[1] == '.' {
        if stack.len() > 0 {
            stack.pop();
            assert(segments_view(stack@) =~= segments_view(old(stack)@).drop_last());
        }
    } else {
        stack.push(seg);
        assert(segments_view(stack@) =~= segments_view(old(stack)@).push(seg@));
    }
}

/// Applies every segment of `path` to the gathered segments.
fn apply_path(stack: &mut Vec<Vec<char>>, path: &Vec<char>)
    ensures
        segments_view(final(stack)@) == apply_segments(
            segments_view(old(stack)@),
            split_segments(path@),
        ),
{
    let mut cur: Vec<char> = Vec::new();
    let mut i: usize = 0;
    while i < path.len()
        invariant
            i <= path.len(),
            segments_view(stack@) == apply_segments(
                segments_view(old(stack)@),
                split_segments(path@.take(i as int)).drop_last(),
            ),
            cur@ == split_segments(path@.take(i as int)).last(),
            split_segments(path@.take(i as int)).len() > 0,
        decreases path.len() - i,
    {
        let c = path[i];
        proof {
            assert(path@.take(i + 1).drop_last() == path@.take(i as int));
            let front = split_segments(path@.take(i as int));
            if is_separator(c) {
                assert(split_segments(path@.take(i + 1)).drop_last() == front);
            } else {
                assert(split_segments(path@.take(i + 1)).drop_last() == front.drop_last());
            }
        }
        if is_separator_char(c) {
            apply_one(stack, cur);
            cur = Vec::new();
        } else {
            cur.push(c);
        }
        i += 1;
    }
    assert(path@.take(path@.len() as int) == path@);
    apply_one(stack, cur);
}

/// The component that waits to be applied is the last one seen; those before
/// it have been applied to the gathered segments.
spec fn holds_back_last(
    stack: Seq<Seq<char>>,
    pending: Option<Vec<char>>,
    start: Seq<Seq<char>>,
    seen: Seq<Seq<char>>,
) -> bool {
    &&& stack == apply_segments(start, all_but_last(seen))
    &&& match pending {
        Some(p) => seen.len() > 0 && p@ == seen.last(),
        None => seen.len() == 0,
    }
}

/// Takes in the next segment of a document's location. A component is held
/// back until the next one arrives, so that the last is never applied.
fn take_in(
    stack: &mut Vec<Vec<char>>,
    pending: Option<Vec<char>>,
    seg: Vec<char>,
    Ghost(start): Ghost<Seq<Seq<char>>>,
    Ghost(segs): Ghost<Seq<Seq<char>>>,
) -> (next: Option<Vec<char>>)
    requires
        holds_back_last(segments_view(old(stack)@), pending, start, components(segs)),
    ensures
        holds_back_last(segments_view(final(stack)@), next, start, components(segs.push(seg@))),
{
    assert(segs.push(seg@).drop_last() == segs);
    let n = seg.len();
    if n == 0 || (n == 1 && seg[0] == '.') {
        pending
    } else {
        assert(components(segs.push(seg@)).drop_last() == components(segs));
        match pending {
            Some(p) => {
                apply_one(stack, p);
            },
            None => {},
        }
        Some(seg)
    }
}

/// Applies the directory portion of the location `base` to the gathered
/// segments, and hands out the last component, which is no part of it.
fn apply_directory(stack: &mut Vec<Vec<char>>, base: &Vec<char>) -> (last: Option<Vec<char>>)
    ensures
        segments_view(final(stack)@) == apply_segments(
            segments_view(old(stack)@),
            directory_segments(base@),
        ),
        match last {
            Some(name) => components(split_segments(base@)).len() > 0 && name@ == components(
                split_segments(base@),
            ).last(),
            None => components(split_segments(base@)).len() == 0,
        },
{
    let ghost start = segments_view(stack@);
    let mut pending: Option<Vec<char>> = None;
    let mut cur: Vec<char> = Vec::new();
    let mut i: usize = 0;
    assert(components(split_segments(base@.take(0)).drop_last()).len() == 0);
    while i < base.len()
        invariant
            i <= base.len(),
            start == segments_view(old(stack)@),
            split_segments(base@.take(i as int)).len() > 0,
            cur@ == split_segments(base@.take(i as int)).last(),
            holds_back_last(
                segments_view(stack@),
                pending,
                start,
                components(split_segments(base@.take(i as int)).drop_last()),
            ),
        decreases base.len() - i,
    {
        let c = base[i];
        let ghost front = split_segments(base@.take(i as int));
        proof {
            assert(base@.take(i + 1).drop_last() == base@.take(i as int));
            if is_separator(c) {
                assert(split_segments(base@.take(i + 1)).drop_last() == front);
                assert(front.drop_last().push(front.last()) == front);
            } else {
                assert(split_segments(base@.take(i + 1)).drop_last() == front.drop_last());
            }
        }
        if is_separator_char(c) {
            pending = take_in(stack, pending, cur, Ghost(start), Ghost(front.drop_last()));
            cur = Vec::new();
        } else {
            cur.push(c);
        }
        i += 1;
    }
    assert(base@.take(base@.len() as int) == base@);
    let ghost all = split_segments(base@);
    assert(all.drop_last().push(all.last()) == all);
    take_in(stack, pending, cur, Ghost(start), Ghost(all.drop_last()))
}

/// The name of the file at `path`: its last component, unless there is none
/// or it is `..`.
pub open spec fn file_name_of(path: Seq<char>) -> Option<Seq<char>> {
    let all = components(split_segments(path));
    if all.len() > 0 && !is_dot_dot(all.last()) {
        Some(all.last())
    } else {
        None
    }
}

/// The name of the file at `path`, if the path names one.
pub fn file_name(path: &str) -> (name: Option<String>)
    ensures
        match name {
            Some(n) => file_name_of(path@) == Some(n@),
            None => file_name_of(path@) is None,
        },
{
    let chars = chars_of(path);
    let mut stack: Vec<Vec<char>> = Vec::new();
    match apply_directory(&mut stack, &chars) {
        Some(last) => {
            if last.len() == 2 && last[0] == '.' && last[1] == '.' {
                None
            } else {
                Some(string_of(&last))
            }
        },
        None => None,
    }
}

/// Applying two runs of segments one after the other is applying them joined.
pub proof fn lemma_apply_concat(stack: Seq<Seq<char>>, a: Seq<Seq<char>>, b: Seq<Seq<char>>)
    ensures
        apply_segments(stack, a + b) == apply_segments(apply_segments(stack, a), b),
    decreases b.len(),
{
    if b.len() == 0 {
        assert(a + b == a);
    } else {
        assert((a + b).drop_last() == a + b.drop_last());
        lemma_apply_concat(stack, a, b.drop_last());
    }
}

/// Writes the gathered segments out as a path.
fn render_path(absolute: bool, stack: &Vec<Vec<char>>) -> (path: String)
    ensures
        path@ == render(absolute, segments_view(stack@)),
{
    let mut path = String::new();
    if absolute {
        path.push('/');
    }
    let ghost lead = path@;
    let mut i: usize = 0;
    while i < stack.len()
        invariant
            i <= stack.len(),
            lead == if absolute { seq!['/'] } else { Seq::<char>::empty() },
            path@ == lead + join_segments(segments_view(stack@).take(i as int)),
        decreases stack.len() - i,
    {
        proof {
            let segs = segments_view(stack@);
            assert(segs.take(i + 1).drop_last() == segs.take(i as int));
            assert(segs.take(i + 1).last() == stack@[i as int]@);
        }
        if i > 0 {
            path.push('/');
        }
        push_chars(&mut path, &stack[i]);
        i += 1;
    }
    assert(segments_view(stack@).take(stack@.len() as int) == segments_view(stack@));
    path
}

/// Resolves `relative_path`, a reference found in the document at
/// `base_href`, to a location inside the container.
///
/// The directory of the document is joined with the reference; the segments
/// of the result are then taken in turn: an empty segment or `.` is dropped,
/// `..` removes the segment before it (and is dropped when there is none),
/// any other segment is kept. What is kept is written out with `/` between
/// the segments, and with a leading `/` when the path starts at the root.
pub fn resolve_path(base_href: &str, relative_path: &str) -> (resolved: String)
    ensures
        resolved@ == resolve(base_href@, relative_path@),
        is_normalized(resolved@),
{
    let base = chars_of(base_href);
    let reference = chars_of(relative_path);
    let reference_absolute = reference.len() > 0 && is_separator_char(reference[0]);
    let absolute = reference_absolute || (base.len() > 0 && is_separator_char(base[0]));
    let mut stack: Vec<Vec<char>> = Vec::new();
    assert(segments_view(stack@) == Seq::<Seq<char>>::empty());
    if !reference_absolute {
        let _ = apply_directory(&mut stack, &base);
    }
    apply_path(&mut stack, &reference);
    proof {
        let empty = Seq::<Seq<char>>::empty();
        if reference_absolute {
            assert(empty + split_segments(reference@) == split_segments(reference@));
        } else {
            lemma_apply_concat(empty, directory_segments(base@), split_segments(reference@));
        }
        lemma_resolve_is_normalized(base@, reference@);
    }
    render_path(absolute, &stack)
}

} // verus!
