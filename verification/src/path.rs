//! Final path segments of command names.

use vstd::prelude::*;

verus! {

/// Where the final segment of `path` begins: one past its last `/`, or 0
/// when it holds none.
pub open spec fn segment_start(path: Seq<char>) -> int
    decreases path.len(),
{
    if path.len() == 0 {
        0
    } else if path.last() == '/' {
        path.len() as int
    } else {
        segment_start(path.drop_last())
    }
}

/// The final segment of `path`: everything behind its last `/`.
pub open spec fn final_segment(path: Seq<char>) -> Seq<char> {
    path.skip(segment_start(path))
}

/// The final segment is the one suffix of the path that holds no `/` and is
/// either the whole path or directly preceded by a `/`.
pub proof fn lemma_final_segment_is_last_component(path: Seq<char>)
    ensures
        0 <= segment_start(path) <= path.len(),
        segment_start(path) > 0 ==> path[segment_start(path) - 1] == '/',
        forall|i: int| segment_start(path) <= i < path.len() ==> path[i] != '/',
        !final_segment(path).contains('/'),
    decreases path.len(),
{
    if path.len() > 0 && path.last() != '/' {
        let shorter = path.drop_last();
        lemma_final_segment_is_last_component(shorter);
        assert forall|i: int| segment_start(path) <= i < path.len() implies path[i] != '/' by {
            if i < shorter.len() {
                assert(shorter[i] == path[i]);
            }
        }
    }
    let segment = final_segment(path);
    assert forall|j: int| 0 <= j < segment.len() implies segment[j] != '/' by {
        assert(segment[j] == path[segment_start(path) + j]);
    }
}

/// A path without any `/` is its own final segment.
pub proof fn lemma_plain_name_is_own_segment(name: Seq<char>)
    requires
        !name.contains('/'),
    ensures
        segment_start(name) == 0,
        final_segment(name) == name,
    decreases name.len(),
{
    if name.len() > 0 {
        assert(name.contains(name.last()));
        let shorter = name.drop_last();
        assert forall|i: int| 0 <= i < shorter.len() implies shorter[i] != '/' by {
            assert(name.contains(name[i]));
        }
        lemma_plain_name_is_own_segment(shorter);
    }
    assert(name.skip(0) =~= name);
}

/// Everything before and including a `/` is dropped when the rest holds none.
pub proof fn lemma_segment_after_directory(directory: Seq<char>, name: Seq<char>)
    requires
        !name.contains('/'),
    ensures
        final_segment(directory + seq!['/'] + name) == name,
    decreases name.len(),
{
    let path = directory + seq!['/'] + name;
    let cut = directory.len() + 1;
    lemma_segment_start_after_directory(directory, name);
    assert(path.skip(cut as int) =~= name);
}

proof fn lemma_segment_start_after_directory(directory: Seq<char>, name: Seq<char>)
    requires
        !name.contains('/'),
    ensures
        segment_start(directory + seq!['/'] + name) == directory.len() + 1,
    decreases name.len(),
{
    let path = directory + seq!['/'] + name;
    if name.len() == 0 {
        assert(path.last() == '/');
    } else {
        assert(name.contains(name.last()));
        let shorter = name.drop_last();
        assert forall|i: int| 0 <= i < shorter.len() implies shorter[i] != '/' by {
            assert(name.contains(name[i]));
        }
        assert(path.drop_last() =~= directory + seq!['/'] + shorter);
        lemma_segment_start_after_directory(directory, shorter);
    }
}

/// Returns the final segment of `path`: the name of the invoked binary
/// without its directories.
pub fn basename(path: &str) -> (segment: String)
    ensures
        segment@ == final_segment(path@),
{
    let total: usize = path.unicode_len();
    let mut start: usize = 0;
    let mut index: usize = 0;
    for c in it: path.chars()
        invariant
            index == it.index(),
            it.seq() == path@,
            total == path@.len(),
            start <= index,
            start == segment_start(path@.take(index as int)),
    {
        assert(path@.take(index + 1).drop_last() == path@.take(index as int));
        index = index + 1;
        if c == '/' {
            start = index;
        }
    }
    assert(path@.take(index as int) == path@);
    assert(path@.subrange(start as int, total as int) == path@.skip(start as int));
    path.substring_char(start, total).to_owned()
}

} // verus!
