//! Byte offsets of the lines of streamed text.
//!
//! Tool output grows while a tool runs; the index of line starts is extended
//! with the new bytes instead of being rebuilt from the start.
use vstd::prelude::*;
use vstd::string::StringSliceAdditionalSpecFns;

verus! {

/// The newline byte.
pub const NEWLINE: u8 = 10u8;

/// The offsets just past each newline of `bytes` in `[start, end)`, in order.
pub open spec fn newline_offsets(bytes: Seq<u8>, start: int, end: int) -> Seq<usize>
    decreases end - start,
{
    if end <= start {
        Seq::empty()
    } else {
        let rest = newline_offsets(bytes, start, end - 1);
        if bytes[end - 1] == NEWLINE {
            rest.push(end as usize)
        } else {
            rest
        }
    }
}

/// The byte offset of the start of every line of `bytes`: zero, then the
/// offset just past every newline.
pub open spec fn line_starts_of(bytes: Seq<u8>) -> Seq<usize> {
    seq![0usize] + newline_offsets(bytes, 0, bytes.len() as int)
}

/// The offsets found in a range only depend on the bytes in that range.
pub proof fn lemma_newline_offsets_prefix(a: Seq<u8>, b: Seq<u8>, start: int, end: int)
    requires
        0 <= start,
        end <= a.len(),
        end <= b.len(),
        a.subrange(0, end) == b.subrange(0, end),
    ensures
        newline_offsets(a, start, end) == newline_offsets(b, start, end),
    decreases end - start,
{
    if end > start {
        assert(a[end - 1] == a.subrange(0, end)[end - 1]);
        assert(b[end - 1] == b.subrange(0, end)[end - 1]);
        assert(a.subrange(0, end - 1) =~= a.subrange(0, end).subrange(0, end - 1));
        assert(b.subrange(0, end - 1) =~= b.subrange(0, end).subrange(0, end - 1));
        lemma_newline_offsets_prefix(a, b, start, end - 1);
    }
}

/// Scanning `[start, end)` is scanning `[start, mid)` and then `[mid, end)`.
pub proof fn lemma_newline_offsets_split(bytes: Seq<u8>, start: int, mid: int, end: int)
    requires
        start <= mid <= end,
    ensures
        newline_offsets(bytes, start, end) == newline_offsets(bytes, start, mid) + newline_offsets(
            bytes,
            mid,
            end,
        ),
    decreases end - mid,
{
    if end > mid {
        lemma_newline_offsets_split(bytes, start, mid, end - 1);
        let l = newline_offsets(bytes, start, mid);
        let r = newline_offsets(bytes, mid, end - 1);
        if bytes[end - 1] == NEWLINE {
            assert((l + r).push(end as usize) =~= l + r.push(end as usize));
        }
    } else {
        assert(newline_offsets(bytes, mid, end) =~= Seq::<usize>::empty());
        assert(newline_offsets(bytes, start, mid) + Seq::<usize>::empty() =~= newline_offsets(
            bytes,
            start,
            mid,
        ));
    }
}

/// Every offset found in `[start, end)` lies in `(start, end]`, and they increase.
pub proof fn lemma_newline_offsets_bounds(bytes: Seq<u8>, start: int, end: int)
    requires
        0 <= start,
        end <= usize::MAX,
    ensures
        newline_offsets(bytes, start, end).len() <= if end > start { end - start } else { 0 },
        forall|i: int|
            0 <= i < newline_offsets(bytes, start, end).len() ==> start < #[trigger] newline_offsets(
                bytes,
                start,
                end,
            )[i] <= end,
    decreases end - start,
{
    if end > start {
        lemma_newline_offsets_bounds(bytes, start, end - 1);
    }
}

/// Law: indexing the whole of a text gives the index of a prefix of it
/// followed by the newlines of the rest, so extending an index with appended
/// bytes gives the index of the whole text.
pub proof fn law_line_starts_extend(old_text: Seq<u8>, appended: Seq<u8>)
    ensures
        line_starts_of(old_text + appended) == line_starts_of(old_text) + newline_offsets(
            old_text + appended,
            old_text.len() as int,
            (old_text + appended).len() as int,
        ),
{
    let whole = old_text + appended;
    lemma_newline_offsets_split(whole, 0, old_text.len() as int, whole.len() as int);
    assert(whole.subrange(0, old_text.len() as int) =~= old_text.subrange(
        0,
        old_text.len() as int,
    ));
    lemma_newline_offsets_prefix(whole, old_text, 0, old_text.len() as int);
    assert(line_starts_of(whole) =~= line_starts_of(old_text) + newline_offsets(
        whole,
        old_text.len() as int,
        whole.len() as int,
    ));
}

/// Appends to `starts` the offset just past each newline of `bytes[start..]`.
pub fn push_newline_offsets(starts: &mut Vec<usize>, bytes: &[u8], start: usize)
    requires
        start <= bytes@.len(),
    ensures
        final(starts)@ == old(starts)@ + newline_offsets(bytes@, start as int, bytes@.len() as int),
{
    let ghost initial = starts@;
    let mut index = start;
    while index < bytes.len()
        invariant
            start <= index <= bytes@.len(),
            starts@ == initial + newline_offsets(bytes@, start as int, index as int),
        decreases bytes@.len() - index,
    {
        if bytes[index] == NEWLINE {
            starts.push(index + 1);
            assert(initial + newline_offsets(bytes@, start as int, index as int).push(
                (index + 1) as usize,
            ) =~= (initial + newline_offsets(bytes@, start as int, index as int)).push(
                (index + 1) as usize,
            ));
        }
        index = index + 1;
    }
}

/// The byte offset of the start of every line of `text`.
pub fn line_starts(text: &str) -> (starts: Vec<usize>)
    ensures
        starts@ == line_starts_of(text.spec_bytes()),
{
    let bytes = text.as_bytes();
    let mut starts: Vec<usize> = Vec::new();
    starts.push(0);
    push_newline_offsets(&mut starts, bytes, 0);
    starts
}

/// A scan of `[start, end)` finds at most `end - start` newlines.
pub proof fn lemma_newline_offsets_len(bytes: Seq<u8>, start: int, end: int)
    ensures
        newline_offsets(bytes, start, end).len() <= if end > start { end - start } else { 0 },
    decreases end - start,
{
    if end > start {
        lemma_newline_offsets_len(bytes, start, end - 1);
    }
}

/// A text has at most one line more than it has bytes.
pub proof fn lemma_line_starts_len(bytes: Seq<u8>)
    ensures
        line_starts_of(bytes).len() <= bytes.len() + 1,
{
    lemma_newline_offsets_len(bytes, 0, bytes.len() as int);
}

/// The newlines of `bytes` past `start` are the newlines past the end of
/// `prefix` in `prefix` followed by those bytes, when `prefix` is as long as
/// `start`.
pub proof fn lemma_offsets_shift(prefix: Seq<u8>, bytes: Seq<u8>, start: int)
    requires
        0 <= start <= bytes.len(),
        prefix.len() == start,
    ensures
        newline_offsets(bytes, start, bytes.len() as int) == newline_offsets(
            prefix + bytes.subrange(start, bytes.len() as int),
            start,
            bytes.len() as int,
        ),
{
    let whole = prefix + bytes.subrange(start, bytes.len() as int);
    lemma_offsets_same_range(bytes, whole, start, bytes.len() as int);
}

/// Offsets in `[start, end)` only depend on the bytes in that range.
pub proof fn lemma_offsets_same_range(a: Seq<u8>, b: Seq<u8>, start: int, end: int)
    requires
        0 <= start,
        end <= a.len(),
        end <= b.len(),
        forall|i: int| start <= i < end ==> a[i] == b[i],
    ensures
        newline_offsets(a, start, end) == newline_offsets(b, start, end),
    decreases end - start,
{
    if end > start {
        lemma_offsets_same_range(a, b, start, end - 1);
    }
}

} // verus!
