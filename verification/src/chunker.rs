//! Character-window chunking of documents for retrieval.
use vstd::prelude::*;
use vstd::string::*;

verus! {

/// The overlap that is actually used: an overlap of at least the window size means none.
pub open spec fn effective_overlap(size: nat, overlap: nat) -> nat {
    if overlap >= size {
        0
    } else {
        overlap
    }
}

/// Sliding windows over `s`: the first window holds the first `size` characters, and the
/// remaining windows are those of the text that starts `step` characters later.  The text
/// that fits in one window is a window of its own.
pub open spec fn windows(s: Seq<char>, size: nat, step: nat) -> Seq<Seq<char>>
    decreases s.len(),
{
    if s.len() <= size || step == 0 || step > size {
        seq![s]
    } else {
        seq![s.take(size as int)] + windows(s.skip(step as int), size, step)
    }
}

/// The chunks of `s` for a window of `size` characters and the given overlap.
pub open spec fn chunks_of(s: Seq<char>, size: nat, overlap: nat) -> Seq<Seq<char>> {
    if s.len() == 0 || size == 0 {
        Seq::empty()
    } else {
        windows(s, size, (size - effective_overlap(size, overlap)) as nat)
    }
}

/// The characters of each string of a sequence.
pub open spec fn string_views(v: Seq<String>) -> Seq<Seq<char>> {
    v.map_values(|s: String| s@)
}

/// Split `text` into overlapping windows of `chunk_size` characters.
///
/// Empty text or a zero window size give no chunk; text of at most `chunk_size`
/// characters is one chunk; an overlap of at least `chunk_size` means no overlap.
pub fn chunk(text: &str, chunk_size: usize, overlap: usize) -> (chunks: Vec<String>)
    ensures
        string_views(chunks@) == chunks_of(text@, chunk_size as nat, overlap as nat),
        text@.len() == 0 ==> chunks@.len() == 0,
        0 < text@.len() <= chunk_size ==> chunks@.len() == 1 && chunks@[0]@ == text@,
{
    if text.is_empty() || chunk_size == 0 {
        let empty: Vec<String> = Vec::new();
        assert(string_views(empty@) =~= Seq::<Seq<char>>::empty());
        return empty;
    }
    let overlap: usize = if overlap >= chunk_size {
        0
    } else {
        overlap
    };
    let step: usize = chunk_size - overlap;
    let len: usize = text.unicode_len();

    if len <= chunk_size {
        let mut single: Vec<String> = Vec::new();
        single.push(text.to_owned());
        assert(string_views(single@) =~= seq![text@]);
        return single;
    }
    let ghost s = text@;
    let mut chunks: Vec<String> = Vec::new();
    let mut start: usize = 0;
    assert(s.skip(0) =~= s);
    assert(string_views(chunks@) + windows(s.skip(0), chunk_size as nat, step as nat)
        =~= windows(s, chunk_size as nat, step as nat));
    loop
        invariant_except_break
            start < len,
            string_views(chunks@) + windows(s.skip(start as int), chunk_size as nat, step as nat)
                == windows(s, chunk_size as nat, step as nat),
        invariant
            s == text@,
            len == s.len(),
            chunk_size < len,
            1 <= step <= chunk_size,
        ensures
            string_views(chunks@) == windows(s, chunk_size as nat, step as nat),
        decreases len - start,
    {
        let ghost before = chunks@;
        let ghost rest = s.skip(start as int);
        let end: usize = if chunk_size >= len - start {
            len
        } else {
            start + chunk_size
        };
        let piece = text.substring_char(start, end).to_owned();
        chunks.push(piece);
        assert(string_views(chunks@) =~= string_views(before).push(piece@));
        if end == len {
            assert(piece@ =~= rest);
            assert(windows(rest, chunk_size as nat, step as nat) == seq![rest]);
            assert(string_views(chunks@) =~= string_views(before) + seq![rest]);
            break;
        }
        assert(piece@ =~= rest.take(chunk_size as int));
        assert(rest.skip(step as int) =~= s.skip(start + step));
        assert(windows(rest, chunk_size as nat, step as nat) == seq![rest.take(chunk_size as int)]
            + windows(rest.skip(step as int), chunk_size as nat, step as nat));
        start = start + step;
        assert(string_views(chunks@) + windows(s.skip(start as int), chunk_size as nat, step as nat)
            =~= string_views(before) + windows(rest, chunk_size as nat, step as nat));
    }
    chunks
}

/// Joins a sequence of windows back into text: every window but the last contributes its
/// first `step` characters, the last one contributes all of its characters.
pub open spec fn stitch(ws: Seq<Seq<char>>, step: nat) -> Seq<char>
    decreases ws.len(),
{
    if ws.len() == 0 {
        Seq::empty()
    } else if ws.len() == 1 {
        ws[0]
    } else {
        ws[0].take(step as int) + stitch(ws.drop_first(), step)
    }
}

proof fn lemma_windows_shape(s: Seq<char>, size: nat, step: nat)
    requires
        0 < s.len(),
        1 <= step <= size,
    ensures
        windows(s, size, step).len() >= 1,
        forall|i: int|
            0 <= i < windows(s, size, step).len() ==> 0 < #[trigger] windows(
                s,
                size,
                step,
            )[i].len() <= size,
        forall|i: int|
            0 <= i < windows(s, size, step).len() - 1 ==> #[trigger] windows(
                s,
                size,
                step,
            )[i].len() == size,
        stitch(windows(s, size, step), step) == s,
    decreases s.len(),
{
    if s.len() <= size {
    } else {
        let rest = s.skip(step as int);
        lemma_windows_shape(rest, size, step);
        let ws = windows(s, size, step);
        let wr = windows(rest, size, step);
        assert(ws.drop_first() =~= wr);
        assert forall|i: int| 0 <= i < ws.len() implies 0 < #[trigger] ws[i].len() <= size by {
            if i > 0 {
                assert(ws[i] == wr[i - 1]);
            }
        }
        assert forall|i: int| 0 <= i < ws.len() - 1 implies #[trigger] ws[i].len() == size by {
            if i > 0 {
                assert(ws[i] == wr[i - 1]);
            }
        }
        assert(s.take(size as int).take(step as int) + rest =~= s);
    }
}

proof fn lemma_windows_overlap(s: Seq<char>, size: nat, step: nat, i: int)
    requires
        0 < s.len(),
        1 <= step <= size,
        0 <= i,
        i + 1 < windows(s, size, step).len(),
    ensures
        windows(s, size, step)[i].skip(step as int) == windows(s, size, step)[i + 1].take(
            size - step,
        ),
    decreases s.len(),
{
    let rest = s.skip(step as int);
    let ws = windows(s, size, step);
    let wr = windows(rest, size, step);
    assert(s.len() > size);
    assert(ws.drop_first() =~= wr);
    if i == 0 {
        if rest.len() <= size {
            assert(wr[0] == rest);
        } else {
            assert(wr[0] == rest.take(size as int));
        }
        assert(ws[0].skip(step as int) =~= ws[1].take(size - step));
    } else {
        lemma_windows_overlap(rest, size, step, i - 1);
        assert(ws[i] == wr[i - 1]);
        assert(ws[i + 1] == wr[i]);
    }
}

/// An overlap of at least the window size chunks the text exactly as no overlap does.
pub proof fn lemma_large_overlap_is_no_overlap(s: Seq<char>, size: nat, overlap: nat)
    requires
        overlap >= size,
    ensures
        chunks_of(s, size, overlap) == chunks_of(s, size, 0),
{
}

/// Every chunk holds between one and `size` characters, and every chunk but the last
/// holds exactly `size` characters.
pub proof fn lemma_chunk_lengths(s: Seq<char>, size: nat, overlap: nat)
    ensures
        forall|i: int|
            0 <= i < chunks_of(s, size, overlap).len() ==> 0 < #[trigger] chunks_of(
                s,
                size,
                overlap,
            )[i].len() <= size,
        forall|i: int|
            0 <= i < chunks_of(s, size, overlap).len() - 1 ==> #[trigger] chunks_of(
                s,
                size,
                overlap,
            )[i].len() == size,
{
    if s.len() > 0 && size > 0 {
        lemma_windows_shape(s, size, (size - effective_overlap(size, overlap)) as nat);
    }
}

/// Nothing of the text is lost: the first `size - overlap` characters of every chunk but the
/// last, followed by the last chunk, spell the whole text; and non-empty text has a chunk.
pub proof fn lemma_chunks_cover_text(s: Seq<char>, size: nat, overlap: nat)
    requires
        size > 0,
    ensures
        s.len() > 0 ==> chunks_of(s, size, overlap).len() >= 1,
        stitch(chunks_of(s, size, overlap), (size - effective_overlap(size, overlap)) as nat)
            == s,
{
    if s.len() > 0 {
        lemma_windows_shape(s, size, (size - effective_overlap(size, overlap)) as nat);
    } else {
        assert(s =~= Seq::<char>::empty());
    }
}

/// Each chunk after the first begins with the last `overlap` characters of the chunk before it
/// (with the effective overlap, see `effective_overlap`).
pub proof fn lemma_consecutive_chunks_overlap(s: Seq<char>, size: nat, overlap: nat, i: int)
    requires
        0 <= i,
        i + 1 < chunks_of(s, size, overlap).len(),
    ensures
        chunks_of(s, size, overlap)[i].skip((size - effective_overlap(size, overlap)) as int)
            == chunks_of(s, size, overlap)[i + 1].take(effective_overlap(size, overlap) as int),
        chunks_of(s, size, overlap)[i].len() == size,
{
    let step = (size - effective_overlap(size, overlap)) as nat;
    lemma_windows_shape(s, size, step);
    lemma_windows_overlap(s, size, step, i);
}

/// For a window of `size > 0` characters and an overlap below it, the overlap is kept as
/// given: every chunk but the last holds `size` characters, and the next chunk begins with
/// its last `overlap` characters, so that chunks start `size - overlap` characters apart;
/// the first chunk is the start of the text; and the chunks, each cut to its first
/// `size - overlap` characters except the last, spell the text.
pub proof fn lemma_chunks_keep_given_overlap(s: Seq<char>, size: nat, overlap: nat)
    requires
        0 < size,
        overlap < size,
        0 < s.len(),
    ensures
        chunks_of(s, size, overlap).len() >= 1,
        chunks_of(s, size, overlap)[0] == (if s.len() <= size {
            s
        } else {
            s.take(size as int)
        }),
        forall|i: int|
            0 <= i && i + 1 < chunks_of(s, size, overlap).len() ==> (#[trigger] chunks_of(
                s,
                size,
                overlap,
            )[i]).len() == size && chunks_of(s, size, overlap)[i].skip((size - overlap) as int)
                == chunks_of(s, size, overlap)[i + 1].take(overlap as int),
        stitch(chunks_of(s, size, overlap), (size - overlap) as nat) == s,
{
    let step = (size - overlap) as nat;
    assert(chunks_of(s, size, overlap) == windows(s, size, step));
    lemma_windows_shape(s, size, step);
    assert forall|i: int|
        0 <= i && i + 1 < chunks_of(s, size, overlap).len() implies (#[trigger] chunks_of(
            s,
            size,
            overlap,
        )[i]).len() == size && chunks_of(s, size, overlap)[i].skip((size - overlap) as int)
            == chunks_of(s, size, overlap)[i + 1].take(overlap as int) by {
        lemma_windows_overlap(s, size, step, i);
    }
}

} // verus!
