use vstd::prelude::*;
use crate::binner::{buckets_view, lens_below, MAX_LINES, TILES};
use crate::packing::{pack2xu16, word_of, PackedLine};

verus! {

/// The first `n` buckets, concatenated in tile order.
pub open spec fn flatten(b: Seq<Seq<PackedLine>>, n: int) -> Seq<PackedLine>
    decreases n,
{
    if n <= 0 {
        Seq::empty()
    } else {
        flatten(b, n - 1) + b[n - 1]
    }
}

/// The directory word of tile `i`: the offset of its bucket in the flattened
/// buffer (the records of all tiles before it) in the low half, and the
/// bucket's length in the high half. Word `i` is lane `i % 4` of chunk
/// `i / 4` of the table that the shading stage reads.
pub open spec fn directory_word(b: Seq<Seq<PackedLine>>, i: int) -> int {
    word_of(lens_below(b, i), b[i].len() as int)
}

/// The offset that a directory word holds.
pub open spec fn word_offset(w: u32) -> int {
    w as int % 65536
}

/// The count that a directory word holds.
pub open spec fn word_count(w: u32) -> int {
    w as int / 65536
}

pub(crate) proof fn lemma_flatten_len(b: Seq<Seq<PackedLine>>, n: int)
    requires
        n <= b.len(),
    ensures
        flatten(b, n).len() == lens_below(b, n),
    decreases n,
{
    if n > 0 {
        lemma_flatten_len(b, n - 1);
    }
}

proof fn lemma_lens_mono(b: Seq<Seq<PackedLine>>, i: int, n: int)
    requires
        0 <= i < n <= b.len(),
    ensures
        lens_below(b, i) + b[i].len() <= lens_below(b, n),
        lens_below(b, i) >= 0,
    decreases n,
{
    if n > i + 1 {
        lemma_lens_mono(b, i, n - 1);
    } else {
        lemma_lens_nonneg(b, i);
    }
}

proof fn lemma_lens_nonneg(b: Seq<Seq<PackedLine>>, n: int)
    ensures
        lens_below(b, n) >= 0,
    decreases n,
{
    if n > 0 {
        lemma_lens_nonneg(b, n - 1);
    }
}

/// Writes the directory of `buckets` and moves their records, in tile
/// order, into `lines`, which is emptied first. The buckets are left empty
/// and keep their allocations.
pub fn build_directory(buckets: &mut Vec<Vec<PackedLine>>, lines: &mut Vec<PackedLine>) -> (words:
    Vec<u32>)
    requires
        old(buckets)@.len() == TILES,
        lens_below(buckets_view(old(buckets)@), TILES as int) < MAX_LINES,
    ensures
        words@.len() == TILES,
        forall|i: int|
            0 <= i < TILES ==> words@[i] as int == directory_word(buckets_view(old(buckets)@), i),
        final(lines)@ == flatten(buckets_view(old(buckets)@), TILES as int),
        final(buckets)@.len() == TILES,
        forall|t: int| 0 <= t < TILES ==> final(buckets)@[t]@.len() == 0,
{
    let ghost b = buckets_view(buckets@);
    let mut words: Vec<u32> = Vec::new();
    lines.clear();
    let mut offset: usize = 0;
    let mut i: usize = 0;
    while i < TILES
        invariant
            i <= TILES,
            buckets@.len() == TILES,
            b == buckets_view(old(buckets)@),
            b.len() == TILES,
            lens_below(b, TILES as int) < MAX_LINES,
            forall|t: int| i <= t < TILES ==> buckets@[t]@ == b[t],
            forall|t: int| 0 <= t < i ==> buckets@[t]@.len() == 0,
            words@.len() == i,
            forall|t: int| 0 <= t < i ==> words@[t] as int == directory_word(b, t),
            lines@ == flatten(b, i as int),
            offset == lens_below(b, i as int),
        decreases TILES - i,
    {
        proof {
            lemma_lens_mono(b, i as int, TILES as int);
        }
        let size = buckets[i].len();
        words.push(pack2xu16([offset as u16, size as u16]));
        let mut j: usize = 0;
        while j < size
            invariant
                i < TILES,
                b.len() == TILES,
                j <= size,
                size == b[i as int].len(),
                buckets@.len() == TILES,
                buckets@[i as int]@ == b[i as int],
                lines@ == flatten(b, i as int) + b[i as int].take(j as int),
            decreases size - j,
        {
            lines.push(buckets[i][j]);
            j = j + 1;
            assert(lines@ =~= flatten(b, i as int) + b[i as int].take(j as int));
        }
        buckets[i].clear();
        assert(b[i as int].take(size as int) =~= b[i as int]);
        offset = offset + size;
        i = i + 1;
    }
    words
}

/// The directory's offsets are the running sums of its counts: each tile's
/// records start where those of the tile before it end, so the offsets never
/// decrease, and the last tile's records end within the line buffer.
pub proof fn lemma_directory_offsets(b: Seq<Seq<PackedLine>>, words: Seq<u32>)
    requires
        b.len() == TILES,
        lens_below(b, TILES as int) < MAX_LINES,
        words.len() == TILES,
        forall|i: int| 0 <= i < TILES ==> words[i] as int == directory_word(b, i),
    ensures
        forall|i: int|
            0 <= i < TILES - 1 ==> word_offset(#[trigger] words[i]) + word_count(words[i])
                == word_offset(words[i + 1]),
        forall|i: int| 0 <= i < TILES - 1 ==> word_offset(#[trigger] words[i]) <= word_offset(words[i + 1]),
        word_offset(words[TILES - 1]) + word_count(words[TILES - 1]) == lens_below(b, TILES as int),
        word_offset(words[TILES - 1]) + word_count(words[TILES - 1]) <= MAX_LINES,
        word_offset(words[0]) == 0,
{
    assert forall|i: int| 0 <= i < TILES implies word_offset(words[i]) == lens_below(b, i)
        && word_count(words[i]) == b[i].len() by {
        lemma_lens_mono(b, i, TILES as int);
        assert(words[i] as int == lens_below(b, i) + 65536 * b[i].len());
    }
    assert forall|i: int| 0 <= i < TILES - 1 implies word_offset(#[trigger] words[i]) + word_count(
        words[i],
    ) == word_offset(words[i + 1]) by {
        assert(lens_below(b, i + 1) == lens_below(b, i) + b[i].len());
    }
}

} // verus!
