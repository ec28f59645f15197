//! Grouping of accepted lines into bounded-size chunks.
//!
//! Lines are buffered in input order; each line costs its UTF-8 byte
//! length plus one byte for the newline that joins it to the buffer.  As
//! soon as the buffered cost reaches the threshold the buffer is sealed
//! into a chunk (the line that crossed the threshold included) and a fresh
//! buffer is started.  A non-empty residual buffer at the end of the input
//! is sealed as a final, possibly undersized, chunk.

use vstd::prelude::*;
use vstd::utf8::encode_utf8;
use crate::validate::{candidates_of, filter_candidates};

verus! {

/// Default chunk threshold, in bytes of buffered text.
pub const CHUNK_SIZE: usize = 10000;

/// What a line adds to a chunk's buffered size: its UTF-8 byte length plus
/// the joining newline.
pub open spec fn line_cost(line: Seq<char>) -> int {
    encode_utf8(line).len() + 1int
}

/// The buffered size of a whole chunk, in bytes.
pub open spec fn chunk_cost(lines: Seq<Seq<char>>) -> int
    decreases lines.len(),
{
    if lines.len() == 0 {
        0
    } else {
        line_cost(lines[0]) + chunk_cost(lines.drop_first())
    }
}

pub proof fn lemma_chunk_cost_push(lines: Seq<Seq<char>>, line: Seq<char>)
    ensures
        chunk_cost(lines.push(line)) == chunk_cost(lines) + line_cost(line),
    decreases lines.len(),
{
    assert(lines.push(line)[0] == if lines.len() == 0 {
        line
    } else {
        lines[0]
    });
    if lines.len() == 0 {
        assert(lines.push(line).drop_first() =~= Seq::<Seq<char>>::empty());
        assert(chunk_cost(Seq::<Seq<char>>::empty()) == 0);
    } else {
        assert(lines.push(line).drop_first() =~= lines.drop_first().push(line));
        lemma_chunk_cost_push(lines.drop_first(), line);
    }
}

/// The chunks cut from `lines` when `buf` holds the lines already buffered
/// for the open chunk.
pub open spec fn chunks_from(
    lines: Seq<Seq<char>>,
    buf: Seq<Seq<char>>,
    threshold: int,
) -> Seq<Seq<Seq<char>>>
    decreases lines.len(),
{
    if lines.len() == 0 {
        if buf.len() == 0 {
            seq![]
        } else {
            seq![buf]
        }
    } else {
        let grown = buf.push(lines[0]);
        if chunk_cost(grown) >= threshold {
            seq![grown] + chunks_from(lines.drop_first(), seq![], threshold)
        } else {
            chunks_from(lines.drop_first(), grown, threshold)
        }
    }
}

/// The chunks cut from `lines` under the given byte threshold.
pub open spec fn chunks_of(lines: Seq<Seq<char>>, threshold: int) -> Seq<Seq<Seq<char>>> {
    chunks_from(lines, seq![], threshold)
}

/// The number of lines held by a sequence of chunks.
pub open spec fn total_lines(chunks: Seq<Seq<Seq<char>>>) -> int
    decreases chunks.len(),
{
    if chunks.len() == 0 {
        0
    } else {
        chunks[0].len() + total_lines(chunks.drop_first())
    }
}

proof fn lemma_chunks_from_regroup(lines: Seq<Seq<char>>, buf: Seq<Seq<char>>, threshold: int)
    ensures
        chunks_from(lines, buf, threshold).flatten() == buf + lines,
        total_lines(chunks_from(lines, buf, threshold)) == buf.len() + lines.len(),
    decreases lines.len(),
{
    let cs = chunks_from(lines, buf, threshold);
    assert(Seq::<Seq<Seq<char>>>::empty().flatten() =~= Seq::<Seq<char>>::empty());
    assert(total_lines(Seq::<Seq<Seq<char>>>::empty()) == 0);
    if lines.len() == 0 {
        if buf.len() == 0 {
            assert(cs.flatten() =~= buf + lines);
        } else {
            assert(cs.drop_first() =~= Seq::<Seq<Seq<char>>>::empty());
            assert(cs.flatten() == cs.first() + cs.drop_first().flatten());
            assert(cs.flatten() =~= buf + lines);
            assert(total_lines(cs) == cs[0].len() + total_lines(cs.drop_first()));
        }
    } else {
        let grown = buf.push(lines[0]);
        if chunk_cost(grown) >= threshold {
            lemma_chunks_from_regroup(lines.drop_first(), seq![], threshold);
            let rest = chunks_from(lines.drop_first(), seq![], threshold);
            assert(cs.drop_first() =~= rest);
            assert(cs.flatten() == grown + rest.flatten());
            assert(Seq::<Seq<char>>::empty() + lines.drop_first() =~= lines.drop_first());
            assert(grown + lines.drop_first() =~= buf + lines);
        } else {
            lemma_chunks_from_regroup(lines.drop_first(), grown, threshold);
            assert(grown + lines.drop_first() =~= buf + lines);
        }
    }
}

/// Chunking only regroups the accepted lines: joining the chunks back
/// together gives the input lines in their order, and the number of lines
/// over all chunks is the number of input lines.
pub proof fn lemma_chunks_regroup(lines: Seq<Seq<char>>, threshold: int)
    ensures
        chunks_of(lines, threshold).flatten() == lines,
        total_lines(chunks_of(lines, threshold)) == lines.len(),
{
    lemma_chunks_from_regroup(lines, seq![], threshold);
    assert(Seq::<Seq<char>>::empty() + lines =~= lines);
}

proof fn lemma_chunks_from_member(
    lines: Seq<Seq<char>>,
    buf: Seq<Seq<char>>,
    threshold: int,
    i: int,
    j: int,
)
    requires
        0 <= i < chunks_from(lines, buf, threshold).len(),
        0 <= j < chunks_from(lines, buf, threshold)[i].len(),
    ensures
        (buf + lines).contains(chunks_from(lines, buf, threshold)[i][j]),
    decreases lines.len(),
{
    let cs = chunks_from(lines, buf, threshold);
    if lines.len() == 0 {
        assert((buf + lines)[j] == cs[i][j]);
    } else {
        let grown = buf.push(lines[0]);
        if chunk_cost(grown) >= threshold {
            if i == 0 {
                assert(cs[0] == grown);
                if j < buf.len() {
                    assert((buf + lines)[j] == grown[j]);
                } else {
                    assert((buf + lines)[j] == lines[0]);
                    assert(grown[j] == lines[0]);
                }
            } else {
                let rest = chunks_from(lines.drop_first(), seq![], threshold);
                assert(cs[i] == rest[i - 1]);
                lemma_chunks_from_member(lines.drop_first(), seq![], threshold, i - 1, j);
                let flat = seq![] + lines.drop_first();
                let k = choose|k: int| 0 <= k < flat.len() && flat[k] == rest[i - 1][j];
                assert((buf + lines)[buf.len() + 1 + k] == lines.drop_first()[k]);
            }
        } else {
            lemma_chunks_from_member(lines.drop_first(), grown, threshold, i, j);
            assert(grown + lines.drop_first() =~= buf + lines);
        }
    }
}

/// Every line of every chunk is one of the input lines: chunking invents
/// nothing.
pub proof fn lemma_chunk_line_is_input_line(lines: Seq<Seq<char>>, threshold: int, i: int, j: int)
    requires
        0 <= i < chunks_of(lines, threshold).len(),
        0 <= j < chunks_of(lines, threshold)[i].len(),
    ensures
        lines.contains(chunks_of(lines, threshold)[i][j]),
{
    lemma_chunks_from_member(lines, seq![], threshold, i, j);
    assert(Seq::<Seq<char>>::empty() + lines =~= lines);
    assert(seq![] =~= Seq::<Seq<char>>::empty());
}

proof fn lemma_chunks_from_nonempty(
    lines: Seq<Seq<char>>,
    buf: Seq<Seq<char>>,
    threshold: int,
    i: int,
)
    requires
        0 <= i < chunks_from(lines, buf, threshold).len(),
    ensures
        chunks_from(lines, buf, threshold)[i].len() > 0,
    decreases lines.len(),
{
    if lines.len() > 0 {
        let grown = buf.push(lines[0]);
        if chunk_cost(grown) >= threshold {
            if i > 0 {
                lemma_chunks_from_nonempty(lines.drop_first(), seq![], threshold, i - 1);
            }
        } else {
            lemma_chunks_from_nonempty(lines.drop_first(), grown, threshold, i);
        }
    }
}

/// No chunk is empty: a chunk is only ever sealed around at least one
/// line, so each one stands for at least one record of output.
pub proof fn lemma_chunks_nonempty(lines: Seq<Seq<char>>, threshold: int, i: int)
    requires
        0 <= i < chunks_of(lines, threshold).len(),
    ensures
        chunks_of(lines, threshold)[i].len() > 0,
{
    lemma_chunks_from_nonempty(lines, seq![], threshold, i);
}

proof fn lemma_first_chunk_at(all: Seq<Seq<char>>, threshold: int, k: int, j: int)
    requires
        0 <= j < k <= all.len(),
        chunk_cost(all.take(k)) >= threshold,
        forall|m: int| 0 < m < k ==> chunk_cost(all.take(m)) < threshold,
    ensures
        chunks_from(all.skip(j), all.take(j), threshold).len() > 0,
        chunks_from(all.skip(j), all.take(j), threshold)[0] == all.take(k),
    decreases k - j,
{
    let lines = all.skip(j);
    assert(lines[0] == all[j]);
    let grown = all.take(j).push(all[j]);
    assert(grown =~= all.take(j + 1));
    assert(lines.drop_first() =~= all.skip(j + 1));
    if j + 1 == k {
        assert(chunk_cost(grown) >= threshold);
    } else {
        assert(chunk_cost(all.take(j + 1)) < threshold);
        lemma_first_chunk_at(all, threshold, k, j + 1);
    }
}

/// Chunk boundary placement is exact: if the buffered cost of the first
/// `k` lines is precisely the threshold (and no shorter non-empty prefix
/// reached it), then the first chunk is exactly those `k` lines — the
/// boundary falls neither one line earlier nor one line later.
pub proof fn lemma_chunk_boundary(lines: Seq<Seq<char>>, threshold: int, k: int)
    requires
        0 < k <= lines.len(),
        chunk_cost(lines.take(k)) == threshold,
        forall|m: int| 0 < m < k ==> chunk_cost(lines.take(m)) < threshold,
    ensures
        chunks_of(lines, threshold).len() > 0,
        chunks_of(lines, threshold)[0] == lines.take(k),
{
    lemma_first_chunk_at(lines, threshold, k, 0);
    assert(lines.take(0) =~= Seq::<Seq<char>>::empty());
    assert(lines.skip(0) =~= lines);
    assert(seq![] =~= Seq::<Seq<char>>::empty());
}

/// A bounded batch of accepted lines, processed and emitted as one output
/// unit.
pub struct Chunk {
    pub lines: Vec<String>,
}

impl View for Chunk {
    type V = Seq<Seq<char>>;

    open spec fn view(&self) -> Seq<Seq<char>> {
        self.lines.deep_view()
    }
}

impl DeepView for Chunk {
    type V = Seq<Seq<char>>;

    open spec fn deep_view(&self) -> Seq<Seq<char>> {
        self.view()
    }
}

/// Groups the lines into chunks, in input order: a chunk is sealed as soon
/// as its buffered cost reaches the threshold, and a non-empty residual
/// buffer becomes the final chunk.
pub fn chunk_lines(lines: &Vec<String>, threshold: usize) -> (chunks: Vec<Chunk>)
    ensures
        chunks.deep_view() == chunks_of(lines.deep_view(), threshold as int),
{
    let ghost all = lines.deep_view();
    let mut chunks: Vec<Chunk> = Vec::new();
    let mut cur: Vec<String> = Vec::new();
    let mut cur_cost: usize = 0;
    let mut i: usize = 0;
    proof {
        assert(all.skip(0) =~= all);
        assert(cur.deep_view() =~= Seq::<Seq<char>>::empty());
        assert(seq![] =~= Seq::<Seq<char>>::empty());
        assert(chunks.deep_view() + chunks_from(all, cur.deep_view(), threshold as int)
            =~= chunks_from(all, cur.deep_view(), threshold as int));
    }
    while i < lines.len()
        invariant
            i <= lines.len(),
            all == lines.deep_view(),
            cur_cost == chunk_cost(cur.deep_view()),
            cur_cost < threshold || (cur.len() == 0 && cur_cost == 0),
            chunks_of(all, threshold as int) == chunks.deep_view() + chunks_from(
                all.skip(i as int),
                cur.deep_view(),
                threshold as int,
            ),
        decreases lines.len() - i,
    {
        let line = &lines[i];
        let byte_len = line.as_str().as_bytes().len();
        proof {
            assert(all.skip(i as int)[0] == line@);
            assert(all.skip(i as int).drop_first() =~= all.skip(i + 1));
            lemma_chunk_cost_push(cur.deep_view(), line@);
        }
        let ghost grown = cur.deep_view().push(line@);
        let seal = cur_cost >= threshold || byte_len >= threshold - cur_cost - 1;
        proof {
            assert(seal == (chunk_cost(grown) >= threshold as int));
        }
        cur.push(line.clone());
        proof {
            assert(cur.deep_view() =~= grown);
        }
        if seal {
            let ghost prev_chunks = chunks.deep_view();
            let full = cur;
            cur = Vec::new();
            chunks.push(Chunk { lines: full });
            cur_cost = 0;
            proof {
                assert(cur.deep_view() =~= Seq::<Seq<char>>::empty());
                assert(chunks.deep_view() =~= prev_chunks.push(grown));
                assert(prev_chunks.push(grown) + chunks_from(
                    all.skip(i + 1),
                    seq![],
                    threshold as int,
                ) =~= prev_chunks + (seq![grown] + chunks_from(
                    all.skip(i + 1),
                    seq![],
                    threshold as int,
                )));
            }
        } else {
            cur_cost = cur_cost + byte_len;
            cur_cost = cur_cost + 1;
        }
        i = i + 1;
    }
    if cur.len() > 0 {
        chunks.push(Chunk { lines: cur });
        proof {
            assert(all.skip(lines.len() as int) =~= Seq::<Seq<char>>::empty());
            assert(chunks.deep_view() =~= chunks.deep_view().drop_last().push(
                chunks.deep_view().last(),
            ));
        }
    }
    proof {
        assert(all.skip(lines.len() as int) =~= Seq::<Seq<char>>::empty());
        if cur.len() == 0 {
            assert(chunks.deep_view() + chunks_from(
                Seq::<Seq<char>>::empty(),
                cur.deep_view(),
                threshold as int,
            ) =~= chunks.deep_view());
        }
    }
    chunks
}

/// Chunked ingestion of a corpus: drops the lines that fail the syntactic
/// filter, then groups the accepted ones into bounded-size chunks.
pub fn ingest_lines(lines: &Vec<String>, threshold: usize) -> (chunks: Vec<Chunk>)
    ensures
        chunks.deep_view() == chunks_of(candidates_of(lines.deep_view()), threshold as int),
{
    let kept = filter_candidates(lines);
    chunk_lines(&kept, threshold)
}

} // verus!
