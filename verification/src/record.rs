//! Per-line output records and chunk processing.
//!
//! Every line of a chunk yields exactly one record: the three derived
//! addresses, space-joined, when the phrase passes the checksum; an
//! explicit error record embedding the original text when it does not.
//! A chunk's records are joined with newlines, with a trailing newline,
//! and in the order of the chunk's lines.

use vstd::prelude::*;
use crate::address::{all_paths_ok, derive_addresses, spec_addresses, AddressTriple};
use crate::chunker::{chunks_of, Chunk};
use crate::mnemonic::{mnemonic_ok, Mnemonic};
use crate::validate::candidates_of;

verus! {

/// Relies on std `String::push_str`: appends the slice's characters to
/// the end of the string.
#[verifier::external_body]
fn push_str(out: &mut String, piece: &str)
    ensures
        final(out)@ == old(out)@ + piece@,
{
    out.push_str(piece)
}

/// Relies on std `String::push`: appends the character to the end of the
/// string.
#[verifier::external_body]
fn push_char(out: &mut String, c: char)
    ensures
        final(out)@ == old(out)@.push(c),
{
    out.push(c)
}

/// The record of a line whose checksum failed: the error text with the
/// original line embedded.
pub open spec fn error_record(line: Seq<char>) -> Seq<char> {
    "Error: Invalid seed phrase - "@ + line
}

/// The record of a valid phrase: its three addresses, space-joined, in
/// the order legacy, wrapped-segwit, native-segwit.
pub open spec fn address_record(phrase: Seq<char>) -> Seq<char> {
    let (a, b, c) = spec_addresses(phrase);
    a + " "@ + b + " "@ + c
}

/// The one record a line produces.
pub open spec fn record_of(line: Seq<char>) -> Seq<char> {
    if mnemonic_ok(line) {
        address_record(line)
    } else {
        error_record(line)
    }
}

/// An accepted line whose checksum fails produces exactly one record:
/// the error text with the original line embedded verbatim — no
/// addresses, and (by `derive_line_record`'s contract) no failure.
pub proof fn lemma_invalid_line_record(line: Seq<char>)
    requires
        !mnemonic_ok(line),
    ensures
        record_of(line) == "Error: Invalid seed phrase - "@ + line,
{
}

/// Whether a line's record can be produced at all: always for a line the
/// checksum rejects (the error record), and for a valid mnemonic exactly
/// when its three path walks succeed.
pub open spec fn line_record_ok(line: Seq<char>) -> bool {
    mnemonic_ok(line) ==> all_paths_ok(line)
}

/// Renders a triple as a space-joined record.
fn join_addresses(triple: AddressTriple) -> (r: String)
    ensures
        r@ == triple.p2pkh@ + " "@ + triple.p2sh_wpkh@ + " "@ + triple.p2wpkh@,
{
    let AddressTriple { p2pkh, p2sh_wpkh, p2wpkh } = triple;
    let mut out = p2pkh;
    push_str(&mut out, " ");
    push_str(&mut out, p2sh_wpkh.as_str());
    push_str(&mut out, " ");
    push_str(&mut out, p2wpkh.as_str());
    out
}

/// Turns one line into its output record: the three derived addresses for
/// a phrase that passes the checksum, the error record otherwise.
/// Succeeds exactly when the record can be produced (`line_record_ok`; it
/// fails only on the cryptographically unreachable derivation failure of
/// a valid phrase).
pub fn derive_line_record(line: &str) -> (r: Option<String>)
    ensures
        r is Some <==> line_record_ok(line@),
        r is Some ==> r.unwrap()@ == record_of(line@),
{
    match Mnemonic::parse(line) {
        Ok(mnemonic) => match derive_addresses(&mnemonic) {
            Some(triple) => Some(join_addresses(triple)),
            None => None,
        },
        Err(_) => {
            let mut out = "Error: Invalid seed phrase - ".to_owned();
            push_str(&mut out, line);
            Some(out)
        },
    }
}

/// The lines' records, newline-joined (separators only, no trailing
/// newline).
pub open spec fn joined_records(lines: Seq<Seq<char>>) -> Seq<char>
    decreases lines.len(),
{
    if lines.len() == 0 {
        seq![]
    } else if lines.len() == 1 {
        record_of(lines[0])
    } else {
        record_of(lines[0]) + seq!['\n'] + joined_records(lines.drop_first())
    }
}

/// The text block a chunk produces: the records newline-joined, with one
/// trailing newline appended — a single newline for a chunk of no lines.
pub open spec fn chunk_text(lines: Seq<Seq<char>>) -> Seq<char> {
    joined_records(lines).push('\n')
}

proof fn lemma_joined_records_push(lines: Seq<Seq<char>>, line: Seq<char>)
    ensures
        lines.len() == 0 ==> joined_records(lines.push(line)) == record_of(line),
        lines.len() > 0 ==> joined_records(lines.push(line)) == joined_records(lines)
            + seq!['\n'] + record_of(line),
    decreases lines.len(),
{
    assert(lines.push(line)[0] == if lines.len() == 0 {
        line
    } else {
        lines[0]
    });
    if lines.len() == 0 {
    } else if lines.len() == 1 {
        assert(lines.push(line).drop_first() =~= seq![line]);
        assert(joined_records(seq![line]) == record_of(line));
    } else {
        assert(lines.push(line).drop_first() =~= lines.drop_first().push(line));
        lemma_joined_records_push(lines.drop_first(), line);
        assert(joined_records(lines.push(line)) =~= joined_records(lines) + seq!['\n']
            + record_of(line));
    }
}

/// Processes one chunk: every line independently becomes its record, and
/// the records are joined in input order with a trailing newline
/// appended.  Succeeds exactly when every line's record can be produced
/// (`None` only if some valid line hit the unreachable derivation
/// failure); in particular a chunk with no valid phrase always produces
/// its text.
pub fn process_chunk(chunk: &Chunk) -> (r: Option<String>)
    ensures
        r is Some <==> (forall|i: int| 0 <= i < chunk@.len() ==> line_record_ok(chunk@[i])),
        r is Some ==> r.unwrap()@ == chunk_text(chunk@),
{
    let mut out = String::new();
    let mut i: usize = 0;
    while i < chunk.lines.len()
        invariant
            i <= chunk.lines.len(),
            out@ == joined_records(chunk@.take(i as int)),
            forall|j: int| 0 <= j < i ==> line_record_ok(chunk@[j]),
        decreases chunk.lines.len() - i,
    {
        let line = &chunk.lines[i];
        proof {
            assert(chunk@[i as int] == line@);
        }
        match derive_line_record(line.as_str()) {
            Some(record) => {
                if i > 0 {
                    push_char(&mut out, '\n');
                }
                push_str(&mut out, record.as_str());
                proof {
                    assert(chunk@.take(i as int).push(line@) =~= chunk@.take(i + 1));
                    lemma_joined_records_push(chunk@.take(i as int), line@);
                    assert(out@ =~= joined_records(chunk@.take(i + 1)));
                }
            },
            None => {
                proof {
                    assert(!line_record_ok(chunk@[i as int]));
                }
                return None;
            },
        }
        i = i + 1;
    }
    push_char(&mut out, '\n');
    proof {
        assert(chunk@.take(chunk.lines.len() as int) =~= chunk@);
    }
    Some(out)
}

/// Runs the whole computing pipeline over a corpus of raw lines: filter,
/// chunk, and process each chunk, the output blocks standing in the same
/// order as the chunks they came from.  Succeeds whenever every accepted
/// line's record can be produced — always, but for the unreachable
/// derivation failure of some valid phrase.
pub fn process_lines(lines: &Vec<String>, threshold: usize) -> (r: Option<Vec<String>>)
    ensures
        r is Some ==> ({
            let chunks = chunks_of(candidates_of(lines.deep_view()), threshold as int);
            &&& r.unwrap()@.len() == chunks.len()
            &&& forall|i: int|
                0 <= i < chunks.len() ==> r.unwrap().deep_view()[i] == chunk_text(chunks[i])
        }),
        (forall|k: int|
            0 <= k < candidates_of(lines.deep_view()).len() ==> line_record_ok(
                candidates_of(lines.deep_view())[k],
            )) ==> r is Some,
{
    let chunks = crate::chunker::ingest_lines(lines, threshold);
    let ghost chunk_views = chunks_of(candidates_of(lines.deep_view()), threshold as int);
    let mut outputs: Vec<String> = Vec::new();
    let mut i: usize = 0;
    while i < chunks.len()
        invariant
            i <= chunks.len(),
            chunk_views == chunks_of(candidates_of(lines.deep_view()), threshold as int),
            chunks.deep_view() == chunk_views,
            chunks@.len() == chunk_views.len(),
            outputs@.len() == i,
            forall|j: int| 0 <= j < i ==> outputs.deep_view()[j] == chunk_text(chunk_views[j]),
        decreases chunks.len() - i,
    {
        proof {
            assert(chunks@[i as int]@ == chunks.deep_view()[i as int]);
        }
        match process_chunk(&chunks[i]) {
            Some(text) => {
                let ghost prev = outputs.deep_view();
                outputs.push(text);
                proof {
                    assert(outputs.deep_view() =~= prev.push(text@));
                }
            },
            None => {
                proof {
                    let cands = candidates_of(lines.deep_view());
                    let cv = chunk_views[i as int];
                    assert(exists|m: int| 0 <= m < cv.len() && !line_record_ok(cv[m]));
                    let m = choose|m: int| 0 <= m < cv.len() && !line_record_ok(cv[m]);
                    crate::chunker::lemma_chunk_line_is_input_line(
                        cands,
                        threshold as int,
                        i as int,
                        m,
                    );
                    assert(cands.contains(cv[m]));
                    let k = choose|k: int| 0 <= k < cands.len() && cands[k] == cv[m];
                    assert(cands[k] == cv[m]);
                    assert(!line_record_ok(cands[k]));
                }
                return None;
            },
        }
        i = i + 1;
    }
    Some(outputs)
}

/// One record per line of a chunk, in order.
pub open spec fn chunk_records(lines: Seq<Seq<char>>) -> Seq<Seq<char>> {
    lines.map_values(|line: Seq<char>| record_of(line))
}

/// The number of records over a sequence of chunks.
pub open spec fn total_records(chunks: Seq<Seq<Seq<char>>>) -> int
    decreases chunks.len(),
{
    if chunks.len() == 0 {
        0
    } else {
        chunk_records(chunks[0]).len() + total_records(chunks.drop_first())
    }
}

proof fn lemma_total_records_is_total_lines(chunks: Seq<Seq<Seq<char>>>)
    ensures
        total_records(chunks) == crate::chunker::total_lines(chunks),
    decreases chunks.len(),
{
    if chunks.len() > 0 {
        lemma_total_records_is_total_lines(chunks.drop_first());
    }
}

/// Round trip of the line count: over the chunks of an ingested corpus
/// there are exactly as many output records as lines that passed the
/// syntactic filter — one record per accepted line, no more, no fewer.
pub proof fn lemma_output_record_count(lines: Seq<Seq<char>>, threshold: int)
    ensures
        total_records(chunks_of(candidates_of(lines), threshold)) == candidates_of(lines).len(),
{
    lemma_total_records_is_total_lines(chunks_of(candidates_of(lines), threshold));
    crate::chunker::lemma_chunks_regroup(candidates_of(lines), threshold);
}

} // verus!
