//! Syntactic filter for candidate phrase lines.
//!
//! A line of the input corpus is eligible for the derivation pipeline only
//! if it is non-empty and every one of its characters is alphanumeric.  In
//! particular a line containing whitespace is dropped before it ever
//! reaches the checksum engine.

use vstd::prelude::*;
use vstd::std_specs::iter::IteratorSpec;

verus! {

/// Whether a character is alphanumeric in the Unicode sense.  The full
/// classification is given by the Unicode character tables, so it is left
/// uninterpreted here; `char_is_alphanumeric` computes it.
pub uninterp spec fn alphanumeric(c: char) -> bool;

/// Relies on `char::is_alphanumeric` of std: whether a character lies in
/// the Unicode `Alphabetic` or `Number` categories depends on the character
/// alone.
#[verifier::external_body]
fn char_is_alphanumeric(c: char) -> (r: bool)
    ensures
        r == alphanumeric(c),
{
    c.is_alphanumeric()
}

/// A line is a candidate phrase when it is non-empty and consists of
/// alphanumeric characters only.
pub open spec fn candidate(line: Seq<char>) -> bool {
    &&& line.len() > 0
    &&& forall|i: int| 0 <= i < line.len() ==> alphanumeric(line[i])
}

/// Decides whether a line of text is syntactically eligible to be a
/// candidate phrase.
pub fn is_candidate(line: &str) -> (r: bool)
    ensures
        r == candidate(line@),
{
    let mut it = line.chars();
    let ghost mut seen: int = 0;
    loop
        invariant
            0 <= seen <= line@.len(),
            it.obeys_prophetic_iter_laws(),
            it.remaining() =~= line@.skip(seen),
            forall|i: int| 0 <= i < seen ==> alphanumeric(line@[i]),
        decreases line@.len() - seen,
    {
        let next = it.next();
        match next {
            Option::None => {
                proof {
                    assert(line@.skip(seen).len() == 0);
                }
                return !line.is_empty();
            },
            Option::Some(c) => {
                proof {
                    assert(line@.skip(seen)[0] == line@[seen]);
                    assert(c == line@[seen]);
                }
                if !char_is_alphanumeric(c) {
                    proof {
                        assert(!alphanumeric(line@[seen]));
                    }
                    return false;
                }
                proof {
                    seen = seen + 1;
                    assert(it.remaining() =~= line@.skip(seen));
                }
            },
        }
    }
}

/// The subsequence of lines that pass the syntactic filter, in input order.
pub open spec fn candidates_of(lines: Seq<Seq<char>>) -> Seq<Seq<char>>
    decreases lines.len(),
{
    if lines.len() == 0 {
        seq![]
    } else if candidate(lines[0]) {
        seq![lines[0]] + candidates_of(lines.drop_first())
    } else {
        candidates_of(lines.drop_first())
    }
}

/// Keeps exactly the lines that `is_candidate` accepts, in order.
pub fn filter_candidates(lines: &Vec<String>) -> (kept: Vec<String>)
    ensures
        kept.deep_view() == candidates_of(lines.deep_view()),
{
    let ghost all = lines.deep_view();
    let mut kept: Vec<String> = Vec::new();
    let mut i: usize = 0;
    proof {
        assert(all.skip(0) =~= all);
        assert(kept.deep_view() + candidates_of(all) =~= candidates_of(all));
    }
    while i < lines.len()
        invariant
            i <= lines.len(),
            all == lines.deep_view(),
            candidates_of(all) == kept.deep_view() + candidates_of(all.skip(i as int)),
        decreases lines.len() - i,
    {
        let line = &lines[i];
        proof {
            assert(all.skip(i as int)[0] == line@);
            assert(all.skip(i as int).drop_first() =~= all.skip(i + 1));
        }
        if is_candidate(line.as_str()) {
            let ghost old_kept = kept.deep_view();
            kept.push(line.clone());
            proof {
                assert(kept.deep_view() =~= old_kept.push(line@));
                assert(seq![line@] + candidates_of(all.skip(i + 1)) =~= candidates_of(
                    all.skip(i as int),
                ));
                assert(kept.deep_view() + candidates_of(all.skip(i + 1)) =~= old_kept
                    + candidates_of(all.skip(i as int)));
            }
        }
        i = i + 1;
    }
    proof {
        assert(all.skip(lines.len() as int) =~= Seq::<Seq<char>>::empty());
        assert(kept.deep_view() + candidates_of(all.skip(lines.len() as int)) =~= kept.deep_view());
    }
    kept
}

} // verus!
