//! The chunker: partitions an encoded token sequence into bounded groups so
//! that dialects with literal-size limits can render one literal per group.
//! Chunking carries no semantic effect: concatenating the chunks in order
//! gives back the original sequence.

use vstd::prelude::*;
use crate::text::{comma_join, quote_join, quoted_all};
use crate::views_of;

verus! {

/// Fixed chunk capacity used by dialects whose toolchains limit the size of
/// one literal.
pub const CHUNK_CAP: usize = 25;

/// The token sequence split into consecutive groups of `cap` tokens, the
/// last group holding whatever remains.
pub open spec fn chunks_of(tokens: Seq<Seq<char>>, cap: int) -> Seq<Seq<Seq<char>>>
    recommends
        cap >= 1,
    decreases tokens.len(),
{
    if cap < 1 {
        Seq::empty()
    } else if tokens.len() == 0 {
        Seq::empty()
    } else if tokens.len() <= cap {
        seq![tokens]
    } else {
        seq![tokens.take(cap)] + chunks_of(tokens.skip(cap), cap)
    }
}

/// The chunks partition the sequence: concatenated in order they reproduce
/// it exactly, no chunk exceeds the capacity, every chunk but the last is
/// full, and no chunk is empty.
pub proof fn lemma_chunks_of_partition(tokens: Seq<Seq<char>>, cap: int)
    requires
        cap >= 1,
    ensures
        chunks_of(tokens, cap).flatten() == tokens,
        forall|i: int|
            0 <= i < chunks_of(tokens, cap).len() ==> #[trigger] chunks_of(tokens, cap)[i].len()
                <= cap,
        forall|i: int|
            0 <= i < chunks_of(tokens, cap).len() - 1 ==> #[trigger] chunks_of(tokens, cap)[i].len()
                == cap,
        forall|i: int|
            0 <= i < chunks_of(tokens, cap).len() ==> #[trigger] chunks_of(tokens, cap)[i].len()
                >= 1,
    decreases tokens.len(),
{
    let cs = chunks_of(tokens, cap);
    if tokens.len() == 0 {
        assert(cs.flatten() =~= tokens);
    } else if tokens.len() <= cap {
        assert(cs.len() == 1);
        assert(cs.drop_first().flatten() =~= Seq::<Seq<char>>::empty());
        assert(cs.flatten() =~= tokens);
    } else {
        lemma_chunks_of_partition(tokens.skip(cap), cap);
        let rest = chunks_of(tokens.skip(cap), cap);
        assert(cs.drop_first() =~= rest);
        assert(cs.first() == tokens.take(cap));
        assert(cs.flatten() == cs.first() + cs.drop_first().flatten());
        assert(cs.flatten() =~= tokens.take(cap) + tokens.skip(cap));
        assert(tokens.take(cap) + tokens.skip(cap) =~= tokens);
        assert(rest.len() >= 1);
        assert forall|i: int| 0 <= i < cs.len() implies #[trigger] cs[i].len() <= cap by {
            if i >= 1 {
                assert(cs[i] == rest[i - 1]);
            }
        }
        assert forall|i: int| 0 <= i < cs.len() - 1 implies #[trigger] cs[i].len() == cap by {
            if i >= 1 {
                assert(cs[i] == rest[i - 1]);
            }
        }
        assert forall|i: int| 0 <= i < cs.len() implies #[trigger] cs[i].len() >= 1 by {
            if i >= 1 {
                assert(cs[i] == rest[i - 1]);
            }
        }
    }
}

/// The contents of each chunk, chunk by chunk.
pub open spec fn chunk_views(cs: Seq<Vec<String>>) -> Seq<Seq<Seq<char>>> {
    cs.map_values(|c: Vec<String>| views_of(c@))
}

/// Splits the tokens into ordered, gap-free chunks of at most `cap` tokens,
/// exactly as `chunks_of` describes.
pub fn chunk_tokens(tokens: &Vec<String>, cap: usize) -> (r: Vec<Vec<String>>)
    requires
        cap >= 1,
    ensures
        chunk_views(r@) == chunks_of(views_of(tokens@), cap as int),
{
    let ghost full = views_of(tokens@);
    let n = tokens.len();
    proof {
        assert(full.len() == n);
    }
    let mut out: Vec<Vec<String>> = Vec::new();
    let mut pos: usize = 0;
    proof {
        assert(full.skip(0) =~= full);
        assert(chunk_views(out@) + chunks_of(full, cap as int) =~= chunks_of(full, cap as int));
    }
    while pos < tokens.len()
        invariant
            cap >= 1,
            full == views_of(tokens@),
            tokens@.len() == full.len(),
            full.len() <= usize::MAX,
            pos <= full.len(),
            chunk_views(out@) + chunks_of(full.skip(pos as int), cap as int) == chunks_of(
                full,
                cap as int,
            ),
        decreases full.len() - pos,
    {
        let ghost prev = chunk_views(out@);
        let m = if tokens.len() - pos < cap {
            tokens.len() - pos
        } else {
            cap
        };
        let mut chunk: Vec<String> = Vec::new();
        let mut j: usize = 0;
        while j < m
            invariant
                full == views_of(tokens@),
                tokens@.len() == full.len(),
                full.len() <= usize::MAX,
                pos + m <= full.len(),
                j <= m,
                chunk@.len() == j,
                forall|k: int| 0 <= k < j ==> views_of(chunk@)[k] == full[pos + k],
            decreases m - j,
        {
            let ghost cprev = views_of(chunk@);
            let w = tokens[pos + j].clone();
            let ghost wv = w@;
            chunk.push(w);
            proof {
                assert(views_of(chunk@) =~= cprev.push(wv));
            }
            j += 1;
        }
        proof {
            let tail = full.skip(pos as int);
            assert(views_of(chunk@) =~= tail.take(m as int));
            if full.len() - pos <= cap {
                assert(tail.take(m as int) =~= tail);
                assert(chunks_of(tail, cap as int) =~= seq![tail]);
                assert(full.skip((pos + m) as int).len() == 0);
            } else {
                assert(tail.skip(m as int) =~= full.skip((pos + m) as int));
                assert(chunks_of(tail, cap as int) == seq![tail.take(cap as int)] + chunks_of(
                    tail.skip(cap as int),
                    cap as int,
                ));
            }
        }
        out.push(chunk);
        proof {
            let tail = full.skip(pos as int);
            assert(chunk_views(out@) =~= prev.push(tail.take(m as int)));
            assert(chunk_views(out@) + chunks_of(full.skip((pos + m) as int), cap as int) =~~= (
            prev + chunks_of(tail, cap as int)));
        }
        pos += m;
    }
    proof {
        assert(full.skip(pos as int).len() == 0);
        assert(chunk_views(out@) + chunks_of(full.skip(pos as int), cap as int) =~= chunk_views(
            out@,
        ));
    }
    out
}

/// The literal body of each chunk: the chunk's tokens, quoted and
/// comma-separated.
pub open spec fn chunk_lines_spec(tokens: Seq<Seq<char>>, cap: int) -> Seq<Seq<char>> {
    chunks_of(tokens, cap).map_values(|c: Seq<Seq<char>>| comma_join(quoted_all(c)))
}

/// Splits the encoded token sequence into chunks of at most `cap` tokens and
/// renders each chunk as one comma-separated list of quoted tokens.
pub fn chunk_shellcode(payload: &Vec<String>, cap: usize) -> (r: Vec<String>)
    requires
        cap >= 1,
    ensures
        views_of(r@) == chunk_lines_spec(views_of(payload@), cap as int),
{
    let ghost cs = chunks_of(views_of(payload@), cap as int);
    let chunks = chunk_tokens(payload, cap);
    let mut out: Vec<String> = Vec::new();
    let mut i: usize = 0;
    while i < chunks.len()
        invariant
            cs == chunks_of(views_of(payload@), cap as int),
            chunk_views(chunks@) == cs,
            chunks@.len() == cs.len(),
            i <= cs.len(),
            out@.len() == i,
            forall|k: int|
                0 <= k < i ==> views_of(out@)[k] == comma_join(quoted_all(#[trigger] cs[k])),
        decreases cs.len() - i,
    {
        let ghost prev = views_of(out@);
        let line = quote_join(&chunks[i]);
        let ghost lv = line@;
        proof {
            assert(chunk_views(chunks@)[i as int] == views_of(chunks@[i as int]@));
        }
        out.push(line);
        proof {
            assert(views_of(out@) =~= prev.push(lv));
        }
        i += 1;
    }
    proof {
        assert(views_of(out@) =~= chunk_lines_spec(views_of(payload@), cap as int));
    }
    out
}

} // verus!
