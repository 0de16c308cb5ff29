//! The codec: byte-to-token encoding under a word table, the reverse token
//! lookup that decoding rests on, the bounded-prefix self-check, and the
//! round-trip law that ties them together.

use vstd::prelude::*;
use crate::errors::LexiError;
use crate::words::WordTable;
use crate::{table_wf, views_of};

verus! {

/// How many leading positions the self-check inspects.
pub const VERIFY_PREFIX: usize = 10;

/// The token sequence a payload encodes to: position `i` holds the table
/// entry of byte `payload[i]`.
pub open spec fn encode_spec(payload: Seq<u8>, ts: Seq<Seq<char>>) -> Seq<Seq<char>> {
    Seq::new(payload.len(), |i: int| ts[payload[i] as int])
}

/// Reverse lookup of one token: the byte value whose table entry is `t`,
/// taking the first matching position, or `None` if no entry matches.
pub open spec fn decode_token_spec(ts: Seq<Seq<char>>, t: Seq<char>) -> Option<u8> {
    match ts.index_of_first(t) {
        Some(i) => Some(i as u8),
        None => None,
    }
}

/// Reverse lookup of a whole token sequence: defined exactly when every
/// token has a table entry.
pub open spec fn decode_spec(tokens: Seq<Seq<char>>, ts: Seq<Seq<char>>) -> Option<Seq<u8>> {
    if forall|i: int| 0 <= i < tokens.len() ==> ts.contains(#[trigger] tokens[i]) {
        Some(Seq::new(tokens.len(), |i: int| decode_token_spec(ts, tokens[i]).unwrap()))
    } else {
        None
    }
}

/// In a well-formed table the entry of byte `b` decodes back to `b`.
pub proof fn lemma_table_lookup(ts: Seq<Seq<char>>, b: u8)
    requires
        table_wf(ts),
    ensures
        ts.contains(ts[b as int]),
        decode_token_spec(ts, ts[b as int]) == Some(b),
{
    assert(ts.contains(ts[b as int]));
    ts.index_of_first_ensures(ts[b as int]);
    match ts.index_of_first(ts[b as int]) {
        Some(idx) => {
            if idx != b as int {
                assert(ts[idx] != ts[b as int]);
                assert(false);
            }
        },
        None => {
            assert(false);
        },
    }
}

/// Decoding inverts encoding: under any well-formed table, any payload comes
/// back byte-for-byte from its own encoding.
pub proof fn lemma_round_trip(payload: Seq<u8>, ts: Seq<Seq<char>>)
    requires
        table_wf(ts),
    ensures
        decode_spec(encode_spec(payload, ts), ts) == Some(payload),
{
    let tokens = encode_spec(payload, ts);
    assert forall|i: int| 0 <= i < tokens.len() implies ts.contains(#[trigger] tokens[i]) by {
        lemma_table_lookup(ts, payload[i]);
    }
    let decoded = Seq::new(tokens.len(), |i: int| decode_token_spec(ts, tokens[i]).unwrap());
    assert forall|i: int| 0 <= i < payload.len() implies decoded[i] == payload[i] by {
        lemma_table_lookup(ts, payload[i]);
    }
    assert(decoded =~= payload);
}

/// Encodes the payload: one token per byte, in payload order. Total for
/// every byte value, because a well-formed table has all 256 entries.
pub fn encode(payload: &Vec<u8>, table: &WordTable) -> (r: Vec<String>)
    requires
        table.wf(),
    ensures
        views_of(r@) == encode_spec(payload@, table@),
{
    let mut out: Vec<String> = Vec::new();
    let mut i: usize = 0;
    while i < payload.len()
        invariant
            table.wf(),
            i <= payload@.len(),
            out@.len() == i,
            forall|k: int|
                0 <= k < i ==> views_of(out@)[k] == table@[#[trigger] payload@[k] as int],
        decreases payload@.len() - i,
    {
        let ghost prev = views_of(out@);
        let b = payload[i];
        let w = table.word_for(b).clone();
        proof {
            assert(w@ == table@[b as int]);
        }
        out.push(w);
        proof {
            assert(views_of(out@) =~= prev.push(table@[b as int]));
        }
        i += 1;
    }
    proof {
        assert(views_of(out@) =~= encode_spec(payload@, table@));
    }
    out
}

/// Reverse lookup of one token in the table: the byte value at the first
/// matching position.
pub fn decode_token(word: &String, table: &WordTable) -> (r: Option<u8>)
    requires
        table.wf(),
    ensures
        r == decode_token_spec(table@, word@),
{
    let ghost ts = table@;
    let n = table.len();
    let mut i: usize = 0;
    while i < n
        invariant
            table.wf(),
            ts == table@,
            n == ts.len(),
            i <= n,
            forall|k: int| 0 <= k < i ==> ts[k] != word@,
        decreases n - i,
    {
        if *table.word_for(i as u8) == *word {
            proof {
                assert(ts[i as int] == word@);
                ts.index_of_first_ensures(word@);
                match ts.index_of_first(word@) {
                    Some(idx) => {
                        assert(idx == i as int);
                    },
                    None => {
                        assert(false);
                    },
                }
            }
            return Some(i as u8);
        }
        i += 1;
    }
    proof {
        assert(!ts.contains(word@));
        ts.index_of_first_ensures(word@);
    }
    None
}

/// Reverse-maps every token of an encoded sequence to its byte. Fails on the
/// first token absent from the table; this pipeline never emits such tokens,
/// so the failure path is defensive only.
pub fn decode(encoded: &Vec<String>, table: &WordTable) -> (r: Result<Vec<u8>, LexiError>)
    requires
        table.wf(),
    ensures
        r matches Ok(bytes) ==> decode_spec(views_of(encoded@), table@) == Some(bytes@),
        r matches Err(e) ==> {
            &&& decode_spec(views_of(encoded@), table@) is None
            &&& e matches LexiError::TokenNotInTable { position }
            &&& 0 <= position < encoded@.len()
            &&& !table@.contains(views_of(encoded@)[position as int])
            &&& forall|j: int|
                0 <= j < position ==> table@.contains(#[trigger] views_of(encoded@)[j])
        },
{
    let ghost toks = views_of(encoded@);
    let mut out: Vec<u8> = Vec::new();
    let mut i: usize = 0;
    while i < encoded.len()
        invariant
            table.wf(),
            toks == views_of(encoded@),
            i <= toks.len(),
            out@.len() == i,
            forall|k: int| 0 <= k < i ==> table@.contains(#[trigger] toks[k]),
            forall|k: int|
                0 <= k < i ==> Some(#[trigger] out@[k]) == decode_token_spec(table@, toks[k]),
        decreases toks.len() - i,
    {
        match decode_token(&encoded[i], table) {
            Some(b) => {
                out.push(b);
                proof {
                    table@.index_of_first_ensures(toks[i as int]);
                }
            },
            None => {
                proof {
                    table@.index_of_first_ensures(toks[i as int]);
                    assert(!table@.contains(toks[i as int]));
                }
                return Err(LexiError::TokenNotInTable { position: i });
            },
        }
        i += 1;
    }
    proof {
        let decoded = Seq::new(toks.len(), |k: int| decode_token_spec(table@, toks[k]).unwrap());
        assert(out@ =~= decoded);
    }
    Ok(out)
}

/// Length of the prefix the self-check inspects: the first 10 positions, or
/// the whole payload if it is shorter.
pub open spec fn prefix_len(n: nat) -> nat {
    if n < VERIFY_PREFIX { n } else { VERIFY_PREFIX as nat }
}

/// Spot-checks table construction: re-derives the byte of each token on a
/// bounded prefix and compares with the original payload. Returns the first
/// mismatching position as an internal-consistency error; a mismatch
/// indicates a defect in table construction, never bad input.
pub fn verify_encoding(payload: &Vec<u8>, encoded: &Vec<String>, table: &WordTable) -> (r: Result<
    (),
    LexiError,
>)
    requires
        table.wf(),
        encoded@.len() == payload@.len(),
    ensures
        r is Ok <==> (forall|i: int|
            0 <= i < prefix_len(payload@.len()) ==> decode_token_spec(
                table@,
                #[trigger] views_of(encoded@)[i],
            ) == Some(payload@[i])),
        r matches Err(e) ==> {
            &&& e matches LexiError::VerifyMismatch { position }
            &&& 0 <= position < prefix_len(payload@.len())
            &&& decode_token_spec(table@, views_of(encoded@)[position as int]) != Some(
                payload@[position as int],
            )
            &&& forall|j: int|
                0 <= j < position ==> decode_token_spec(
                    table@,
                    #[trigger] views_of(encoded@)[j],
                ) == Some(payload@[j])
        },
{
    let ghost toks = views_of(encoded@);
    let n = if payload.len() < VERIFY_PREFIX {
        payload.len()
    } else {
        VERIFY_PREFIX
    };
    let mut i: usize = 0;
    while i < n
        invariant
            table.wf(),
            toks == views_of(encoded@),
            encoded@.len() == payload@.len(),
            n == prefix_len(payload@.len()),
            i <= n,
            forall|k: int|
                0 <= k < i ==> decode_token_spec(table@, #[trigger] toks[k]) == Some(
                    payload@[k],
                ),
        decreases n - i,
    {
        let ok = match decode_token(&encoded[i], table) {
            Some(b) => b == payload[i],
            None => false,
        };
        if !ok {
            return Err(LexiError::VerifyMismatch { position: i });
        }
        i += 1;
    }
    Ok(())
}

} // verus!
