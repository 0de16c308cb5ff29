//! The whole compute pipeline in one call: deduplicate the candidate pool,
//! build the word table, encode the payload, run the bounded self-check
//! (which provably cannot fail on the pipeline's own encoding), and render
//! the requested dialect.

use vstd::prelude::*;
use crate::codec::{encode, encode_spec, decode_token_spec, lemma_table_lookup, prefix_len, verify_encoding};
use crate::errors::LexiError;
use crate::render::{dialect_of, generate_output, render_spec};
use crate::views_of;
use crate::words::{build_word_table, dedup_tokens, WordTable};

verus! {

/// The number of distinct token contents among the candidates.
pub open spec fn unique_count(ts: Seq<Seq<char>>) -> nat {
    ts.to_set().len()
}

/// What a successful run yields: the word table that was drawn and the
/// rendered output text.
pub struct PipelineOutput {
    pub table: WordTable,
    pub text: String,
}

/// Runs the pipeline on a payload, a raw candidate pool and a requested
/// dialect name. Succeeds exactly when the candidates hold at least 256
/// distinct tokens and the dialect is recognized; the text is then the
/// rendering of the payload's encoding under the drawn table.
pub fn run_pipeline(payload: &Vec<u8>, candidates: &Vec<String>, template: &str) -> (r: Result<
    PipelineOutput,
    LexiError,
>)
    ensures
        r is Ok <==> (unique_count(views_of(candidates@)) >= 256 && dialect_of(template@) is Some),
        r matches Ok(out) ==> {
            &&& out.table.wf()
            &&& forall|i: int|
                0 <= i < 256 ==> views_of(candidates@).contains(#[trigger] out.table@[i])
            &&& out.text@ == render_spec(
                dialect_of(template@).unwrap(),
                encode_spec(payload@, out.table@),
                out.table@,
            )
        },
        r matches Err(e) ==> {
            ||| (e == (LexiError::Cardinality {
                found: unique_count(views_of(candidates@)) as usize,
            }) && unique_count(views_of(candidates@)) < 256)
            ||| (e == LexiError::UnsupportedDialect && unique_count(views_of(candidates@)) >= 256
                && dialect_of(template@) is None)
        },
{
    let pool = dedup_tokens(candidates);
    proof {
        assert(views_of(pool@).no_duplicates());
        assert(views_of(pool@).to_set() =~= views_of(candidates@).to_set());
        views_of(pool@).unique_seq_to_set();
        assert(pool@.len() == views_of(pool@).len());
        assert(pool@.len() == unique_count(views_of(candidates@)));
    }
    let table = match build_word_table(pool) {
        Ok(t) => t,
        Err(e) => {
            return Err(e);
        },
    };
    let encoded = encode(payload, &table);
    proof {
        assert(views_of(encoded@).len() == encoded@.len());
        assert(encoded@.len() == payload@.len());
    }
    let v = verify_encoding(payload, &encoded, &table);
    proof {
        assert forall|i: int|
            0 <= i < prefix_len(payload@.len()) implies decode_token_spec(
            table@,
            #[trigger] views_of(encoded@)[i],
        ) == Some(payload@[i]) by {
            assert(views_of(encoded@)[i] == table@[payload@[i] as int]);
            lemma_table_lookup(table@, payload@[i]);
        }
        assert(v is Ok);
    }
    match v {
        Ok(_) => {},
        Err(e) => {
            return Err(e);
        },
    }
    match generate_output(&encoded, &table, template) {
        Ok(text) => Ok(PipelineOutput { table, text }),
        Err(e) => Err(e),
    }
}

} // verus!
