//! Word-table acquisition: deduplicating a candidate pool, synthesizing
//! random candidate tokens, and reducing a pool of at least 256 unique
//! tokens to a word table of exactly 256 by a random permutation.

use vstd::prelude::*;
use vstd::seq_lib::group_to_multiset_ensures;
use crate::errors::LexiError;
use crate::randsrc::{random_lowercase_char, shuffle_words};
use crate::text::push_char;
use crate::{table_wf, tokens_distinct, views_of};

verus! {

/// Length of each synthetic random token.
pub const RANDOM_WORD_LEN: usize = 4;

/// Number of synthetic candidates drawn by the random strategy.
pub const RANDOM_POOL_SIZE: usize = 256;

/// The fixed, order-significant mapping from byte value to token: entry `b`
/// is the token standing for byte value `b`.
pub struct WordTable {
    pub words: Vec<String>,
}

impl View for WordTable {
    type V = Seq<Seq<char>>;

    open spec fn view(&self) -> Seq<Seq<char>> {
        views_of(self.words@)
    }
}

impl WordTable {
    /// A well-formed table holds exactly 256 pairwise distinct tokens.
    pub open spec fn wf(&self) -> bool {
        table_wf(self@)
    }

    /// The token standing for byte value `b`.
    pub fn word_for(&self, b: u8) -> (r: &String)
        requires
            self.wf(),
        ensures
            r@ == self@[b as int],
    {
        &self.words[b as usize]
    }

    pub fn len(&self) -> (r: usize)
        ensures
            r == self@.len(),
    {
        self.words.len()
    }
}

/// Whether some token of `ts` has content `t@`.
fn contains_token(ts: &Vec<String>, t: &String) -> (r: bool)
    ensures
        r == views_of(ts@).contains(t@),
{
    let mut j: usize = 0;
    while j < ts.len()
        invariant
            j <= ts@.len(),
            forall|k: int| 0 <= k < j ==> views_of(ts@)[k] != t@,
        decreases ts@.len() - j,
    {
        if ts[j] == *t {
            proof {
                assert(views_of(ts@)[j as int] == t@);
            }
            return true;
        }
        j += 1;
    }
    proof {
        assert(!views_of(ts@).contains(t@));
    }
    false
}

/// The candidate pool reduced to one token per distinct content, keeping
/// first occurrences: afterwards the pool holds a token of some content if
/// and only if the input did.
pub fn dedup_tokens(candidates: &Vec<String>) -> (r: Vec<String>)
    ensures
        tokens_distinct(views_of(r@)),
        forall|t: Seq<char>|
            #[trigger] views_of(r@).contains(t) <==> views_of(candidates@).contains(t),
{
    let ghost cs = views_of(candidates@);
    let mut out: Vec<String> = Vec::new();
    let mut i: usize = 0;
    while i < candidates.len()
        invariant
            cs == views_of(candidates@),
            i <= cs.len(),
            tokens_distinct(views_of(out@)),
            forall|t: Seq<char>|
                #[trigger] views_of(out@).contains(t) <==> cs.take(i as int).contains(t),
        decreases cs.len() - i,
    {
        let ghost prev = views_of(out@);
        let c = &candidates[i];
        let found = contains_token(&out, c);
        if !found {
            out.push(c.clone());
            proof {
                assert(views_of(out@) =~= prev.push(c@));
                assert forall|a: int, b: int|
                    0 <= a < views_of(out@).len() && 0 <= b < views_of(out@).len() && a != b
                        implies views_of(out@)[a] != views_of(out@)[b] by {
                    if a < prev.len() && b < prev.len() {
                        assert(prev[a] != prev[b]);
                    } else if a < prev.len() {
                        assert(prev.contains(prev[a]));
                        assert(views_of(out@)[b] == c@);
                    } else {
                        assert(prev.contains(prev[b]));
                        assert(views_of(out@)[a] == c@);
                    }
                }
            }
        }
        proof {
            assert(cs.take(i + 1 as int) =~= cs.take(i as int).push(cs[i as int]));
            assert(cs[i as int] == c@);
            assert(views_of(out@).contains(c@)) by {
                if found {
                    assert(prev.contains(c@));
                } else {
                    assert(views_of(out@)[prev.len() as int] == c@);
                }
            }
            assert forall|t: Seq<char>|
                #[trigger] views_of(out@).contains(t) <==> cs.take(i + 1 as int).contains(t) by {
                if views_of(out@).contains(t) {
                    let k = choose|k: int|
                        0 <= k < views_of(out@).len() && views_of(out@)[k] == t;
                    if k < prev.len() {
                        assert(prev.contains(t));
                        let m = choose|m: int| 0 <= m < i && cs.take(i as int)[m] == t;
                        assert(cs.take(i + 1 as int)[m] == t);
                    } else {
                        assert(t == c@);
                        assert(cs.take(i + 1 as int)[i as int] == t);
                    }
                }
                if cs.take(i + 1 as int).contains(t) {
                    let m = choose|m: int|
                        0 <= m < i + 1 && #[trigger] cs.take(i + 1 as int)[m] == t;
                    if m < i {
                        assert(cs.take(i as int)[m] == t);
                        assert(prev.contains(t));
                        let k = choose|k: int| 0 <= k < prev.len() && prev[k] == t;
                        assert(views_of(out@)[k] == t);
                    } else {
                        assert(t == c@);
                        assert(views_of(out@).contains(c@));
                    }
                }
            }
        }
        i += 1;
    }
    proof {
        assert(cs.take(cs.len() as int) =~= cs);
    }
    out
}

/// One synthetic token: `length` random lowercase letters.
pub fn generate_random_word(length: usize) -> (r: String)
    ensures
        r@.len() == length,
        forall|i: int| 0 <= i < length ==> 'a' <= #[trigger] r@[i] && r@[i] <= 'z',
{
    let mut r = String::new();
    let mut i: usize = 0;
    while i < length
        invariant
            i <= length,
            r@.len() == i,
            forall|k: int| 0 <= k < i ==> 'a' <= #[trigger] r@[k] && r@[k] <= 'z',
        decreases length - i,
    {
        let c = random_lowercase_char();
        push_char(&mut r, c);
        i += 1;
    }
    r
}

/// The random strategy's candidate pool: 256 synthetic tokens. Collisions
/// are unlikely at this length but possible, so the pool still goes through
/// deduplication before a table is built from it.
pub fn random_pool() -> (r: Vec<String>)
    ensures
        r@.len() == RANDOM_POOL_SIZE,
        forall|i: int|
            0 <= i < r@.len() ==> (#[trigger] views_of(r@)[i]).len() == RANDOM_WORD_LEN,
{
    let mut out: Vec<String> = Vec::new();
    let mut i: usize = 0;
    while i < RANDOM_POOL_SIZE
        invariant
            i <= RANDOM_POOL_SIZE,
            out@.len() == i,
            forall|k: int|
                0 <= k < out@.len() ==> (#[trigger] views_of(out@)[k]).len() == RANDOM_WORD_LEN,
        decreases RANDOM_POOL_SIZE - i,
    {
        let ghost prev = views_of(out@);
        let w = generate_random_word(RANDOM_WORD_LEN);
        let ghost wv = w@;
        out.push(w);
        proof {
            assert(views_of(out@) =~= prev.push(wv));
        }
        i += 1;
    }
    out
}

/// A permutation (stated as multiset equality) keeps token contents distinct
/// and draws every element from the original sequence.
proof fn lemma_permutation_distinct(a: Seq<String>, b: Seq<String>)
    requires
        b.to_multiset() == a.to_multiset(),
        tokens_distinct(views_of(a)),
    ensures
        tokens_distinct(views_of(b)),
        forall|i: int| 0 <= i < b.len() ==> views_of(a).contains(#[trigger] b[i]@),
{
    broadcast use group_to_multiset_ensures;

    assert(a.no_duplicates()) by {
        assert forall|i: int, j: int|
            0 <= i < a.len() && 0 <= j < a.len() && i != j implies a[i] != a[j] by {
            assert(views_of(a)[i] != views_of(a)[j]);
        }
    }
    a.lemma_multiset_has_no_duplicates();
    assert forall|x: String| b.to_multiset().contains(x) implies b.to_multiset().count(x)
        == 1 by {
        assert(a.to_multiset().contains(x));
    }
    b.lemma_multiset_has_no_duplicates_conv();
    assert forall|i: int| 0 <= i < b.len() implies views_of(a).contains(#[trigger] b[i]@) by {
        assert(b.contains(b[i]));
        assert(b.to_multiset().count(b[i]) > 0);
        assert(a.contains(b[i]));
        let k = choose|k: int| 0 <= k < a.len() && a[k] == b[i];
        assert(views_of(a)[k] == b[i]@);
    }
    assert forall|i: int, j: int|
        0 <= i < b.len() && 0 <= j < b.len() && i != j
            implies views_of(b)[i] != views_of(b)[j] by {
        if b[i]@ == b[j]@ {
            assert(b[i] != b[j]);
            assert(b.contains(b[i]));
            assert(b.to_multiset().count(b[i]) > 0);
            assert(a.contains(b[i]));
            assert(b.contains(b[j]));
            assert(b.to_multiset().count(b[j]) > 0);
            assert(a.contains(b[j]));
            let k = choose|k: int| 0 <= k < a.len() && a[k] == b[i];
            let l = choose|l: int| 0 <= l < a.len() && a[l] == b[j];
            assert(k != l);
            assert(views_of(a)[k] == views_of(a)[l]);
            assert(false);
        }
    }
}

/// Reduces a deduplicated candidate pool to a word table: shuffle with a
/// random permutation, keep the first 256 tokens. Succeeds exactly when the
/// pool holds at least 256 tokens; a smaller pool is a cardinality error
/// reporting the count found, never a shorter table.
pub fn build_word_table(pool: Vec<String>) -> (r: Result<WordTable, LexiError>)
    requires
        tokens_distinct(views_of(pool@)),
    ensures
        r is Ok <==> pool@.len() >= 256,
        r matches Err(e) ==> e == (LexiError::Cardinality { found: pool@.len() as usize }),
        r matches Ok(t) ==> t.wf() && forall|i: int|
            0 <= i < 256 ==> views_of(pool@).contains(#[trigger] t@[i]),
{
    let ghost orig = pool@;
    let mut words = pool;
    shuffle_words(&mut words);
    proof {
        lemma_permutation_distinct(orig, words@);
    }
    if words.len() < 256 {
        Err(LexiError::Cardinality { found: words.len() })
    } else {
        let ghost shuffled = words@;
        words.truncate(256);
        proof {
            assert(words@ =~= shuffled.subrange(0, 256));
            assert forall|i: int|
                0 <= i < 256 implies views_of(orig).contains(
                #[trigger] views_of(words@)[i]) by {
                assert(views_of(words@)[i] == shuffled[i]@);
            }
            assert forall|i: int, j: int|
                0 <= i < 256 && 0 <= j < 256 && i != j
                    implies views_of(words@)[i] != views_of(words@)[j] by {
                assert(views_of(words@)[i] == views_of(shuffled)[i]);
                assert(views_of(words@)[j] == views_of(shuffled)[j]);
            }
        }
        Ok(WordTable { words })
    }
}

} // verus!
