//! Small string utilities: appending one character, comparing string slices
//! by content, and rendering a vector of tokens as a comma-separated list of
//! quoted literals.

use vstd::prelude::*;
use vstd::string::*;
use crate::views_of;

verus! {

/// Relies on std's `String::push`: appends exactly the given character.
/// vstd gives `String::push` no specification of its own.
#[verifier::external_body]
pub fn push_char(s: &mut String, c: char)
    ensures
        final(s)@ == old(s)@.push(c),
{
    s.push(c);
}

/// Content equality of two string slices.
pub fn str_eq(a: &str, b: &str) -> (r: bool)
    ensures
        r == (a@ == b@),
{
    let alen = a.unicode_len();
    let blen = b.unicode_len();
    if alen != blen {
        return false;
    }
    let mut i: usize = 0;
    while i < alen
        invariant
            a@.len() == alen,
            b@.len() == blen,
            alen == blen,
            i <= alen,
            forall|k: int| 0 <= k < i ==> a@[k] == b@[k],
        decreases alen - i,
    {
        if a.get_char(i) != b.get_char(i) {
            return false;
        }
        i += 1;
    }
    proof {
        assert(a@ =~= b@);
    }
    true
}

/// A token wrapped in double quotes.
pub open spec fn quoted(t: Seq<char>) -> Seq<char> {
    seq!['"'] + t + seq!['"']
}

/// Every part wrapped in double quotes.
pub open spec fn quoted_all(parts: Seq<Seq<char>>) -> Seq<Seq<char>> {
    parts.map_values(|t: Seq<char>| quoted(t))
}

/// The parts joined with `", "` between consecutive parts.
pub open spec fn comma_join(parts: Seq<Seq<char>>) -> Seq<char>
    decreases parts.len(),
{
    if parts.len() == 0 {
        Seq::empty()
    } else if parts.len() == 1 {
        parts[0]
    } else {
        parts[0] + seq![',', ' '] + comma_join(parts.drop_first())
    }
}

/// Joining after appending one part appends a separator (when anything came
/// before) and then that part.
pub proof fn lemma_comma_join_push(parts: Seq<Seq<char>>, x: Seq<char>)
    ensures
        comma_join(parts.push(x)) == if parts.len() == 0 {
            x
        } else {
            comma_join(parts) + seq![',', ' '] + x
        },
    decreases parts.len(),
{
    let p2 = parts.push(x);
    if parts.len() == 0 {
        assert(p2[0] == x);
    } else {
        assert(p2[0] == parts[0]);
        assert(p2.drop_first() =~= parts.drop_first().push(x));
        lemma_comma_join_push(parts.drop_first(), x);
        if parts.len() == 1 {
            assert(comma_join(p2.drop_first()) == x);
        } else {
            assert(comma_join(p2) =~= comma_join(parts) + seq![',', ' '] + x);
        }
    }
}

/// The comma-separated list of the tokens, each in double quotes: the literal
/// body of a rendered token array.
pub fn quote_join(tokens: &Vec<String>) -> (r: String)
    ensures
        r@ == comma_join(quoted_all(views_of(tokens@))),
{
    let ghost qa = quoted_all(views_of(tokens@));
    let mut r = String::new();
    let mut i: usize = 0;
    while i < tokens.len()
        invariant
            qa == quoted_all(views_of(tokens@)),
            qa.len() == tokens@.len(),
            i <= tokens@.len(),
            r@ == comma_join(qa.take(i as int)),
        decreases tokens@.len() - i,
    {
        if i > 0 {
            r.append(", ");
        }
        r.append("\"");
        r.append(tokens[i].as_str());
        r.append("\"");
        proof {
            reveal_strlit(", ");
            reveal_strlit("\"");
            assert((", ")@ =~= seq![',', ' ']);
            assert(("\"")@ =~= seq!['"']);
            assert(qa[i as int] == quoted(tokens@[i as int]@));
            lemma_comma_join_push(qa.take(i as int), qa[i as int]);
            assert(qa.take(i as int).push(qa[i as int]) =~= qa.take(i + 1 as int));
            assert(r@ =~= comma_join(qa.take(i + 1 as int)));
        }
        i += 1;
    }
    proof {
        assert(qa.take(tokens@.len() as int) =~= qa);
    }
    r
}

} // verus!
