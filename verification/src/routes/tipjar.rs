//! Tip jar requests.

use vstd::prelude::*;

verus! {

/// The body of a request that changes the amount of a tip.
pub struct TipjarPutArgs<'r> {
    pub client_secret: &'r str,
    pub amount: i64,
}

/// The query that the payment provider redirects to after a payment.
pub struct StripeResponse<'r> {
    pub payment_intent: &'r str,
}

/// The first index at or after `from` where `s` holds `c`, or `s.len()`.
pub open spec fn index_of_from(s: Seq<char>, c: char, from: int) -> int
    decreases s.len() - from,
{
    if from >= s.len() || from < 0 {
        s.len() as int
    } else if s[from] == c {
        from
    } else {
        index_of_from(s, c, from + 1)
    }
}

/// A `c` at or after `from` is found there or earlier.
proof fn lemma_index_of_found(s: Seq<char>, c: char, from: int, j: int)
    requires
        0 <= from <= j < s.len(),
        s[j] == c,
    ensures
        from <= index_of_from(s, c, from) <= j,
    decreases j - from,
{
    if s[from] != c {
        lemma_index_of_found(s, c, from + 1, j);
    }
}

/// The payment intent id inside a client secret: the secret up to its second
/// `_` (exclusive), i.e. its first two `_`-separated parts joined by `_`.
pub open spec fn spec_intent_id(secret: Seq<char>) -> Seq<char> {
    secret.take(index_of_from(secret, '_', index_of_from(secret, '_', 0) + 1))
}

/// The inputs `intent_id_from_client_secret` accepts: secrets with at least
/// two `_`-separated parts.
pub open spec fn has_two_parts(secret: Seq<char>) -> bool {
    secret.contains('_')
}

/// Index of the first `c` at or after `from` in `s`, or its length.
fn find_char_from(s: &str, c: char, from: usize) -> (i: usize)
    requires
        from <= s@.len(),
    ensures
        i == index_of_from(s@, c, from as int),
        i <= s@.len() <= usize::MAX,
{
    let n = s.unicode_len();
    let mut i: usize = from;
    while i < n
        invariant
            n == s@.len(),
            from <= i <= n,
            index_of_from(s@, c, i as int) == index_of_from(s@, c, from as int),
        decreases n - i,
    {
        if s.get_char(i) == c {
            return i;
        }
        i = i + 1;
    }
    i
}

/// Cuts the payment intent id out of a client secret: its first two
/// `_`-separated parts joined by `_` ("pi_1_secret_2" gives "pi_1").
pub fn intent_id_from_client_secret(client_secret: &str) -> (id: String)
    requires
        has_two_parts(client_secret@),
    ensures
        id@ == spec_intent_id(client_secret@),
{
    let first = find_char_from(client_secret, '_', 0);
    proof {
        assert(client_secret@.contains('_'));
        let j = choose|j: int| 0 <= j < client_secret@.len() && client_secret@[j] == '_';
        lemma_index_of_found(client_secret@, '_', 0, j);
    }
    let second = find_char_from(client_secret, '_', first + 1);
    client_secret.substring_char(0, second).to_owned()
}

/// `index_of_from(s, c, from)` is the first `c` at or after `from`, or `s.len()`.
proof fn lemma_index_of_from(s: Seq<char>, c: char, from: int)
    requires
        0 <= from <= s.len(),
    ensures
        from <= index_of_from(s, c, from) <= s.len(),
        index_of_from(s, c, from) < s.len() ==> s[index_of_from(s, c, from)] == c,
        forall|i: int| from <= i < index_of_from(s, c, from) ==> #[trigger] s[i] != c,
    decreases s.len() - from,
{
    if from < s.len() && s[from] != c {
        lemma_index_of_from(s, c, from + 1);
    }
}

/// The intent id is the start of the secret, holds exactly one `_`, and is
/// followed in the secret by `_` or by nothing.
pub proof fn lemma_intent_id_shape(secret: Seq<char>)
    requires
        has_two_parts(secret),
    ensures
        spec_intent_id(secret).is_prefix_of(secret),
        spec_intent_id(secret).len() == secret.len() || secret[spec_intent_id(secret).len() as int]
            == '_',
        exists|u: int|
            0 <= u < spec_intent_id(secret).len() && spec_intent_id(secret)[u] == '_' && forall|i: int|
                0 <= i < spec_intent_id(secret).len() && i != u ==> #[trigger] spec_intent_id(
                    secret,
                )[i] != '_',
{
    let j = choose|j: int| 0 <= j < secret.len() && secret[j] == '_';
    lemma_index_of_found(secret, '_', 0, j);
    let first = index_of_from(secret, '_', 0);
    lemma_index_of_from(secret, '_', 0);
    lemma_index_of_from(secret, '_', first + 1);
    let id = spec_intent_id(secret);
    assert(id[first] == '_');
    assert forall|i: int| 0 <= i < id.len() && i != first implies #[trigger] id[i] != '_' by {
        assert(id[i] == secret[i]);
    }
}

} // verus!
