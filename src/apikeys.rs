use vstd::prelude::*;

use crate::text::{
    lemma_lex_asymmetric, lemma_lex_total, lemma_lex_transitive, lex_less, lex_lt, split_words,
    to_chars, words,
};

verus! {

/// The claims of a token issued by the key service.
pub struct Claims {
    pub iss: String,
    pub aud: String,
    pub sub: String,
    pub email: String,
    pub scope: String,
    pub iat: i64,
    pub exp: i64,
    pub jti: String,
}

impl Claims {
    /// The scopes granted, listed in `scope` separated by whitespace.
    pub fn scopes(&self) -> (r: Vec<String>)
        ensures
            r@.map_values(|s: String| s@) == words(self.scope@),
    {
        split_words(self.scope.as_str())
    }
}

/// Where the key service keeps its database (a file system path).
pub struct DatabaseConfig {
    pub path: String,
}

/// Token and key settings of the key service.
pub struct SecurityConfig {
    pub jwt_secret: String,
    pub jwt_issuer: String,
    pub jwt_audience: String,
    pub jwt_expiry_minutes: i64,
    pub default_scopes: Vec<String>,
    pub default_api_key_prefix: String,
}

impl SecurityConfig {
    pub fn default_issuer() -> (r: String)
        ensures
            r@ == "maid.apikeys"@,
    {
        String::from_str("maid.apikeys")
    }

    pub fn default_audience() -> (r: String)
        ensures
            r@ == "maid.clients"@,
    {
        String::from_str("maid.clients")
    }

    /// Tokens expire after an hour unless configured otherwise.
    pub fn default_expiry() -> (r: i64)
        ensures
            r == 60,
    {
        60
    }

    pub fn default_scopes() -> (r: Vec<String>)
        ensures
            r@.map_values(|s: String| s@) == seq!["read:loadtests"@, "write:loadtests"@],
    {
        let mut v: Vec<String> = Vec::new();
        v.push(String::from_str("read:loadtests"));
        v.push(String::from_str("write:loadtests"));
        assert(v@.map_values(|s: String| s@) =~= seq!["read:loadtests"@, "write:loadtests"@]);
        v
    }

    pub fn default_key_prefix() -> (r: String)
        ensures
            r@ == "maid_live_"@,
    {
        String::from_str("maid_live_")
    }
}

/// The fields of a user to create.
pub struct NewUser<'a> {
    pub email: &'a str,
    pub password: &'a str,
    pub display_name: Option<&'a str>,
    pub scopes: &'a [String],
    pub roles: &'a [String],
}

/// Why the key service refused a request.
#[derive(Debug)]
pub enum ApiError {
    Validation(String),
    Unauthorized(String),
    Conflict(String),
    Internal(String),
}

/// The characters of each string.
pub open spec fn texts(v: Seq<String>) -> Seq<Seq<char>> {
    v.map_values(|s: String| s@)
}

/// Each element sorts strictly before the next (so none repeats).
pub open spec fn strictly_sorted(v: Seq<Seq<char>>) -> bool {
    forall|p: int, q: int| 0 <= p < q < v.len() ==> lex_lt(#[trigger] v[p], #[trigger] v[q])
}

proof fn lemma_push_contains(prev: Seq<Seq<char>>, x: Seq<char>)
    ensures
        forall|t: Seq<char>| prev.push(x).contains(t) <==> (prev.contains(t) || t == x),
{
    assert forall|t: Seq<char>| prev.push(x).contains(t) <==> (prev.contains(t) || t == x) by {
        if prev.contains(t) {
            let w = choose|w: int| 0 <= w < prev.len() && prev[w] == t;
            assert(prev.push(x)[w] == t);
        }
        if t == x {
            assert(prev.push(x)[prev.len() as int] == t);
        }
        if prev.push(x).contains(t) {
            let w = choose|w: int| 0 <= w < prev.len() + 1 && prev.push(x)[w] == t;
            if w < prev.len() {
                assert(prev[w] == t);
            }
        }
    }
}

/// Adds `s` to the sorted, duplicate-free `r` unless it is there already.
/// `keys` holds the characters of each element of `r`.
fn insert_sorted(r: &mut Vec<String>, keys: &mut Vec<Vec<char>>, s: &String)
    requires
        strictly_sorted(texts(old(r)@)),
        old(keys)@.len() == old(r)@.len(),
        forall|p: int| 0 <= p < old(r)@.len() ==> (#[trigger] old(keys)@[p])@ == old(r)@[p]@,
    ensures
        strictly_sorted(texts(final(r)@)),
        final(keys)@.len() == final(r)@.len(),
        forall|p: int| 0 <= p < final(r)@.len() ==> (#[trigger] final(keys)@[p])@ == final(r)@[p]@,
        forall|t: Seq<char>|
            texts(final(r)@).contains(t) <==> (texts(old(r)@).contains(t) || t == s@),
{
    let c = to_chars(s.as_str());
    let ghost before = texts(r@);
    let mut pos: usize = 0;
    while pos < r.len() && lex_less(&keys[pos], &c)
        invariant
            keys@.len() == r@.len(),
            forall|p: int| 0 <= p < r@.len() ==> (#[trigger] keys@[p])@ == r@[p]@,
            before == texts(r@),
            c@ == s@,
            pos <= r@.len(),
            forall|p: int| 0 <= p < pos ==> lex_lt(#[trigger] before[p], c@),
        decreases r@.len() - pos,
    {
        pos = pos + 1;
    }
    if pos < r.len() && r[pos] == *s {
        assert(before[pos as int] == s@);
        return;
    }
    proof {
        if pos < r@.len() {
            lemma_lex_total(before[pos as int], c@);
            assert forall|q: int| pos <= q < before.len() implies lex_lt(s@, #[trigger] before[q]) by {
                if q > pos {
                    lemma_lex_transitive(s@, before[pos as int], before[q]);
                }
            }
        }
    }
    r.insert(pos, s.clone());
    keys.insert(pos, c);
    let ghost after = texts(r@);
    assert(after =~= before.insert(pos as int, s@));
    assert forall|p: int, q: int| 0 <= p < q < after.len() implies lex_lt(
        #[trigger] after[p],
        #[trigger] after[q],
    ) by {
        if q < pos {
        } else if q == pos {
        } else if p < pos {
            assert(after[q] == before[q - 1]);
            assert(lex_lt(s@, before[q - 1]));
            lemma_lex_transitive(after[p], s@, after[q]);
        } else if p == pos {
            assert(after[q] == before[q - 1]);
            assert(lex_lt(s@, before[q - 1]));
        } else {
            assert(after[p] == before[p - 1] && after[q] == before[q - 1]);
        }
    }
    assert forall|p: int| 0 <= p < r@.len() implies (#[trigger] keys@[p])@ == r@[p]@ by {
        if p > pos {
            assert(keys@[p] == old(keys)@[p - 1]);
        }
    }
    assert forall|t: Seq<char>| after.contains(t) <==> (before.contains(t) || t == s@) by {
        if after.contains(t) {
            let w = choose|w: int| 0 <= w < after.len() && after[w] == t;
            if w < pos {
                assert(before[w] == t);
            } else if w > pos {
                assert(before[w - 1] == t);
            }
        }
        if before.contains(t) {
            let w = choose|w: int| 0 <= w < before.len() && before[w] == t;
            if w < pos {
                assert(after[w] == t);
            } else {
                assert(after[w + 1] == t);
            }
        }
        if t == s@ {
            assert(after[pos as int] == t);
        }
    }
}

/// The scopes of both lists, each once, in `str`'s order.
pub fn merge_scopes(default: &[String], provided: &[String]) -> (r: Vec<String>)
    ensures
        strictly_sorted(texts(r@)),
        forall|t: Seq<char>|
            texts(r@).contains(t) <==> (texts(default@).contains(t) || texts(provided@).contains(t)),
{
    let mut r: Vec<String> = Vec::new();
    let mut keys: Vec<Vec<char>> = Vec::new();
    let mut i: usize = 0;
    while i < default.len()
        invariant
            i <= default@.len(),
            strictly_sorted(texts(r@)),
            keys@.len() == r@.len(),
            forall|p: int| 0 <= p < r@.len() ==> (#[trigger] keys@[p])@ == r@[p]@,
            forall|t: Seq<char>|
                texts(r@).contains(t) <==> texts(default@.subrange(0, i as int)).contains(t),
        decreases default@.len() - i,
    {
        let ghost prev = texts(default@.subrange(0, i as int));
        let ghost old_r = r@;
        insert_sorted(&mut r, &mut keys, &default[i]);
        assert(texts(default@.subrange(0, i + 1)) =~= prev.push(default@[i as int]@));
        proof {
            lemma_push_contains(prev, default@[i as int]@);
            assert forall|t: Seq<char>| texts(r@).contains(t) <==> texts(
                default@.subrange(0, i + 1),
            ).contains(t) by {
                assert(texts(old_r).contains(t) <==> prev.contains(t));
            }
        }
        i = i + 1;
    }
    assert(default@.subrange(0, i as int) =~= default@);
    let mut j: usize = 0;
    while j < provided.len()
        invariant
            j <= provided@.len(),
            strictly_sorted(texts(r@)),
            keys@.len() == r@.len(),
            forall|p: int| 0 <= p < r@.len() ==> (#[trigger] keys@[p])@ == r@[p]@,
            forall|t: Seq<char>|
                texts(r@).contains(t) <==> (texts(default@).contains(t) || texts(
                    provided@.subrange(0, j as int),
                ).contains(t)),
        decreases provided@.len() - j,
    {
        let ghost prev = texts(provided@.subrange(0, j as int));
        insert_sorted(&mut r, &mut keys, &provided[j]);
        assert(texts(provided@.subrange(0, j + 1)) =~= prev.push(provided@[j as int]@));
        proof {
            lemma_push_contains(prev, provided@[j as int]@);
        }
        j = j + 1;
    }
    assert(provided@.subrange(0, j as int) =~= provided@);
    r
}

} // verus!
