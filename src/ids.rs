//! Random identifiers: instance ids, host-communication tokens and container
//! names, each drawn again while it collides with the values already in use.

use vstd::prelude::*;

use crate::instance::Error;
use rand::Rng;

verus! {

/// Attempts allowed for drawing an instance id that is not in use.
pub const MAX_UUID_GEN_ITER: usize = 128;

/// Attempts allowed for drawing a token that is not in use.
pub const MAX_TOKEN_GEN_ITER: usize = 128;

/// Characters in a host-communication token.
pub const TOKEN_LEN: usize = 64;

/// Random characters after the prefix of a container name.
pub const CONTAINER_NAME_SUFFIX_LEN: usize = 48;

/// ASCII letters and digits.
pub open spec fn is_alphanumeric(c: char) -> bool {
    ('a' <= c && c <= 'z') || ('A' <= c && c <= 'Z') || ('0' <= c && c <= '9')
}

/// The character sequences of a list of strings.
pub open spec fn views(v: Seq<String>) -> Seq<Seq<char>> {
    v.map_values(|s: String| s@)
}

/// A lower-case hexadecimal digit.
pub open spec fn is_lower_hex(c: char) -> bool {
    ('0' <= c && c <= '9') || ('a' <= c && c <= 'f')
}

/// `s` is a version-4 UUID of the RFC 4122 variant in hyphenated lower-case
/// form: hyphens at 8, 13, 18 and 23, the version digit `4` at 14, the
/// variant digit at 19 one of `8`, `9`, `a`, `b`, and hex digits elsewhere.
pub open spec fn is_uuid_v4_text(s: Seq<char>) -> bool {
    &&& s.len() == 36
    &&& s[8] == '-' && s[13] == '-' && s[18] == '-' && s[23] == '-'
    &&& s[14] == '4'
    &&& (s[19] == '8' || s[19] == '9' || s[19] == 'a' || s[19] == 'b')
    &&& forall|i: int|
        0 <= i < 36 && i != 8 && i != 13 && i != 18 && i != 23 ==> is_lower_hex(#[trigger] s[i])
}

/// Relies on uuid::Uuid::new_v4 and its Display impl: random bits with the
/// version and variant bits set, written in hyphenated lower-case form.
#[verifier::external_body]
fn random_uuid() -> (r: String)
    ensures
        is_uuid_v4_text(r@),
{
    uuid::Uuid::new_v4().to_string()
}

/// Relies on rand's thread_rng sampled with rand::distributions::Alphanumeric:
/// `len` characters, each an ASCII letter or digit.
#[verifier::external_body]
fn random_alphanumeric(len: usize) -> (r: String)
    ensures
        r@.len() == len,
        forall|i: int| 0 <= i < r@.len() ==> is_alphanumeric(#[trigger] r@[i]),
{
    rand::thread_rng().sample_iter(&rand::distributions::Alphanumeric).take(len).map(char::from).collect()
}

/// Whether `s` is one of the strings of `v`.
pub fn contains_str(v: &Vec<String>, s: &String) -> (r: bool)
    ensures
        r == views(v@).contains(s@),
{
    let mut i: usize = 0;
    while i < v.len()
        invariant
            0 <= i <= v.len(),
            forall|j: int| 0 <= j < i ==> v@[j]@ != s@,
        decreases v.len() - i,
    {
        if v[i].eq(s) {
            assert(views(v@)[i as int] == s@);
            return true;
        }
        i += 1;
    }
    assert(!views(v@).contains(s@)) by {
        if views(v@).contains(s@) {
            let k = choose|k: int| 0 <= k < views(v@).len() && views(v@)[k] == s@;
            assert(v@[k]@ == s@);
        }
    }
    false
}

/// How many of `n` candidates are tried.
pub open spec fn attempts(n: int) -> int {
    if n < MAX_UUID_GEN_ITER as int { n } else { MAX_UUID_GEN_ITER as int }
}

/// The first of the attempted candidates that is not taken: the candidates
/// stand for successive random draws.
pub fn first_unique(candidates: &Vec<String>, taken: &Vec<String>) -> (r: Result<String, Error>)
    ensures
        match r {
            Ok(s) => exists|i: int|
                0 <= i < attempts(candidates@.len() as int) && s == candidates@[i]
                    && !views(taken@).contains(s@)
                    && forall|j: int| 0 <= j < i ==> views(taken@).contains(#[trigger] candidates@[j]@),
            Err(e) => e == Error::ExhaustedUniqueIds && forall|j: int|
                0 <= j < attempts(candidates@.len() as int) ==> views(taken@).contains(
                    #[trigger] candidates@[j]@,
                ),
        },
{
    let mut i: usize = 0;
    while i < candidates.len() && i < MAX_UUID_GEN_ITER
        invariant
            0 <= i <= attempts(candidates@.len() as int),
            forall|j: int| 0 <= j < i ==> views(taken@).contains(#[trigger] candidates@[j]@),
        decreases candidates.len() - i,
    {
        if !contains_str(taken, &candidates[i]) {
            return Ok(candidates[i].clone());
        }
        i += 1;
    }
    Err(Error::ExhaustedUniqueIds)
}

/// One attempt of a bounded retry: the `n`-th of `bound` draws, `c`, is
/// kept where it is none of `keys`; otherwise another draw follows, unless
/// this was the last one allowed.
pub fn next_attempt(n: usize, bound: usize, keys: &Vec<String>, c: String) -> (r: Result<Option<String>, Error>)
    requires
        n < bound,
    ensures
        !views(keys@).contains(c@) ==> r == Ok::<Option<String>, Error>(Some(c)),
        views(keys@).contains(c@) && n + 1 < bound ==> r == Ok::<Option<String>, Error>(None),
        views(keys@).contains(c@) && n + 1 >= bound ==> r == Err::<Option<String>, Error>(
            Error::ExhaustedUniqueIds,
        ),
{
    if !contains_str(keys, &c) {
        Ok(Some(c))
    } else if n + 1 < bound {
        Ok(None)
    } else {
        Err(Error::ExhaustedUniqueIds)
    }
}

/// Where `c` has a length that no string of `keys` has, it is none of them.
proof fn lemma_other_length_absent(keys: Seq<String>, c: Seq<char>)
    requires
        forall|i: int| 0 <= i < keys.len() ==> (#[trigger] keys[i])@.len() != c.len(),
    ensures
        !views(keys).contains(c),
{
    if views(keys).contains(c) {
        let k = choose|k: int| 0 <= k < views(keys).len() && views(keys)[k] == c;
        assert(keys[k]@ == c);
    }
}

/// A random instance id that is none of `keys`, drawn at most
/// `MAX_UUID_GEN_ITER` times, each draw judged by `next_attempt`. Where no
/// string of `keys` has the length of an id, the first draw is kept.
pub fn unique_id(keys: Vec<String>) -> (r: Result<String, Error>)
    ensures
        match r {
            Ok(id) => !views(keys@).contains(id@) && is_uuid_v4_text(id@),
            Err(e) => e == Error::ExhaustedUniqueIds,
        },
        (forall|i: int| 0 <= i < keys@.len() ==> (#[trigger] keys@[i])@.len() != 36) ==> r is Ok,
{
    let mut n: usize = 0;
    loop
        invariant
            n < MAX_UUID_GEN_ITER,
        decreases MAX_UUID_GEN_ITER - n,
    {
        let candidate = random_uuid();
        let ghost drawn = candidate@;
        match next_attempt(n, MAX_UUID_GEN_ITER, &keys, candidate) {
            Ok(Some(id)) => return Ok(id),
            Ok(None) => {
                n += 1;
            },
            Err(e) => {
                proof {
                    if forall|i: int| 0 <= i < keys@.len() ==> (#[trigger] keys@[i])@.len() != 36 {
                        lemma_other_length_absent(keys@, drawn);
                    }
                }
                return Err(e);
            },
        }
    }
}

/// A random token of `TOKEN_LEN` letters and digits that is none of `keys`,
/// drawn at most `MAX_TOKEN_GEN_ITER` times, each draw judged by
/// `next_attempt`. Where no string of `keys` has the length of a token, the
/// first draw is kept.
pub fn unique_token(keys: Vec<String>) -> (r: Result<String, Error>)
    ensures
        match r {
            Ok(t) => !views(keys@).contains(t@) && t@.len() == TOKEN_LEN
                && forall|i: int| 0 <= i < t@.len() ==> is_alphanumeric(#[trigger] t@[i]),
            Err(e) => e == Error::ExhaustedUniqueIds,
        },
        (forall|i: int| 0 <= i < keys@.len() ==> (#[trigger] keys@[i])@.len() != TOKEN_LEN) ==> r is Ok,
{
    let mut n: usize = 0;
    loop
        invariant
            n < MAX_TOKEN_GEN_ITER,
        decreases MAX_TOKEN_GEN_ITER - n,
    {
        let candidate = random_alphanumeric(TOKEN_LEN);
        let ghost drawn = candidate@;
        match next_attempt(n, MAX_TOKEN_GEN_ITER, &keys, candidate) {
            Ok(Some(t)) => return Ok(t),
            Ok(None) => {
                n += 1;
            },
            Err(e) => {
                proof {
                    if forall|i: int| 0 <= i < keys@.len() ==> (#[trigger] keys@[i])@.len() != TOKEN_LEN {
                        lemma_other_length_absent(keys@, drawn);
                    }
                }
                return Err(e);
            },
        }
    }
}

/// A random container name: `vk-` followed by `CONTAINER_NAME_SUFFIX_LEN`
/// letters and digits.
pub fn new_container_name() -> (r: String)
    ensures
        r@.len() == 3 + CONTAINER_NAME_SUFFIX_LEN,
        r@.subrange(0, 3) == "vk-"@,
        forall|i: int| 3 <= i < r@.len() ==> is_alphanumeric(#[trigger] r@[i]),
{
    let suffix = random_alphanumeric(CONTAINER_NAME_SUFFIX_LEN);
    let mut name = String::from_str("vk-");
    name.append(suffix.as_str());
    proof {
        reveal_strlit("vk-");
        assert(name@.subrange(0, 3) =~= "vk-"@);
        assert forall|i: int| 3 <= i < name@.len() implies is_alphanumeric(#[trigger] name@[i]) by {
            assert(name@[i] == suffix@[i - 3]);
        }
    }
    name
}

/// Values each drawn so that it differs from all the values drawn before it
/// are pairwise distinct, however many were drawn.
pub proof fn lemma_generated_distinct(vals: Seq<Seq<char>>)
    requires
        forall|i: int| 0 <= i < vals.len() ==> !#[trigger] vals.subrange(0, i).contains(vals[i]),
    ensures
        forall|i: int, j: int| 0 <= i < j < vals.len() ==> vals[i] != vals[j],
{
    assert forall|i: int, j: int| 0 <= i < j < vals.len() implies vals[i] != vals[j] by {
        assert(vals.subrange(0, j)[i] == vals[i]);
        assert(!vals.subrange(0, j).contains(vals[j]));
    }
}

} // verus!
