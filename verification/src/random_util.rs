//! Random session names and bearer secrets.
//!
//! A session name is three dictionary words joined by spaces; a secret is a
//! 16-character alphanumeric bearer token. Randomness comes from the `rand`
//! crate behind two small trusted wrappers; everything assembled from the
//! drawn values is verified.

use rand::Rng;
use vstd::prelude::*;
use vstd::string::StringExecFns;

verus! {

/// How many words each of the three name lists holds.
pub const WORDS_PER_LIST: usize = 6;

/// A character allowed in a secret token: ASCII alphanumeric.
pub open spec fn is_token_char(c: char) -> bool {
    (97 <= c as u32 && c as u32 <= 122) || (65 <= c as u32 && c as u32 <= 90) || (48 <= c as u32
        && c as u32 <= 57)
}

/// A well-shaped secret: 16 alphanumeric characters.
pub open spec fn is_secret_token(s: Seq<char>) -> bool {
    s.len() == 16 && forall|i: int| 0 <= i < s.len() ==> is_token_char(s[i])
}

/// Relies on rand's `Alphanumeric` distribution: each sampled byte is one of
/// `a`-`z`, `A`-`Z`, `0`-`9`, so sixteen samples form a 16-character
/// alphanumeric token.
#[verifier::external_body]
pub(crate) fn generate_secret() -> (r: String)
    ensures
        is_secret_token(r@),
{
    rand::thread_rng().sample_iter(&rand::distributions::Alphanumeric).take(16).map(
        char::from,
    ).collect()
}

/// Relies on rand's `Rng::gen_range`: a uniformly drawn index strictly below
/// `n`.
#[verifier::external_body]
fn random_below(n: usize) -> (r: usize)
    requires
        1 <= n,
    ensures
        r < n,
{
    rand::thread_rng().gen_range(0..n)
}

pub open spec fn spec_first_word(i: int) -> Seq<char> {
    if i == 0 {
        "red"@
    } else if i == 1 {
        "blue"@
    } else if i == 2 {
        "green"@
    } else if i == 3 {
        "amber"@
    } else if i == 4 {
        "ivory"@
    } else {
        "slate"@
    }
}

pub open spec fn spec_second_word(i: int) -> Seq<char> {
    if i == 0 {
        "fox"@
    } else if i == 1 {
        "owl"@
    } else if i == 2 {
        "lynx"@
    } else if i == 3 {
        "crane"@
    } else if i == 4 {
        "otter"@
    } else {
        "heron"@
    }
}

pub open spec fn spec_third_word(i: int) -> Seq<char> {
    if i == 0 {
        "jumps"@
    } else if i == 1 {
        "waits"@
    } else if i == 2 {
        "drifts"@
    } else if i == 3 {
        "listens"@
    } else if i == 4 {
        "glides"@
    } else {
        "hums"@
    }
}

/// A name candidate: one word from each list, space-joined.
pub open spec fn spec_name_of(i: int, j: int, k: int) -> Seq<char> {
    spec_first_word(i) + " "@ + spec_second_word(j) + " "@ + spec_third_word(k)
}

pub fn first_word(i: usize) -> (r: &'static str)
    requires
        i < WORDS_PER_LIST,
    ensures
        r@ == spec_first_word(i as int),
{
    if i == 0 {
        "red"
    } else if i == 1 {
        "blue"
    } else if i == 2 {
        "green"
    } else if i == 3 {
        "amber"
    } else if i == 4 {
        "ivory"
    } else {
        "slate"
    }
}

pub fn second_word(i: usize) -> (r: &'static str)
    requires
        i < WORDS_PER_LIST,
    ensures
        r@ == spec_second_word(i as int),
{
    if i == 0 {
        "fox"
    } else if i == 1 {
        "owl"
    } else if i == 2 {
        "lynx"
    } else if i == 3 {
        "crane"
    } else if i == 4 {
        "otter"
    } else {
        "heron"
    }
}

pub fn third_word(i: usize) -> (r: &'static str)
    requires
        i < WORDS_PER_LIST,
    ensures
        r@ == spec_third_word(i as int),
{
    if i == 0 {
        "jumps"
    } else if i == 1 {
        "waits"
    } else if i == 2 {
        "drifts"
    } else if i == 3 {
        "listens"
    } else if i == 4 {
        "glides"
    } else {
        "hums"
    }
}

/// Generates a random name candidate consisting of three words from the
/// word lists.
pub fn generate_name() -> (r: String)
    ensures
        exists|i: int, j: int, k: int|
            0 <= i < WORDS_PER_LIST && 0 <= j < WORDS_PER_LIST && 0 <= k < WORDS_PER_LIST && r@
                == spec_name_of(i, j, k),
{
    let i = random_below(WORDS_PER_LIST);
    let j = random_below(WORDS_PER_LIST);
    let k = random_below(WORDS_PER_LIST);
    let mut s = String::new();
    s.append(first_word(i));
    s.append(" ");
    s.append(second_word(j));
    s.append(" ");
    s.append(third_word(k));
    proof {
        assert(s@ =~= spec_name_of(i as int, j as int, k as int));
    }
    s
}

} // verus!
