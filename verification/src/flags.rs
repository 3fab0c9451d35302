//! The flag and the administrator cookie, drawn at random when the challenge is set up.
use vstd::prelude::*;
use vstd::string::*;

use rand::distributions::Alphanumeric;
use rand::{thread_rng, Rng};

verus! {

/// Whether `c` is an ASCII letter or digit.
pub open spec fn is_alphanumeric(c: char) -> bool {
    ('0' <= c && c <= '9') || ('A' <= c && c <= 'Z') || ('a' <= c && c <= 'z')
}

/// Whether `s` is `n` ASCII letters and digits.
pub open spec fn is_random_text(s: Seq<char>, n: nat) -> bool {
    s.len() == n && forall|i: int| 0 <= i < s.len() ==> is_alphanumeric(#[trigger] s[i])
}

/// The flag whose random part is `suffix`.
pub open spec fn flag_text(suffix: Seq<char>) -> Seq<char> {
    "ECW{iLikePlanes_"@ + suffix + "}"@
}

/// Draws `n` characters with `thread_rng().sample_iter(&Alphanumeric)`.
/// Claimed of it, as the source of `rand` shows: every character is an ASCII letter
/// or digit, and there are `n` of them. Which ones come out is left open.
#[verifier::external_body]
fn get_rand_string(n: usize) -> (r: String)
    ensures
        is_random_text(r@, n as nat),
{
    thread_rng().sample_iter(&Alphanumeric).take(n).map(char::from).collect()
}

/// The flag with the random part `suffix`.
pub fn flag_with(suffix: &str) -> (r: String)
    ensures
        r@ == flag_text(suffix@),
{
    let mut r = String::from_str("ECW{iLikePlanes_");
    r.append(suffix);
    r.append("}");
    r
}

/// Draws a fresh flag: a fixed frame around ten random letters and digits.
pub fn build_flag() -> (r: String)
    ensures
        exists|s: Seq<char>| is_random_text(s, 10) && r@ == flag_text(s),
{
    let suffix = get_rand_string(10);
    flag_with(suffix.as_str())
}

/// Draws a fresh administrator cookie: ten random letters and digits.
pub fn build_cookie() -> (r: String)
    ensures
        is_random_text(r@, 10),
{
    get_rand_string(10)
}

} // verus!
