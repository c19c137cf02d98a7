//! Text utilities for the game protocol: answer hints and answer
//! normalization.

use vstd::prelude::*;
use vstd::string::StrSliceExecFns;
use vstd::string::StringExecFns;

verus! {

/// Whether a character counts as alphanumeric under Unicode rules.
pub uninterp spec fn is_alphanum(c: char) -> bool;

/// Relies on char::is_alphanumeric: the Unicode alphanumeric property of the
/// character alone.
#[verifier::external_body]
fn char_is_alphanumeric(c: char) -> (r: bool)
    ensures
        r == is_alphanum(c),
{
    c.is_alphanumeric()
}

/// Relies on String implementing FromIterator<char>: the resulting string
/// holds exactly the given characters, in order.
#[verifier::external_body]
fn string_from_chars(v: &Vec<char>) -> (r: String)
    ensures
        r@ == v@,
{
    v.iter().collect()
}

/// The hint shown to guessers: every alphanumeric character of the answer is
/// masked with an underscore, spaces and punctuation stay visible.
pub open spec fn hint_of(s: Seq<char>) -> Seq<char> {
    Seq::new(s.len(), |i: int| if is_alphanum(s[i]) { '_' } else { s[i] })
}

/// Builds the masked hint of an answer: alphanumeric characters become `_`,
/// all other characters are kept.
pub fn make_hint(answer: &str) -> (r: String)
    ensures
        r@ == hint_of(answer@),
{
    let n = answer.unicode_len();
    let mut out: Vec<char> = Vec::new();
    let mut i: usize = 0;
    while i < n
        invariant
            n == answer@.len(),
            i <= n,
            out@ == hint_of(answer@).subrange(0, i as int),
        decreases n - i,
    {
        let c = answer.get_char(i);
        if char_is_alphanumeric(c) {
            out.push('_');
        } else {
            out.push(c);
        }
        i += 1;
        proof {
            assert(out@ =~= hint_of(answer@).subrange(0, i as int));
        }
    }
    proof {
        assert(out@ =~= hint_of(answer@));
    }
    string_from_chars(&out)
}

/// The lowercase form of a character sequence, under Unicode case mapping.
pub uninterp spec fn lower_of(s: Seq<char>) -> Seq<char>;

/// Relies on str::to_lowercase: the result depends on the characters alone.
#[verifier::external_body]
pub(crate) fn lowercase(s: &str) -> (r: String)
    ensures
        r@ == lower_of(s@),
{
    s.to_lowercase()
}

/// The sequence with leading and trailing whitespace removed.
pub uninterp spec fn trim_of(s: Seq<char>) -> Seq<char>;

/// Relies on str::trim: strips leading and trailing whitespace, a function of
/// the characters alone.
#[verifier::external_body]
pub(crate) fn trim(s: &str) -> (r: &str)
    ensures
        r@ == trim_of(s@),
{
    s.trim()
}

/// The normalized form in which a guess is compared to the secret answer:
/// trimmed, then lowercased.
pub open spec fn normalized(s: Seq<char>) -> Seq<char> {
    lower_of(trim_of(s))
}

/// Trims and lowercases a guess.
pub fn normalize(s: &str) -> (r: String)
    ensures
        r@ == normalized(s@),
{
    lowercase(trim(s))
}

/// A notice of the form `<name><suffix>`, such as `<name> joined`.
pub fn name_msg(name: &String, suffix: &str) -> (r: String)
    ensures
        r@ == name@ + suffix@,
{
    name.clone().concat(suffix)
}

/// The notice broadcast when a round ends and its answer is revealed.
pub open spec fn answer_was_msg(answer: Seq<char>) -> Seq<char> {
    "The answer was \""@ + answer + "\""@
}

/// Builds the round-end notice that reveals the answer.
pub fn make_answer_was_msg(answer: &String) -> (r: String)
    ensures
        r@ == answer_was_msg(answer@),
{
    let head = String::from_str("The answer was \"");
    let with_answer = head.concat(answer.as_str());
    with_answer.concat("\"")
}

} // verus!
