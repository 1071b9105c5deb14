//! Title Resolver decisions: choosing the candidate title, reading the answer
//! to the confirmation question, and turning the finally accepted title into
//! a slug.

use crate::extract::extract_spec;
use vstd::prelude::*;

verus! {

/// What `slug::slugify` returns for a given text. The transform is a fixed
/// function of the characters alone, so it is named here rather than
/// restated.
pub uninterp spec fn slug_of(s: Seq<char>) -> Seq<char>;

/// A character a slug may contain: a lowercase ASCII letter, a digit, or a
/// hyphen — never a path separator.
pub open spec fn is_slug_char(c: char) -> bool {
    ('a' <= c && c <= 'z') || ('0' <= c && c <= '9') || c == '-'
}

/// Relies on slug::slugify: the result depends on the input text alone and
/// consists only of ASCII lowercase letters, digits and hyphens.
#[verifier::external_body]
pub(crate) fn slugify(title: &str) -> (r: String)
    ensures
        r@ == slug_of(title@),
        forall|k: int| 0 <= k < r@.len() ==> is_slug_char(r@[k]),
{
    slug::slugify(title)
}

/// The candidate title: the override when one was supplied, else the first
/// heading of the drafted text, else nothing.
pub open spec fn candidate_spec(
    content: Seq<char>,
    override_title: Option<Seq<char>>,
) -> Option<Seq<char>> {
    match override_title {
        Some(t) => Some(t),
        None => extract_spec(content),
    }
}

/// The three outcomes of one round of the confirmation question.
#[derive(Clone, Copy, PartialEq, Eq, Structural, Debug)]
pub enum Answer {
    /// Keep the candidate title as it stands.
    KeepCandidate,
    /// Ask the user for a brand-new title.
    WantsNewTitle,
    /// The reply meant neither: ask the same question again.
    AskAgain,
}

/// Meaning of a reply to "different title? (y/N)": `y` or `Y` asks for a new
/// title, an empty reply or `n` or `N` keeps the candidate (the capital N is
/// the default), and anything else repeats the question.
pub open spec fn answer_spec(r: Seq<char>) -> Answer {
    if r == seq!['y'] || r == seq!['Y'] {
        Answer::WantsNewTitle
    } else if r.len() == 0 || r == seq!['n'] || r == seq!['N'] {
        Answer::KeepCandidate
    } else {
        Answer::AskAgain
    }
}

/// Classify one reply to the yes/no confirmation question.
pub fn classify_answer(reply: &str) -> (a: Answer)
    ensures
        a == answer_spec(reply@),
{
    let n = reply.unicode_len();
    if n == 0 {
        Answer::KeepCandidate
    } else if n == 1 {
        let c = reply.get_char(0);
        if c == 'y' || c == 'Y' {
            proof {
                if c == 'y' {
                    assert(reply@ =~= seq!['y']);
                } else {
                    assert(reply@ =~= seq!['Y']);
                }
            }
            Answer::WantsNewTitle
        } else if c == 'n' || c == 'N' {
            proof {
                if c == 'n' {
                    assert(reply@ =~= seq!['n']);
                } else {
                    assert(reply@ =~= seq!['N']);
                }
            }
            Answer::KeepCandidate
        } else {
            Answer::AskAgain
        }
    } else {
        Answer::AskAgain
    }
}

} // verus!
