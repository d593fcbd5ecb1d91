//! The name of a subscriber.

use crate::domain::error::ValidationError;
use crate::domain::text::{
    char_is_control, chars_of, compare_text, is_control, is_trimmed, lemma_trimmed_fixed,
    lemma_trimmed_is_trimmed, lexicographic, trim, trimmed,
};
use std::cmp::Ordering;
use unicode_segmentation::UnicodeSegmentation;
use vstd::prelude::*;

verus! {

/// The largest number of grapheme clusters that a name may have.
pub const MAX_NAME_GRAPHEMES: usize = 256;

/// The number of extended grapheme clusters of `s`.
pub uninterp spec fn grapheme_count(s: Seq<char>) -> nat;

/// Counts the extended grapheme clusters of `s` with
/// `UnicodeSegmentation::graphemes`. The count depends on the characters of
/// `s` alone. Each cluster holds at least one character, so the count never
/// exceeds the number of characters.
#[verifier::external_body]
fn count_graphemes(s: &str) -> (n: usize)
    ensures
        n == grapheme_count(s@),
        n <= s@.len(),
{
    s.graphemes(true).count()
}

/// The characters that no name may hold: the control codes and a denylist of
/// punctuation.
pub open spec fn is_forbidden(c: char) -> bool {
    ||| is_control(c)
    ||| c == '/'
    ||| c == '('
    ||| c == ')'
    ||| c == '"'
    ||| c == '<'
    ||| c == '>'
    ||| c == '\\'
    ||| c == '{'
    ||| c == '}'
}

/// Whether some character of `s` is forbidden.
pub open spec fn has_forbidden(s: Seq<char>) -> bool {
    exists|i: int| 0 <= i < s.len() && is_forbidden(#[trigger] s[i])
}

/// Why a trimmed name `t` with `graphemes` grapheme clusters is refused, if
/// it is. Emptiness is reported before length, length before a forbidden
/// character.
pub open spec fn name_fault(t: Seq<char>, graphemes: nat) -> Option<ValidationError> {
    if t.len() == 0 {
        Some(ValidationError::EmptyName)
    } else if graphemes > MAX_NAME_GRAPHEMES {
        Some(ValidationError::NameTooLong)
    } else if has_forbidden(t) {
        Some(ValidationError::ForbiddenCharacter)
    } else {
        None
    }
}

/// Why the raw input `raw` is refused as a name, if it is.
pub open spec fn name_verdict(raw: Seq<char>) -> Option<ValidationError> {
    name_fault(trimmed(raw), grapheme_count(trimmed(raw)))
}

/// What every name satisfies: it is trimmed, not empty, within the length
/// limit and free of forbidden characters.
pub open spec fn is_valid_name(s: Seq<char>) -> bool {
    is_trimmed(s) && name_fault(s, grapheme_count(s)) is None
}

/// What is left of an accepted input once it is trimmed is a valid name.
pub proof fn lemma_verdict_valid(raw: Seq<char>)
    requires
        name_verdict(raw) is None,
    ensures
        is_valid_name(trimmed(raw)),
{
    lemma_trimmed_is_trimmed(raw);
}

/// A valid name is accepted as it is: given as input again, it yields
/// itself.
pub proof fn lemma_valid_name_round_trip(name: Seq<char>)
    requires
        is_valid_name(name),
    ensures
        trimmed(name) == name,
        name_verdict(name) is None,
{
    lemma_trimmed_fixed(name);
}

/// An input is accepted exactly if, once trimmed, it is not empty, has at
/// most `MAX_NAME_GRAPHEMES` grapheme clusters and holds no forbidden
/// character.
pub proof fn lemma_verdict_exact(raw: Seq<char>)
    ensures
        name_verdict(raw) is None <==> {
            &&& trimmed(raw).len() > 0
            &&& grapheme_count(trimmed(raw)) <= MAX_NAME_GRAPHEMES
            &&& !has_forbidden(trimmed(raw))
        },
{
}

/// Whether `c` is forbidden in a name.
pub fn char_is_forbidden(c: char) -> (b: bool)
    ensures
        b == is_forbidden(c),
{
    char_is_control(c) || c == '/' || c == '(' || c == ')' || c == '"' || c == '<' || c == '>'
        || c == '\\' || c == '{' || c == '}'
}

/// Whether some character of `s` is forbidden in a name.
pub fn contains_forbidden(s: &str) -> (b: bool)
    ensures
        b == has_forbidden(s@),
{
    let chars = chars_of(s);
    let mut i: usize = 0;
    while i < chars.len()
        invariant
            chars@ == s@,
            i <= chars@.len(),
            forall|j: int| 0 <= j < i ==> !is_forbidden(#[trigger] s@[j]),
        decreases chars@.len() - i,
    {
        if char_is_forbidden(chars[i]) {
            return true;
        }
        i += 1;
    }
    false
}

/// A subscriber's name: trimmed, not empty, at most `MAX_NAME_GRAPHEMES`
/// grapheme clusters long and free of forbidden characters.
#[derive(Debug, Ord)]
pub struct SubscriberName(String);

impl View for SubscriberName {
    type V = Seq<char>;

    closed spec fn view(&self) -> Seq<char> {
        self.0@
    }
}

impl SubscriberName {
    #[verifier::type_invariant]
    spec fn valid(self) -> bool {
        is_valid_name(self.0@)
    }

    /// Why the trimmed text `trimmed_name`, counted at `graphemes` grapheme
    /// clusters, is refused as a name, if it is.
    pub fn fault(trimmed_name: &str, graphemes: usize) -> (fault: Option<ValidationError>)
        ensures
            fault == name_fault(trimmed_name@, graphemes as nat),
    {
        if trimmed_name.is_empty() {
            Some(ValidationError::EmptyName)
        } else if graphemes > MAX_NAME_GRAPHEMES {
            Some(ValidationError::NameTooLong)
        } else if contains_forbidden(trimmed_name) {
            Some(ValidationError::ForbiddenCharacter)
        } else {
            None
        }
    }

    /// Makes a name of the raw input `s`: trims it and keeps the result
    /// where it is a valid name, and says why where it is not.
    pub fn parse(s: String) -> (r: Result<SubscriberName, ValidationError>)
        ensures
            match r {
                Ok(name) => name_verdict(s@) is None && name@ == trimmed(s@),
                Err(e) => name_verdict(s@) == Some(e),
            },
            r is Ok ==> is_valid_name(r->Ok_0@),
            0 < trimmed(s@).len() <= MAX_NAME_GRAPHEMES && !has_forbidden(trimmed(s@)) ==> r is Ok,
    {
        let t = trim(s.as_str());
        let graphemes = count_graphemes(t.as_str());
        proof {
            lemma_trimmed_is_trimmed(s@);
        }
        match SubscriberName::fault(t.as_str(), graphemes) {
            Some(e) => Err(e),
            None => Ok(SubscriberName(t)),
        }
    }

    /// The text of the name.
    pub fn as_ref(&self) -> (s: &str)
        ensures
            s@ == self@,
            is_valid_name(s@),
    {
        proof {
            use_type_invariant(self);
        }
        self.0.as_str()
    }
}

impl PartialEq for SubscriberName {
    /// Two names are equal where their texts are.
    fn eq(&self, other: &Self) -> (same: bool) {
        self.0 == other.0
    }
}

impl Eq for SubscriberName {

}

impl vstd::std_specs::cmp::PartialEqSpecImpl for SubscriberName {
    open spec fn obeys_eq_spec() -> bool {
        true
    }

    open spec fn eq_spec(&self, other: &Self) -> bool {
        self@ == other@
    }
}

impl PartialOrd for SubscriberName {
    /// Names are ordered as their texts are, lexicographically by code
    /// point.
    fn partial_cmp(&self, other: &Self) -> (order: Option<Ordering>) {
        let sign = compare_text(self.0.as_str(), other.0.as_str());
        if sign < 0 {
            Some(Ordering::Less)
        } else if sign > 0 {
            Some(Ordering::Greater)
        } else {
            Some(Ordering::Equal)
        }
    }
}

impl vstd::std_specs::cmp::PartialOrdSpecImpl for SubscriberName {
    open spec fn obeys_partial_cmp_spec() -> bool {
        true
    }

    open spec fn partial_cmp_spec(&self, other: &Self) -> Option<Ordering> {
        if lexicographic(self@, other@) < 0 {
            Some(Ordering::Less)
        } else if lexicographic(self@, other@) > 0 {
            Some(Ordering::Greater)
        } else {
            Some(Ordering::Equal)
        }
    }
}

impl Clone for SubscriberName {
    fn clone(&self) -> (c: Self)
        ensures
            c@ == self@,
    {
        proof {
            use_type_invariant(self);
        }
        SubscriberName(self.0.clone())
    }
}

} // verus!
