//! Term normalisation: every token is indexed under its lowercase form, and
//! also under the lowercase of its ASCII transliteration when the two differ.

use vstd::prelude::*;
use vstd::utf8::is_ascii_chars;
use unidecode::unidecode;

verus! {

/// The lowercase form of a text, as `str::to_lowercase` computes it.
pub uninterp spec fn lowercase_of(text: Seq<char>) -> Seq<char>;

/// The ASCII transliteration of a text, as `unidecode::unidecode` computes it.
pub uninterp spec fn transliteration_of(text: Seq<char>) -> Seq<char>;

/// `str::to_lowercase` returns the lowercase form of its argument. The form
/// itself is Unicode's and is not spelled out here: it is known by its name
/// only.
pub assume_specification[ str::to_lowercase ](text: &str) -> (lower: String)
    ensures
        lower@ == lowercase_of(text@),
;

/// `unidecode::unidecode` returns the transliteration of its argument,
/// character by character from a fixed table. The table is known by its name
/// only, but for one documented fact: every ASCII character stands for
/// itself, so an ASCII text comes back unchanged.
pub assume_specification[ unidecode::unidecode ](s: &str) -> (ascii: String)
    ensures
        ascii@ == transliteration_of(s@),
        is_ascii_chars(s@) ==> ascii@ == s@,
;

/// The index keys of one token.
#[derive(Clone, Debug, PartialEq, Eq)]
pub struct NormalizedTerms {
    /// The lowercase of the token.
    pub exact: String,
    /// The lowercase of the token's transliteration, present only when it is
    /// not the exact term.
    pub folded: Option<String>,
}

/// The index keys of one token, as character sequences.
pub ghost struct Terms {
    pub exact: Seq<char>,
    pub folded: Option<Seq<char>>,
}

impl View for NormalizedTerms {
    type V = Terms;

    open spec fn view(&self) -> Terms {
        Terms {
            exact: self.exact@,
            folded: match self.folded {
                Some(f) => Some(f@),
                None => None,
            },
        }
    }
}

impl Terms {
    /// The keys in the order in which they are indexed: the folded term, where
    /// there is one, then the exact term.
    pub open spec fn keys(self) -> Seq<Seq<char>> {
        match self.folded {
            Some(f) => seq![f, self.exact],
            None => seq![self.exact],
        }
    }
}

/// The terms made of the two lowered forms of a token: the folded candidate
/// is kept only where it differs from the exact term.
pub open spec fn select_terms(exact: Seq<char>, folded_candidate: Seq<char>) -> Terms {
    Terms {
        exact,
        folded: if folded_candidate != exact {
            Some(folded_candidate)
        } else {
            None
        },
    }
}

/// The exact term of a token.
pub open spec fn exact_term(token: Seq<char>) -> Seq<char> {
    lowercase_of(token)
}

/// The lowercase of a token's transliteration.
pub open spec fn folded_candidate(token: Seq<char>) -> Seq<char> {
    lowercase_of(transliteration_of(token))
}

/// The terms of a token.
pub open spec fn terms_of(token: Seq<char>) -> Terms {
    select_terms(exact_term(token), folded_candidate(token))
}

/// Chooses the terms from the two lowered forms of a token.
pub fn select(exact: String, folded_candidate: String) -> (terms: NormalizedTerms)
    ensures
        terms@ == select_terms(exact@, folded_candidate@),
{
    if folded_candidate != exact {
        NormalizedTerms { exact, folded: Some(folded_candidate) }
    } else {
        NormalizedTerms { exact, folded: None }
    }
}

/// The index keys of a raw token. An ASCII token has its exact term only.
pub fn normalize(token: &str) -> (terms: NormalizedTerms)
    ensures
        terms@ == terms_of(token@),
        is_ascii_chars(token@) ==> terms.folded is None,
{
    let exact = token.to_lowercase();
    let folded_candidate = unidecode(token).to_lowercase();
    select(exact, folded_candidate)
}

/// A token whose two lowered forms coincide has exactly one term, the exact
/// one.
pub proof fn lemma_one_term_when_forms_coincide(token: Seq<char>)
    requires
        folded_candidate(token) == exact_term(token),
    ensures
        terms_of(token).folded is None,
        terms_of(token).keys() == seq![exact_term(token)],
        terms_of(token).keys().len() == 1,
{
}

/// A token whose two lowered forms differ has exactly two terms, and they are
/// distinct: the folded one and the exact one.
pub proof fn lemma_two_terms_when_forms_differ(token: Seq<char>)
    requires
        folded_candidate(token) != exact_term(token),
    ensures
        terms_of(token).folded == Some(folded_candidate(token)),
        terms_of(token).keys() == seq![folded_candidate(token), exact_term(token)],
        terms_of(token).keys().len() == 2,
        terms_of(token).keys()[0] != terms_of(token).keys()[1],
{
}

} // verus!
