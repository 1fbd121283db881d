//! Letter-case classification of a word.
//!
//! A word is classified by scanning its characters: all lowercase or
//! caseless is `Lower`; an uppercase first character with a lowercase or
//! caseless rest is `Initial`; uppercase and caseless only (with at least
//! one uppercase) is `Upper`; any other mixture is `Other`. The key the
//! dictionary is consulted with is the word itself for `Lower` and
//! `Other`, and the Unicode-lowercased word for `Initial` and `Upper`.

use vstd::prelude::*;

use crate::text::{
    char_is_lowercase, char_is_uppercase, char_upper_of, char_upper_string, is_lower_char,
    is_upper_char, lower_of, to_lower_string, upper_of,
};
use vstd::string::StrSliceExecFns;
use vstd::string::StringExecFns;

verus! {

/// The possible letter casings of a word.
#[derive(PartialEq, Eq, Structural, Clone, Copy, Debug)]
pub enum CharCase {
    /// all characters are lowercase or caseless
    Lower,
    /// the first character is uppercase, the remaining are lowercase or caseless
    Initial,
    /// all characters are uppercase or caseless, at least one uppercase
    Upper,
    /// any other mixture of uppercase and lowercase characters
    Other,
}

/// A character that counts as uppercase for classification. Unicode keeps
/// the two case properties disjoint; the classifier tests lowercase first,
/// and the spec mirrors that order rather than assume the disjointness.
pub open spec fn upper_not_lower(c: char) -> bool {
    is_upper_char(c) && !is_lower_char(c)
}

/// No character after the first is uppercase.
pub open spec fn no_upper_after_first(s: Seq<char>) -> bool {
    forall|j: int| 1 <= j < s.len() ==> !upper_not_lower(#[trigger] s[j])
}

/// The word starts with an uppercase character.
pub open spec fn first_is_upper(s: Seq<char>) -> bool {
    s.len() > 0 && upper_not_lower(s[0])
}

/// Some character of the word is lowercase.
pub open spec fn has_lower(s: Seq<char>) -> bool {
    exists|j: int| 0 <= j < s.len() && is_lower_char(s[j])
}

/// Some character of the word is uppercase.
pub open spec fn has_upper(s: Seq<char>) -> bool {
    exists|j: int| 0 <= j < s.len() && upper_not_lower(s[j])
}

/// The case a word is classified as.
pub open spec fn classify_case(s: Seq<char>) -> CharCase {
    if no_upper_after_first(s) {
        if !first_is_upper(s) {
            CharCase::Lower
        } else {
            CharCase::Initial
        }
    } else {
        if has_lower(s) {
            CharCase::Other
        } else {
            CharCase::Upper
        }
    }
}

/// The dictionary key a word is looked up under: the word itself for
/// `Lower` and `Other`, its lowercase mapping for `Initial` and `Upper`.
pub open spec fn classify_key(s: Seq<char>) -> Seq<char> {
    if classify_case(s) == CharCase::Lower || classify_case(s) == CharCase::Other {
        s
    } else {
        lower_of(s)
    }
}

/// The surface form a key is restored to under a given case.
pub open spec fn restore_spec(char_case: CharCase, w: Seq<char>) -> Seq<char> {
    if char_case == CharCase::Lower {
        w
    } else if char_case == CharCase::Initial {
        if w.len() == 0 {
            w
        } else {
            char_upper_of(w[0]) + w.subrange(1, w.len() as int)
        }
    } else if char_case == CharCase::Upper {
        upper_of(w)
    } else {
        w
    }
}

impl CharCase {
    /// Returns the word's case and the string to use as dictionary key.
    pub fn normalize_case(word: &str) -> (r: (CharCase, String))
        ensures
            r.0 == classify_case(word@),
            r.1@ == classify_key(word@),
            r.0 == CharCase::Lower ==> forall|j: int|
                0 <= j < r.1@.len() ==> !upper_not_lower(#[trigger] r.1@[j]),
    {
        let n = word.unicode_len();
        let mut first_lower_or_none = true;
        let mut next_lower_or_none = true;
        let mut any_lower = false;
        let mut any_upper = false;
        let mut i: usize = 0;
        while i < n
            invariant
                n == word@.len(),
                i <= n,
                first_lower_or_none == !(i > 0 && upper_not_lower(word@[0])),
                next_lower_or_none == (forall|j: int| 1 <= j < i ==> !upper_not_lower(#[trigger] word@[j])),
                any_lower == (exists|j: int| 0 <= j < i && is_lower_char(word@[j])),
                any_upper == (exists|j: int| 0 <= j < i && upper_not_lower(word@[j])),
            decreases n - i,
        {
            let c = word.get_char(i);
            let is_lo = char_is_lowercase(c);
            let is_up = char_is_uppercase(c);
            if is_lo {
                proof {
                    assert(0 <= i < word@.len() && is_lower_char(word@[i as int]));
                }
                any_lower = true;
            } else if is_up {
                proof {
                    assert(0 <= i < word@.len() && upper_not_lower(word@[i as int]));
                }
                any_upper = true;
                if i == 0 {
                    first_lower_or_none = false;
                } else {
                    next_lower_or_none = false;
                }
            }
            i += 1;
        }
        if next_lower_or_none {
            if first_lower_or_none {
                (CharCase::Lower, String::from_str(word))
            } else {
                (CharCase::Initial, to_lower_string(word))
            }
        } else {
            proof {
                assert(has_upper(word@));
            }
            if any_lower && any_upper {
                (CharCase::Other, String::from_str(word))
            } else {
                (CharCase::Upper, to_lower_string(word))
            }
        }
    }

    /// Rebuilds the surface form of a key under the given case.
    pub fn restore_case(char_case: CharCase, word: &str) -> (r: String)
        ensures
            r@ == restore_spec(char_case, word@),
    {
        let n = word.unicode_len();
        if matches!(char_case, CharCase::Initial) {
            if n == 0 {
                let r = String::new();
                proof {
                    assert(r@ =~= word@);
                }
                r
            } else {
                let mut r = char_upper_string(word.get_char(0));
                r.append(word.substring_char(1, n));
                r
            }
        } else if matches!(char_case, CharCase::Upper) {
            crate::text::to_upper_string(word)
        } else {
            String::from_str(word)
        }
    }
}

/// A word with no character that is uppercase without also being
/// lowercase classifies as `Lower`, and is its own key: the
/// classification of such a key is stable.
pub proof fn lemma_lowercase_key_stable(k: Seq<char>)
    requires
        forall|j: int| 0 <= j < k.len() ==> !upper_not_lower(#[trigger] k[j]),
    ensures
        classify_case(k) == CharCase::Lower,
        classify_key(k) == k,
{
    assert(!first_is_upper(k));
}

/// Laws of the classifier: the key of a word equals the word itself for
/// `Lower` and `Other`, and its Unicode-lowercase mapping for `Initial`
/// and `Upper`; and a `Lower` word's key holds no uppercase character.
pub proof fn lemma_classify_key(w: Seq<char>)
    ensures
        classify_case(w) == CharCase::Lower || classify_case(w) == CharCase::Initial
            || classify_case(w) == CharCase::Upper || classify_case(w) == CharCase::Other,
        (classify_case(w) == CharCase::Lower || classify_case(w) == CharCase::Other)
            ==> classify_key(w) == w,
        (classify_case(w) == CharCase::Initial || classify_case(w) == CharCase::Upper)
            ==> classify_key(w) == lower_of(w),
        classify_case(w) == CharCase::Lower ==> forall|j: int|
            0 <= j < classify_key(w).len() ==> !upper_not_lower(#[trigger] classify_key(w)[j]),
{
    if classify_case(w) == CharCase::Lower {
        assert(forall|j: int| 0 <= j < w.len() ==> !upper_not_lower(#[trigger] w[j])) by {
            assert(!first_is_upper(w));
            assert(no_upper_after_first(w));
        }
    }
}

} // verus!
