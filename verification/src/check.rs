//! The recognizer: whether a surface form reduces to a dictionary root
//! by stripping a bounded number of prefixes and suffixes whose flags
//! permit the chain.

use vstd::prelude::*;

use crate::caseclass::{classify_case, classify_key, CharCase};
use crate::dict::flag_views;
use crate::lang::{test_compat_on, Lang};
use crate::text::{is_digit_char, str_ends_with, str_starts_with};
use vstd::string::StrSliceExecFns;
use vstd::string::StringExecFns;

verus! {

/// The view of an optional subset of class indexes.
pub open spec fn opt_subset_view(o: Option<&Vec<u32>>) -> Option<Seq<u32>> {
    match o {
        Some(v) => Some(v@),
        None => None,
    }
}

/// The view of an optional flag argument.
pub open spec fn opt_flag_view(flag: Option<&String>) -> Option<Seq<char>> {
    match flag {
        Some(f) => Some(f@),
        None => None,
    }
}

/// The case gating between a stored word and a surface form: an
/// uppercase dictionary word is not accepted in initial case, and under
/// the compatibility mode an uppercase or initial-case dictionary word
/// is not accepted in lowercase.
pub open spec fn dict_case_ok(dict_case: CharCase, word_case: CharCase, mode_flags: u32) -> bool {
    &&& !(dict_case == CharCase::Upper && word_case == CharCase::Initial)
    &&& !((dict_case == CharCase::Upper || dict_case == CharCase::Initial) && test_compat_on(
        mode_flags,
    ) && word_case == CharCase::Lower)
}

/// Whether the dictionary holds the word, under the case gating, and
/// carrying the required flag when one is demanded.
pub open spec fn word_present_spec(
    lang: &Lang,
    case: CharCase,
    w: Seq<char>,
    flag: Option<Seq<char>>,
) -> bool {
    &&& lang.dict_of().dom().contains(w)
    &&& dict_case_ok(lang.dict_of()[w].den_words@[0].flw_char_case, case, lang.lng_mode_flags)
    &&& match flag {
        Some(f) => flag_views(lang.dict_of()[w].den_words@[0].flw_flags@).contains(f),
        None => true,
    }
}

/// Whether `add` stands at the relevant edge of `w`.
pub open spec fn edge_has(w: Seq<char>, add: Seq<char>, is_pre: bool) -> bool {
    &&& add.len() <= w.len()
    &&& if is_pre {
        w.subrange(0, add.len() as int) == add
    } else {
        w.subrange(w.len() - add.len(), w.len() as int) == add
    }
}

/// The root obtained by undoing the affix: the appended text is removed
/// from the edge and the stripped text put back.
pub open spec fn strip_root(w: Seq<char>, sub: Seq<char>, add: Seq<char>, is_pre: bool) -> Seq<
    char,
> {
    if is_pre {
        sub + w.subrange(add.len() as int, w.len() as int)
    } else {
        w.subrange(0, w.len() - add.len()) + sub
    }
}

/// The non-recursive conditions of one strip by entry `e` of class
/// `g`: the budget admits the class's side, a second strip on a side is
/// restricted to the allowed subset, the appended text stands at the
/// edge, and the root satisfies the entry's condition.
pub open spec fn step_shape(
    lang: &Lang,
    case: CharCase,
    w: Seq<char>,
    subset: Option<Seq<u32>>,
    pre_ct: int,
    suf_ct: int,
    g: int,
    e: int,
) -> bool {
    &&& 0 <= g < lang.slg_aff_groups@.len()
    &&& 0 <= e < lang.slg_aff_groups@[g].afg_affixes@.len()
    &&& {
        let grp = lang.slg_aff_groups@[g];
        let ent = grp.afg_affixes@[e];
        let new_pre = pre_ct + if grp.afg_is_pre {
            1int
        } else {
            0int
        };
        let new_suf = suf_ct + if grp.afg_is_pre {
            0int
        } else {
            1int
        };
        &&& new_pre <= lang.opts.slg_prefix_max
        &&& new_suf <= lang.opts.slg_suffix_max
        &&& ((new_pre == 2 || new_suf == 2) && subset is Some ==> subset->0.contains(grp.afg_ix))
        &&& edge_has(w, ent.afe_add@, grp.afg_is_pre)
        &&& ent.afe_cond.matches_at(step_root(lang, case, w, g, e), grp.afg_is_pre)
    }
}

/// The root a strip step hands on, before any reclassification.
pub open spec fn step_root0(lang: &Lang, case: CharCase, w: Seq<char>, g: int, e: int) -> Seq<
    char,
> {
    strip_root(
        w,
        lang.slg_aff_groups@[g].afg_affixes@[e].afe_sub@,
        lang.slg_aff_groups@[g].afg_affixes@[e].afe_add@,
        lang.slg_aff_groups@[g].afg_is_pre,
    )
}

/// The case a strip step continues with: a mixed-case surface is
/// reclassified after every strip.
pub open spec fn step_case(lang: &Lang, case: CharCase, w: Seq<char>, g: int, e: int) -> CharCase {
    if case == CharCase::Other {
        classify_case(step_root0(lang, case, w, g, e))
    } else {
        case
    }
}

/// The root a strip step continues with.
pub open spec fn step_root(lang: &Lang, case: CharCase, w: Seq<char>, g: int, e: int) -> Seq<
    char,
> {
    if case == CharCase::Other {
        classify_key(step_root0(lang, case, w, g, e))
    } else {
        step_root0(lang, case, w, g, e)
    }
}

/// The root of a strip step is a dictionary word carrying the class
/// flag.
pub open spec fn step_hits_dict(lang: &Lang, case: CharCase, w: Seq<char>, g: int, e: int) -> bool {
    word_present_spec(
        lang,
        step_case(lang, case, w, g, e),
        step_root(lang, case, w, g, e),
        Some(lang.slg_aff_groups@[g].afg_name@),
    )
}

/// How many prefixes a strip by class `g` has used up.
pub open spec fn step_pre(lang: &Lang, pre_ct: int, g: int) -> int {
    pre_ct + if lang.slg_aff_groups@[g].afg_is_pre {
        1int
    } else {
        0int
    }
}

/// How many suffixes a strip by class `g` has used up.
pub open spec fn step_suf(lang: &Lang, suf_ct: int, g: int) -> int {
    suf_ct + if lang.slg_aff_groups@[g].afg_is_pre {
        0int
    } else {
        1int
    }
}

/// Whether a decased word is accepted: at the top level of a form it
/// may be a dictionary word itself; otherwise some affix class and
/// entry pass the step conditions, and the root either is a dictionary
/// word carrying the class flag or is accepted recursively with the
/// class's predecessors as the subset.
pub open spec fn check_decased(
    lang: &Lang,
    case: CharCase,
    w: Seq<char>,
    subset: Option<Seq<u32>>,
    pre_ct: int,
    suf_ct: int,
) -> bool
    decreases lang.opts.slg_prefix_max + lang.opts.slg_suffix_max - pre_ct - suf_ct,
{
    ||| (subset is None && word_present_spec(lang, case, w, None))
    ||| exists|g: int, e: int|
        {
            &&& #[trigger] step_shape(lang, case, w, subset, pre_ct, suf_ct, g, e)
            &&& (step_hits_dict(lang, case, w, g, e) || check_decased(
                lang,
                step_case(lang, case, w, g, e),
                step_root(lang, case, w, g, e),
                Some(lang.slg_aff_groups@[g].afg_prev_flags@),
                step_pre(lang, pre_ct, g),
                step_suf(lang, suf_ct, g),
            ))
        }
}

/// A strip by entry `e` of class `g` leads to acceptance.
pub open spec fn step_accepts(
    lang: &Lang,
    case: CharCase,
    w: Seq<char>,
    subset: Option<Seq<u32>>,
    pre_ct: int,
    suf_ct: int,
    g: int,
    e: int,
) -> bool {
    &&& step_shape(lang, case, w, subset, pre_ct, suf_ct, g, e)
    &&& (step_hits_dict(lang, case, w, g, e) || check_decased(
        lang,
        step_case(lang, case, w, g, e),
        step_root(lang, case, w, g, e),
        Some(lang.slg_aff_groups@[g].afg_prev_flags@),
        step_pre(lang, pre_ct, g),
        step_suf(lang, suf_ct, g),
    ))
}

/// A character that may stand in a word without being alphabetic.
pub open spec fn is_optional_char(lang: &Lang, c: char) -> bool {
    (lang.opts.slg_wordchar_digits && is_digit_char(c)) || lang.opts.slg_wordchars@.contains(c)
}

/// The number of optional word characters the string begins with.
pub open spec fn leading_opt(lang: &Lang, s: Seq<char>) -> int
    decreases s.len(),
{
    if s.len() == 0 || !is_optional_char(lang, s[0]) {
        0
    } else {
        1 + leading_opt(lang, s.drop_first())
    }
}

/// The number of optional word characters the string ends with.
pub open spec fn trailing_opt(lang: &Lang, s: Seq<char>) -> int
    decreases s.len(),
{
    if s.len() == 0 || !is_optional_char(lang, s.last()) {
        0
    } else {
        1 + trailing_opt(lang, s.drop_last())
    }
}

/// The string with optional word characters removed from both ends.
pub open spec fn trim_opt(lang: &Lang, s: Seq<char>) -> Seq<char> {
    if leading_opt(lang, s) == s.len() {
        Seq::empty()
    } else {
        s.subrange(leading_opt(lang, s), s.len() - trailing_opt(lang, s))
    }
}

/// Whether a surface form is accepted: the empty word always is, and
/// otherwise its classification key is checked, then the key with
/// boundary optional characters trimmed.
pub open spec fn token_accepted(lang: &Lang, w: Seq<char>) -> bool {
    if w.len() == 0 {
        true
    } else {
        let case = classify_case(w);
        let key = classify_key(w);
        check_decased(lang, case, key, None, 0, 0) || check_decased(
            lang,
            case,
            trim_opt(lang, key),
            None,
            0,
            0,
        )
    }
}

proof fn lemma_leading_opt(lang: &Lang, s: Seq<char>, a: int)
    requires
        0 <= a <= s.len(),
        forall|j: int| 0 <= j < a ==> is_optional_char(lang, #[trigger] s[j]),
        a < s.len() ==> !is_optional_char(lang, s[a]),
    ensures
        leading_opt(lang, s) == a,
    decreases a,
{
    if a == 0 {
    } else {
        assert(is_optional_char(lang, s[0]));
        let t = s.drop_first();
        assert(forall|j: int| 0 <= j < a - 1 ==> is_optional_char(lang, #[trigger] t[j]));
        lemma_leading_opt(lang, t, a - 1);
    }
}

proof fn lemma_trailing_opt(lang: &Lang, s: Seq<char>, b: int)
    requires
        0 <= b <= s.len(),
        forall|j: int| b <= j < s.len() ==> is_optional_char(lang, #[trigger] s[j]),
        b > 0 ==> !is_optional_char(lang, s[b - 1]),
    ensures
        trailing_opt(lang, s) == s.len() - b,
    decreases s.len() - b,
{
    if b == s.len() {
    } else {
        assert(is_optional_char(lang, s.last()));
        lemma_trailing_opt(lang, s.drop_last(), b);
    }
}

/// Whether a vector of class indexes holds one.
pub fn subset_contains(subset: &Vec<u32>, ix: u32) -> (r: bool)
    ensures
        r == subset@.contains(ix),
{
    let n = subset.len();
    let mut i: usize = 0;
    while i < n
        invariant
            n == subset@.len(),
            i <= n,
            forall|j: int| 0 <= j < i ==> subset@[j] != ix,
        decreases n - i,
    {
        if subset[i] == ix {
            return true;
        }
        i += 1;
    }
    false
}

impl Lang {
    /// Whether the word is in the dictionary, admissible under the case
    /// gating, and carries the required flag when one is given.
    pub fn word_present(&self, char_case: CharCase, word: &str, flag: Option<&String>) -> (r: bool)
        requires
            self.wf(),
        ensures
            r == word_present_spec(self, char_case, word@, opt_flag_view(flag)),
    {
        let key = String::from_str(word);
        match self.slg_dic_hash.get(&key) {
            Some(dict_entry) => {
                let dict_case = dict_entry.den_words[0].flw_char_case;
                if matches!(dict_case, CharCase::Upper) && matches!(char_case, CharCase::Initial) {
                    return false;
                }
                if (matches!(dict_case, CharCase::Upper) || matches!(dict_case, CharCase::Initial))
                    && self.lng_mode_flags & 1u32 == 1u32 && matches!(char_case, CharCase::Lower) {
                    return false;
                }
                match flag {
                    Some(f) => crate::dict::flags_contain(&dict_entry.den_words[0].flw_flags, f),
                    None => true,
                }
            },
            None => false,
        }
    }

    /// Whether `substring` stands at the start or at the end of `word`,
    /// by `is_prefix`.
    pub fn is_substring_at_edge(word: &str, substring: &str, is_prefix: bool) -> (r: bool)
        ensures
            r == edge_has(word@, substring@, is_prefix),
    {
        if is_prefix {
            str_starts_with(word, substring)
        } else {
            str_ends_with(word, substring)
        }
    }

    /// Whether a decased word is accepted, with `prefix_ct` prefixes and
    /// `suffix_ct` suffixes already stripped, and the second strip on a
    /// side restricted to the classes in `ix_subset`.
    #[verifier::rlimit(100)]
    #[verifier::spinoff_prover]
    pub fn check_decased_word(
        &self,
        char_case: CharCase,
        word: &str,
        ix_subset: Option<&Vec<u32>>,
        prefix_ct: u8,
        suffix_ct: u8,
    ) -> (r: bool)
        requires
            self.wf(),
            prefix_ct + suffix_ct <= self.opts.slg_prefix_max + self.opts.slg_suffix_max,
        ensures
            r == check_decased(
                self,
                char_case,
                word@,
                opt_subset_view(ix_subset),
                prefix_ct as int,
                suffix_ct as int,
            ),
        decreases
                self.opts.slg_prefix_max + self.opts.slg_suffix_max - prefix_ct - suffix_ct,
    {
        let ghost subset_v: Option<Seq<u32>> = opt_subset_view(ix_subset);
        if ix_subset.is_none() {
            if self.word_present(char_case, word, None) {
                return true;
            }
        }
        let originally_other = matches!(char_case, CharCase::Other);
        let glen = self.slg_aff_groups.len();
        let mut g: usize = 0;
        while g < glen
            invariant
                self.wf(),
                prefix_ct + suffix_ct <= self.opts.slg_prefix_max + self.opts.slg_suffix_max,
                glen == self.slg_aff_groups@.len(),
                g <= glen,
                originally_other == (char_case == CharCase::Other),
                subset_v == opt_subset_view(ix_subset),
                forall|gi: int, e: int|
                    0 <= gi < g ==> !#[trigger] step_accepts(
                        self,
                        char_case,
                        word@,
                        subset_v,
                        prefix_ct as int,
                        suffix_ct as int,
                        gi,
                        e,
                    ),
            decreases glen - g,
        {
            let is_pre = self.slg_aff_groups[g].afg_is_pre;
            let new_prefix_ct: u8 = if is_pre {
                prefix_ct + 1
            } else {
                prefix_ct
            };
            let new_suffix_ct: u8 = if is_pre {
                suffix_ct
            } else {
                suffix_ct + 1
            };
            if new_prefix_ct > self.opts.slg_prefix_max || new_suffix_ct
                > self.opts.slg_suffix_max {
                proof {
                    assert forall|e: int|
                        !#[trigger] step_accepts(
                            self,
                            char_case,
                            word@,
                            subset_v,
                            prefix_ct as int,
                            suffix_ct as int,
                            g as int,
                            e,
                        ) by {}
                }
                g += 1;
                continue ;
            }
            let mut skip_group = false;
            if new_prefix_ct == 2 || new_suffix_ct == 2 {
                match ix_subset {
                    Some(subset) => {
                        if !subset_contains(subset, self.slg_aff_groups[g].afg_ix) {
                            skip_group = true;
                        }
                    },
                    None => {},
                }
            }
            if skip_group {
                proof {
                    assert forall|e: int|
                        !#[trigger] step_accepts(
                            self,
                            char_case,
                            word@,
                            subset_v,
                            prefix_ct as int,
                            suffix_ct as int,
                            g as int,
                            e,
                        ) by {}
                }
                g += 1;
                continue ;
            }
            let elen = self.slg_aff_groups[g].afg_affixes.len();
            let mut e: usize = 0;
            proof {
                assert(new_prefix_ct == prefix_ct + if is_pre { 1int } else { 0int });
                assert(new_suffix_ct == suffix_ct + if is_pre { 0int } else { 1int });
                assert(new_prefix_ct <= self.opts.slg_prefix_max);
                assert(new_suffix_ct <= self.opts.slg_suffix_max);
                assert((new_prefix_ct == 2 || new_suffix_ct == 2) && subset_v is Some
                    ==> subset_v->0.contains(self.slg_aff_groups@[g as int].afg_ix));
            }
            while e < elen
                invariant
                    self.wf(),
                    prefix_ct + suffix_ct <= self.opts.slg_prefix_max + self.opts.slg_suffix_max,
                    glen == self.slg_aff_groups@.len(),
                    g < glen,
                    elen == self.slg_aff_groups@[g as int].afg_affixes@.len(),
                    e <= elen,
                    originally_other == (char_case == CharCase::Other),
                    is_pre == self.slg_aff_groups@[g as int].afg_is_pre,
                    new_prefix_ct == prefix_ct + if is_pre { 1int } else { 0int },
                    new_suffix_ct == suffix_ct + if is_pre { 0int } else { 1int },
                    new_prefix_ct <= self.opts.slg_prefix_max,
                    new_suffix_ct <= self.opts.slg_suffix_max,
                    (new_prefix_ct == 2 || new_suffix_ct == 2) && subset_v is Some
                        ==> subset_v->0.contains(self.slg_aff_groups@[g as int].afg_ix),
                    subset_v == opt_subset_view(ix_subset),
                    forall|gi: int, ei: int|
                        0 <= gi < g ==> !#[trigger] step_accepts(
                            self,
                            char_case,
                            word@,
                            subset_v,
                            prefix_ct as int,
                            suffix_ct as int,
                            gi,
                            ei,
                        ),
                    forall|ei: int|
                        0 <= ei < e ==> !#[trigger] step_accepts(
                            self,
                            char_case,
                            word@,
                            subset_v,
                            prefix_ct as int,
                            suffix_ct as int,
                            g as int,
                            ei,
                        ),
                decreases elen - e,
            {
                let ghost gg = g as int;
                let ghost ee = e as int;
                let entry_add_ok = Self::is_substring_at_edge(
                    word,
                    self.slg_aff_groups[g].afg_affixes[e].afe_add.as_str(),
                    is_pre,
                );
                if !entry_add_ok {
                    proof {
                        assert(!step_accepts(
                            self,
                            char_case,
                            word@,
                            subset_v,
                            prefix_ct as int,
                            suffix_ct as int,
                            gg,
                            ee,
                        ));
                    }
                    e += 1;
                    continue ;
                }
                let wlen = word.unicode_len();
                let addlen = self.slg_aff_groups[g].afg_affixes[e].afe_add.as_str().unicode_len();
                let mut base_word: String;
                if is_pre {
                    base_word = self.slg_aff_groups[g].afg_affixes[e].afe_sub.clone();
                    base_word.append(word.substring_char(addlen, wlen));
                } else {
                    base_word = String::from_str(word.substring_char(0, wlen - addlen));
                    base_word.append(self.slg_aff_groups[g].afg_affixes[e].afe_sub.as_str());
                }
                proof {
                    assert(base_word@ == strip_root(
                        word@,
                        self.slg_aff_groups@[gg].afg_affixes@[ee].afe_sub@,
                        self.slg_aff_groups@[gg].afg_affixes@[ee].afe_add@,
                        is_pre,
                    ));
                }
                let mut step_case = char_case;
                if originally_other {
                    let (c2, b2) = CharCase::normalize_case(base_word.as_str());
                    step_case = c2;
                    base_word = b2;
                }
                if !self.slg_aff_groups[g].afg_affixes[e].afe_cond.match_edge(
                    base_word.as_str(),
                    is_pre,
                ) {
                    proof {
                        assert(!step_accepts(
                            self,
                            char_case,
                            word@,
                            subset_v,
                            prefix_ct as int,
                            suffix_ct as int,
                            gg,
                            ee,
                        ));
                    }
                    e += 1;
                    continue ;
                }
                if self.word_present(
                    step_case,
                    base_word.as_str(),
                    Some(&self.slg_aff_groups[g].afg_name),
                ) {
                    proof {
                        assert(step_accepts(
                            self,
                            char_case,
                            word@,
                            subset_v,
                            prefix_ct as int,
                            suffix_ct as int,
                            gg,
                            ee,
                        ));
                        assert(exists|g2: int, e2: int|
                            #[trigger] step_accepts(
                                self,
                                char_case,
                                word@,
                                subset_v,
                                prefix_ct as int,
                                suffix_ct as int,
                                g2,
                                e2,
                            ));
                        assert(check_decased(
                            self,
                            char_case,
                            word@,
                            subset_v,
                            prefix_ct as int,
                            suffix_ct as int,
                        ));
                    }
                    return true;
                }
                if self.check_decased_word(
                    step_case,
                    base_word.as_str(),
                    Some(&self.slg_aff_groups[g].afg_prev_flags),
                    new_prefix_ct,
                    new_suffix_ct,
                ) {
                    proof {
                        assert(step_accepts(
                            self,
                            char_case,
                            word@,
                            subset_v,
                            prefix_ct as int,
                            suffix_ct as int,
                            gg,
                            ee,
                        ));
                        assert(exists|g2: int, e2: int|
                            #[trigger] step_accepts(
                                self,
                                char_case,
                                word@,
                                subset_v,
                                prefix_ct as int,
                                suffix_ct as int,
                                g2,
                                e2,
                            ));
                        assert(check_decased(
                            self,
                            char_case,
                            word@,
                            subset_v,
                            prefix_ct as int,
                            suffix_ct as int,
                        ));
                    }
                    return true;
                }
                proof {
                    assert(!step_accepts(
                        self,
                        char_case,
                        word@,
                        subset_v,
                        prefix_ct as int,
                        suffix_ct as int,
                        gg,
                        ee,
                    ));
                }
                e += 1;
            }
            g += 1;
        }
        proof {
            assert(forall|gi: int, ei: int|
                !#[trigger] step_accepts(
                    self,
                    char_case,
                    word@,
                    subset_v,
                    prefix_ct as int,
                    suffix_ct as int,
                    gi,
                    ei,
                ));
            assert forall|gi: int, ei: int|
                !(#[trigger] step_shape(
                    self,
                    char_case,
                    word@,
                    subset_v,
                    prefix_ct as int,
                    suffix_ct as int,
                    gi,
                    ei,
                ) && (step_hits_dict(self, char_case, word@, gi, ei) || check_decased(
                    self,
                    step_case(self, char_case, word@, gi, ei),
                    step_root(self, char_case, word@, gi, ei),
                    Some(self.slg_aff_groups@[gi].afg_prev_flags@),
                    step_pre(self, prefix_ct as int, gi),
                    step_suf(self, suffix_ct as int, gi),
                ))) by {
                assert(!step_accepts(
                    self,
                    char_case,
                    word@,
                    subset_v,
                    prefix_ct as int,
                    suffix_ct as int,
                    gi,
                    ei,
                ));
            }
        }
        false
    }

    /// Trims the characters that are optionally part of a word from both
    /// ends.
    pub fn trim_optional(&self, word: &str) -> (r: String)
        ensures
            r@ == trim_opt(self, word@),
    {
        let n = word.unicode_len();
        let mut a: usize = 0;
        while a < n && self.is_non_alphabetic_in_word(word.get_char(a))
            invariant
                n == word@.len(),
                a <= n,
                forall|j: int| 0 <= j < a ==> is_optional_char(self, #[trigger] word@[j]),
            decreases n - a,
        {
            a += 1;
        }
        if a == n {
            proof {
                lemma_leading_opt(self, word@, a as int);
            }
            return String::new();
        }
        let mut b: usize = n;
        while b > a && self.is_non_alphabetic_in_word(word.get_char(b - 1))
            invariant
                n == word@.len(),
                a <= b <= n,
                a < n,
                !is_optional_char(self, word@[a as int]),
                forall|j: int| b <= j < n ==> is_optional_char(self, #[trigger] word@[j]),
            decreases b,
        {
            b -= 1;
        }
        proof {
            lemma_leading_opt(self, word@, a as int);
            assert(b > a);
            assert(!is_optional_char(self, word@[b - 1]));
            lemma_trailing_opt(self, word@, b as int);
        }
        String::from_str(word.substring_char(a, b))
    }

    /// Whether the (non-alphabetic) character can be either in a word or
    /// not.
    pub fn is_non_alphabetic_in_word(&self, c: char) -> (r: bool)
        ensures
            r == is_optional_char(self, c),
    {
        self.opts.slg_wordchar_digits && crate::text::char_is_digit(c)
            || crate::text::chars_contain(&self.opts.slg_wordchars, c)
    }

    /// Whether the surface form is correctly spelled: the empty word is
    /// accepted; otherwise its key is checked, and failing that, the key
    /// with boundary optional characters trimmed.
    pub fn check_token(&self, word: &str) -> (r: bool)
        requires
            self.wf(),
        ensures
            r == token_accepted(self, word@),
    {
        if word.is_empty() {
            return true;
        }
        let (char_case, normalized_word) = CharCase::normalize_case(word);
        let mut result = self.check_decased_word(char_case, normalized_word.as_str(), None, 0, 0);
        if !result {
            let trimmed_word = self.trim_optional(normalized_word.as_str());
            result = self.check_decased_word(char_case, trimmed_word.as_str(), None, 0, 0);
        }
        result
    }
}

/// Acceptance of a surface form depends only on its classification: two
/// words with the same case and the same key, both empty or both not,
/// are accepted or rejected together.
pub proof fn lemma_token_by_classification(lang: &Lang, w1: Seq<char>, w2: Seq<char>)
    requires
        classify_case(w1) == classify_case(w2),
        classify_key(w1) == classify_key(w2),
        (w1.len() == 0) == (w2.len() == 0),
    ensures
        token_accepted(lang, w1) == token_accepted(lang, w2),
{
}

/// The strip budget is bounded: a strip step is only taken when the new
/// counts stay within the limits, so the total number of strips never
/// exceeds the prefix limit plus the suffix limit.
pub proof fn lemma_strip_budget(
    lang: &Lang,
    case: CharCase,
    w: Seq<char>,
    subset: Option<Seq<u32>>,
    pre_ct: int,
    suf_ct: int,
    g: int,
    e: int,
)
    requires
        step_accepts(lang, case, w, subset, pre_ct, suf_ct, g, e),
    ensures
        pre_ct + if lang.slg_aff_groups@[g].afg_is_pre { 1int } else { 0int }
            <= lang.opts.slg_prefix_max,
        suf_ct + if lang.slg_aff_groups@[g].afg_is_pre { 0int } else { 1int }
            <= lang.opts.slg_suffix_max,
        pre_ct + suf_ct + 1 <= lang.opts.slg_prefix_max + lang.opts.slg_suffix_max,
{
}

} // verus!
