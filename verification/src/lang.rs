//! A spelling dictionary for a single language: the options read from
//! the `.aff` file, the affix classes, the flag map and the word list,
//! together with the line parsers that fill them.

use vstd::prelude::*;

use crate::affix::AffixGroup;
use crate::parsestate::{ParseState, ParseStatus};
use crate::store::{
    dict_contents, flag_contents, DictTable, FlagTable, FlagType, TallyList,
};
use vstd::string::StringExecFns;
use vstd::string::StrSliceExecFns;

verus! {

/// Spelling modes; combined as bits of a mode word.
pub enum ModeFlag {
    /// compatible processing, for parity with reference test expectations
    TestCompat,
}

impl ModeFlag {
    /// The bit this mode occupies in a mode word.
    pub open spec fn spec_mask(self) -> u32 {
        match self {
            ModeFlag::TestCompat => 1,
        }
    }

    pub fn mask(self) -> (r: u32)
        ensures
            r == self.spec_mask(),
    {
        match self {
            ModeFlag::TestCompat => 1,
        }
    }
}

/// Whether the compatibility mode bit is set in a mode word.
pub open spec fn test_compat_on(mode_flags: u32) -> bool {
    mode_flags & 1u32 == 1u32
}

/// The format of the affix flags, parsed from the `FLAG` tag.
#[derive(PartialEq, Eq, Structural, Clone, Copy, Debug)]
pub enum FlagFormat {
    /// one character; a fallback format
    SingleChar,
    /// `FLAG UTF-8`: one Unicode character each, and the default
    SingleUni,
    /// `FLAG long`: two characters each
    DoubleChar,
    /// `FLAG num`: decimal numbers separated by commas
    Numeric,
}

/// Splitting a flag string under a flag format: one character per flag,
/// two characters per flag, or comma-separated numerals. The empty
/// string carries no flags, and a trailing lone character of a
/// two-character format is dropped.
pub open spec fn flags_split(fmt: FlagFormat, s: Seq<char>) -> Seq<Seq<char>> {
    if s.len() == 0 {
        Seq::empty()
    } else if fmt == FlagFormat::SingleUni || fmt == FlagFormat::SingleChar {
        Seq::new(s.len(), |i: int| seq![s[i]])
    } else if fmt == FlagFormat::DoubleChar {
        Seq::new(s.len() / 2, |i: int| seq![s[2 * i], s[2 * i + 1]])
    } else {
        crate::text::split_on(s, ',')
    }
}

/// The `COMPOUNDRULE` flags of a pattern under a single-character
/// format: every character but the regex marks `*` and `?`.
pub open spec fn comp_rule_fold(s: Seq<char>, acc: Seq<Seq<char>>) -> Seq<Seq<char>>
    decreases s.len(),
{
    if s.len() == 0 {
        acc
    } else if s[0] != '*' && s[0] != '?' {
        comp_rule_fold(s.drop_first(), acc.push(seq![s[0]]))
    } else {
        comp_rule_fold(s.drop_first(), acc)
    }
}

/// The options a language's `.aff` file can set, besides the affix
/// classes, the flag declarations and the word list.
pub struct AffOptions {
    pub slg_try: String,
    pub slg_key: String,
    /// the raw value of the `WORDCHARS` tag
    pub tag_wordchars: String,
    /// true when `WORDCHARS` held all ten ASCII digits
    pub slg_wordchar_digits: bool,
    /// the `WORDCHARS` characters, without the digits when all ten were present
    pub slg_wordchars: Vec<char>,
    pub slg_ignore: String,
    pub slg_name: String,
    pub slg_home: String,
    pub slg_version: String,
    /// `COMPLEXPREFIXES` was seen
    pub slg_cplx_pref: bool,
    /// how many prefixes may be stripped from a word
    pub slg_prefix_max: u8,
    /// how many suffixes may be stripped from a word
    pub slg_suffix_max: u8,
    pub slg_sug_split: bool,
    pub slg_sug_dots: bool,
    pub slg_rep: Vec<(String, String)>,
    pub slg_phone: Vec<(String, String)>,
    pub slg_iconv: Vec<(String, String)>,
    pub slg_oconv: Vec<(String, String)>,
    /// the `MAP` table and whether its header has been seen
    pub slg_map: (Vec<String>, bool),
    /// the `BREAK` table and whether its header has been seen
    pub slg_break: (Vec<String>, bool),
    pub slg_comp_check_dup: bool,
    pub slg_comp_check_rep: bool,
    pub slg_comp_check_case: bool,
    pub slg_check_sharp_s: bool,
    pub slg_check_comp_triple: bool,
    pub slg_simplified_triple: bool,
    pub slg_only_max_diff: bool,
    pub slg_full_string: bool,
    pub slg_comp_more_suffixes: bool,
    pub slg_comp_min: u32,
    pub slg_comp_word_max: u32,
    pub slg_max_cpd_sugs: u32,
    pub slg_max_ngram_sugs: u32,
    pub slg_max_diff: u32,
}

/// A loaded (or loading) language.
pub struct Lang {
    /// language code, e.g. `de` or `es_ES`; the `LANG` tag can update it
    pub slg_code: String,
    /// combined `ModeFlag` bits
    pub lng_mode_flags: u32,
    /// how reading the current line ended
    pub lng_parse_status: ParseStatus,
    /// the decoded text of the current line
    pub lng_parsed_line: String,
    /// a closing brace returns parsing to the top level
    pub lng_mode_until_brace: bool,
    pub lng_passed_count: u32,
    pub lng_failed_count: u32,
    /// test words expected to pass
    pub lng_pass_expected: Vec<String>,
    /// test words expected to fail
    pub lng_fail_expected: Vec<String>,
    /// notes seen while parsing, counted across lines
    pub lng_total_notes: usize,
    /// note count when a bad-grammar test section began
    pub lng_start_note_count: usize,
    /// a bad-grammar test section was seen
    pub lng_testing_bad_gram: bool,
    /// false when a bad-grammar section produced no note
    pub lng_test_bad_gram_passed: bool,
    /// the `SET` tag: the character set of the files
    pub slg_set: String,
    /// the `FLAG` tag: the format of affix flags
    pub slg_flag: FlagFormat,
    /// the plain options
    pub opts: AffOptions,
    /// the affix classes
    pub slg_aff_groups: Vec<AffixGroup>,
    /// indexes of the prefix classes in `slg_aff_groups`
    pub slg_pfxes: Vec<u32>,
    /// indexes of the suffix classes in `slg_aff_groups`
    pub slg_sfxes: Vec<u32>,
    /// from flag name to kind and index
    pub slg_flag_hash: FlagTable,
    /// total affix entries, counted when loading finishes
    pub slg_affix_ct: u32,
    /// the `AF` alias table and whether its header has been seen
    pub slg_af: Vec<String>,
    pub slg_af_parsed: bool,
    /// the `COMPOUNDRULE` patterns and whether the header has been seen
    pub slg_compoundrule: Vec<String>,
    pub slg_compoundrule_parsed: bool,
    /// the entry count announced by the `.dic` file
    pub slg_dic_count: u32,
    /// the word list
    pub slg_dic_hash: DictTable,
    /// how many lines shared a key with an earlier line
    pub slg_dic_duplicated: u32,
    /// unrecognized tags, by count
    pub slg_noparse_tags: TallyList,
    /// unknown dictionary flags, by count
    pub slg_noparse_flags: TallyList,
}

impl Lang {
    /// The flag map's contents.
    pub open spec fn flags_of(&self) -> Map<Seq<char>, (FlagType, u32)> {
        flag_contents(self.slg_flag_hash)
    }

    /// The word list's contents.
    pub open spec fn dict_of(&self) -> Map<Seq<char>, crate::dict::DicEntry> {
        dict_contents(self.slg_dic_hash)
    }

    /// The affix classes and their indexes are untouched.
    pub open spec fn same_affix(&self, o: &Lang) -> bool {
        &&& self.slg_aff_groups@ == o.slg_aff_groups@
        &&& self.slg_pfxes@ == o.slg_pfxes@
        &&& self.slg_sfxes@ == o.slg_sfxes@
        &&& self.slg_affix_ct == o.slg_affix_ct
    }

    /// The flag declarations are untouched.
    pub open spec fn same_flagdecl(&self, o: &Lang) -> bool {
        &&& self.flags_of() == o.flags_of()
        &&& self.slg_af@ == o.slg_af@
        &&& self.slg_af_parsed == o.slg_af_parsed
        &&& self.slg_compoundrule@ == o.slg_compoundrule@
        &&& self.slg_compoundrule_parsed == o.slg_compoundrule_parsed
    }

    /// The word list is untouched.
    pub open spec fn same_dict(&self, o: &Lang) -> bool {
        &&& self.dict_of() == o.dict_of()
        &&& self.slg_dic_count == o.slg_dic_count
        &&& self.slg_dic_duplicated == o.slg_dic_duplicated
    }

    /// The tag and flag tallies are untouched.
    pub open spec fn same_tallies(&self, o: &Lang) -> bool {
        &&& self.slg_noparse_tags.entries() == o.slg_noparse_tags.entries()
        &&& self.slg_noparse_flags.entries() == o.slg_noparse_flags.entries()
    }

    /// The reading state and test expectations are untouched.
    pub open spec fn same_runtime(&self, o: &Lang) -> bool {
        &&& self.lng_mode_flags == o.lng_mode_flags
        &&& self.lng_parse_status == o.lng_parse_status
        &&& self.lng_parsed_line@ == o.lng_parsed_line@
        &&& self.lng_mode_until_brace == o.lng_mode_until_brace
        &&& self.lng_passed_count == o.lng_passed_count
        &&& self.lng_failed_count == o.lng_failed_count
        &&& self.lng_pass_expected@ == o.lng_pass_expected@
        &&& self.lng_fail_expected@ == o.lng_fail_expected@
        &&& self.lng_total_notes == o.lng_total_notes
        &&& self.lng_start_note_count == o.lng_start_note_count
        &&& self.lng_testing_bad_gram == o.lng_testing_bad_gram
        &&& self.lng_test_bad_gram_passed == o.lng_test_bad_gram_passed
    }

    /// The word list is well formed: every stored entry holds at least
    /// one word, and the key space is finite.
    pub open spec fn dict_wf(&self) -> bool {
        &&& self.dict_of().dom().finite()
        &&& forall|k: Seq<char>|
            self.dict_of().dom().contains(k) ==> (#[trigger] self.dict_of()[k]).den_words@.len()
                >= 1
    }

    /// The affix budget is as the format allows: at most two strips on
    /// either side.
    pub open spec fn budget_wf(&self) -> bool {
        &&& self.opts.slg_prefix_max <= 2
        &&& self.opts.slg_suffix_max <= 2
    }

    /// A language the checker can be run against.
    pub open spec fn wf(&self) -> bool {
        &&& self.dict_wf()
        &&& self.budget_wf()
    }

    /// A fresh language with the format's default settings: suffix
    /// budget two, prefix budget one, flags of one Unicode character.
    pub fn new(slg_code: &str) -> (r: Lang)
        ensures
            r.slg_code@ == slg_code@,
            r.lng_mode_flags == 0,
            r.lng_parse_status == ParseStatus::FileEnded,
            r.lng_mode_until_brace == false,
            r.lng_passed_count == 0,
            r.lng_failed_count == 0,
            r.lng_pass_expected@.len() == 0,
            r.lng_fail_expected@.len() == 0,
            r.lng_total_notes == 0,
            r.lng_start_note_count == 0,
            r.lng_testing_bad_gram == false,
            r.lng_test_bad_gram_passed == true,
            r.slg_set@ == "UTF-8"@,
            r.slg_flag == FlagFormat::SingleUni,
            r.opts.slg_cplx_pref == false,
            r.opts.slg_prefix_max == 1,
            r.opts.slg_suffix_max == 2,
            r.opts.slg_sug_split == true,
            r.opts.slg_sug_dots == false,
            r.opts.slg_wordchar_digits == false,
            r.opts.slg_wordchars@.len() == 0,
            r.opts.slg_max_diff == 5,
            r.opts.slg_comp_min == 0,
            r.slg_aff_groups@.len() == 0,
            r.slg_pfxes@.len() == 0,
            r.slg_sfxes@.len() == 0,
            r.flags_of() == crate::store::flag_empty_map(),
            r.slg_affix_ct == 0,
            r.slg_af@.len() == 0,
            r.slg_af_parsed == false,
            r.slg_compoundrule@.len() == 0,
            r.slg_compoundrule_parsed == false,
            r.slg_dic_count == 0,
            r.dict_of() == crate::store::dict_empty_map(),
            r.slg_dic_duplicated == 0,
            r.slg_noparse_tags.entries().len() == 0,
            r.slg_noparse_flags.entries().len() == 0,
            r.wf(),
    {
        Lang {
            slg_code: String::from_str(slg_code),
            lng_mode_flags: 0,
            lng_parse_status: ParseStatus::FileEnded,
            lng_parsed_line: String::new(),
            lng_mode_until_brace: false,
            lng_passed_count: 0,
            lng_failed_count: 0,
            lng_pass_expected: Vec::new(),
            lng_fail_expected: Vec::new(),
            lng_total_notes: 0,
            lng_start_note_count: 0,
            lng_testing_bad_gram: false,
            lng_test_bad_gram_passed: true,
            slg_set: String::from_str("UTF-8"),
            slg_flag: FlagFormat::SingleUni,
            opts: AffOptions {
                slg_try: String::new(),
                slg_key: String::new(),
                tag_wordchars: String::new(),
                slg_wordchar_digits: false,
                slg_wordchars: Vec::new(),
                slg_ignore: String::new(),
                slg_name: String::new(),
                slg_home: String::new(),
                slg_version: String::new(),
                slg_cplx_pref: false,
                slg_prefix_max: 1,
                slg_suffix_max: 2,
                slg_sug_split: true,
                slg_sug_dots: false,
                slg_rep: Vec::new(),
                slg_phone: Vec::new(),
                slg_iconv: Vec::new(),
                slg_oconv: Vec::new(),
                slg_map: (Vec::new(), false),
                slg_break: (Vec::new(), false),
                slg_comp_check_dup: false,
                slg_comp_check_rep: false,
                slg_comp_check_case: false,
                slg_check_sharp_s: false,
                slg_check_comp_triple: false,
                slg_simplified_triple: false,
                slg_only_max_diff: false,
                slg_full_string: false,
                slg_comp_more_suffixes: false,
                slg_comp_min: 0,
                slg_comp_word_max: 0,
                slg_max_cpd_sugs: 0,
                slg_max_ngram_sugs: 0,
                slg_max_diff: 5,
            },
            slg_aff_groups: Vec::new(),
            slg_pfxes: Vec::new(),
            slg_sfxes: Vec::new(),
            slg_flag_hash: FlagTable::new(),
            slg_affix_ct: 0,
            slg_af: Vec::new(),
            slg_af_parsed: false,
            slg_compoundrule: Vec::new(),
            slg_compoundrule_parsed: false,
            slg_dic_count: 0,
            slg_dic_hash: DictTable::new(),
            slg_dic_duplicated: 0,
            slg_noparse_tags: TallyList::new(),
            slg_noparse_flags: TallyList::new(),
        }
    }

    /// Splits a string of flags per the language's flag format: one
    /// character each under `UTF-8`, two under `long`, comma-separated
    /// numerals under `num`.
    pub fn parse_flags(&self, flags: &str) -> (r: Vec<String>)
        ensures
            crate::text::str_views(r@) == flags_split(self.slg_flag, flags@),
    {
        let n = flags.unicode_len();
        if n == 0 {
            let r: Vec<String> = Vec::new();
            proof {
                assert(crate::text::str_views(r@) =~= flags_split(self.slg_flag, flags@));
            }
            return r;
        }
        if matches!(self.slg_flag, FlagFormat::SingleUni | FlagFormat::SingleChar) {
            let mut r: Vec<String> = Vec::new();
            let mut i: usize = 0;
            proof {
                assert(crate::text::str_views(r@) =~~= Seq::new(0nat, |j: int| seq![flags@[j]]));
            }
            while i < n
                invariant
                    n == flags@.len(),
                    i <= n,
                    r@.len() == i,
                    crate::text::str_views(r@) == Seq::new(i as nat, |j: int| seq![flags@[j]]),
                decreases n - i,
            {
                let mut one = String::new();
                crate::text::push_char(&mut one, flags.get_char(i));
                let ghost before = crate::text::str_views(r@);
                let ghost onev = one@;
                r.push(one);
                proof {
                    let target = Seq::new((i + 1) as nat, |j: int| seq![flags@[j]]);
                    assert forall|j: int| 0 <= j < i + 1 implies crate::text::str_views(r@)[j]
                        =~= target[j] by {
                        assert(target[j] == seq![flags@[j]]);
                        if j < i {
                            assert(crate::text::str_views(r@)[j] == before[j]);
                        } else {
                            assert(crate::text::str_views(r@)[j] == onev);
                        }
                    }
                    assert(crate::text::str_views(r@) =~~= target);
                }
                i += 1;
            }
            proof {
                assert(crate::text::str_views(r@) =~= flags_split(self.slg_flag, flags@));
            }
            r
        } else if matches!(self.slg_flag, FlagFormat::DoubleChar) {
            let mut r: Vec<String> = Vec::new();
            let mut i: usize = 0;
            let half = n / 2;
            proof {
                assert(crate::text::str_views(r@) =~~= Seq::new(
                    0nat,
                    |j: int| seq![flags@[2 * j], flags@[2 * j + 1]],
                ));
            }
            while i < half
                invariant
                    n == flags@.len(),
                    half == n / 2,
                    i <= half,
                    r@.len() == i,
                    crate::text::str_views(r@) == Seq::new(
                        i as nat,
                        |j: int| seq![flags@[2 * j], flags@[2 * j + 1]],
                    ),
                decreases half - i,
            {
                let mut two = String::new();
                crate::text::push_char(&mut two, flags.get_char(2 * i));
                crate::text::push_char(&mut two, flags.get_char(2 * i + 1));
                let ghost before = crate::text::str_views(r@);
                let ghost twov = two@;
                r.push(two);
                proof {
                    let target = Seq::new(
                        (i + 1) as nat,
                        |j: int| seq![flags@[2 * j], flags@[2 * j + 1]],
                    );
                    assert forall|j: int| 0 <= j < i + 1 implies crate::text::str_views(r@)[j]
                        =~= target[j] by {
                        assert(target[j] == seq![flags@[2 * j], flags@[2 * j + 1]]);
                        if j < i {
                            assert(crate::text::str_views(r@)[j] == before[j]);
                        } else {
                            assert(crate::text::str_views(r@)[j] == twov);
                        }
                    }
                    assert(crate::text::str_views(r@) =~~= target);
                }
                i += 1;
            }
            proof {
                assert(crate::text::str_views(r@) =~= flags_split(self.slg_flag, flags@));
            }
            r
        } else {
            let r = crate::text::split_on_char(flags, ',');
            proof {
                assert(crate::text::str_views(r@) =~= flags_split(self.slg_flag, flags@));
            }
            r
        }
    }

    /// Splits a `COMPOUNDRULE` pattern into flags: under the
    /// one-character format, each character except `*` and `?`.
    pub fn parse_compoundrule_flags(&self, flags: &str) -> (r: Vec<String>)
        ensures
            self.slg_flag == FlagFormat::SingleUni || self.slg_flag == FlagFormat::SingleChar
                ==> crate::text::str_views(r@) == comp_rule_fold(flags@, Seq::empty()),
            self.slg_flag != FlagFormat::SingleUni && self.slg_flag != FlagFormat::SingleChar
                ==> r@.len() == 0,
    {
        let mut r: Vec<String> = Vec::new();
        if !matches!(self.slg_flag, FlagFormat::SingleUni | FlagFormat::SingleChar) {
            return r;
        }
        let n = flags.unicode_len();
        let mut i: usize = 0;
        proof {
            assert(flags@.subrange(0, n as int) =~= flags@);
            assert(crate::text::str_views(r@) =~= Seq::<Seq<char>>::empty());
        }
        while i < n
            invariant
                n == flags@.len(),
                i <= n,
                comp_rule_fold(flags@, Seq::empty()) == comp_rule_fold(
                    flags@.subrange(i as int, n as int),
                    crate::text::str_views(r@),
                ),
            decreases n - i,
        {
            let ghost rest = flags@.subrange(i as int, n as int);
            let ghost rest2 = flags@.subrange(i + 1 as int, n as int);
            proof {
                assert(rest.drop_first() =~= rest2);
                assert(rest[0] == flags@[i as int]);
            }
            let c = flags.get_char(i);
            if c != '*' && c != '?' {
                let mut one = String::new();
                crate::text::push_char(&mut one, c);
                let ghost before = crate::text::str_views(r@);
                r.push(one);
                proof {
                    assert(crate::text::str_views(r@) =~~= before.push(seq![flags@[i as int]]));
                }
            }
            i += 1;
        }
        proof {
            assert(flags@.subrange(n as int, n as int) =~= Seq::<char>::empty());
        }
        r
    }
}

/// A token that opens an end-of-line comment.
pub open spec fn starts_hash(t: Seq<char>) -> bool {
    t.len() > 0 && t[0] == '#'
}

/// The notes after a tag that takes no argument saw its arguments: one
/// complaint, unless the extra text is a comment.
pub open spec fn note_if_extra_arg(
    pre: Seq<(Seq<char>, Option<Seq<char>>)>,
    args: Seq<Seq<char>>,
    msg: Seq<char>,
) -> Seq<(Seq<char>, Option<Seq<char>>)> {
    if args.len() > 0 && !starts_hash(args[0]) {
        pre.push((msg, None))
    } else {
        pre
    }
}

/// The views of a table of string pairs.
pub open spec fn pair_views(ps: Seq<(String, String)>) -> Seq<(Seq<char>, Seq<char>)> {
    ps.map_values(|p: (String, String)| (p.0@, p.1@))
}

/// A map after inserting the same value under each of a list of keys,
/// in order.
pub open spec fn insert_all(
    m: Map<Seq<char>, (FlagType, u32)>,
    ks: Seq<Seq<char>>,
    v: (FlagType, u32),
) -> Map<Seq<char>, (FlagType, u32)>
    decreases ks.len(),
{
    if ks.len() == 0 {
        m
    } else {
        insert_all(m.insert(ks[0], v), ks.drop_first(), v)
    }
}

/// Whether a string holds all ten ASCII digits.
pub open spec fn has_all_digits(s: Seq<char>) -> bool {
    forall|d: int| 0 <= d <= 9 ==> s.contains(crate::text::digit_char(d))
}

/// The characters of a string with the ASCII digits removed.
pub open spec fn non_digit_fold(s: Seq<char>, acc: Seq<char>) -> Seq<char>
    decreases s.len(),
{
    if s.len() == 0 {
        acc
    } else if !crate::text::is_digit_char(s[0]) {
        non_digit_fold(s.drop_first(), acc.push(s[0]))
    } else {
        non_digit_fold(s.drop_first(), acc)
    }
}

/// The word-character set a `WORDCHARS` value yields: without the digits
/// when all ten are present, else the characters as given.
pub open spec fn wordchars_of(s: Seq<char>) -> Seq<char> {
    if has_all_digits(s) {
        non_digit_fold(s, Seq::empty())
    } else {
        s
    }
}

pub fn token_starts_hash(t: &String) -> (r: bool)
    ensures
        r == starts_hash(t@),
{
    if t.as_str().is_empty() {
        false
    } else {
        t.as_str().get_char(0) == '#'
    }
}

impl Lang {
    /// Everything but the plain options is untouched.
    pub open spec fn same_but_opts(&self, o: &Lang) -> bool {
        &&& self.slg_code@ == o.slg_code@
        &&& self.slg_set@ == o.slg_set@
        &&& self.slg_flag == o.slg_flag
        &&& self.same_runtime(o)
        &&& self.same_affix(o)
        &&& self.same_flagdecl(o)
        &&& self.same_dict(o)
        &&& self.same_tallies(o)
    }

    /// Parses a tag that takes no value and acts as a switch: when the
    /// first token is the tag, the switch takes the given value, and any
    /// non-comment text after the tag draws one complaint.
    pub fn parse_simple(tag: &str, variab: &mut bool, value: bool, parse_state: &mut ParseState) -> (r:
        bool)
        ensures
            r == (old(parse_state).first_view() == tag@),
            final(parse_state).same_line(old(parse_state)),
            final(parse_state).first_view() == old(parse_state).first_view(),
            final(parse_state).pst_first_token is Some,
            !r ==> *final(variab) == *old(variab) && final(parse_state).notes_view() == old(parse_state).notes_view() && final(parse_state).args_view() == old(parse_state).args_view(),
            r ==> *final(variab) == value && final(parse_state).notes_view() == note_if_extra_arg(
                old(parse_state).notes_view(),
                old(parse_state).args_view(),
                "Unexpected argument"@,
            ),
    {
        let ft = parse_state.get_first_token();
        if crate::text::str_eq(ft.as_str(), tag) {
            let rest = parse_state.collect_rest();
            if rest.len() > 0 && !token_starts_hash(&rest[0]) {
                proof {
                    assert(crate::text::str_views(rest@)[0] == rest@[0]@);
                }
                parse_state.add_note("Unexpected argument");
            }
            *variab = value;
            true
        } else {
            false
        }
    }

    /// Parses a tag with one string value: the value token replaces the
    /// variable, and a missing value draws one complaint.
    pub fn parse_string(tag: &str, variab: &mut String, parse_state: &mut ParseState) -> (r: bool)
        ensures
            r == (old(parse_state).first_view() == tag@),
            final(parse_state).same_line(old(parse_state)),
            final(parse_state).first_view() == old(parse_state).first_view(),
            final(parse_state).pst_first_token is Some,
            !r ==> *final(variab) == *old(variab) && final(parse_state).notes_view() == old(parse_state).notes_view() && final(parse_state).args_view() == old(parse_state).args_view(),
            r && old(parse_state).args_view().len() > 0 ==> final(variab)@ == old(parse_state).args_view()[0] && final(parse_state).notes_view() == old(parse_state).notes_view(),
            r && old(parse_state).args_view().len() == 0 ==> *final(variab) == *old(variab)
                && final(parse_state).notes_view() == old(parse_state).notes_view().push(
                ("Missing value"@, None),
            ),
    {
        let ft = parse_state.get_first_token();
        if crate::text::str_eq(ft.as_str(), tag) {
            match parse_state.get_next_token() {
                Some(v) => {
                    *variab = v;
                },
                None => {
                    parse_state.add_note("Missing value");
                },
            }
            true
        } else {
            false
        }
    }

    /// Parses a tag with one unsigned numeric value: a value that reads
    /// as a number replaces the variable; a malformed or missing value
    /// draws one complaint.
    pub fn parse_number(tag: &str, variab: &mut u32, parse_state: &mut ParseState) -> (r: bool)
        ensures
            r == (old(parse_state).first_view() == tag@),
            final(parse_state).same_line(old(parse_state)),
            final(parse_state).first_view() == old(parse_state).first_view(),
            final(parse_state).pst_first_token is Some,
            !r ==> *final(variab) == *old(variab) && final(parse_state).notes_view() == old(parse_state).notes_view() && final(parse_state).args_view() == old(parse_state).args_view(),
            r && old(parse_state).args_view().len() > 0 && crate::text::parses_as_u32(
                old(parse_state).args_view()[0],
            ) ==> *final(variab) == crate::text::numeral_val(
                crate::text::numeral_digits(old(parse_state).args_view()[0]),
            ) && final(parse_state).notes_view() == old(parse_state).notes_view(),
            r && old(parse_state).args_view().len() > 0 && !crate::text::parses_as_u32(
                old(parse_state).args_view()[0],
            ) ==> *final(variab) == *old(variab) && final(parse_state).notes_view() == old(parse_state).notes_view().push(("Expected number"@, None)),
            r && old(parse_state).args_view().len() == 0 ==> *final(variab) == *old(variab)
                && final(parse_state).notes_view() == old(parse_state).notes_view().push(
                ("Missing value"@, None),
            ),
    {
        let ft = parse_state.get_first_token();
        if crate::text::str_eq(ft.as_str(), tag) {
            match parse_state.get_next_token() {
                Some(v) => {
                    match crate::text::parse_u32(v.as_str()) {
                        Some(number_value) => {
                            *variab = number_value;
                        },
                        None => {
                            parse_state.add_note("Expected number");
                        },
                    }
                },
                None => {
                    parse_state.add_note("Missing value");
                },
            }
            true
        } else {
            false
        }
    }

    /// Parses a two-phase tag with one string value per data line: the
    /// first sighting is the header announcing the size, each later
    /// sighting appends one value.
    pub fn parse_string_table(
        tag: &str,
        variab: &mut (Vec<String>, bool),
        parse_state: &mut ParseState,
    ) -> (r: bool)
        ensures
            r == (old(parse_state).first_view() == tag@),
            final(parse_state).same_line(old(parse_state)),
            final(parse_state).first_view() == old(parse_state).first_view(),
            final(parse_state).pst_first_token is Some,
            !r ==> *final(variab) == *old(variab) && final(parse_state).notes_view() == old(parse_state).notes_view() && final(parse_state).args_view() == old(parse_state).args_view(),
            r && old(parse_state).args_view().len() == 0 ==> *final(variab) == *old(variab)
                && final(parse_state).notes_view() == old(parse_state).notes_view().push(
                ("Missing argument"@, None),
            ),
            r && old(parse_state).args_view().len() >= 1 && !old(variab).1 ==> final(variab).1
                == true && final(variab).0@ == old(variab).0@ && final(parse_state).notes_view()
                == note_if_extra_arg(
                if !crate::text::parses_as_u32(old(parse_state).args_view()[0]) {
                    old(parse_state).notes_view().push(("Expected number"@, None))
                } else {
                    old(parse_state).notes_view()
                },
                old(parse_state).args_view().skip(1),
                "Expected one argument"@,
            ),
            r && old(parse_state).args_view().len() >= 1 && old(variab).1 ==> final(variab).1
                == true && crate::text::str_views(final(variab).0@) == crate::text::str_views(
                old(variab).0@,
            ).push(old(parse_state).args_view()[0]) && final(parse_state).notes_view()
                == note_if_extra_arg(
                old(parse_state).notes_view(),
                old(parse_state).args_view().skip(1),
                "Expected one argument"@,
            ),
    {
        let ft = parse_state.get_first_token();
        if crate::text::str_eq(ft.as_str(), tag) {
            let tokens = parse_state.collect_rest();
            if tokens.len() < 1 {
                parse_state.add_note("Missing argument");
                return true;
            }
            proof {
                assert(crate::text::str_views(tokens@)[0] == tokens@[0]@);
            }
            if !variab.1 {
                if crate::text::parse_u32(tokens[0].as_str()).is_none() {
                    parse_state.add_note("Expected number");
                }
                variab.1 = true;
            } else {
                let ghost before = crate::text::str_views(variab.0@);
                variab.0.push(tokens[0].clone());
                proof {
                    assert(crate::text::str_views(variab.0@) =~= before.push(tokens@[0]@));
                }
            }
            if tokens.len() > 1 && !token_starts_hash(&tokens[1]) {
                proof {
                    assert(crate::text::str_views(tokens@)[1] == tokens@[1]@);
                    assert(old(parse_state).args_view().skip(1)[0] == tokens@[1]@);
                }
                parse_state.add_note("Expected one argument");
            }
            true
        } else {
            false
        }
    }

    /// Parses a two-phase tag with two string values per data line: the
    /// first sighting (one argument, or a comment after the first) is the
    /// header; each later sighting appends one pair.
    pub fn parse_pair_table(
        tag: &str,
        variab: &mut Vec<(String, String)>,
        parse_state: &mut ParseState,
    ) -> (r: bool)
        ensures
            r == (old(parse_state).first_view() == tag@),
            final(parse_state).same_line(old(parse_state)),
            final(parse_state).first_view() == old(parse_state).first_view(),
            final(parse_state).pst_first_token is Some,
            !r ==> *final(variab) == *old(variab) && final(parse_state).notes_view() == old(parse_state).notes_view() && final(parse_state).args_view() == old(parse_state).args_view(),
            r ==> ({
                let args = old(parse_state).args_view();
                let is_first = args.len() == 1 || (args.len() >= 2 && starts_hash(args[1]));
                if is_first {
                    final(variab)@ == old(variab)@ && final(parse_state).notes_view() == old(parse_state).notes_view()
                } else if args.len() < 2 {
                    final(variab)@ == old(variab)@ && final(parse_state).notes_view() == old(parse_state).notes_view().push(("Not enough arguments, expected two"@, None))
                } else {
                    pair_views(final(variab)@) == pair_views(old(variab)@).push(
                        (args[0], args[1]),
                    ) && final(parse_state).notes_view() == note_if_extra_arg(
                        old(parse_state).notes_view(),
                        args.skip(2),
                        "Expected two arguments"@,
                    )
                }
            }),
    {
        let ft = parse_state.get_first_token();
        if crate::text::str_eq(ft.as_str(), tag) {
            let tokens = parse_state.collect_rest();
            proof {
                if tokens@.len() > 0 {
                    assert(crate::text::str_views(tokens@)[0] == tokens@[0]@);
                }
                if tokens@.len() > 1 {
                    assert(crate::text::str_views(tokens@)[1] == tokens@[1]@);
                }
                if tokens@.len() > 2 {
                    assert(crate::text::str_views(tokens@)[2] == tokens@[2]@);
                }
            }
            let is_first = tokens.len() == 1 || tokens.len() >= 2 && token_starts_hash(&tokens[1]);
            if is_first {
                // the header only announces a size; the size is a
                // capacity hint and draws no note even when malformed
            } else {
                if tokens.len() < 2 {
                    parse_state.add_note("Not enough arguments, expected two");
                }
                if tokens.len() >= 2 {
                    let ghost before = pair_views(variab@);
                    variab.push((tokens[0].clone(), tokens[1].clone()));
                    proof {
                        assert(pair_views(variab@) =~= before.push((tokens@[0]@, tokens@[1]@)));
                    }
                }
                if tokens.len() > 2 && !token_starts_hash(&tokens[2]) {
                    proof {
                        assert(old(parse_state).args_view().skip(2)[0] == tokens@[2]@);
                    }
                    parse_state.add_note("Expected two arguments");
                }
            }
            true
        } else {
            false
        }
    }

    /// Parses one tag that declares a single flag of a given kind: the
    /// flag token is registered in the flag map under that kind.
    pub fn parse_simple_flag(
        &mut self,
        tag: &str,
        flag_type: FlagType,
        parse_state: &mut ParseState,
    ) -> (r: bool)
        ensures
            r == (old(parse_state).first_view() == tag@),
            final(parse_state).same_line(old(parse_state)),
            final(parse_state).first_view() == old(parse_state).first_view(),
            final(parse_state).pst_first_token is Some,
            final(self).opts == old(self).opts,
            final(self).slg_code@ == old(self).slg_code@,
            final(self).slg_set@ == old(self).slg_set@,
            final(self).slg_flag == old(self).slg_flag,
            final(self).same_runtime(old(self)),
            final(self).same_affix(old(self)),
            final(self).same_dict(old(self)),
            final(self).same_tallies(old(self)),
            final(self).slg_af@ == old(self).slg_af@,
            final(self).slg_af_parsed == old(self).slg_af_parsed,
            final(self).slg_compoundrule@ == old(self).slg_compoundrule@,
            final(self).slg_compoundrule_parsed == old(self).slg_compoundrule_parsed,
            !r ==> final(self).flags_of() == old(self).flags_of() && final(parse_state).notes_view() == old(parse_state).notes_view() && final(parse_state).args_view()
                == old(parse_state).args_view(),
            r && old(parse_state).args_view().len() > 0 ==> final(self).flags_of() == old(self).flags_of().insert(old(parse_state).args_view()[0], (flag_type, 0)) && final(parse_state).notes_view() == old(parse_state).notes_view(),
            r && old(parse_state).args_view().len() == 0 ==> final(self).flags_of() == old(self).flags_of() && final(parse_state).notes_view() == old(parse_state).notes_view().push(
                ("No flag value for element"@, None),
            ),
    {
        let ft = parse_state.get_first_token();
        if crate::text::str_eq(ft.as_str(), tag) {
            match parse_state.get_next_token() {
                Some(comp_flag) => {
                    self.slg_flag_hash.insert(comp_flag, (flag_type, 0));
                },
                None => {
                    parse_state.add_note("No flag value for element");
                },
            }
            true
        } else {
            false
        }
    }

    /// The second step of the `WORDCHARS` tag: notes whether all ten
    /// digits are present, and keeps the non-digit characters when so.
    pub fn parse_wordchars(&mut self)
        ensures
            final(self).same_but_opts(old(self)),
            final(self).opts == (AffOptions {
                slg_wordchar_digits: has_all_digits(old(self).opts.tag_wordchars@),
                slg_wordchars: final(self).opts.slg_wordchars,
                ..old(self).opts
            }),
            final(self).opts.slg_wordchars@ == wordchars_of(old(self).opts.tag_wordchars@),
    {
        update_wordchars(&mut self.opts);
    }
}

/// Whether a class already holds as many entries as its header declared.
pub open spec fn group_complete(g: AffixGroup) -> bool {
    g.afg_affixes@.len() >= g.afg_size
}

/// The fields an affix entry parsed from a data line must carry.
pub open spec fn entry_matches(
    e: crate::affix::AffixEntry,
    sub: Seq<char>,
    add: Seq<char>,
    fl: Seq<Seq<char>>,
    cond: Seq<char>,
) -> bool {
    &&& e.afe_sub@ == sub
    &&& e.afe_add@ == add
    &&& crate::dict::flag_views(e.afe_next_flags@) == fl
    &&& e.afe_cond.rgx_def@ == cond
    &&& e.afe_cond.well_compiled()
    &&& e.afe_morph@.len() == 0
}

/// The fields a class built from a header line must carry.
pub open spec fn header_group_ok(
    g: AffixGroup,
    args: Seq<Seq<char>>,
    is_prefix: bool,
    ix: int,
) -> bool {
    &&& g.afg_name@ == args[0]
    &&& ix <= 0xffff_ffff ==> g.afg_ix as int == ix
    &&& g.afg_is_pre == is_prefix
    &&& g.afg_circum == (args[1] == "Y"@)
    &&& g.afg_size as nat == crate::text::numeral_val(crate::text::numeral_digits(args[2]))
    &&& g.afg_affixes@.len() == 0
    &&& g.afg_prev_flags@.len() == 0
}

/// An entry appended to a class: the class keeps its header fields and
/// gains one entry with the given fields at the end.
pub open spec fn group_with_entry(
    gpre: AffixGroup,
    gpost: AffixGroup,
    sub: Seq<char>,
    add: Seq<char>,
    fl: Seq<Seq<char>>,
    cond: Seq<char>,
) -> bool {
    &&& gpost.afg_name@ == gpre.afg_name@
    &&& gpost.afg_ix == gpre.afg_ix
    &&& gpost.afg_is_pre == gpre.afg_is_pre
    &&& gpost.afg_circum == gpre.afg_circum
    &&& gpost.afg_size == gpre.afg_size
    &&& gpost.afg_prev_flags@ == gpre.afg_prev_flags@
    &&& gpost.afg_affixes@.len() == gpre.afg_affixes@.len() + 1
    &&& gpost.afg_affixes@.subrange(0, gpre.afg_affixes@.len() as int) == gpre.afg_affixes@
    &&& entry_matches(gpost.afg_affixes@.last(), sub, add, fl, cond)
    &&& gpost.afg_affixes@.last().afe_ix == gpre.afg_affixes@.len()
}

/// What one `PFX` or `SFX` line does: fewer than three arguments is an
/// error; otherwise the line opens a new class (when no class is open,
/// or the name differs from the open class) or adds an entry to the open
/// class, compiling its condition and decoding its continuation flags.
pub open spec fn affix_effect(
    pre: &Lang,
    post: &Lang,
    pre_notes: Seq<(Seq<char>, Option<Seq<char>>)>,
    post_notes: Seq<(Seq<char>, Option<Seq<char>>)>,
    args: Seq<Seq<char>>,
    is_prefix: bool,
) -> bool {
    let groups = pre.slg_aff_groups@;
    if args.len() < 3 {
        &&& post.same_affix(pre)
        &&& post_notes == pre_notes.push(("Less than 3 tokens for PFX or SFX"@, None))
    } else {
        let was_first = groups.len() == 0 || group_complete(groups.last());
        let mismatch = !was_first && groups.last().afg_name@ != args[0];
        let is_first = was_first || mismatch;
        let notes1 = if mismatch {
            pre_notes.push(
                ("According to the affix header count, the previous affix class is not yet full"@, None),
            )
        } else {
            pre_notes
        };
        if is_first {
            let notes2 = if crate::text::parses_as_u32(args[2]) {
                notes1
            } else {
                notes1.push(("Bad class size in the PFX or SFX header"@, None))
            };
            let notes3 = if args.len() >= 4 && !starts_hash(args[3]) {
                notes2.push(("Superfluous tokens in the PFX or SFX header"@, None))
            } else {
                notes2
            };
            &&& post_notes == notes3
            &&& if crate::text::parses_as_u32(args[2]) {
                &&& post.slg_aff_groups@.len() == groups.len() + 1
                &&& post.slg_aff_groups@.subrange(0, groups.len() as int) == groups
                &&& header_group_ok(
                    post.slg_aff_groups@.last(),
                    args,
                    is_prefix,
                    groups.len() as int,
                )
                &&& if is_prefix {
                    post.slg_pfxes@ == pre.slg_pfxes@.push(post.slg_aff_groups@.last().afg_ix)
                        && post.slg_sfxes@ == pre.slg_sfxes@
                } else {
                    post.slg_sfxes@ == pre.slg_sfxes@.push(post.slg_aff_groups@.last().afg_ix)
                        && post.slg_pfxes@ == pre.slg_pfxes@
                }
                &&& post.slg_affix_ct == pre.slg_affix_ct
            } else {
                post.same_affix(pre)
            }
        } else {
            let sub = if args[1] == "0"@ {
                Seq::<char>::empty()
            } else {
                args[1]
            };
            let add_next = if args[2] == "0"@ {
                Seq::<char>::empty()
            } else {
                args[2]
            };
            let parts = crate::text::split_on(add_next, '/');
            let add = parts[0];
            let nextf = if parts.len() >= 2 {
                parts[1]
            } else {
                Seq::<char>::empty()
            };
            let fl = flags_split(pre.slg_flag, nextf);
            let cond = if args.len() < 4 {
                Seq::<char>::empty()
            } else {
                args[3]
            };
            let compiled = crate::condition::compile_all(crate::condition::cleaned_def(cond));
            if compiled.error is Some {
                &&& post.same_affix(pre)
                &&& post_notes == notes1.push(((compiled.error->0).0, None))
            } else {
                let k = groups.len() - 1;
                if groups[k].afg_affixes@.len() < groups[k].afg_size {
                    &&& post.slg_aff_groups@.len() == groups.len()
                    &&& post.slg_aff_groups@.subrange(0, k) == groups.subrange(0, k)
                    &&& group_with_entry(groups[k], post.slg_aff_groups@[k], sub, add, fl, cond)
                    &&& post.slg_pfxes@ == pre.slg_pfxes@
                    &&& post.slg_sfxes@ == pre.slg_sfxes@
                    &&& post.slg_affix_ct == pre.slg_affix_ct
                    &&& post_notes == notes1
                } else {
                    &&& post.same_affix(pre)
                    &&& post_notes == notes1.push(("too many affix entries"@, None))
                }
            }
        }
    }
}

impl Lang {
    /// Parses one `PFX` or `SFX` line, either the header of a class or
    /// one of its data lines.
    pub fn parse_affix(&mut self, parse_state: &mut ParseState, is_prefix: bool)
        ensures
            final(parse_state).same_line(old(parse_state)),
            final(self).opts == old(self).opts,
            final(self).slg_code@ == old(self).slg_code@,
            final(self).slg_set@ == old(self).slg_set@,
            final(self).slg_flag == old(self).slg_flag,
            final(self).same_runtime(old(self)),
            final(self).same_flagdecl(old(self)),
            final(self).same_dict(old(self)),
            final(self).same_tallies(old(self)),
            affix_effect(
                old(self),
                final(self),
                old(parse_state).notes_view(),
                final(parse_state).notes_view(),
                old(parse_state).args_view(),
                is_prefix,
            ),
    {
        let ghost args = old(parse_state).args_view();
        let _tag = parse_state.get_first_token();
        let tokens = parse_state.collect_rest();
        proof {
            assert(crate::text::str_views(tokens@) == args);
            if tokens@.len() > 0 {
                assert(args[0] == tokens@[0]@);
            }
            if tokens@.len() > 1 {
                assert(args[1] == tokens@[1]@);
            }
            if tokens@.len() > 2 {
                assert(args[2] == tokens@[2]@);
            }
            if tokens@.len() > 3 {
                assert(args[3] == tokens@[3]@);
            }
        }
        if tokens.len() < 3 {
            parse_state.add_note("Less than 3 tokens for PFX or SFX");
            return ;
        }
        let glen = self.slg_aff_groups.len();
        let mut is_first = glen == 0 || self.slg_aff_groups[glen - 1].is_complete();
        if !is_first && !crate::text::str_eq(
            self.slg_aff_groups[glen - 1].afg_name.as_str(),
            tokens[0].as_str(),
        ) {
            is_first = true;
            parse_state.add_note(
                "According to the affix header count, the previous affix class is not yet full",
            );
        }
        if is_first {
            let group_name = tokens[0].clone();
            let can_circum = crate::text::str_eq(tokens[1].as_str(), "Y");
            match crate::text::parse_u32(tokens[2].as_str()) {
                Some(group_size) => {
                    let mut affix_group = crate::affix::AffixGroup::build_affix_group(
                        group_name,
                        is_prefix,
                        can_circum,
                        group_size,
                    );
                    if glen <= 0xffff_ffff {
                        affix_group.afg_ix = glen as u32;
                    }
                    let ix = affix_group.afg_ix;
                    if is_prefix {
                        self.slg_pfxes.push(ix);
                    } else {
                        self.slg_sfxes.push(ix);
                    }
                    self.slg_aff_groups.push(affix_group);
                    proof {
                        assert(self.slg_aff_groups@.subrange(0, glen as int) =~= old(self).slg_aff_groups@);
                    }
                },
                None => {
                    parse_state.add_note("Bad class size in the PFX or SFX header");
                },
            }
            if tokens.len() >= 4 && !token_starts_hash(&tokens[3]) {
                parse_state.add_note("Superfluous tokens in the PFX or SFX header");
            }
        } else {
            let sub = if crate::text::str_eq(tokens[1].as_str(), "0") {
                String::new()
            } else {
                tokens[1].clone()
            };
            let add_next = if crate::text::str_eq(tokens[2].as_str(), "0") {
                String::new()
            } else {
                tokens[2].clone()
            };
            proof {
                if !(args[2] == "0"@) {
                    assert(add_next@ == args[2]);
                }
                crate::text::lemma_sep_fold_len(
                    add_next@,
                    '/',
                    Seq::empty(),
                    Seq::<Seq<char>>::empty(),
                );
            }
            let add_parts = crate::text::split_on_char(add_next.as_str(), '/');
            proof {
                assert(crate::text::str_views(add_parts@)[0] == add_parts@[0]@);
                if add_parts@.len() >= 2 {
                    assert(crate::text::str_views(add_parts@)[1] == add_parts@[1]@);
                }
            }
            let add = add_parts[0].clone();
            let next = if add_parts.len() >= 2 {
                add_parts[1].clone()
            } else {
                String::new()
            };
            let next_flags = self.parse_flags(next.as_str());
            let cond = if tokens.len() < 4 {
                String::new()
            } else {
                tokens[3].clone()
            };
            let affix_entry = crate::affix::AffixEntry::new(sub, add, next_flags, cond);
            let has_err = affix_entry.afe_cond.rgx_error.is_some();
            if has_err {
                match &affix_entry.afe_cond.rgx_error {
                    Some(desc) => {
                        parse_state.add_note(desc.0.as_str());
                    },
                    None => {},
                }
                return ;
            }
            let last_size = self.slg_aff_groups[glen - 1].afg_size;
            let last_len = self.slg_aff_groups[glen - 1].afg_affixes.len();
            if last_len < last_size as usize {
                let mut e = affix_entry;
                e.afe_ix = last_len as u32;
                match self.slg_aff_groups.pop() {
                    Some(mut g) => {
                        g.add_entry(e);
                        self.slg_aff_groups.push(g);
                    },
                    None => {},
                }
                proof {
                    let k = glen - 1;
                    assert(self.slg_aff_groups@.subrange(0, k as int) =~= old(self).slg_aff_groups@.subrange(0, k as int));
                    assert(self.slg_aff_groups@[k as int].afg_affixes@.subrange(
                        0,
                        old(self).slg_aff_groups@[k as int].afg_affixes@.len() as int,
                    ) =~= old(self).slg_aff_groups@[k as int].afg_affixes@);
                }
            } else {
                parse_state.add_note("too many affix entries");
            }
        }
    }
}

/// A value clipped into the `u32` range.
pub open spec fn u32_clamp(n: int) -> u32 {
    if n <= 0xffff_ffff {
        n as u32
    } else {
        0xffff_ffff
    }
}

pub fn clamp_u32(n: usize) -> (r: u32)
    ensures
        r == u32_clamp(n as int),
{
    if n <= 0xffff_ffff {
        n as u32
    } else {
        0xffff_ffff
    }
}

/// What setting a string option does: the first argument replaces the
/// value, or its absence draws one complaint.
pub open spec fn string_set_effect(
    pre_v: Seq<char>,
    post_v: Seq<char>,
    args: Seq<Seq<char>>,
    pre_notes: Seq<(Seq<char>, Option<Seq<char>>)>,
    post_notes: Seq<(Seq<char>, Option<Seq<char>>)>,
) -> bool {
    if args.len() > 0 {
        post_v == args[0] && post_notes == pre_notes
    } else {
        post_v == pre_v && post_notes == pre_notes.push(("Missing value"@, None))
    }
}

/// What a switch tag does: the switch takes the given value; extra
/// non-comment text draws one complaint.
pub open spec fn bool_set_effect(
    value: bool,
    post_v: bool,
    args: Seq<Seq<char>>,
    pre_notes: Seq<(Seq<char>, Option<Seq<char>>)>,
    post_notes: Seq<(Seq<char>, Option<Seq<char>>)>,
) -> bool {
    post_v == value && post_notes == note_if_extra_arg(pre_notes, args, "Unexpected argument"@)
}

/// What setting a numeric option does.
pub open spec fn number_set_effect(
    pre_v: u32,
    post_v: u32,
    args: Seq<Seq<char>>,
    pre_notes: Seq<(Seq<char>, Option<Seq<char>>)>,
    post_notes: Seq<(Seq<char>, Option<Seq<char>>)>,
) -> bool {
    if args.len() == 0 {
        post_v == pre_v && post_notes == pre_notes.push(("Missing value"@, None))
    } else if crate::text::parses_as_u32(args[0]) {
        post_v as nat == crate::text::numeral_val(crate::text::numeral_digits(args[0]))
            && post_notes == pre_notes
    } else {
        post_v == pre_v && post_notes == pre_notes.push(("Expected number"@, None))
    }
}

/// What one line of a sized string table does.
pub open spec fn string_table_effect(
    pre_t: Seq<Seq<char>>,
    pre_b: bool,
    post_t: Seq<Seq<char>>,
    post_b: bool,
    args: Seq<Seq<char>>,
    pre_notes: Seq<(Seq<char>, Option<Seq<char>>)>,
    post_notes: Seq<(Seq<char>, Option<Seq<char>>)>,
) -> bool {
    if args.len() == 0 {
        post_t == pre_t && post_b == pre_b && post_notes == pre_notes.push(
            ("Missing argument"@, None),
        )
    } else if !pre_b {
        post_b == true && post_t == pre_t && post_notes == note_if_extra_arg(
            if !crate::text::parses_as_u32(args[0]) {
                pre_notes.push(("Expected number"@, None))
            } else {
                pre_notes
            },
            args.skip(1),
            "Expected one argument"@,
        )
    } else {
        post_b == true && post_t == pre_t.push(args[0]) && post_notes == note_if_extra_arg(
            pre_notes,
            args.skip(1),
            "Expected one argument"@,
        )
    }
}

/// What one line of a sized pair table does.
pub open spec fn pair_table_effect(
    pre_t: Seq<(Seq<char>, Seq<char>)>,
    post_t: Seq<(Seq<char>, Seq<char>)>,
    args: Seq<Seq<char>>,
    pre_notes: Seq<(Seq<char>, Option<Seq<char>>)>,
    post_notes: Seq<(Seq<char>, Option<Seq<char>>)>,
) -> bool {
    let is_first = args.len() == 1 || (args.len() >= 2 && starts_hash(args[1]));
    if is_first {
        post_t == pre_t && post_notes == pre_notes
    } else if args.len() < 2 {
        post_t == pre_t && post_notes == pre_notes.push(
            ("Not enough arguments, expected two"@, None),
        )
    } else {
        post_t == pre_t.push((args[0], args[1])) && post_notes == note_if_extra_arg(
            pre_notes,
            args.skip(2),
            "Expected two arguments"@,
        )
    }
}

/// What a flag-declaring tag does: the flag token is registered under
/// the tag's kind.
pub open spec fn flag_decl_effect(
    pre_m: Map<Seq<char>, (FlagType, u32)>,
    post_m: Map<Seq<char>, (FlagType, u32)>,
    ft: FlagType,
    args: Seq<Seq<char>>,
    pre_notes: Seq<(Seq<char>, Option<Seq<char>>)>,
    post_notes: Seq<(Seq<char>, Option<Seq<char>>)>,
) -> bool {
    if args.len() > 0 {
        post_m == pre_m.insert(args[0], (ft, 0)) && post_notes == pre_notes
    } else {
        post_m == pre_m && post_notes == pre_notes.push(("No flag value for element"@, None))
    }
}

impl Lang {
    /// The code, character set, flag format, options and reading state
    /// are untouched.
    pub open spec fn same_core(&self, o: &Lang) -> bool {
        &&& self.slg_code@ == o.slg_code@
        &&& self.slg_set@ == o.slg_set@
        &&& self.slg_flag == o.slg_flag
        &&& self.opts == o.opts
        &&& self.same_runtime(o)
    }

    /// Everything but the flag format is untouched.
    pub open spec fn frame_fmt(&self, o: &Lang) -> bool {
        &&& self.slg_code@ == o.slg_code@
        &&& self.slg_set@ == o.slg_set@
        &&& self.opts == o.opts
        &&& self.same_runtime(o)
        &&& self.same_affix(o)
        &&& self.same_flagdecl(o)
        &&& self.same_dict(o)
        &&& self.same_tallies(o)
    }

    /// Everything but the language code is untouched.
    pub open spec fn frame_code(&self, o: &Lang) -> bool {
        &&& self.slg_set@ == o.slg_set@
        &&& self.slg_flag == o.slg_flag
        &&& self.opts == o.opts
        &&& self.same_runtime(o)
        &&& self.same_affix(o)
        &&& self.same_flagdecl(o)
        &&& self.same_dict(o)
        &&& self.same_tallies(o)
    }

    /// Everything but the options and the language code is untouched.
    pub open spec fn frame_opts_code(&self, o: &Lang) -> bool {
        &&& self.slg_set@ == o.slg_set@
        &&& self.slg_flag == o.slg_flag
        &&& self.same_runtime(o)
        &&& self.same_affix(o)
        &&& self.same_flagdecl(o)
        &&& self.same_dict(o)
        &&& self.same_tallies(o)
    }

    /// Everything but the flag map is untouched.
    pub open spec fn frame_flagmap(&self, o: &Lang) -> bool {
        &&& self.same_core(o)
        &&& self.same_affix(o)
        &&& self.same_dict(o)
        &&& self.same_tallies(o)
        &&& self.slg_af@ == o.slg_af@
        &&& self.slg_af_parsed == o.slg_af_parsed
        &&& self.slg_compoundrule@ == o.slg_compoundrule@
        &&& self.slg_compoundrule_parsed == o.slg_compoundrule_parsed
    }

    /// Everything but the flag map and the rule table is untouched.
    pub open spec fn frame_comprule(&self, o: &Lang) -> bool {
        &&& self.same_core(o)
        &&& self.same_affix(o)
        &&& self.same_dict(o)
        &&& self.same_tallies(o)
        &&& self.slg_af@ == o.slg_af@
        &&& self.slg_af_parsed == o.slg_af_parsed
    }

    /// Everything but the flag map and the alias table is untouched.
    pub open spec fn frame_af(&self, o: &Lang) -> bool {
        &&& self.same_core(o)
        &&& self.same_affix(o)
        &&& self.same_dict(o)
        &&& self.same_tallies(o)
        &&& self.slg_compoundrule@ == o.slg_compoundrule@
        &&& self.slg_compoundrule_parsed == o.slg_compoundrule_parsed
    }

    /// Everything but the affix store is untouched.
    pub open spec fn frame_affix(&self, o: &Lang) -> bool {
        &&& self.same_core(o)
        &&& self.same_flagdecl(o)
        &&& self.same_dict(o)
        &&& self.same_tallies(o)
    }

    /// Everything but the unrecognized-tag tally is untouched.
    pub open spec fn frame_tags(&self, o: &Lang) -> bool {
        &&& self.same_core(o)
        &&& self.same_affix(o)
        &&& self.same_flagdecl(o)
        &&& self.same_dict(o)
        &&& self.slg_noparse_flags.entries() == o.slg_noparse_flags.entries()
    }
}

/// The string-valued option tags.
pub open spec fn matched_string_tag(tok0: Seq<char>) -> bool {
    ||| tok0 == "TRY"@
    ||| tok0 == "LANG"@
    ||| tok0 == "KEY"@
    ||| tok0 == "WORDCHARS"@
    ||| tok0 == "IGNORE"@
    ||| tok0 == "NAME"@
    ||| tok0 == "HOME"@
    ||| tok0 == "VERSION"@
}

/// The switch tags.
pub open spec fn matched_switch_tag(tok0: Seq<char>) -> bool {
    ||| tok0 == "COMPLEXPREFIXES"@
    ||| tok0 == "NOSPLITSUGS"@
    ||| tok0 == "SUGSWITHDOTS"@
    ||| tok0 == "CHECKCOMPOUNDDUP"@
    ||| tok0 == "CHECKCOMPOUNDREP"@
    ||| tok0 == "CHECKCOMPOUNDCASE"@
    ||| tok0 == "CHECKSHARPS"@
    ||| tok0 == "CHECKCOMPOUNDTRIPLE"@
    ||| tok0 == "SIMPLIFIEDTRIPLE"@
    ||| tok0 == "ONLYMAXDIFF"@
    ||| tok0 == "FULLSTRIP"@
    ||| tok0 == "COMPOUNDMORESUFFIXES"@
}

/// The numeric option tags.
pub open spec fn matched_number_tag(tok0: Seq<char>) -> bool {
    ||| tok0 == "COMPOUNDMIN"@
    ||| tok0 == "COMPOUNDWORDMAX"@
    ||| tok0 == "MAXCPDSUGS"@
    ||| tok0 == "MAXNGRAMSUGS"@
    ||| tok0 == "MAXDIFF"@
}

/// The sized-table tags.
pub open spec fn matched_table_tag(tok0: Seq<char>) -> bool {
    ||| tok0 == "REP"@
    ||| tok0 == "PHONE"@
    ||| tok0 == "ICONV"@
    ||| tok0 == "OCONV"@
    ||| tok0 == "MAP"@
    ||| tok0 == "BREAK"@
}

/// The flag-declaring tags.
pub open spec fn matched_flagdecl_tag(tok0: Seq<char>) -> bool {
    ||| tok0 == "COMPOUNDFLAG"@
    ||| tok0 == "COMPOUNDBEGIN"@
    ||| tok0 == "COMPOUNDLAST"@
    ||| tok0 == "COMPOUNDMIDDLE"@
    ||| tok0 == "COMPOUNDEND"@
    ||| tok0 == "ONLYINCOMPOUND"@
    ||| tok0 == "COMPOUNDPERMITFLAG"@
    ||| tok0 == "COMPOUNDFORBIDFLAG"@
    ||| tok0 == "COMPOUNDROOT"@
    ||| tok0 == "NEEDAFFIX"@
    ||| tok0 == "CIRCUMFIX"@
    ||| tok0 == "FORBIDDENWORD"@
    ||| tok0 == "SUBSTANDARD"@
    ||| tok0 == "NOSUGGEST"@
    ||| tok0 == "KEEPCASE"@
    ||| tok0 == "FORCEUCASE"@
    ||| tok0 == "WARN"@
    ||| tok0 == "LEMMA_PRESENT"@
}

/// What the string-valued option tags do to the options, the language
/// code and the notes; an unrecognized first token changes nothing.
pub open spec fn string_tags_effect(
    pre: AffOptions,
    post: AffOptions,
    pre_code: Seq<char>,
    post_code: Seq<char>,
    pre_notes: Seq<(Seq<char>, Option<Seq<char>>)>,
    post_notes: Seq<(Seq<char>, Option<Seq<char>>)>,
    tok0: Seq<char>,
    args: Seq<Seq<char>>,
) -> bool {
    &&& (tok0 == "TRY"@ ==> post == (AffOptions { slg_try: post.slg_try, ..pre }) && post_code
        == pre_code && string_set_effect(pre.slg_try@, post.slg_try@, args, pre_notes, post_notes))
    &&& (tok0 == "LANG"@ ==> post == pre && string_set_effect(
        pre_code,
        post_code,
        args,
        pre_notes,
        post_notes,
    ))
    &&& (tok0 == "KEY"@ ==> post == (AffOptions { slg_key: post.slg_key, ..pre }) && post_code
        == pre_code && string_set_effect(pre.slg_key@, post.slg_key@, args, pre_notes, post_notes))
    &&& (tok0 == "WORDCHARS"@ ==> post == (AffOptions {
        tag_wordchars: post.tag_wordchars,
        slg_wordchar_digits: post.slg_wordchar_digits,
        slg_wordchars: post.slg_wordchars,
        ..pre
    }) && post_code == pre_code && string_set_effect(
        pre.tag_wordchars@,
        post.tag_wordchars@,
        args,
        pre_notes,
        post_notes,
    ) && post.slg_wordchar_digits == has_all_digits(post.tag_wordchars@) && post.slg_wordchars@
        == wordchars_of(post.tag_wordchars@))
    &&& (tok0 == "IGNORE"@ ==> post == (AffOptions { slg_ignore: post.slg_ignore, ..pre })
        && post_code == pre_code && string_set_effect(
        pre.slg_ignore@,
        post.slg_ignore@,
        args,
        pre_notes,
        post_notes,
    ))
    &&& (tok0 == "NAME"@ ==> post == (AffOptions { slg_name: post.slg_name, ..pre }) && post_code
        == pre_code && string_set_effect(
        pre.slg_name@,
        post.slg_name@,
        args,
        pre_notes,
        post_notes,
    ))
    &&& (tok0 == "HOME"@ ==> post == (AffOptions { slg_home: post.slg_home, ..pre }) && post_code
        == pre_code && string_set_effect(
        pre.slg_home@,
        post.slg_home@,
        args,
        pre_notes,
        post_notes,
    ))
    &&& (tok0 == "VERSION"@ ==> post == (AffOptions { slg_version: post.slg_version, ..pre })
        && post_code == pre_code && string_set_effect(
        pre.slg_version@,
        post.slg_version@,
        args,
        pre_notes,
        post_notes,
    ))
    &&& (!matched_string_tag(tok0) ==> post == pre && post_code == pre_code && post_notes
        == pre_notes)
}

/// What the switch tags do to the options and the notes; an
/// unrecognized first token changes nothing.
pub open spec fn switch_tags_effect(
    pre: AffOptions,
    post: AffOptions,
    pre_notes: Seq<(Seq<char>, Option<Seq<char>>)>,
    post_notes: Seq<(Seq<char>, Option<Seq<char>>)>,
    tok0: Seq<char>,
    args: Seq<Seq<char>>,
) -> bool {
    &&& (tok0 == "COMPLEXPREFIXES"@ ==> post == (AffOptions {
        slg_cplx_pref: post.slg_cplx_pref,
        slg_prefix_max: 2,
        slg_suffix_max: 1,
        ..pre
    }) && bool_set_effect(true, post.slg_cplx_pref, args, pre_notes, post_notes))
    &&& (tok0 == "NOSPLITSUGS"@ ==> post == (AffOptions { slg_sug_split: post.slg_sug_split, ..pre })
        && bool_set_effect(false, post.slg_sug_split, args, pre_notes, post_notes))
    &&& (tok0 == "SUGSWITHDOTS"@ ==> post == (AffOptions { slg_sug_dots: post.slg_sug_dots, ..pre })
        && bool_set_effect(true, post.slg_sug_dots, args, pre_notes, post_notes))
    &&& (tok0 == "CHECKCOMPOUNDDUP"@ ==> post == (AffOptions {
        slg_comp_check_dup: post.slg_comp_check_dup,
        ..pre
    }) && bool_set_effect(true, post.slg_comp_check_dup, args, pre_notes, post_notes))
    &&& (tok0 == "CHECKCOMPOUNDREP"@ ==> post == (AffOptions {
        slg_comp_check_rep: post.slg_comp_check_rep,
        ..pre
    }) && bool_set_effect(true, post.slg_comp_check_rep, args, pre_notes, post_notes))
    &&& (tok0 == "CHECKCOMPOUNDCASE"@ ==> post == (AffOptions {
        slg_comp_check_case: post.slg_comp_check_case,
        ..pre
    }) && bool_set_effect(true, post.slg_comp_check_case, args, pre_notes, post_notes))
    &&& (tok0 == "CHECKSHARPS"@ ==> post == (AffOptions {
        slg_check_sharp_s: post.slg_check_sharp_s,
        ..pre
    }) && bool_set_effect(true, post.slg_check_sharp_s, args, pre_notes, post_notes))
    &&& (tok0 == "CHECKCOMPOUNDTRIPLE"@ ==> post == (AffOptions {
        slg_check_comp_triple: post.slg_check_comp_triple,
        ..pre
    }) && bool_set_effect(true, post.slg_check_comp_triple, args, pre_notes, post_notes))
    &&& (tok0 == "SIMPLIFIEDTRIPLE"@ ==> post == (AffOptions {
        slg_simplified_triple: post.slg_simplified_triple,
        ..pre
    }) && bool_set_effect(true, post.slg_simplified_triple, args, pre_notes, post_notes))
    &&& (tok0 == "ONLYMAXDIFF"@ ==> post == (AffOptions {
        slg_only_max_diff: post.slg_only_max_diff,
        ..pre
    }) && bool_set_effect(true, post.slg_only_max_diff, args, pre_notes, post_notes))
    &&& (tok0 == "FULLSTRIP"@ ==> post == (AffOptions {
        slg_full_string: post.slg_full_string,
        ..pre
    }) && bool_set_effect(true, post.slg_full_string, args, pre_notes, post_notes))
    &&& (tok0 == "COMPOUNDMORESUFFIXES"@ ==> post == (AffOptions {
        slg_comp_more_suffixes: post.slg_comp_more_suffixes,
        ..pre
    }) && bool_set_effect(true, post.slg_comp_more_suffixes, args, pre_notes, post_notes))
    &&& (!matched_switch_tag(tok0) ==> post == pre && post_notes == pre_notes)
}

/// What the numeric option tags do to the options and the notes; an
/// unrecognized first token changes nothing.
pub open spec fn number_tags_effect(
    pre: AffOptions,
    post: AffOptions,
    pre_notes: Seq<(Seq<char>, Option<Seq<char>>)>,
    post_notes: Seq<(Seq<char>, Option<Seq<char>>)>,
    tok0: Seq<char>,
    args: Seq<Seq<char>>,
) -> bool {
    &&& (tok0 == "COMPOUNDMIN"@ ==> post == (AffOptions { slg_comp_min: post.slg_comp_min, ..pre })
        && number_set_effect(pre.slg_comp_min, post.slg_comp_min, args, pre_notes, post_notes))
    &&& (tok0 == "COMPOUNDWORDMAX"@ ==> post == (AffOptions {
        slg_comp_word_max: post.slg_comp_word_max,
        ..pre
    }) && number_set_effect(
        pre.slg_comp_word_max,
        post.slg_comp_word_max,
        args,
        pre_notes,
        post_notes,
    ))
    &&& (tok0 == "MAXCPDSUGS"@ ==> post == (AffOptions {
        slg_max_cpd_sugs: post.slg_max_cpd_sugs,
        ..pre
    }) && number_set_effect(
        pre.slg_max_cpd_sugs,
        post.slg_max_cpd_sugs,
        args,
        pre_notes,
        post_notes,
    ))
    &&& (tok0 == "MAXNGRAMSUGS"@ ==> post == (AffOptions {
        slg_max_ngram_sugs: post.slg_max_ngram_sugs,
        ..pre
    }) && number_set_effect(
        pre.slg_max_ngram_sugs,
        post.slg_max_ngram_sugs,
        args,
        pre_notes,
        post_notes,
    ))
    &&& (tok0 == "MAXDIFF"@ ==> post == (AffOptions { slg_max_diff: post.slg_max_diff, ..pre })
        && number_set_effect(pre.slg_max_diff, post.slg_max_diff, args, pre_notes, post_notes))
    &&& (!matched_number_tag(tok0) ==> post == pre && post_notes == pre_notes)
}

/// What the sized-table tags do to the options and the notes; an
/// unrecognized first token changes nothing.
pub open spec fn table_tags_effect(
    pre: AffOptions,
    post: AffOptions,
    pre_notes: Seq<(Seq<char>, Option<Seq<char>>)>,
    post_notes: Seq<(Seq<char>, Option<Seq<char>>)>,
    tok0: Seq<char>,
    args: Seq<Seq<char>>,
) -> bool {
    &&& (tok0 == "REP"@ ==> post == (AffOptions { slg_rep: post.slg_rep, ..pre })
        && pair_table_effect(
        pair_views(pre.slg_rep@),
        pair_views(post.slg_rep@),
        args,
        pre_notes,
        post_notes,
    ))
    &&& (tok0 == "PHONE"@ ==> post == (AffOptions { slg_phone: post.slg_phone, ..pre })
        && pair_table_effect(
        pair_views(pre.slg_phone@),
        pair_views(post.slg_phone@),
        args,
        pre_notes,
        post_notes,
    ))
    &&& (tok0 == "ICONV"@ ==> post == (AffOptions { slg_iconv: post.slg_iconv, ..pre })
        && pair_table_effect(
        pair_views(pre.slg_iconv@),
        pair_views(post.slg_iconv@),
        args,
        pre_notes,
        post_notes,
    ))
    &&& (tok0 == "OCONV"@ ==> post == (AffOptions { slg_oconv: post.slg_oconv, ..pre })
        && pair_table_effect(
        pair_views(pre.slg_oconv@),
        pair_views(post.slg_oconv@),
        args,
        pre_notes,
        post_notes,
    ))
    &&& (tok0 == "MAP"@ ==> post == (AffOptions { slg_map: post.slg_map, ..pre })
        && string_table_effect(
        crate::text::str_views(pre.slg_map.0@),
        pre.slg_map.1,
        crate::text::str_views(post.slg_map.0@),
        post.slg_map.1,
        args,
        pre_notes,
        post_notes,
    ))
    &&& (tok0 == "BREAK"@ ==> post == (AffOptions { slg_break: post.slg_break, ..pre })
        && string_table_effect(
        crate::text::str_views(pre.slg_break.0@),
        pre.slg_break.1,
        crate::text::str_views(post.slg_break.0@),
        post.slg_break.1,
        args,
        pre_notes,
        post_notes,
    ))
    &&& (!matched_table_tag(tok0) ==> post == pre && post_notes == pre_notes)
}

/// What the flag-declaring tags do to the flag map and the notes; an
/// unrecognized first token changes nothing.
pub open spec fn flagdecl_tags_effect(
    pre_m: Map<Seq<char>, (FlagType, u32)>,
    post_m: Map<Seq<char>, (FlagType, u32)>,
    pre_notes: Seq<(Seq<char>, Option<Seq<char>>)>,
    post_notes: Seq<(Seq<char>, Option<Seq<char>>)>,
    tok0: Seq<char>,
    args: Seq<Seq<char>>,
) -> bool {
    &&& (tok0 == "COMPOUNDFLAG"@ ==> flag_decl_effect(pre_m, post_m, FlagType::FlagCompound, args, pre_notes, post_notes))
    &&& (tok0 == "COMPOUNDBEGIN"@ ==> flag_decl_effect(pre_m, post_m, FlagType::FlagCompBegin, args, pre_notes, post_notes))
    &&& (tok0 == "COMPOUNDLAST"@ ==> flag_decl_effect(pre_m, post_m, FlagType::FlagCompLast, args, pre_notes, post_notes))
    &&& (tok0 == "COMPOUNDMIDDLE"@ ==> flag_decl_effect(pre_m, post_m, FlagType::FlagCompMid, args, pre_notes, post_notes))
    &&& (tok0 == "COMPOUNDEND"@ ==> flag_decl_effect(pre_m, post_m, FlagType::FlagCompEnd, args, pre_notes, post_notes))
    &&& (tok0 == "ONLYINCOMPOUND"@ ==> flag_decl_effect(pre_m, post_m, FlagType::FlagOnlyComp, args, pre_notes, post_notes))
    &&& (tok0 == "COMPOUNDPERMITFLAG"@ ==> flag_decl_effect(pre_m, post_m, FlagType::FlagCompPermit, args, pre_notes, post_notes))
    &&& (tok0 == "COMPOUNDFORBIDFLAG"@ ==> flag_decl_effect(pre_m, post_m, FlagType::FlagCompForbid, args, pre_notes, post_notes))
    &&& (tok0 == "COMPOUNDROOT"@ ==> flag_decl_effect(pre_m, post_m, FlagType::FlagCompRoot, args, pre_notes, post_notes))
    &&& (tok0 == "NEEDAFFIX"@ ==> flag_decl_effect(pre_m, post_m, FlagType::FlagNeedAffix, args, pre_notes, post_notes))
    &&& (tok0 == "CIRCUMFIX"@ ==> flag_decl_effect(pre_m, post_m, FlagType::FlagCircumfix, args, pre_notes, post_notes))
    &&& (tok0 == "FORBIDDENWORD"@ ==> flag_decl_effect(pre_m, post_m, FlagType::FlagForbidden, args, pre_notes, post_notes))
    &&& (tok0 == "SUBSTANDARD"@ ==> flag_decl_effect(pre_m, post_m, FlagType::FlagSubstandard, args, pre_notes, post_notes))
    &&& (tok0 == "NOSUGGEST"@ ==> flag_decl_effect(pre_m, post_m, FlagType::FlagNoSuggest, args, pre_notes, post_notes))
    &&& (tok0 == "KEEPCASE"@ ==> flag_decl_effect(pre_m, post_m, FlagType::FlagKeepCase, args, pre_notes, post_notes))
    &&& (tok0 == "FORCEUCASE"@ ==> flag_decl_effect(pre_m, post_m, FlagType::FlagForceUcase, args, pre_notes, post_notes))
    &&& (tok0 == "WARN"@ ==> flag_decl_effect(pre_m, post_m, FlagType::FlagWarn, args, pre_notes, post_notes))
    &&& (tok0 == "LEMMA_PRESENT"@ ==> flag_decl_effect(pre_m, post_m, FlagType::FlagLemma, args, pre_notes, post_notes))
    &&& (!matched_flagdecl_tag(tok0) ==> post_m == pre_m && post_notes == pre_notes)
}

/// The string-valued option tags are pairwise distinct.
pub proof fn lemma_string_tags_distinct()
    ensures
        "TRY"@ != "LANG"@,
        "TRY"@ != "KEY"@,
        "TRY"@ != "WORDCHARS"@,
        "TRY"@ != "IGNORE"@,
        "TRY"@ != "NAME"@,
        "TRY"@ != "HOME"@,
        "TRY"@ != "VERSION"@,
        "LANG"@ != "KEY"@,
        "LANG"@ != "WORDCHARS"@,
        "LANG"@ != "IGNORE"@,
        "LANG"@ != "NAME"@,
        "LANG"@ != "HOME"@,
        "LANG"@ != "VERSION"@,
        "KEY"@ != "WORDCHARS"@,
        "KEY"@ != "IGNORE"@,
        "KEY"@ != "NAME"@,
        "KEY"@ != "HOME"@,
        "KEY"@ != "VERSION"@,
        "WORDCHARS"@ != "IGNORE"@,
        "WORDCHARS"@ != "NAME"@,
        "WORDCHARS"@ != "HOME"@,
        "WORDCHARS"@ != "VERSION"@,
        "IGNORE"@ != "NAME"@,
        "IGNORE"@ != "HOME"@,
        "IGNORE"@ != "VERSION"@,
        "NAME"@ != "HOME"@,
        "NAME"@ != "VERSION"@,
        "HOME"@ != "VERSION"@,
{
    reveal_strlit("HOME");
    reveal_strlit("IGNORE");
    reveal_strlit("KEY");
    reveal_strlit("LANG");
    reveal_strlit("NAME");
    reveal_strlit("TRY");
    reveal_strlit("VERSION");
    reveal_strlit("WORDCHARS");
    assert("HOME"@.len() == 4);
    assert("IGNORE"@.len() == 6);
    assert("KEY"@.len() == 3);
    assert("LANG"@.len() == 4);
    assert("NAME"@.len() == 4);
    assert("TRY"@.len() == 3);
    assert("VERSION"@.len() == 7);
    assert("WORDCHARS"@.len() == 9);
    assert("HOME"@[0] == 'H');
    assert("KEY"@[0] == 'K');
    assert("LANG"@[0] == 'L');
    assert("NAME"@[0] == 'N');
    assert("TRY"@[0] == 'T');
}

/// The switch tags are pairwise distinct.
pub proof fn lemma_switch_tags_distinct()
    ensures
        "COMPLEXPREFIXES"@ != "NOSPLITSUGS"@,
        "COMPLEXPREFIXES"@ != "SUGSWITHDOTS"@,
        "COMPLEXPREFIXES"@ != "CHECKCOMPOUNDDUP"@,
        "COMPLEXPREFIXES"@ != "CHECKCOMPOUNDREP"@,
        "COMPLEXPREFIXES"@ != "CHECKCOMPOUNDCASE"@,
        "COMPLEXPREFIXES"@ != "CHECKSHARPS"@,
        "COMPLEXPREFIXES"@ != "CHECKCOMPOUNDTRIPLE"@,
        "COMPLEXPREFIXES"@ != "SIMPLIFIEDTRIPLE"@,
        "COMPLEXPREFIXES"@ != "ONLYMAXDIFF"@,
        "COMPLEXPREFIXES"@ != "FULLSTRIP"@,
        "COMPLEXPREFIXES"@ != "COMPOUNDMORESUFFIXES"@,
        "NOSPLITSUGS"@ != "SUGSWITHDOTS"@,
        "NOSPLITSUGS"@ != "CHECKCOMPOUNDDUP"@,
        "NOSPLITSUGS"@ != "CHECKCOMPOUNDREP"@,
        "NOSPLITSUGS"@ != "CHECKCOMPOUNDCASE"@,
        "NOSPLITSUGS"@ != "CHECKSHARPS"@,
        "NOSPLITSUGS"@ != "CHECKCOMPOUNDTRIPLE"@,
        "NOSPLITSUGS"@ != "SIMPLIFIEDTRIPLE"@,
        "NOSPLITSUGS"@ != "ONLYMAXDIFF"@,
        "NOSPLITSUGS"@ != "FULLSTRIP"@,
        "NOSPLITSUGS"@ != "COMPOUNDMORESUFFIXES"@,
        "SUGSWITHDOTS"@ != "CHECKCOMPOUNDDUP"@,
        "SUGSWITHDOTS"@ != "CHECKCOMPOUNDREP"@,
        "SUGSWITHDOTS"@ != "CHECKCOMPOUNDCASE"@,
        "SUGSWITHDOTS"@ != "CHECKSHARPS"@,
        "SUGSWITHDOTS"@ != "CHECKCOMPOUNDTRIPLE"@,
        "SUGSWITHDOTS"@ != "SIMPLIFIEDTRIPLE"@,
        "SUGSWITHDOTS"@ != "ONLYMAXDIFF"@,
        "SUGSWITHDOTS"@ != "FULLSTRIP"@,
        "SUGSWITHDOTS"@ != "COMPOUNDMORESUFFIXES"@,
        "CHECKCOMPOUNDDUP"@ != "CHECKCOMPOUNDREP"@,
        "CHECKCOMPOUNDDUP"@ != "CHECKCOMPOUNDCASE"@,
        "CHECKCOMPOUNDDUP"@ != "CHECKSHARPS"@,
        "CHECKCOMPOUNDDUP"@ != "CHECKCOMPOUNDTRIPLE"@,
        "CHECKCOMPOUNDDUP"@ != "SIMPLIFIEDTRIPLE"@,
        "CHECKCOMPOUNDDUP"@ != "ONLYMAXDIFF"@,
        "CHECKCOMPOUNDDUP"@ != "FULLSTRIP"@,
        "CHECKCOMPOUNDDUP"@ != "COMPOUNDMORESUFFIXES"@,
        "CHECKCOMPOUNDREP"@ != "CHECKCOMPOUNDCASE"@,
        "CHECKCOMPOUNDREP"@ != "CHECKSHARPS"@,
        "CHECKCOMPOUNDREP"@ != "CHECKCOMPOUNDTRIPLE"@,
        "CHECKCOMPOUNDREP"@ != "SIMPLIFIEDTRIPLE"@,
        "CHECKCOMPOUNDREP"@ != "ONLYMAXDIFF"@,
        "CHECKCOMPOUNDREP"@ != "FULLSTRIP"@,
        "CHECKCOMPOUNDREP"@ != "COMPOUNDMORESUFFIXES"@,
        "CHECKCOMPOUNDCASE"@ != "CHECKSHARPS"@,
        "CHECKCOMPOUNDCASE"@ != "CHECKCOMPOUNDTRIPLE"@,
        "CHECKCOMPOUNDCASE"@ != "SIMPLIFIEDTRIPLE"@,
        "CHECKCOMPOUNDCASE"@ != "ONLYMAXDIFF"@,
        "CHECKCOMPOUNDCASE"@ != "FULLSTRIP"@,
        "CHECKCOMPOUNDCASE"@ != "COMPOUNDMORESUFFIXES"@,
        "CHECKSHARPS"@ != "CHECKCOMPOUNDTRIPLE"@,
        "CHECKSHARPS"@ != "SIMPLIFIEDTRIPLE"@,
        "CHECKSHARPS"@ != "ONLYMAXDIFF"@,
        "CHECKSHARPS"@ != "FULLSTRIP"@,
        "CHECKSHARPS"@ != "COMPOUNDMORESUFFIXES"@,
        "CHECKCOMPOUNDTRIPLE"@ != "SIMPLIFIEDTRIPLE"@,
        "CHECKCOMPOUNDTRIPLE"@ != "ONLYMAXDIFF"@,
        "CHECKCOMPOUNDTRIPLE"@ != "FULLSTRIP"@,
        "CHECKCOMPOUNDTRIPLE"@ != "COMPOUNDMORESUFFIXES"@,
        "SIMPLIFIEDTRIPLE"@ != "ONLYMAXDIFF"@,
        "SIMPLIFIEDTRIPLE"@ != "FULLSTRIP"@,
        "SIMPLIFIEDTRIPLE"@ != "COMPOUNDMORESUFFIXES"@,
        "ONLYMAXDIFF"@ != "FULLSTRIP"@,
        "ONLYMAXDIFF"@ != "COMPOUNDMORESUFFIXES"@,
        "FULLSTRIP"@ != "COMPOUNDMORESUFFIXES"@,
{
    reveal_strlit("CHECKCOMPOUNDCASE");
    reveal_strlit("CHECKCOMPOUNDDUP");
    reveal_strlit("CHECKCOMPOUNDREP");
    reveal_strlit("CHECKCOMPOUNDTRIPLE");
    reveal_strlit("CHECKSHARPS");
    reveal_strlit("COMPLEXPREFIXES");
    reveal_strlit("COMPOUNDMORESUFFIXES");
    reveal_strlit("FULLSTRIP");
    reveal_strlit("NOSPLITSUGS");
    reveal_strlit("ONLYMAXDIFF");
    reveal_strlit("SIMPLIFIEDTRIPLE");
    reveal_strlit("SUGSWITHDOTS");
    assert("CHECKCOMPOUNDCASE"@.len() == 17);
    assert("CHECKCOMPOUNDDUP"@.len() == 16);
    assert("CHECKCOMPOUNDREP"@.len() == 16);
    assert("CHECKCOMPOUNDTRIPLE"@.len() == 19);
    assert("CHECKSHARPS"@.len() == 11);
    assert("COMPLEXPREFIXES"@.len() == 15);
    assert("COMPOUNDMORESUFFIXES"@.len() == 20);
    assert("FULLSTRIP"@.len() == 9);
    assert("NOSPLITSUGS"@.len() == 11);
    assert("ONLYMAXDIFF"@.len() == 11);
    assert("SIMPLIFIEDTRIPLE"@.len() == 16);
    assert("SUGSWITHDOTS"@.len() == 12);
    assert("CHECKCOMPOUNDDUP"@[0] == 'C');
    assert("CHECKCOMPOUNDDUP"@[13] == 'D');
    assert("CHECKCOMPOUNDREP"@[0] == 'C');
    assert("CHECKCOMPOUNDREP"@[13] == 'R');
    assert("CHECKSHARPS"@[0] == 'C');
    assert("NOSPLITSUGS"@[0] == 'N');
    assert("ONLYMAXDIFF"@[0] == 'O');
    assert("SIMPLIFIEDTRIPLE"@[0] == 'S');
}

/// The numeric option tags are pairwise distinct.
pub proof fn lemma_number_tags_distinct()
    ensures
        "COMPOUNDMIN"@ != "COMPOUNDWORDMAX"@,
        "COMPOUNDMIN"@ != "MAXCPDSUGS"@,
        "COMPOUNDMIN"@ != "MAXNGRAMSUGS"@,
        "COMPOUNDMIN"@ != "MAXDIFF"@,
        "COMPOUNDWORDMAX"@ != "MAXCPDSUGS"@,
        "COMPOUNDWORDMAX"@ != "MAXNGRAMSUGS"@,
        "COMPOUNDWORDMAX"@ != "MAXDIFF"@,
        "MAXCPDSUGS"@ != "MAXNGRAMSUGS"@,
        "MAXCPDSUGS"@ != "MAXDIFF"@,
        "MAXNGRAMSUGS"@ != "MAXDIFF"@,
{
    reveal_strlit("COMPOUNDMIN");
    reveal_strlit("COMPOUNDWORDMAX");
    reveal_strlit("MAXCPDSUGS");
    reveal_strlit("MAXDIFF");
    reveal_strlit("MAXNGRAMSUGS");
    assert("COMPOUNDMIN"@.len() == 11);
    assert("COMPOUNDWORDMAX"@.len() == 15);
    assert("MAXCPDSUGS"@.len() == 10);
    assert("MAXDIFF"@.len() == 7);
    assert("MAXNGRAMSUGS"@.len() == 12);
}

/// The sized-table tags are pairwise distinct.
pub proof fn lemma_table_tags_distinct()
    ensures
        "REP"@ != "PHONE"@,
        "REP"@ != "ICONV"@,
        "REP"@ != "OCONV"@,
        "REP"@ != "MAP"@,
        "REP"@ != "BREAK"@,
        "PHONE"@ != "ICONV"@,
        "PHONE"@ != "OCONV"@,
        "PHONE"@ != "MAP"@,
        "PHONE"@ != "BREAK"@,
        "ICONV"@ != "OCONV"@,
        "ICONV"@ != "MAP"@,
        "ICONV"@ != "BREAK"@,
        "OCONV"@ != "MAP"@,
        "OCONV"@ != "BREAK"@,
        "MAP"@ != "BREAK"@,
{
    reveal_strlit("BREAK");
    reveal_strlit("ICONV");
    reveal_strlit("MAP");
    reveal_strlit("OCONV");
    reveal_strlit("PHONE");
    reveal_strlit("REP");
    assert("BREAK"@.len() == 5);
    assert("ICONV"@.len() == 5);
    assert("MAP"@.len() == 3);
    assert("OCONV"@.len() == 5);
    assert("PHONE"@.len() == 5);
    assert("REP"@.len() == 3);
    assert("BREAK"@[0] == 'B');
    assert("ICONV"@[0] == 'I');
    assert("MAP"@[0] == 'M');
    assert("OCONV"@[0] == 'O');
    assert("PHONE"@[0] == 'P');
    assert("REP"@[0] == 'R');
}

/// The flag-declaring tags are pairwise distinct.
pub proof fn lemma_flagdecl_tags_distinct()
    ensures
        "COMPOUNDFLAG"@ != "COMPOUNDBEGIN"@,
        "COMPOUNDFLAG"@ != "COMPOUNDLAST"@,
        "COMPOUNDFLAG"@ != "COMPOUNDMIDDLE"@,
        "COMPOUNDFLAG"@ != "COMPOUNDEND"@,
        "COMPOUNDFLAG"@ != "ONLYINCOMPOUND"@,
        "COMPOUNDFLAG"@ != "COMPOUNDPERMITFLAG"@,
        "COMPOUNDFLAG"@ != "COMPOUNDFORBIDFLAG"@,
        "COMPOUNDFLAG"@ != "COMPOUNDROOT"@,
        "COMPOUNDFLAG"@ != "NEEDAFFIX"@,
        "COMPOUNDFLAG"@ != "CIRCUMFIX"@,
        "COMPOUNDFLAG"@ != "FORBIDDENWORD"@,
        "COMPOUNDFLAG"@ != "SUBSTANDARD"@,
        "COMPOUNDFLAG"@ != "NOSUGGEST"@,
        "COMPOUNDFLAG"@ != "KEEPCASE"@,
        "COMPOUNDFLAG"@ != "FORCEUCASE"@,
        "COMPOUNDFLAG"@ != "WARN"@,
        "COMPOUNDFLAG"@ != "LEMMA_PRESENT"@,
        "COMPOUNDBEGIN"@ != "COMPOUNDLAST"@,
        "COMPOUNDBEGIN"@ != "COMPOUNDMIDDLE"@,
        "COMPOUNDBEGIN"@ != "COMPOUNDEND"@,
        "COMPOUNDBEGIN"@ != "ONLYINCOMPOUND"@,
        "COMPOUNDBEGIN"@ != "COMPOUNDPERMITFLAG"@,
        "COMPOUNDBEGIN"@ != "COMPOUNDFORBIDFLAG"@,
        "COMPOUNDBEGIN"@ != "COMPOUNDROOT"@,
        "COMPOUNDBEGIN"@ != "NEEDAFFIX"@,
        "COMPOUNDBEGIN"@ != "CIRCUMFIX"@,
        "COMPOUNDBEGIN"@ != "FORBIDDENWORD"@,
        "COMPOUNDBEGIN"@ != "SUBSTANDARD"@,
        "COMPOUNDBEGIN"@ != "NOSUGGEST"@,
        "COMPOUNDBEGIN"@ != "KEEPCASE"@,
        "COMPOUNDBEGIN"@ != "FORCEUCASE"@,
        "COMPOUNDBEGIN"@ != "WARN"@,
        "COMPOUNDBEGIN"@ != "LEMMA_PRESENT"@,
        "COMPOUNDLAST"@ != "COMPOUNDMIDDLE"@,
        "COMPOUNDLAST"@ != "COMPOUNDEND"@,
        "COMPOUNDLAST"@ != "ONLYINCOMPOUND"@,
        "COMPOUNDLAST"@ != "COMPOUNDPERMITFLAG"@,
        "COMPOUNDLAST"@ != "COMPOUNDFORBIDFLAG"@,
        "COMPOUNDLAST"@ != "COMPOUNDROOT"@,
        "COMPOUNDLAST"@ != "NEEDAFFIX"@,
        "COMPOUNDLAST"@ != "CIRCUMFIX"@,
        "COMPOUNDLAST"@ != "FORBIDDENWORD"@,
        "COMPOUNDLAST"@ != "SUBSTANDARD"@,
        "COMPOUNDLAST"@ != "NOSUGGEST"@,
        "COMPOUNDLAST"@ != "KEEPCASE"@,
        "COMPOUNDLAST"@ != "FORCEUCASE"@,
        "COMPOUNDLAST"@ != "WARN"@,
        "COMPOUNDLAST"@ != "LEMMA_PRESENT"@,
        "COMPOUNDMIDDLE"@ != "COMPOUNDEND"@,
        "COMPOUNDMIDDLE"@ != "ONLYINCOMPOUND"@,
        "COMPOUNDMIDDLE"@ != "COMPOUNDPERMITFLAG"@,
        "COMPOUNDMIDDLE"@ != "COMPOUNDFORBIDFLAG"@,
        "COMPOUNDMIDDLE"@ != "COMPOUNDROOT"@,
        "COMPOUNDMIDDLE"@ != "NEEDAFFIX"@,
        "COMPOUNDMIDDLE"@ != "CIRCUMFIX"@,
        "COMPOUNDMIDDLE"@ != "FORBIDDENWORD"@,
        "COMPOUNDMIDDLE"@ != "SUBSTANDARD"@,
        "COMPOUNDMIDDLE"@ != "NOSUGGEST"@,
        "COMPOUNDMIDDLE"@ != "KEEPCASE"@,
        "COMPOUNDMIDDLE"@ != "FORCEUCASE"@,
        "COMPOUNDMIDDLE"@ != "WARN"@,
        "COMPOUNDMIDDLE"@ != "LEMMA_PRESENT"@,
        "COMPOUNDEND"@ != "ONLYINCOMPOUND"@,
        "COMPOUNDEND"@ != "COMPOUNDPERMITFLAG"@,
        "COMPOUNDEND"@ != "COMPOUNDFORBIDFLAG"@,
        "COMPOUNDEND"@ != "COMPOUNDROOT"@,
        "COMPOUNDEND"@ != "NEEDAFFIX"@,
        "COMPOUNDEND"@ != "CIRCUMFIX"@,
        "COMPOUNDEND"@ != "FORBIDDENWORD"@,
        "COMPOUNDEND"@ != "SUBSTANDARD"@,
        "COMPOUNDEND"@ != "NOSUGGEST"@,
        "COMPOUNDEND"@ != "KEEPCASE"@,
        "COMPOUNDEND"@ != "FORCEUCASE"@,
        "COMPOUNDEND"@ != "WARN"@,
        "COMPOUNDEND"@ != "LEMMA_PRESENT"@,
        "ONLYINCOMPOUND"@ != "COMPOUNDPERMITFLAG"@,
        "ONLYINCOMPOUND"@ != "COMPOUNDFORBIDFLAG"@,
        "ONLYINCOMPOUND"@ != "COMPOUNDROOT"@,
        "ONLYINCOMPOUND"@ != "NEEDAFFIX"@,
        "ONLYINCOMPOUND"@ != "CIRCUMFIX"@,
        "ONLYINCOMPOUND"@ != "FORBIDDENWORD"@,
        "ONLYINCOMPOUND"@ != "SUBSTANDARD"@,
        "ONLYINCOMPOUND"@ != "NOSUGGEST"@,
        "ONLYINCOMPOUND"@ != "KEEPCASE"@,
        "ONLYINCOMPOUND"@ != "FORCEUCASE"@,
        "ONLYINCOMPOUND"@ != "WARN"@,
        "ONLYINCOMPOUND"@ != "LEMMA_PRESENT"@,
        "COMPOUNDPERMITFLAG"@ != "COMPOUNDFORBIDFLAG"@,
        "COMPOUNDPERMITFLAG"@ != "COMPOUNDROOT"@,
        "COMPOUNDPERMITFLAG"@ != "NEEDAFFIX"@,
        "COMPOUNDPERMITFLAG"@ != "CIRCUMFIX"@,
        "COMPOUNDPERMITFLAG"@ != "FORBIDDENWORD"@,
        "COMPOUNDPERMITFLAG"@ != "SUBSTANDARD"@,
        "COMPOUNDPERMITFLAG"@ != "NOSUGGEST"@,
        "COMPOUNDPERMITFLAG"@ != "KEEPCASE"@,
        "COMPOUNDPERMITFLAG"@ != "FORCEUCASE"@,
        "COMPOUNDPERMITFLAG"@ != "WARN"@,
        "COMPOUNDPERMITFLAG"@ != "LEMMA_PRESENT"@,
        "COMPOUNDFORBIDFLAG"@ != "COMPOUNDROOT"@,
        "COMPOUNDFORBIDFLAG"@ != "NEEDAFFIX"@,
        "COMPOUNDFORBIDFLAG"@ != "CIRCUMFIX"@,
        "COMPOUNDFORBIDFLAG"@ != "FORBIDDENWORD"@,
        "COMPOUNDFORBIDFLAG"@ != "SUBSTANDARD"@,
        "COMPOUNDFORBIDFLAG"@ != "NOSUGGEST"@,
        "COMPOUNDFORBIDFLAG"@ != "KEEPCASE"@,
        "COMPOUNDFORBIDFLAG"@ != "FORCEUCASE"@,
        "COMPOUNDFORBIDFLAG"@ != "WARN"@,
        "COMPOUNDFORBIDFLAG"@ != "LEMMA_PRESENT"@,
        "COMPOUNDROOT"@ != "NEEDAFFIX"@,
        "COMPOUNDROOT"@ != "CIRCUMFIX"@,
        "COMPOUNDROOT"@ != "FORBIDDENWORD"@,
        "COMPOUNDROOT"@ != "SUBSTANDARD"@,
        "COMPOUNDROOT"@ != "NOSUGGEST"@,
        "COMPOUNDROOT"@ != "KEEPCASE"@,
        "COMPOUNDROOT"@ != "FORCEUCASE"@,
        "COMPOUNDROOT"@ != "WARN"@,
        "COMPOUNDROOT"@ != "LEMMA_PRESENT"@,
        "NEEDAFFIX"@ != "CIRCUMFIX"@,
        "NEEDAFFIX"@ != "FORBIDDENWORD"@,
        "NEEDAFFIX"@ != "SUBSTANDARD"@,
        "NEEDAFFIX"@ != "NOSUGGEST"@,
        "NEEDAFFIX"@ != "KEEPCASE"@,
        "NEEDAFFIX"@ != "FORCEUCASE"@,
        "NEEDAFFIX"@ != "WARN"@,
        "NEEDAFFIX"@ != "LEMMA_PRESENT"@,
        "CIRCUMFIX"@ != "FORBIDDENWORD"@,
        "CIRCUMFIX"@ != "SUBSTANDARD"@,
        "CIRCUMFIX"@ != "NOSUGGEST"@,
        "CIRCUMFIX"@ != "KEEPCASE"@,
        "CIRCUMFIX"@ != "FORCEUCASE"@,
        "CIRCUMFIX"@ != "WARN"@,
        "CIRCUMFIX"@ != "LEMMA_PRESENT"@,
        "FORBIDDENWORD"@ != "SUBSTANDARD"@,
        "FORBIDDENWORD"@ != "NOSUGGEST"@,
        "FORBIDDENWORD"@ != "KEEPCASE"@,
        "FORBIDDENWORD"@ != "FORCEUCASE"@,
        "FORBIDDENWORD"@ != "WARN"@,
        "FORBIDDENWORD"@ != "LEMMA_PRESENT"@,
        "SUBSTANDARD"@ != "NOSUGGEST"@,
        "SUBSTANDARD"@ != "KEEPCASE"@,
        "SUBSTANDARD"@ != "FORCEUCASE"@,
        "SUBSTANDARD"@ != "WARN"@,
        "SUBSTANDARD"@ != "LEMMA_PRESENT"@,
        "NOSUGGEST"@ != "KEEPCASE"@,
        "NOSUGGEST"@ != "FORCEUCASE"@,
        "NOSUGGEST"@ != "WARN"@,
        "NOSUGGEST"@ != "LEMMA_PRESENT"@,
        "KEEPCASE"@ != "FORCEUCASE"@,
        "KEEPCASE"@ != "WARN"@,
        "KEEPCASE"@ != "LEMMA_PRESENT"@,
        "FORCEUCASE"@ != "WARN"@,
        "FORCEUCASE"@ != "LEMMA_PRESENT"@,
        "WARN"@ != "LEMMA_PRESENT"@,
{
    reveal_strlit("CIRCUMFIX");
    reveal_strlit("COMPOUNDBEGIN");
    reveal_strlit("COMPOUNDEND");
    reveal_strlit("COMPOUNDFLAG");
    reveal_strlit("COMPOUNDFORBIDFLAG");
    reveal_strlit("COMPOUNDLAST");
    reveal_strlit("COMPOUNDMIDDLE");
    reveal_strlit("COMPOUNDPERMITFLAG");
    reveal_strlit("COMPOUNDROOT");
    reveal_strlit("FORBIDDENWORD");
    reveal_strlit("FORCEUCASE");
    reveal_strlit("KEEPCASE");
    reveal_strlit("LEMMA_PRESENT");
    reveal_strlit("NEEDAFFIX");
    reveal_strlit("NOSUGGEST");
    reveal_strlit("ONLYINCOMPOUND");
    reveal_strlit("SUBSTANDARD");
    reveal_strlit("WARN");
    assert("CIRCUMFIX"@.len() == 9);
    assert("COMPOUNDBEGIN"@.len() == 13);
    assert("COMPOUNDEND"@.len() == 11);
    assert("COMPOUNDFLAG"@.len() == 12);
    assert("COMPOUNDFORBIDFLAG"@.len() == 18);
    assert("COMPOUNDLAST"@.len() == 12);
    assert("COMPOUNDMIDDLE"@.len() == 14);
    assert("COMPOUNDPERMITFLAG"@.len() == 18);
    assert("COMPOUNDROOT"@.len() == 12);
    assert("FORBIDDENWORD"@.len() == 13);
    assert("FORCEUCASE"@.len() == 10);
    assert("KEEPCASE"@.len() == 8);
    assert("LEMMA_PRESENT"@.len() == 13);
    assert("NEEDAFFIX"@.len() == 9);
    assert("NOSUGGEST"@.len() == 9);
    assert("ONLYINCOMPOUND"@.len() == 14);
    assert("SUBSTANDARD"@.len() == 11);
    assert("WARN"@.len() == 4);
    assert("CIRCUMFIX"@[0] == 'C');
    assert("COMPOUNDBEGIN"@[0] == 'C');
    assert("COMPOUNDEND"@[0] == 'C');
    assert("COMPOUNDFLAG"@[8] == 'F');
    assert("COMPOUNDFORBIDFLAG"@[8] == 'F');
    assert("COMPOUNDLAST"@[8] == 'L');
    assert("COMPOUNDMIDDLE"@[0] == 'C');
    assert("COMPOUNDPERMITFLAG"@[8] == 'P');
    assert("COMPOUNDROOT"@[8] == 'R');
    assert("FORBIDDENWORD"@[0] == 'F');
    assert("LEMMA_PRESENT"@[0] == 'L');
    assert("NEEDAFFIX"@[0] == 'N');
    assert("NEEDAFFIX"@[1] == 'E');
    assert("NOSUGGEST"@[0] == 'N');
    assert("NOSUGGEST"@[1] == 'O');
    assert("ONLYINCOMPOUND"@[0] == 'O');
    assert("SUBSTANDARD"@[0] == 'S');
}

/// The remaining recognized tags are pairwise distinct.
pub proof fn lemma_inline_tags_distinct()
    ensures
        "FLAG"@ != "COMPOUNDRULE"@,
        "FLAG"@ != "PFX"@,
        "FLAG"@ != "SFX"@,
        "FLAG"@ != "AF"@,
        "COMPOUNDRULE"@ != "PFX"@,
        "COMPOUNDRULE"@ != "SFX"@,
        "COMPOUNDRULE"@ != "AF"@,
        "PFX"@ != "SFX"@,
        "PFX"@ != "AF"@,
        "SFX"@ != "AF"@,
{
    reveal_strlit("AF");
    reveal_strlit("COMPOUNDRULE");
    reveal_strlit("FLAG");
    reveal_strlit("PFX");
    reveal_strlit("SFX");
    assert("AF"@.len() == 2);
    assert("COMPOUNDRULE"@.len() == 12);
    assert("FLAG"@.len() == 4);
    assert("PFX"@.len() == 3);
    assert("SFX"@.len() == 3);
    assert("PFX"@[0] == 'P');
    assert("SFX"@[0] == 'S');
}

/// The `FLAG` tag belongs to no other family.
pub proof fn lemma_flag_tag_only(tok0: Seq<char>)
    requires
        tok0 == "FLAG"@,
    ensures
        !matched_string_tag(tok0),
        !matched_switch_tag(tok0),
        !matched_number_tag(tok0),
        !matched_table_tag(tok0),
        !matched_flagdecl_tag(tok0),
        tok0 != "COMPOUNDRULE"@,
        tok0 != "PFX"@,
        tok0 != "SFX"@,
        tok0 != "AF"@,
{
    reveal_strlit("AF");
    reveal_strlit("BREAK");
    reveal_strlit("CHECKCOMPOUNDCASE");
    reveal_strlit("CHECKCOMPOUNDDUP");
    reveal_strlit("CHECKCOMPOUNDREP");
    reveal_strlit("CHECKCOMPOUNDTRIPLE");
    reveal_strlit("CHECKSHARPS");
    reveal_strlit("CIRCUMFIX");
    reveal_strlit("COMPLEXPREFIXES");
    reveal_strlit("COMPOUNDBEGIN");
    reveal_strlit("COMPOUNDEND");
    reveal_strlit("COMPOUNDFLAG");
    reveal_strlit("COMPOUNDFORBIDFLAG");
    reveal_strlit("COMPOUNDLAST");
    reveal_strlit("COMPOUNDMIDDLE");
    reveal_strlit("COMPOUNDMIN");
    reveal_strlit("COMPOUNDMORESUFFIXES");
    reveal_strlit("COMPOUNDPERMITFLAG");
    reveal_strlit("COMPOUNDROOT");
    reveal_strlit("COMPOUNDRULE");
    reveal_strlit("COMPOUNDWORDMAX");
    reveal_strlit("FLAG");
    reveal_strlit("FORBIDDENWORD");
    reveal_strlit("FORCEUCASE");
    reveal_strlit("FULLSTRIP");
    reveal_strlit("HOME");
    reveal_strlit("ICONV");
    reveal_strlit("IGNORE");
    reveal_strlit("KEEPCASE");
    reveal_strlit("KEY");
    reveal_strlit("LANG");
    reveal_strlit("LEMMA_PRESENT");
    reveal_strlit("MAP");
    reveal_strlit("MAXCPDSUGS");
    reveal_strlit("MAXDIFF");
    reveal_strlit("MAXNGRAMSUGS");
    reveal_strlit("NAME");
    reveal_strlit("NEEDAFFIX");
    reveal_strlit("NOSPLITSUGS");
    reveal_strlit("NOSUGGEST");
    reveal_strlit("OCONV");
    reveal_strlit("ONLYINCOMPOUND");
    reveal_strlit("ONLYMAXDIFF");
    reveal_strlit("PFX");
    reveal_strlit("PHONE");
    reveal_strlit("REP");
    reveal_strlit("SFX");
    reveal_strlit("SIMPLIFIEDTRIPLE");
    reveal_strlit("SUBSTANDARD");
    reveal_strlit("SUGSWITHDOTS");
    reveal_strlit("TRY");
    reveal_strlit("VERSION");
    reveal_strlit("WARN");
    reveal_strlit("WORDCHARS");
    assert("AF"@.len() == 2);
    assert("BREAK"@.len() == 5);
    assert("CHECKCOMPOUNDCASE"@.len() == 17);
    assert("CHECKCOMPOUNDDUP"@.len() == 16);
    assert("CHECKCOMPOUNDREP"@.len() == 16);
    assert("CHECKCOMPOUNDTRIPLE"@.len() == 19);
    assert("CHECKSHARPS"@.len() == 11);
    assert("CIRCUMFIX"@.len() == 9);
    assert("COMPLEXPREFIXES"@.len() == 15);
    assert("COMPOUNDBEGIN"@.len() == 13);
    assert("COMPOUNDEND"@.len() == 11);
    assert("COMPOUNDFLAG"@.len() == 12);
    assert("COMPOUNDFORBIDFLAG"@.len() == 18);
    assert("COMPOUNDLAST"@.len() == 12);
    assert("COMPOUNDMIDDLE"@.len() == 14);
    assert("COMPOUNDMIN"@.len() == 11);
    assert("COMPOUNDMORESUFFIXES"@.len() == 20);
    assert("COMPOUNDPERMITFLAG"@.len() == 18);
    assert("COMPOUNDROOT"@.len() == 12);
    assert("COMPOUNDRULE"@.len() == 12);
    assert("COMPOUNDWORDMAX"@.len() == 15);
    assert("FLAG"@.len() == 4);
    assert("FORBIDDENWORD"@.len() == 13);
    assert("FORCEUCASE"@.len() == 10);
    assert("FULLSTRIP"@.len() == 9);
    assert("HOME"@.len() == 4);
    assert("ICONV"@.len() == 5);
    assert("IGNORE"@.len() == 6);
    assert("KEEPCASE"@.len() == 8);
    assert("KEY"@.len() == 3);
    assert("LANG"@.len() == 4);
    assert("LEMMA_PRESENT"@.len() == 13);
    assert("MAP"@.len() == 3);
    assert("MAXCPDSUGS"@.len() == 10);
    assert("MAXDIFF"@.len() == 7);
    assert("MAXNGRAMSUGS"@.len() == 12);
    assert("NAME"@.len() == 4);
    assert("NEEDAFFIX"@.len() == 9);
    assert("NOSPLITSUGS"@.len() == 11);
    assert("NOSUGGEST"@.len() == 9);
    assert("OCONV"@.len() == 5);
    assert("ONLYINCOMPOUND"@.len() == 14);
    assert("ONLYMAXDIFF"@.len() == 11);
    assert("PFX"@.len() == 3);
    assert("PHONE"@.len() == 5);
    assert("REP"@.len() == 3);
    assert("SFX"@.len() == 3);
    assert("SIMPLIFIEDTRIPLE"@.len() == 16);
    assert("SUBSTANDARD"@.len() == 11);
    assert("SUGSWITHDOTS"@.len() == 12);
    assert("TRY"@.len() == 3);
    assert("VERSION"@.len() == 7);
    assert("WARN"@.len() == 4);
    assert("WORDCHARS"@.len() == 9);
    assert("FLAG"@[0] == 'F');
    assert("HOME"@[0] == 'H');
    assert("LANG"@[0] == 'L');
    assert("NAME"@[0] == 'N');
    assert("WARN"@[0] == 'W');
}

/// The `COMPOUNDRULE` tag belongs to no family parsed later.
pub proof fn lemma_comprule_tag_only(tok0: Seq<char>)
    requires
        tok0 == "COMPOUNDRULE"@,
    ensures
        !matched_flagdecl_tag(tok0),
        tok0 != "PFX"@,
        tok0 != "SFX"@,
        tok0 != "AF"@,
{
    reveal_strlit("AF");
    reveal_strlit("CIRCUMFIX");
    reveal_strlit("COMPOUNDBEGIN");
    reveal_strlit("COMPOUNDEND");
    reveal_strlit("COMPOUNDFLAG");
    reveal_strlit("COMPOUNDFORBIDFLAG");
    reveal_strlit("COMPOUNDLAST");
    reveal_strlit("COMPOUNDMIDDLE");
    reveal_strlit("COMPOUNDPERMITFLAG");
    reveal_strlit("COMPOUNDROOT");
    reveal_strlit("COMPOUNDRULE");
    reveal_strlit("FORBIDDENWORD");
    reveal_strlit("FORCEUCASE");
    reveal_strlit("KEEPCASE");
    reveal_strlit("LEMMA_PRESENT");
    reveal_strlit("NEEDAFFIX");
    reveal_strlit("NOSUGGEST");
    reveal_strlit("ONLYINCOMPOUND");
    reveal_strlit("PFX");
    reveal_strlit("SFX");
    reveal_strlit("SUBSTANDARD");
    reveal_strlit("WARN");
    assert("AF"@.len() == 2);
    assert("CIRCUMFIX"@.len() == 9);
    assert("COMPOUNDBEGIN"@.len() == 13);
    assert("COMPOUNDEND"@.len() == 11);
    assert("COMPOUNDFLAG"@.len() == 12);
    assert("COMPOUNDFORBIDFLAG"@.len() == 18);
    assert("COMPOUNDLAST"@.len() == 12);
    assert("COMPOUNDMIDDLE"@.len() == 14);
    assert("COMPOUNDPERMITFLAG"@.len() == 18);
    assert("COMPOUNDROOT"@.len() == 12);
    assert("COMPOUNDRULE"@.len() == 12);
    assert("FORBIDDENWORD"@.len() == 13);
    assert("FORCEUCASE"@.len() == 10);
    assert("KEEPCASE"@.len() == 8);
    assert("LEMMA_PRESENT"@.len() == 13);
    assert("NEEDAFFIX"@.len() == 9);
    assert("NOSUGGEST"@.len() == 9);
    assert("ONLYINCOMPOUND"@.len() == 14);
    assert("PFX"@.len() == 3);
    assert("SFX"@.len() == 3);
    assert("SUBSTANDARD"@.len() == 11);
    assert("WARN"@.len() == 4);
    assert("COMPOUNDFLAG"@[8] == 'F');
    assert("COMPOUNDLAST"@[8] == 'L');
    assert("COMPOUNDROOT"@[9] == 'O');
    assert("COMPOUNDRULE"@[8] == 'R');
    assert("COMPOUNDRULE"@[9] == 'U');
}

/// A flag-declaring tag is none of the tags parsed later.
pub proof fn lemma_flagdecl_tag_only(tok0: Seq<char>)
    requires
        matched_flagdecl_tag(tok0),
    ensures
        tok0 != "PFX"@,
        tok0 != "SFX"@,
        tok0 != "AF"@,
{
    reveal_strlit("AF");
    reveal_strlit("CIRCUMFIX");
    reveal_strlit("COMPOUNDBEGIN");
    reveal_strlit("COMPOUNDEND");
    reveal_strlit("COMPOUNDFLAG");
    reveal_strlit("COMPOUNDFORBIDFLAG");
    reveal_strlit("COMPOUNDLAST");
    reveal_strlit("COMPOUNDMIDDLE");
    reveal_strlit("COMPOUNDPERMITFLAG");
    reveal_strlit("COMPOUNDROOT");
    reveal_strlit("FORBIDDENWORD");
    reveal_strlit("FORCEUCASE");
    reveal_strlit("KEEPCASE");
    reveal_strlit("LEMMA_PRESENT");
    reveal_strlit("NEEDAFFIX");
    reveal_strlit("NOSUGGEST");
    reveal_strlit("ONLYINCOMPOUND");
    reveal_strlit("PFX");
    reveal_strlit("SFX");
    reveal_strlit("SUBSTANDARD");
    reveal_strlit("WARN");
    assert("AF"@.len() == 2);
    assert("CIRCUMFIX"@.len() == 9);
    assert("COMPOUNDBEGIN"@.len() == 13);
    assert("COMPOUNDEND"@.len() == 11);
    assert("COMPOUNDFLAG"@.len() == 12);
    assert("COMPOUNDFORBIDFLAG"@.len() == 18);
    assert("COMPOUNDLAST"@.len() == 12);
    assert("COMPOUNDMIDDLE"@.len() == 14);
    assert("COMPOUNDPERMITFLAG"@.len() == 18);
    assert("COMPOUNDROOT"@.len() == 12);
    assert("FORBIDDENWORD"@.len() == 13);
    assert("FORCEUCASE"@.len() == 10);
    assert("KEEPCASE"@.len() == 8);
    assert("LEMMA_PRESENT"@.len() == 13);
    assert("NEEDAFFIX"@.len() == 9);
    assert("NOSUGGEST"@.len() == 9);
    assert("ONLYINCOMPOUND"@.len() == 14);
    assert("PFX"@.len() == 3);
    assert("SFX"@.len() == 3);
    assert("SUBSTANDARD"@.len() == 11);
    assert("WARN"@.len() == 4);
}

/// A string-valued option tag belongs to no other family.
pub proof fn lemma_string_tag_only(tok0: Seq<char>)
    requires
        matched_string_tag(tok0),
    ensures
        !matched_switch_tag(tok0),
        !matched_number_tag(tok0),
        !matched_table_tag(tok0),
        !matched_flagdecl_tag(tok0),
        tok0 != "FLAG"@,
        tok0 != "COMPOUNDRULE"@,
        tok0 != "PFX"@,
        tok0 != "SFX"@,
        tok0 != "AF"@,
{
    reveal_strlit("AF");
    reveal_strlit("BREAK");
    reveal_strlit("CHECKCOMPOUNDCASE");
    reveal_strlit("CHECKCOMPOUNDDUP");
    reveal_strlit("CHECKCOMPOUNDREP");
    reveal_strlit("CHECKCOMPOUNDTRIPLE");
    reveal_strlit("CHECKSHARPS");
    reveal_strlit("CIRCUMFIX");
    reveal_strlit("COMPLEXPREFIXES");
    reveal_strlit("COMPOUNDBEGIN");
    reveal_strlit("COMPOUNDEND");
    reveal_strlit("COMPOUNDFLAG");
    reveal_strlit("COMPOUNDFORBIDFLAG");
    reveal_strlit("COMPOUNDLAST");
    reveal_strlit("COMPOUNDMIDDLE");
    reveal_strlit("COMPOUNDMIN");
    reveal_strlit("COMPOUNDMORESUFFIXES");
    reveal_strlit("COMPOUNDPERMITFLAG");
    reveal_strlit("COMPOUNDROOT");
    reveal_strlit("COMPOUNDRULE");
    reveal_strlit("COMPOUNDWORDMAX");
    reveal_strlit("FLAG");
    reveal_strlit("FORBIDDENWORD");
    reveal_strlit("FORCEUCASE");
    reveal_strlit("FULLSTRIP");
    reveal_strlit("HOME");
    reveal_strlit("ICONV");
    reveal_strlit("IGNORE");
    reveal_strlit("KEEPCASE");
    reveal_strlit("KEY");
    reveal_strlit("LANG");
    reveal_strlit("LEMMA_PRESENT");
    reveal_strlit("MAP");
    reveal_strlit("MAXCPDSUGS");
    reveal_strlit("MAXDIFF");
    reveal_strlit("MAXNGRAMSUGS");
    reveal_strlit("NAME");
    reveal_strlit("NEEDAFFIX");
    reveal_strlit("NOSPLITSUGS");
    reveal_strlit("NOSUGGEST");
    reveal_strlit("OCONV");
    reveal_strlit("ONLYINCOMPOUND");
    reveal_strlit("ONLYMAXDIFF");
    reveal_strlit("PFX");
    reveal_strlit("PHONE");
    reveal_strlit("REP");
    reveal_strlit("SFX");
    reveal_strlit("SIMPLIFIEDTRIPLE");
    reveal_strlit("SUBSTANDARD");
    reveal_strlit("SUGSWITHDOTS");
    reveal_strlit("TRY");
    reveal_strlit("VERSION");
    reveal_strlit("WARN");
    reveal_strlit("WORDCHARS");
    assert("AF"@.len() == 2);
    assert("BREAK"@.len() == 5);
    assert("CHECKCOMPOUNDCASE"@.len() == 17);
    assert("CHECKCOMPOUNDDUP"@.len() == 16);
    assert("CHECKCOMPOUNDREP"@.len() == 16);
    assert("CHECKCOMPOUNDTRIPLE"@.len() == 19);
    assert("CHECKSHARPS"@.len() == 11);
    assert("CIRCUMFIX"@.len() == 9);
    assert("COMPLEXPREFIXES"@.len() == 15);
    assert("COMPOUNDBEGIN"@.len() == 13);
    assert("COMPOUNDEND"@.len() == 11);
    assert("COMPOUNDFLAG"@.len() == 12);
    assert("COMPOUNDFORBIDFLAG"@.len() == 18);
    assert("COMPOUNDLAST"@.len() == 12);
    assert("COMPOUNDMIDDLE"@.len() == 14);
    assert("COMPOUNDMIN"@.len() == 11);
    assert("COMPOUNDMORESUFFIXES"@.len() == 20);
    assert("COMPOUNDPERMITFLAG"@.len() == 18);
    assert("COMPOUNDROOT"@.len() == 12);
    assert("COMPOUNDRULE"@.len() == 12);
    assert("COMPOUNDWORDMAX"@.len() == 15);
    assert("FLAG"@.len() == 4);
    assert("FORBIDDENWORD"@.len() == 13);
    assert("FORCEUCASE"@.len() == 10);
    assert("FULLSTRIP"@.len() == 9);
    assert("HOME"@.len() == 4);
    assert("ICONV"@.len() == 5);
    assert("IGNORE"@.len() == 6);
    assert("KEEPCASE"@.len() == 8);
    assert("KEY"@.len() == 3);
    assert("LANG"@.len() == 4);
    assert("LEMMA_PRESENT"@.len() == 13);
    assert("MAP"@.len() == 3);
    assert("MAXCPDSUGS"@.len() == 10);
    assert("MAXDIFF"@.len() == 7);
    assert("MAXNGRAMSUGS"@.len() == 12);
    assert("NAME"@.len() == 4);
    assert("NEEDAFFIX"@.len() == 9);
    assert("NOSPLITSUGS"@.len() == 11);
    assert("NOSUGGEST"@.len() == 9);
    assert("OCONV"@.len() == 5);
    assert("ONLYINCOMPOUND"@.len() == 14);
    assert("ONLYMAXDIFF"@.len() == 11);
    assert("PFX"@.len() == 3);
    assert("PHONE"@.len() == 5);
    assert("REP"@.len() == 3);
    assert("SFX"@.len() == 3);
    assert("SIMPLIFIEDTRIPLE"@.len() == 16);
    assert("SUBSTANDARD"@.len() == 11);
    assert("SUGSWITHDOTS"@.len() == 12);
    assert("TRY"@.len() == 3);
    assert("VERSION"@.len() == 7);
    assert("WARN"@.len() == 4);
    assert("WORDCHARS"@.len() == 9);
    assert("CIRCUMFIX"@[0] == 'C');
    assert("FLAG"@[0] == 'F');
    assert("FULLSTRIP"@[0] == 'F');
    assert("HOME"@[0] == 'H');
    assert("KEY"@[0] == 'K');
    assert("LANG"@[0] == 'L');
    assert("MAP"@[0] == 'M');
    assert("MAXDIFF"@[0] == 'M');
    assert("NAME"@[0] == 'N');
    assert("NEEDAFFIX"@[0] == 'N');
    assert("NOSUGGEST"@[0] == 'N');
    assert("PFX"@[0] == 'P');
    assert("REP"@[0] == 'R');
    assert("SFX"@[0] == 'S');
    assert("TRY"@[0] == 'T');
    assert("VERSION"@[0] == 'V');
    assert("WARN"@[0] == 'W');
    assert("WORDCHARS"@[0] == 'W');
}

/// A switch tag is none of the tags parsed later.
pub proof fn lemma_switch_tag_only(tok0: Seq<char>)
    requires
        matched_switch_tag(tok0),
    ensures
        !matched_number_tag(tok0),
        !matched_table_tag(tok0),
        !matched_flagdecl_tag(tok0),
        tok0 != "FLAG"@,
        tok0 != "COMPOUNDRULE"@,
        tok0 != "PFX"@,
        tok0 != "SFX"@,
        tok0 != "AF"@,
{
    reveal_strlit("AF");
    reveal_strlit("BREAK");
    reveal_strlit("CHECKCOMPOUNDCASE");
    reveal_strlit("CHECKCOMPOUNDDUP");
    reveal_strlit("CHECKCOMPOUNDREP");
    reveal_strlit("CHECKCOMPOUNDTRIPLE");
    reveal_strlit("CHECKSHARPS");
    reveal_strlit("CIRCUMFIX");
    reveal_strlit("COMPLEXPREFIXES");
    reveal_strlit("COMPOUNDBEGIN");
    reveal_strlit("COMPOUNDEND");
    reveal_strlit("COMPOUNDFLAG");
    reveal_strlit("COMPOUNDFORBIDFLAG");
    reveal_strlit("COMPOUNDLAST");
    reveal_strlit("COMPOUNDMIDDLE");
    reveal_strlit("COMPOUNDMIN");
    reveal_strlit("COMPOUNDMORESUFFIXES");
    reveal_strlit("COMPOUNDPERMITFLAG");
    reveal_strlit("COMPOUNDROOT");
    reveal_strlit("COMPOUNDRULE");
    reveal_strlit("COMPOUNDWORDMAX");
    reveal_strlit("FLAG");
    reveal_strlit("FORBIDDENWORD");
    reveal_strlit("FORCEUCASE");
    reveal_strlit("FULLSTRIP");
    reveal_strlit("ICONV");
    reveal_strlit("KEEPCASE");
    reveal_strlit("LEMMA_PRESENT");
    reveal_strlit("MAP");
    reveal_strlit("MAXCPDSUGS");
    reveal_strlit("MAXDIFF");
    reveal_strlit("MAXNGRAMSUGS");
    reveal_strlit("NEEDAFFIX");
    reveal_strlit("NOSPLITSUGS");
    reveal_strlit("NOSUGGEST");
    reveal_strlit("OCONV");
    reveal_strlit("ONLYINCOMPOUND");
    reveal_strlit("ONLYMAXDIFF");
    reveal_strlit("PFX");
    reveal_strlit("PHONE");
    reveal_strlit("REP");
    reveal_strlit("SFX");
    reveal_strlit("SIMPLIFIEDTRIPLE");
    reveal_strlit("SUBSTANDARD");
    reveal_strlit("SUGSWITHDOTS");
    reveal_strlit("WARN");
    assert("AF"@.len() == 2);
    assert("BREAK"@.len() == 5);
    assert("CHECKCOMPOUNDCASE"@.len() == 17);
    assert("CHECKCOMPOUNDDUP"@.len() == 16);
    assert("CHECKCOMPOUNDREP"@.len() == 16);
    assert("CHECKCOMPOUNDTRIPLE"@.len() == 19);
    assert("CHECKSHARPS"@.len() == 11);
    assert("CIRCUMFIX"@.len() == 9);
    assert("COMPLEXPREFIXES"@.len() == 15);
    assert("COMPOUNDBEGIN"@.len() == 13);
    assert("COMPOUNDEND"@.len() == 11);
    assert("COMPOUNDFLAG"@.len() == 12);
    assert("COMPOUNDFORBIDFLAG"@.len() == 18);
    assert("COMPOUNDLAST"@.len() == 12);
    assert("COMPOUNDMIDDLE"@.len() == 14);
    assert("COMPOUNDMIN"@.len() == 11);
    assert("COMPOUNDMORESUFFIXES"@.len() == 20);
    assert("COMPOUNDPERMITFLAG"@.len() == 18);
    assert("COMPOUNDROOT"@.len() == 12);
    assert("COMPOUNDRULE"@.len() == 12);
    assert("COMPOUNDWORDMAX"@.len() == 15);
    assert("FLAG"@.len() == 4);
    assert("FORBIDDENWORD"@.len() == 13);
    assert("FORCEUCASE"@.len() == 10);
    assert("FULLSTRIP"@.len() == 9);
    assert("ICONV"@.len() == 5);
    assert("KEEPCASE"@.len() == 8);
    assert("LEMMA_PRESENT"@.len() == 13);
    assert("MAP"@.len() == 3);
    assert("MAXCPDSUGS"@.len() == 10);
    assert("MAXDIFF"@.len() == 7);
    assert("MAXNGRAMSUGS"@.len() == 12);
    assert("NEEDAFFIX"@.len() == 9);
    assert("NOSPLITSUGS"@.len() == 11);
    assert("NOSUGGEST"@.len() == 9);
    assert("OCONV"@.len() == 5);
    assert("ONLYINCOMPOUND"@.len() == 14);
    assert("ONLYMAXDIFF"@.len() == 11);
    assert("PFX"@.len() == 3);
    assert("PHONE"@.len() == 5);
    assert("REP"@.len() == 3);
    assert("SFX"@.len() == 3);
    assert("SIMPLIFIEDTRIPLE"@.len() == 16);
    assert("SUBSTANDARD"@.len() == 11);
    assert("SUGSWITHDOTS"@.len() == 12);
    assert("WARN"@.len() == 4);
    assert("CHECKSHARPS"@[0] == 'C');
    assert("CHECKSHARPS"@[1] == 'H');
    assert("CIRCUMFIX"@[0] == 'C');
    assert("COMPLEXPREFIXES"@[4] == 'L');
    assert("COMPOUNDEND"@[0] == 'C');
    assert("COMPOUNDEND"@[1] == 'O');
    assert("COMPOUNDFLAG"@[0] == 'C');
    assert("COMPOUNDLAST"@[0] == 'C');
    assert("COMPOUNDMIN"@[0] == 'C');
    assert("COMPOUNDMIN"@[1] == 'O');
    assert("COMPOUNDROOT"@[0] == 'C');
    assert("COMPOUNDRULE"@[0] == 'C');
    assert("COMPOUNDWORDMAX"@[4] == 'O');
    assert("FULLSTRIP"@[0] == 'F');
    assert("MAXNGRAMSUGS"@[0] == 'M');
    assert("NEEDAFFIX"@[0] == 'N');
    assert("NOSPLITSUGS"@[0] == 'N');
    assert("NOSUGGEST"@[0] == 'N');
    assert("ONLYMAXDIFF"@[0] == 'O');
    assert("SUBSTANDARD"@[0] == 'S');
    assert("SUGSWITHDOTS"@[0] == 'S');
}

/// A numeric option tag is none of the tags parsed later.
pub proof fn lemma_number_tag_only(tok0: Seq<char>)
    requires
        matched_number_tag(tok0),
    ensures
        !matched_table_tag(tok0),
        !matched_flagdecl_tag(tok0),
        tok0 != "FLAG"@,
        tok0 != "COMPOUNDRULE"@,
        tok0 != "PFX"@,
        tok0 != "SFX"@,
        tok0 != "AF"@,
{
    reveal_strlit("AF");
    reveal_strlit("BREAK");
    reveal_strlit("CIRCUMFIX");
    reveal_strlit("COMPOUNDBEGIN");
    reveal_strlit("COMPOUNDEND");
    reveal_strlit("COMPOUNDFLAG");
    reveal_strlit("COMPOUNDFORBIDFLAG");
    reveal_strlit("COMPOUNDLAST");
    reveal_strlit("COMPOUNDMIDDLE");
    reveal_strlit("COMPOUNDMIN");
    reveal_strlit("COMPOUNDPERMITFLAG");
    reveal_strlit("COMPOUNDROOT");
    reveal_strlit("COMPOUNDRULE");
    reveal_strlit("COMPOUNDWORDMAX");
    reveal_strlit("FLAG");
    reveal_strlit("FORBIDDENWORD");
    reveal_strlit("FORCEUCASE");
    reveal_strlit("ICONV");
    reveal_strlit("KEEPCASE");
    reveal_strlit("LEMMA_PRESENT");
    reveal_strlit("MAP");
    reveal_strlit("MAXCPDSUGS");
    reveal_strlit("MAXDIFF");
    reveal_strlit("MAXNGRAMSUGS");
    reveal_strlit("NEEDAFFIX");
    reveal_strlit("NOSUGGEST");
    reveal_strlit("OCONV");
    reveal_strlit("ONLYINCOMPOUND");
    reveal_strlit("PFX");
    reveal_strlit("PHONE");
    reveal_strlit("REP");
    reveal_strlit("SFX");
    reveal_strlit("SUBSTANDARD");
    reveal_strlit("WARN");
    assert("AF"@.len() == 2);
    assert("BREAK"@.len() == 5);
    assert("CIRCUMFIX"@.len() == 9);
    assert("COMPOUNDBEGIN"@.len() == 13);
    assert("COMPOUNDEND"@.len() == 11);
    assert("COMPOUNDFLAG"@.len() == 12);
    assert("COMPOUNDFORBIDFLAG"@.len() == 18);
    assert("COMPOUNDLAST"@.len() == 12);
    assert("COMPOUNDMIDDLE"@.len() == 14);
    assert("COMPOUNDMIN"@.len() == 11);
    assert("COMPOUNDPERMITFLAG"@.len() == 18);
    assert("COMPOUNDROOT"@.len() == 12);
    assert("COMPOUNDRULE"@.len() == 12);
    assert("COMPOUNDWORDMAX"@.len() == 15);
    assert("FLAG"@.len() == 4);
    assert("FORBIDDENWORD"@.len() == 13);
    assert("FORCEUCASE"@.len() == 10);
    assert("ICONV"@.len() == 5);
    assert("KEEPCASE"@.len() == 8);
    assert("LEMMA_PRESENT"@.len() == 13);
    assert("MAP"@.len() == 3);
    assert("MAXCPDSUGS"@.len() == 10);
    assert("MAXDIFF"@.len() == 7);
    assert("MAXNGRAMSUGS"@.len() == 12);
    assert("NEEDAFFIX"@.len() == 9);
    assert("NOSUGGEST"@.len() == 9);
    assert("OCONV"@.len() == 5);
    assert("ONLYINCOMPOUND"@.len() == 14);
    assert("PFX"@.len() == 3);
    assert("PHONE"@.len() == 5);
    assert("REP"@.len() == 3);
    assert("SFX"@.len() == 3);
    assert("SUBSTANDARD"@.len() == 11);
    assert("WARN"@.len() == 4);
    assert("COMPOUNDEND"@[8] == 'E');
    assert("COMPOUNDFLAG"@[0] == 'C');
    assert("COMPOUNDLAST"@[0] == 'C');
    assert("COMPOUNDMIN"@[0] == 'C');
    assert("COMPOUNDMIN"@[8] == 'M');
    assert("COMPOUNDROOT"@[0] == 'C');
    assert("COMPOUNDRULE"@[0] == 'C');
    assert("FORCEUCASE"@[0] == 'F');
    assert("MAXCPDSUGS"@[0] == 'M');
    assert("MAXNGRAMSUGS"@[0] == 'M');
    assert("SUBSTANDARD"@[0] == 'S');
}

/// A sized-table tag is none of the tags parsed later.
pub proof fn lemma_table_tag_only(tok0: Seq<char>)
    requires
        matched_table_tag(tok0),
    ensures
        !matched_flagdecl_tag(tok0),
        tok0 != "FLAG"@,
        tok0 != "COMPOUNDRULE"@,
        tok0 != "PFX"@,
        tok0 != "SFX"@,
        tok0 != "AF"@,
{
    reveal_strlit("AF");
    reveal_strlit("BREAK");
    reveal_strlit("CIRCUMFIX");
    reveal_strlit("COMPOUNDBEGIN");
    reveal_strlit("COMPOUNDEND");
    reveal_strlit("COMPOUNDFLAG");
    reveal_strlit("COMPOUNDFORBIDFLAG");
    reveal_strlit("COMPOUNDLAST");
    reveal_strlit("COMPOUNDMIDDLE");
    reveal_strlit("COMPOUNDPERMITFLAG");
    reveal_strlit("COMPOUNDROOT");
    reveal_strlit("COMPOUNDRULE");
    reveal_strlit("FLAG");
    reveal_strlit("FORBIDDENWORD");
    reveal_strlit("FORCEUCASE");
    reveal_strlit("ICONV");
    reveal_strlit("KEEPCASE");
    reveal_strlit("LEMMA_PRESENT");
    reveal_strlit("MAP");
    reveal_strlit("NEEDAFFIX");
    reveal_strlit("NOSUGGEST");
    reveal_strlit("OCONV");
    reveal_strlit("ONLYINCOMPOUND");
    reveal_strlit("PFX");
    reveal_strlit("PHONE");
    reveal_strlit("REP");
    reveal_strlit("SFX");
    reveal_strlit("SUBSTANDARD");
    reveal_strlit("WARN");
    assert("AF"@.len() == 2);
    assert("BREAK"@.len() == 5);
    assert("CIRCUMFIX"@.len() == 9);
    assert("COMPOUNDBEGIN"@.len() == 13);
    assert("COMPOUNDEND"@.len() == 11);
    assert("COMPOUNDFLAG"@.len() == 12);
    assert("COMPOUNDFORBIDFLAG"@.len() == 18);
    assert("COMPOUNDLAST"@.len() == 12);
    assert("COMPOUNDMIDDLE"@.len() == 14);
    assert("COMPOUNDPERMITFLAG"@.len() == 18);
    assert("COMPOUNDROOT"@.len() == 12);
    assert("COMPOUNDRULE"@.len() == 12);
    assert("FLAG"@.len() == 4);
    assert("FORBIDDENWORD"@.len() == 13);
    assert("FORCEUCASE"@.len() == 10);
    assert("ICONV"@.len() == 5);
    assert("KEEPCASE"@.len() == 8);
    assert("LEMMA_PRESENT"@.len() == 13);
    assert("MAP"@.len() == 3);
    assert("NEEDAFFIX"@.len() == 9);
    assert("NOSUGGEST"@.len() == 9);
    assert("OCONV"@.len() == 5);
    assert("ONLYINCOMPOUND"@.len() == 14);
    assert("PFX"@.len() == 3);
    assert("PHONE"@.len() == 5);
    assert("REP"@.len() == 3);
    assert("SFX"@.len() == 3);
    assert("SUBSTANDARD"@.len() == 11);
    assert("WARN"@.len() == 4);
    assert("MAP"@[0] == 'M');
    assert("PFX"@[0] == 'P');
    assert("REP"@[0] == 'R');
    assert("SFX"@[0] == 'S');
}

/// What a `COMPOUNDRULE` line does: the first sighting is the header
/// announcing a size; each later sighting appends the pattern and
/// registers its flags, under the single-character format, as
/// compound-rule flags carrying the pattern's index.
pub open spec fn comprule_effect(
    pre_parsed: bool,
    post_parsed: bool,
    pre_rules: Seq<Seq<char>>,
    post_rules: Seq<Seq<char>>,
    pre_m: Map<Seq<char>, (FlagType, u32)>,
    post_m: Map<Seq<char>, (FlagType, u32)>,
    fmt: FlagFormat,
    pre_notes: Seq<(Seq<char>, Option<Seq<char>>)>,
    post_notes: Seq<(Seq<char>, Option<Seq<char>>)>,
    args: Seq<Seq<char>>,
) -> bool {
    &&& post_parsed == true
    &&& if !pre_parsed {
        post_rules == pre_rules && post_m == pre_m && post_notes == pre_notes
    } else {
        let notes1 = if args.len() != 1 {
            pre_notes.push(("Expected one argument for COMPOUNDRULE"@, None))
        } else {
            pre_notes
        };
        if args.len() >= 1 {
            &&& post_rules == pre_rules.push(args[0])
            &&& post_m == insert_all(
                pre_m,
                if fmt == FlagFormat::SingleUni || fmt == FlagFormat::SingleChar {
                    comp_rule_fold(args[0], Seq::empty())
                } else {
                    Seq::empty()
                },
                (FlagType::FlagCompRule, u32_clamp(pre_rules.len() as int)),
            )
            &&& post_notes == notes1
        } else {
            post_rules == pre_rules && post_m == pre_m && post_notes == notes1
        }
    }
}

/// What an `AF` line does: the first sighting is the header announcing
/// a size; each later sighting appends the alias and registers its
/// one-based ordinal, written in decimal, as an alias flag.
pub open spec fn af_effect(
    pre_parsed: bool,
    post_parsed: bool,
    pre_af: Seq<Seq<char>>,
    post_af: Seq<Seq<char>>,
    pre_m: Map<Seq<char>, (FlagType, u32)>,
    post_m: Map<Seq<char>, (FlagType, u32)>,
    pre_notes: Seq<(Seq<char>, Option<Seq<char>>)>,
    post_notes: Seq<(Seq<char>, Option<Seq<char>>)>,
    args: Seq<Seq<char>>,
) -> bool {
    &&& post_parsed == true
    &&& if !pre_parsed {
        post_af == pre_af && post_m == pre_m && post_notes == pre_notes
    } else if args.len() >= 1 {
        &&& post_af == pre_af.push(args[0])
        &&& post_m == pre_m.insert(
            crate::text::dec_str((pre_af.len() + 1) as nat),
            (FlagType::FlagAf, u32_clamp(pre_af.len() as int)),
        )
        &&& post_notes == note_if_extra_arg(
            pre_notes,
            args.skip(1),
            "Superfluous arguments after AF element"@,
        )
    } else {
        post_af == pre_af && post_m == pre_m && post_notes == pre_notes.push(
            ("Expected one argument for AF"@, None),
        )
    }
}

/// The `SET` tag, handled before the line parser runs, is none of
/// the tags the line parser recognizes.
pub proof fn lemma_set_not_aff_tag(tok0: Seq<char>)
    requires
        tok0 == "SET"@,
    ensures
        !aff_line_matched(tok0),
{
    reveal_strlit("AF");
    reveal_strlit("BREAK");
    reveal_strlit("CHECKCOMPOUNDCASE");
    reveal_strlit("CHECKCOMPOUNDDUP");
    reveal_strlit("CHECKCOMPOUNDREP");
    reveal_strlit("CHECKCOMPOUNDTRIPLE");
    reveal_strlit("CHECKSHARPS");
    reveal_strlit("CIRCUMFIX");
    reveal_strlit("COMPLEXPREFIXES");
    reveal_strlit("COMPOUNDBEGIN");
    reveal_strlit("COMPOUNDEND");
    reveal_strlit("COMPOUNDFLAG");
    reveal_strlit("COMPOUNDFORBIDFLAG");
    reveal_strlit("COMPOUNDLAST");
    reveal_strlit("COMPOUNDMIDDLE");
    reveal_strlit("COMPOUNDMIN");
    reveal_strlit("COMPOUNDMORESUFFIXES");
    reveal_strlit("COMPOUNDPERMITFLAG");
    reveal_strlit("COMPOUNDROOT");
    reveal_strlit("COMPOUNDRULE");
    reveal_strlit("COMPOUNDWORDMAX");
    reveal_strlit("FLAG");
    reveal_strlit("FORBIDDENWORD");
    reveal_strlit("FORCEUCASE");
    reveal_strlit("FULLSTRIP");
    reveal_strlit("HOME");
    reveal_strlit("ICONV");
    reveal_strlit("IGNORE");
    reveal_strlit("KEEPCASE");
    reveal_strlit("KEY");
    reveal_strlit("LANG");
    reveal_strlit("LEMMA_PRESENT");
    reveal_strlit("MAP");
    reveal_strlit("MAXCPDSUGS");
    reveal_strlit("MAXDIFF");
    reveal_strlit("MAXNGRAMSUGS");
    reveal_strlit("NAME");
    reveal_strlit("NEEDAFFIX");
    reveal_strlit("NOSPLITSUGS");
    reveal_strlit("NOSUGGEST");
    reveal_strlit("OCONV");
    reveal_strlit("ONLYINCOMPOUND");
    reveal_strlit("ONLYMAXDIFF");
    reveal_strlit("PFX");
    reveal_strlit("PHONE");
    reveal_strlit("REP");
    reveal_strlit("SET");
    reveal_strlit("SFX");
    reveal_strlit("SIMPLIFIEDTRIPLE");
    reveal_strlit("SUBSTANDARD");
    reveal_strlit("SUGSWITHDOTS");
    reveal_strlit("TRY");
    reveal_strlit("VERSION");
    reveal_strlit("WARN");
    reveal_strlit("WORDCHARS");
    assert("AF"@.len() == 2);
    assert("BREAK"@.len() == 5);
    assert("CHECKCOMPOUNDCASE"@.len() == 17);
    assert("CHECKCOMPOUNDDUP"@.len() == 16);
    assert("CHECKCOMPOUNDREP"@.len() == 16);
    assert("CHECKCOMPOUNDTRIPLE"@.len() == 19);
    assert("CHECKSHARPS"@.len() == 11);
    assert("CIRCUMFIX"@.len() == 9);
    assert("COMPLEXPREFIXES"@.len() == 15);
    assert("COMPOUNDBEGIN"@.len() == 13);
    assert("COMPOUNDEND"@.len() == 11);
    assert("COMPOUNDFLAG"@.len() == 12);
    assert("COMPOUNDFORBIDFLAG"@.len() == 18);
    assert("COMPOUNDLAST"@.len() == 12);
    assert("COMPOUNDMIDDLE"@.len() == 14);
    assert("COMPOUNDMIN"@.len() == 11);
    assert("COMPOUNDMORESUFFIXES"@.len() == 20);
    assert("COMPOUNDPERMITFLAG"@.len() == 18);
    assert("COMPOUNDROOT"@.len() == 12);
    assert("COMPOUNDRULE"@.len() == 12);
    assert("COMPOUNDWORDMAX"@.len() == 15);
    assert("FLAG"@.len() == 4);
    assert("FORBIDDENWORD"@.len() == 13);
    assert("FORCEUCASE"@.len() == 10);
    assert("FULLSTRIP"@.len() == 9);
    assert("HOME"@.len() == 4);
    assert("ICONV"@.len() == 5);
    assert("IGNORE"@.len() == 6);
    assert("KEEPCASE"@.len() == 8);
    assert("KEY"@.len() == 3);
    assert("LANG"@.len() == 4);
    assert("LEMMA_PRESENT"@.len() == 13);
    assert("MAP"@.len() == 3);
    assert("MAXCPDSUGS"@.len() == 10);
    assert("MAXDIFF"@.len() == 7);
    assert("MAXNGRAMSUGS"@.len() == 12);
    assert("NAME"@.len() == 4);
    assert("NEEDAFFIX"@.len() == 9);
    assert("NOSPLITSUGS"@.len() == 11);
    assert("NOSUGGEST"@.len() == 9);
    assert("OCONV"@.len() == 5);
    assert("ONLYINCOMPOUND"@.len() == 14);
    assert("ONLYMAXDIFF"@.len() == 11);
    assert("PFX"@.len() == 3);
    assert("PHONE"@.len() == 5);
    assert("REP"@.len() == 3);
    assert("SET"@.len() == 3);
    assert("SFX"@.len() == 3);
    assert("SIMPLIFIEDTRIPLE"@.len() == 16);
    assert("SUBSTANDARD"@.len() == 11);
    assert("SUGSWITHDOTS"@.len() == 12);
    assert("TRY"@.len() == 3);
    assert("VERSION"@.len() == 7);
    assert("WARN"@.len() == 4);
    assert("WORDCHARS"@.len() == 9);
    assert("KEY"@[0] == 'K');
    assert("MAP"@[0] == 'M');
    assert("PFX"@[0] == 'P');
    assert("REP"@[0] == 'R');
    assert("SET"@[0] == 'S');
    assert("SET"@[1] == 'E');
    assert("SFX"@[1] == 'F');
    assert("TRY"@[0] == 'T');
}

/// The first tokens the line parser recognizes.
pub open spec fn aff_line_matched(tok0: Seq<char>) -> bool {
    ||| tok0 == "FLAG"@
    ||| matched_string_tag(tok0)
    ||| matched_switch_tag(tok0)
    ||| matched_number_tag(tok0)
    ||| matched_table_tag(tok0)
    ||| tok0 == "COMPOUNDRULE"@
    ||| matched_flagdecl_tag(tok0)
    ||| tok0 == "PFX"@
    ||| tok0 == "SFX"@
    ||| tok0 == "AF"@
}






/// The second step of the `WORDCHARS` tag, on the options alone.
pub fn update_wordchars(opts: &mut AffOptions)
    ensures
        *final(opts) == (AffOptions {
            slg_wordchar_digits: has_all_digits(old(opts).tag_wordchars@),
            slg_wordchars: final(opts).slg_wordchars,
            ..*old(opts)
        }),
        final(opts).slg_wordchars@ == wordchars_of(old(opts).tag_wordchars@),
{
    let mut d: u32 = 0;
    while d < 10 && crate::text::str_contains_char(
        opts.tag_wordchars.as_str(),
        crate::text::digit_char_of(d),
    )
        invariant
            d <= 10,
            opts == old(opts),
            forall|e: int|
                0 <= e < d ==> opts.tag_wordchars@.contains(crate::text::digit_char(e)),
        decreases 10 - d,
    {
        d += 1;
    }
    let all_digits = d == 10;
    proof {
        if d < 10 {
            assert(!opts.tag_wordchars@.contains(crate::text::digit_char(d as int)));
            assert(!has_all_digits(opts.tag_wordchars@));
        } else {
            assert(has_all_digits(opts.tag_wordchars@));
        }
    }
    opts.slg_wordchar_digits = all_digits;
    if all_digits {
        let src = opts.tag_wordchars.as_str();
        let n = src.unicode_len();
        let mut kept: Vec<char> = Vec::new();
        let mut i: usize = 0;
        proof {
            assert(src@.subrange(0, n as int) =~= src@);
            assert(kept@ =~= Seq::<char>::empty());
        }
        while i < n
            invariant
                n == src@.len(),
                i <= n,
                non_digit_fold(src@, Seq::empty()) == non_digit_fold(
                    src@.subrange(i as int, n as int),
                    kept@,
                ),
            decreases n - i,
        {
            let ghost rest = src@.subrange(i as int, n as int);
            let ghost rest2 = src@.subrange(i + 1 as int, n as int);
            proof {
                assert(rest.drop_first() =~= rest2);
                assert(rest[0] == src@[i as int]);
            }
            let c = src.get_char(i);
            if !crate::text::char_is_digit(c) {
                kept.push(c);
            }
            i += 1;
        }
        proof {
            assert(src@.subrange(n as int, n as int) =~= Seq::<char>::empty());
        }
        opts.slg_wordchars = kept;
    } else {
        opts.slg_wordchars = crate::text::str_chars(opts.tag_wordchars.as_str());
    }
}

/// Registers one flag under the kind a tag declares, in a given flag
/// map.
pub fn flag_decl_tag(
    tbl: &mut FlagTable,
    tag: &str,
    flag_type: FlagType,
    parse_state: &mut ParseState,
) -> (r: bool)
    ensures
        r == (old(parse_state).first_view() == tag@),
        final(parse_state).same_line(old(parse_state)),
        final(parse_state).first_view() == old(parse_state).first_view(),
        final(parse_state).pst_first_token is Some,
        !r ==> flag_contents(*final(tbl)) == flag_contents(*old(tbl)) && final(parse_state).notes_view() == old(parse_state).notes_view() && final(parse_state).args_view() == old(parse_state).args_view(),
        r && old(parse_state).args_view().len() > 0 ==> flag_contents(*final(tbl))
            == flag_contents(*old(tbl)).insert(
            old(parse_state).args_view()[0],
            (flag_type, 0),
        ) && final(parse_state).notes_view() == old(parse_state).notes_view(),
        r && old(parse_state).args_view().len() == 0 ==> flag_contents(*final(tbl))
            == flag_contents(*old(tbl)) && final(parse_state).notes_view() == old(parse_state).notes_view().push(("No flag value for element"@, None)),
{
    let ft = parse_state.get_first_token();
    if crate::text::str_eq(ft.as_str(), tag) {
        match parse_state.get_next_token() {
            Some(comp_flag) => {
                tbl.insert(comp_flag, (flag_type, 0));
            },
            None => {
                parse_state.add_note("No flag value for element");
            },
        }
        true
    } else {
        false
    }
}

impl Lang {
    /// Parses the tags `TRY`, `LANG`, `KEY` and `WORDCHARS`, on the
    /// options and the language code alone.
    #[verifier::rlimit(100)]
    #[verifier::spinoff_prover]
    pub fn parse_aff_strings_head(
        opts: &mut AffOptions,
        code: &mut String,
        parse_state: &mut ParseState,
    ) -> (r: bool)
        ensures
            final(parse_state).same_line(old(parse_state)),
            final(parse_state).first_view() == old(parse_state).first_view(),
            final(parse_state).pst_first_token is Some,
            r == (old(parse_state).first_view() == "TRY"@ || old(parse_state).first_view()
                == "LANG"@ || old(parse_state).first_view() == "KEY"@ || old(
                parse_state,
            ).first_view() == "WORDCHARS"@),
            final(opts).slg_prefix_max == old(opts).slg_prefix_max,
            final(opts).slg_suffix_max == old(opts).slg_suffix_max,
            r ==> string_tags_effect(
                *old(opts),
                *final(opts),
                old(code)@,
                final(code)@,
                old(parse_state).notes_view(),
                final(parse_state).notes_view(),
                old(parse_state).first_view(),
                old(parse_state).args_view(),
            ),
            !r ==> final(parse_state).args_view() == old(parse_state).args_view() && *final(opts)
                == *old(opts) && final(code)@ == old(code)@ && final(parse_state).notes_view()
                == old(parse_state).notes_view(),
    {
        proof {
            lemma_string_tags_distinct();
        }
        if Self::parse_string("TRY", &mut opts.slg_try, parse_state) {
        } else if Self::parse_string("LANG", code, parse_state) {
        } else if Self::parse_string("KEY", &mut opts.slg_key, parse_state) {
        } else if Self::parse_string("WORDCHARS", &mut opts.tag_wordchars, parse_state) {
            update_wordchars(opts);
        } else {
            return false;
        }
        true
    }

    /// Parses the tags `IGNORE`, `NAME`, `HOME` and `VERSION`, on the
    /// options alone.
    #[verifier::rlimit(100)]
    #[verifier::spinoff_prover]
    pub fn parse_aff_strings_tail(opts: &mut AffOptions, parse_state: &mut ParseState) -> (r: bool)
        ensures
            final(parse_state).same_line(old(parse_state)),
            final(parse_state).first_view() == old(parse_state).first_view(),
            final(parse_state).pst_first_token is Some,
            r == (old(parse_state).first_view() == "IGNORE"@ || old(parse_state).first_view()
                == "NAME"@ || old(parse_state).first_view() == "HOME"@ || old(
                parse_state,
            ).first_view() == "VERSION"@),
            final(opts).slg_prefix_max == old(opts).slg_prefix_max,
            final(opts).slg_suffix_max == old(opts).slg_suffix_max,
            r ==> string_tags_effect(
                *old(opts),
                *final(opts),
                Seq::empty(),
                Seq::empty(),
                old(parse_state).notes_view(),
                final(parse_state).notes_view(),
                old(parse_state).first_view(),
                old(parse_state).args_view(),
            ),
            !r ==> final(parse_state).args_view() == old(parse_state).args_view() && *final(opts)
                == *old(opts) && final(parse_state).notes_view() == old(parse_state).notes_view(),
    {
        proof {
            lemma_string_tags_distinct();
        }
        if Self::parse_string("IGNORE", &mut opts.slg_ignore, parse_state) {
        } else if Self::parse_string("NAME", &mut opts.slg_name, parse_state) {
        } else if Self::parse_string("HOME", &mut opts.slg_home, parse_state) {
        } else if Self::parse_string("VERSION", &mut opts.slg_version, parse_state) {
        } else {
            return false;
        }
        true
    }


    /// Parses the tags `COMPLEXPREFIXES`, `NOSPLITSUGS`, `SUGSWITHDOTS`, `CHECKCOMPOUNDDUP`, on the options alone.
    #[verifier::rlimit(100)]
    #[verifier::spinoff_prover]
    pub fn parse_aff_switches_head(opts: &mut AffOptions, parse_state: &mut ParseState) -> (r: bool)
        ensures
            final(parse_state).same_line(old(parse_state)),
            final(parse_state).first_view() == old(parse_state).first_view(),
            final(parse_state).pst_first_token is Some,
            r == (old(parse_state).first_view() == "COMPLEXPREFIXES"@ || old(parse_state).first_view() == "NOSPLITSUGS"@ || old(parse_state).first_view() == "SUGSWITHDOTS"@ || old(parse_state).first_view() == "CHECKCOMPOUNDDUP"@),
            old(opts).slg_prefix_max <= 2 && old(opts).slg_suffix_max <= 2 ==> final(opts).slg_prefix_max <= 2
                && final(opts).slg_suffix_max <= 2,
            r ==> switch_tags_effect(
                *old(opts),
                *final(opts),
                old(parse_state).notes_view(),
                final(parse_state).notes_view(),
                old(parse_state).first_view(),
                old(parse_state).args_view(),
            ),
            !r ==> final(parse_state).args_view() == old(parse_state).args_view() && *final(opts)
                == *old(opts) && final(parse_state).notes_view() == old(parse_state).notes_view(),
    {
        proof {
            lemma_switch_tags_distinct();
        }
        if Self::parse_simple("COMPLEXPREFIXES", &mut opts.slg_cplx_pref, true, parse_state) {
            opts.slg_prefix_max = 2;
            opts.slg_suffix_max = 1;
        } else if Self::parse_simple("NOSPLITSUGS", &mut opts.slg_sug_split, false, parse_state) {
        } else if Self::parse_simple("SUGSWITHDOTS", &mut opts.slg_sug_dots, true, parse_state) {
        } else if Self::parse_simple("CHECKCOMPOUNDDUP", &mut opts.slg_comp_check_dup, true, parse_state) {
        } else {
            return false;
        }
        true
    }

    /// Parses the tags `CHECKCOMPOUNDREP`, `CHECKCOMPOUNDCASE`, `CHECKSHARPS`, `CHECKCOMPOUNDTRIPLE`, on the options alone.
    #[verifier::rlimit(100)]
    #[verifier::spinoff_prover]
    pub fn parse_aff_switches_mid(opts: &mut AffOptions, parse_state: &mut ParseState) -> (r: bool)
        ensures
            final(parse_state).same_line(old(parse_state)),
            final(parse_state).first_view() == old(parse_state).first_view(),
            final(parse_state).pst_first_token is Some,
            r == (old(parse_state).first_view() == "CHECKCOMPOUNDREP"@ || old(parse_state).first_view() == "CHECKCOMPOUNDCASE"@ || old(parse_state).first_view() == "CHECKSHARPS"@ || old(parse_state).first_view() == "CHECKCOMPOUNDTRIPLE"@),
            old(opts).slg_prefix_max <= 2 && old(opts).slg_suffix_max <= 2 ==> final(opts).slg_prefix_max <= 2
                && final(opts).slg_suffix_max <= 2,
            r ==> switch_tags_effect(
                *old(opts),
                *final(opts),
                old(parse_state).notes_view(),
                final(parse_state).notes_view(),
                old(parse_state).first_view(),
                old(parse_state).args_view(),
            ),
            !r ==> final(parse_state).args_view() == old(parse_state).args_view() && *final(opts)
                == *old(opts) && final(parse_state).notes_view() == old(parse_state).notes_view(),
    {
        proof {
            lemma_switch_tags_distinct();
        }
        if Self::parse_simple("CHECKCOMPOUNDREP", &mut opts.slg_comp_check_rep, true, parse_state) {
        } else if Self::parse_simple("CHECKCOMPOUNDCASE", &mut opts.slg_comp_check_case, true, parse_state) {
        } else if Self::parse_simple("CHECKSHARPS", &mut opts.slg_check_sharp_s, true, parse_state) {
        } else if Self::parse_simple("CHECKCOMPOUNDTRIPLE", &mut opts.slg_check_comp_triple, true, parse_state) {
        } else {
            return false;
        }
        true
    }

    /// Parses the tags `SIMPLIFIEDTRIPLE`, `ONLYMAXDIFF`, `FULLSTRIP`, `COMPOUNDMORESUFFIXES`, on the options alone.
    #[verifier::rlimit(100)]
    #[verifier::spinoff_prover]
    pub fn parse_aff_switches_tail(opts: &mut AffOptions, parse_state: &mut ParseState) -> (r: bool)
        ensures
            final(parse_state).same_line(old(parse_state)),
            final(parse_state).first_view() == old(parse_state).first_view(),
            final(parse_state).pst_first_token is Some,
            r == (old(parse_state).first_view() == "SIMPLIFIEDTRIPLE"@ || old(parse_state).first_view() == "ONLYMAXDIFF"@ || old(parse_state).first_view() == "FULLSTRIP"@ || old(parse_state).first_view() == "COMPOUNDMORESUFFIXES"@),
            old(opts).slg_prefix_max <= 2 && old(opts).slg_suffix_max <= 2 ==> final(opts).slg_prefix_max <= 2
                && final(opts).slg_suffix_max <= 2,
            r ==> switch_tags_effect(
                *old(opts),
                *final(opts),
                old(parse_state).notes_view(),
                final(parse_state).notes_view(),
                old(parse_state).first_view(),
                old(parse_state).args_view(),
            ),
            !r ==> final(parse_state).args_view() == old(parse_state).args_view() && *final(opts)
                == *old(opts) && final(parse_state).notes_view() == old(parse_state).notes_view(),
    {
        proof {
            lemma_switch_tags_distinct();
        }
        if Self::parse_simple("SIMPLIFIEDTRIPLE", &mut opts.slg_simplified_triple, true, parse_state) {
        } else if Self::parse_simple("ONLYMAXDIFF", &mut opts.slg_only_max_diff, true, parse_state) {
        } else if Self::parse_simple("FULLSTRIP", &mut opts.slg_full_string, true, parse_state) {
        } else if Self::parse_simple("COMPOUNDMORESUFFIXES", &mut opts.slg_comp_more_suffixes, true, parse_state) {
        } else {
            return false;
        }
        true
    }




    /// Parses the tags `COMPOUNDMIN`, `COMPOUNDWORDMAX`, `MAXCPDSUGS`, on the options alone.
    #[verifier::rlimit(100)]
    #[verifier::spinoff_prover]
    pub fn parse_aff_numbers_head(opts: &mut AffOptions, parse_state: &mut ParseState) -> (r: bool)
        ensures
            final(parse_state).same_line(old(parse_state)),
            final(parse_state).first_view() == old(parse_state).first_view(),
            final(parse_state).pst_first_token is Some,
            r == (old(parse_state).first_view() == "COMPOUNDMIN"@ || old(parse_state).first_view() == "COMPOUNDWORDMAX"@ || old(parse_state).first_view() == "MAXCPDSUGS"@),
            final(opts).slg_prefix_max == old(opts).slg_prefix_max,
            final(opts).slg_suffix_max == old(opts).slg_suffix_max,
            r ==> number_tags_effect(
                *old(opts),
                *final(opts),
                old(parse_state).notes_view(),
                final(parse_state).notes_view(),
                old(parse_state).first_view(),
                old(parse_state).args_view(),
            ),
            !r ==> final(parse_state).args_view() == old(parse_state).args_view() && *final(opts)
                == *old(opts) && final(parse_state).notes_view() == old(parse_state).notes_view(),
    {
        proof {
            lemma_number_tags_distinct();
        }
        if Self::parse_number("COMPOUNDMIN", &mut opts.slg_comp_min, parse_state) {
        } else if Self::parse_number("COMPOUNDWORDMAX", &mut opts.slg_comp_word_max, parse_state) {
        } else if Self::parse_number("MAXCPDSUGS", &mut opts.slg_max_cpd_sugs, parse_state) {
        } else {
            return false;
        }
        true
    }

    /// Parses the tags `MAXNGRAMSUGS`, `MAXDIFF`, on the options alone.
    #[verifier::rlimit(100)]
    #[verifier::spinoff_prover]
    pub fn parse_aff_numbers_tail(opts: &mut AffOptions, parse_state: &mut ParseState) -> (r: bool)
        ensures
            final(parse_state).same_line(old(parse_state)),
            final(parse_state).first_view() == old(parse_state).first_view(),
            final(parse_state).pst_first_token is Some,
            r == (old(parse_state).first_view() == "MAXNGRAMSUGS"@ || old(parse_state).first_view() == "MAXDIFF"@),
            final(opts).slg_prefix_max == old(opts).slg_prefix_max,
            final(opts).slg_suffix_max == old(opts).slg_suffix_max,
            r ==> number_tags_effect(
                *old(opts),
                *final(opts),
                old(parse_state).notes_view(),
                final(parse_state).notes_view(),
                old(parse_state).first_view(),
                old(parse_state).args_view(),
            ),
            !r ==> final(parse_state).args_view() == old(parse_state).args_view() && *final(opts)
                == *old(opts) && final(parse_state).notes_view() == old(parse_state).notes_view(),
    {
        proof {
            lemma_number_tags_distinct();
        }
        if Self::parse_number("MAXNGRAMSUGS", &mut opts.slg_max_ngram_sugs, parse_state) {
        } else if Self::parse_number("MAXDIFF", &mut opts.slg_max_diff, parse_state) {
        } else {
            return false;
        }
        true
    }

    /// Parses the tags `REP`, `PHONE`, `ICONV`, on the options alone.
    #[verifier::rlimit(100)]
    #[verifier::spinoff_prover]
    pub fn parse_aff_tables_head(opts: &mut AffOptions, parse_state: &mut ParseState) -> (r: bool)
        ensures
            final(parse_state).same_line(old(parse_state)),
            final(parse_state).first_view() == old(parse_state).first_view(),
            final(parse_state).pst_first_token is Some,
            r == (old(parse_state).first_view() == "REP"@ || old(parse_state).first_view() == "PHONE"@ || old(parse_state).first_view() == "ICONV"@),
            final(opts).slg_prefix_max == old(opts).slg_prefix_max,
            final(opts).slg_suffix_max == old(opts).slg_suffix_max,
            r ==> table_tags_effect(
                *old(opts),
                *final(opts),
                old(parse_state).notes_view(),
                final(parse_state).notes_view(),
                old(parse_state).first_view(),
                old(parse_state).args_view(),
            ),
            !r ==> final(parse_state).args_view() == old(parse_state).args_view() && *final(opts)
                == *old(opts) && final(parse_state).notes_view() == old(parse_state).notes_view(),
    {
        proof {
            lemma_table_tags_distinct();
        }
        if Self::parse_pair_table("REP", &mut opts.slg_rep, parse_state) {
        } else if Self::parse_pair_table("PHONE", &mut opts.slg_phone, parse_state) {
        } else if Self::parse_pair_table("ICONV", &mut opts.slg_iconv, parse_state) {
        } else {
            return false;
        }
        true
    }

    /// Parses the tags `OCONV`, `MAP`, `BREAK`, on the options alone.
    #[verifier::rlimit(100)]
    #[verifier::spinoff_prover]
    pub fn parse_aff_tables_tail(opts: &mut AffOptions, parse_state: &mut ParseState) -> (r: bool)
        ensures
            final(parse_state).same_line(old(parse_state)),
            final(parse_state).first_view() == old(parse_state).first_view(),
            final(parse_state).pst_first_token is Some,
            r == (old(parse_state).first_view() == "OCONV"@ || old(parse_state).first_view() == "MAP"@ || old(parse_state).first_view() == "BREAK"@),
            final(opts).slg_prefix_max == old(opts).slg_prefix_max,
            final(opts).slg_suffix_max == old(opts).slg_suffix_max,
            r ==> table_tags_effect(
                *old(opts),
                *final(opts),
                old(parse_state).notes_view(),
                final(parse_state).notes_view(),
                old(parse_state).first_view(),
                old(parse_state).args_view(),
            ),
            !r ==> final(parse_state).args_view() == old(parse_state).args_view() && *final(opts)
                == *old(opts) && final(parse_state).notes_view() == old(parse_state).notes_view(),
    {
        proof {
            lemma_table_tags_distinct();
        }
        if Self::parse_pair_table("OCONV", &mut opts.slg_oconv, parse_state) {
        } else if Self::parse_string_table("MAP", &mut opts.slg_map, parse_state) {
        } else if Self::parse_string_table("BREAK", &mut opts.slg_break, parse_state) {
        } else {
            return false;
        }
        true
    }

    /// Parses the flag-declaring tags, on the flag map alone.
    #[verifier::rlimit(100)]
    #[verifier::spinoff_prover]
    pub fn parse_aff_flagdecls(tbl: &mut FlagTable, parse_state: &mut ParseState) -> (r: bool)
        ensures
            final(parse_state).same_line(old(parse_state)),
            final(parse_state).first_view() == old(parse_state).first_view(),
            final(parse_state).pst_first_token is Some,
            r == matched_flagdecl_tag(old(parse_state).first_view()),
            r ==> flagdecl_tags_effect(
                flag_contents(*old(tbl)),
                flag_contents(*final(tbl)),
                old(parse_state).notes_view(),
                final(parse_state).notes_view(),
                old(parse_state).first_view(),
                old(parse_state).args_view(),
            ),
            !r ==> final(parse_state).args_view() == old(parse_state).args_view() && flag_contents(
                *final(tbl),
            ) == flag_contents(*old(tbl)) && final(parse_state).notes_view() == old(
                parse_state,
            ).notes_view(),
    {
        proof {
            lemma_flagdecl_tags_distinct();
        }
        if flag_decl_tag(tbl, "COMPOUNDFLAG", FlagType::FlagCompound, parse_state) {
        } else if flag_decl_tag(tbl, "COMPOUNDBEGIN", FlagType::FlagCompBegin, parse_state) {
        } else if flag_decl_tag(tbl, "COMPOUNDLAST", FlagType::FlagCompLast, parse_state) {
        } else if flag_decl_tag(tbl, "COMPOUNDMIDDLE", FlagType::FlagCompMid, parse_state) {
        } else if flag_decl_tag(tbl, "COMPOUNDEND", FlagType::FlagCompEnd, parse_state) {
        } else if flag_decl_tag(tbl, "ONLYINCOMPOUND", FlagType::FlagOnlyComp, parse_state) {
        } else if flag_decl_tag(tbl, "COMPOUNDPERMITFLAG", FlagType::FlagCompPermit, parse_state) {
        } else if flag_decl_tag(tbl, "COMPOUNDFORBIDFLAG", FlagType::FlagCompForbid, parse_state) {
        } else if flag_decl_tag(tbl, "COMPOUNDROOT", FlagType::FlagCompRoot, parse_state) {
        } else if flag_decl_tag(tbl, "NEEDAFFIX", FlagType::FlagNeedAffix, parse_state) {
        } else if flag_decl_tag(tbl, "CIRCUMFIX", FlagType::FlagCircumfix, parse_state) {
        } else if flag_decl_tag(tbl, "FORBIDDENWORD", FlagType::FlagForbidden, parse_state) {
        } else if flag_decl_tag(tbl, "SUBSTANDARD", FlagType::FlagSubstandard, parse_state) {
        } else if flag_decl_tag(tbl, "NOSUGGEST", FlagType::FlagNoSuggest, parse_state) {
        } else if flag_decl_tag(tbl, "KEEPCASE", FlagType::FlagKeepCase, parse_state) {
        } else if flag_decl_tag(tbl, "FORCEUCASE", FlagType::FlagForceUcase, parse_state) {
        } else if flag_decl_tag(tbl, "WARN", FlagType::FlagWarn, parse_state) {
        } else if flag_decl_tag(tbl, "LEMMA_PRESENT", FlagType::FlagLemma, parse_state) {
        } else {
            return false;
        }
        true
    }
}

/// Everything `parse_aff_line` promises of the language and the notes,
/// bundled for callers that dispatch whole lines: the word list
/// survives, well-formedness is kept, and each recognized tag family
/// has its exact effect, with unknown tags tallied.
pub open spec fn aff_line_post(
    pre: &Lang,
    post: &Lang,
    pre_notes: Seq<(Seq<char>, Option<Seq<char>>)>,
    post_notes: Seq<(Seq<char>, Option<Seq<char>>)>,
    tok0: Seq<char>,
    args: Seq<Seq<char>>,
) -> bool {
    &&& post.same_dict(pre)
    &&& post.same_runtime(pre)
    &&& (pre.budget_wf() ==> post.budget_wf())
    &&& (pre.wf() ==> post.wf())
    &&& (tok0 == "FLAG"@ ==> post.frame_fmt(pre) && ({
        if args.len() == 0 {
            post.slg_flag == pre.slg_flag && post_notes == pre_notes.push(
                ("No value for FLAG element"@, None),
            )
        } else if args[0] == "UTF-8"@ {
            post.slg_flag == FlagFormat::SingleUni && post_notes == pre_notes
        } else if args[0] == "long"@ {
            post.slg_flag == FlagFormat::DoubleChar && post_notes == pre_notes
        } else if args[0] == "num"@ {
            post.slg_flag == FlagFormat::Numeric && post_notes == pre_notes
        } else {
            post.slg_flag == pre.slg_flag && post_notes == pre_notes.push(
                ("Unknown FLAG value, allowed are 'UTF-8', 'long', and 'num'"@, None),
            )
        }
    }))
    &&& (matched_string_tag(tok0) ==> post.frame_opts_code(pre) && string_tags_effect(
        pre.opts,
        post.opts,
        pre.slg_code@,
        post.slg_code@,
        pre_notes,
        post_notes,
        tok0,
        args,
    ))
    &&& (matched_switch_tag(tok0) ==> post.same_but_opts(pre) && switch_tags_effect(
        pre.opts,
        post.opts,
        pre_notes,
        post_notes,
        tok0,
        args,
    ))
    &&& (matched_number_tag(tok0) ==> post.same_but_opts(pre) && number_tags_effect(
        pre.opts,
        post.opts,
        pre_notes,
        post_notes,
        tok0,
        args,
    ))
    &&& (matched_table_tag(tok0) ==> post.same_but_opts(pre) && table_tags_effect(
        pre.opts,
        post.opts,
        pre_notes,
        post_notes,
        tok0,
        args,
    ))
    &&& (matched_flagdecl_tag(tok0) ==> post.frame_flagmap(pre) && flagdecl_tags_effect(
        pre.flags_of(),
        post.flags_of(),
        pre_notes,
        post_notes,
        tok0,
        args,
    ))
    &&& (tok0 == "COMPOUNDRULE"@ ==> post.frame_comprule(pre) && comprule_effect(
        pre.slg_compoundrule_parsed,
        post.slg_compoundrule_parsed,
        crate::text::str_views(pre.slg_compoundrule@),
        crate::text::str_views(post.slg_compoundrule@),
        pre.flags_of(),
        post.flags_of(),
        pre.slg_flag,
        pre_notes,
        post_notes,
        args,
    ))
    &&& (tok0 == "PFX"@ ==> post.frame_affix(pre) && affix_effect(
        pre,
        post,
        pre_notes,
        post_notes,
        args,
        true,
    ))
    &&& (tok0 == "SFX"@ ==> post.frame_affix(pre) && affix_effect(
        pre,
        post,
        pre_notes,
        post_notes,
        args,
        false,
    ))
    &&& (tok0 == "AF"@ ==> post.frame_af(pre) && af_effect(
        pre.slg_af_parsed,
        post.slg_af_parsed,
        crate::text::str_views(pre.slg_af@),
        crate::text::str_views(post.slg_af@),
        pre.flags_of(),
        post.flags_of(),
        pre_notes,
        post_notes,
        args,
    ))
    &&& (!aff_line_matched(tok0) ==> post.frame_tags(pre) && post.slg_noparse_tags.entries()
        == crate::store::tally_bump(pre.slg_noparse_tags.entries(), tok0) && post_notes
        == pre_notes)
}

impl Lang {
    /// Parses the value of a `FLAG` line: `UTF-8`, `long` or `num`
    /// select the format; anything else draws one complaint.
    #[verifier::rlimit(100)]
    #[verifier::spinoff_prover]
    pub fn parse_flag_format(&mut self, parse_state: &mut ParseState)
        ensures
            final(parse_state).same_line(old(parse_state)),
            final(self).frame_fmt(old(self)),
            ({
                let args = old(parse_state).args_view();
                let pre_notes = old(parse_state).notes_view();
                let post_notes = final(parse_state).notes_view();
                if args.len() == 0 {
                    final(self).slg_flag == old(self).slg_flag && post_notes == pre_notes.push(
                        ("No value for FLAG element"@, None),
                    )
                } else if args[0] == "UTF-8"@ {
                    final(self).slg_flag == FlagFormat::SingleUni && post_notes == pre_notes
                } else if args[0] == "long"@ {
                    final(self).slg_flag == FlagFormat::DoubleChar && post_notes == pre_notes
                } else if args[0] == "num"@ {
                    final(self).slg_flag == FlagFormat::Numeric && post_notes == pre_notes
                } else {
                    final(self).slg_flag == old(self).slg_flag && post_notes == pre_notes.push(
                        ("Unknown FLAG value, allowed are 'UTF-8', 'long', and 'num'"@, None),
                    )
                }
            }),
    {
        let _tag = parse_state.get_first_token();
        match parse_state.get_next_token() {
            Some(flag_value) => {
                if crate::text::str_eq(flag_value.as_str(), "UTF-8") {
                    self.slg_flag = FlagFormat::SingleUni;
                } else if crate::text::str_eq(flag_value.as_str(), "long") {
                    self.slg_flag = FlagFormat::DoubleChar;
                } else if crate::text::str_eq(flag_value.as_str(), "num") {
                    self.slg_flag = FlagFormat::Numeric;
                } else {
                    parse_state.add_note(
                        "Unknown FLAG value, allowed are 'UTF-8', 'long', and 'num'",
                    );
                }
            },
            None => {
                parse_state.add_note("No value for FLAG element");
            },
        }
    }

    /// Parses one `COMPOUNDRULE` line, as `comprule_effect` lays out.
    #[verifier::rlimit(100)]
    #[verifier::spinoff_prover]
    pub fn parse_comp_rule_line(&mut self, parse_state: &mut ParseState)
        ensures
            final(parse_state).same_line(old(parse_state)),
            final(self).frame_comprule(old(self)),
            comprule_effect(
                old(self).slg_compoundrule_parsed,
                final(self).slg_compoundrule_parsed,
                crate::text::str_views(old(self).slg_compoundrule@),
                crate::text::str_views(final(self).slg_compoundrule@),
                old(self).flags_of(),
                final(self).flags_of(),
                old(self).slg_flag,
                old(parse_state).notes_view(),
                final(parse_state).notes_view(),
                old(parse_state).args_view(),
            ),
    {
        let _tag = parse_state.get_first_token();
        let tokens = parse_state.collect_rest();
        proof {
            if tokens@.len() > 0 {
                assert(crate::text::str_views(tokens@)[0] == tokens@[0]@);
            }
        }
        if !self.slg_compoundrule_parsed {
            // the header's count is only a capacity hint
            self.slg_compoundrule_parsed = true;
        } else {
            if tokens.len() != 1 {
                parse_state.add_note("Expected one argument for COMPOUNDRULE");
            }
            if tokens.len() >= 1 {
                let comp_rule_value = tokens[0].clone();
                let rule_ix = clamp_u32(self.slg_compoundrule.len());
                let rule_flags = self.parse_compoundrule_flags(comp_rule_value.as_str());
                let ghost goal = insert_all(
                    old(self).flags_of(),
                    crate::text::str_views(rule_flags@),
                    (FlagType::FlagCompRule, rule_ix),
                );
                let mut fi: usize = 0;
                proof {
                    assert(crate::text::str_views(rule_flags@).subrange(
                        0,
                        rule_flags@.len() as int,
                    ) =~= crate::text::str_views(rule_flags@));
                }
                while fi < rule_flags.len()
                    invariant
                        fi <= rule_flags@.len(),
                        goal == insert_all(
                            self.flags_of(),
                            crate::text::str_views(rule_flags@).subrange(
                                fi as int,
                                rule_flags@.len() as int,
                            ),
                            (FlagType::FlagCompRule, rule_ix),
                        ),
                        self.frame_comprule(old(self)),
                        self.slg_compoundrule@ == old(self).slg_compoundrule@,
                        self.slg_compoundrule_parsed == old(self).slg_compoundrule_parsed,
                    decreases rule_flags@.len() - fi,
                {
                    let ghost rem = crate::text::str_views(rule_flags@).subrange(
                        fi as int,
                        rule_flags@.len() as int,
                    );
                    proof {
                        assert(rem.drop_first() =~= crate::text::str_views(rule_flags@).subrange(
                            fi + 1 as int,
                            rule_flags@.len() as int,
                        ));
                        assert(rem[0] == rule_flags@[fi as int]@);
                    }
                    self.slg_flag_hash.insert(
                        rule_flags[fi].clone(),
                        (FlagType::FlagCompRule, rule_ix),
                    );
                    fi += 1;
                }
                proof {
                    assert(crate::text::str_views(rule_flags@).subrange(
                        rule_flags@.len() as int,
                        rule_flags@.len() as int,
                    ) =~= Seq::<Seq<char>>::empty());
                }
                let ghost before_rules = crate::text::str_views(self.slg_compoundrule@);
                self.slg_compoundrule.push(comp_rule_value);
                proof {
                    assert(crate::text::str_views(self.slg_compoundrule@) =~= before_rules.push(
                        tokens@[0]@,
                    ));
                }
            }
        }
    }

    /// Parses one `AF` alias line, as `af_effect` lays out.
    #[verifier::rlimit(100)]
    #[verifier::spinoff_prover]
    pub fn parse_af_line(&mut self, parse_state: &mut ParseState)
        ensures
            final(parse_state).same_line(old(parse_state)),
            final(self).frame_af(old(self)),
            af_effect(
                old(self).slg_af_parsed,
                final(self).slg_af_parsed,
                crate::text::str_views(old(self).slg_af@),
                crate::text::str_views(final(self).slg_af@),
                old(self).flags_of(),
                final(self).flags_of(),
                old(parse_state).notes_view(),
                final(parse_state).notes_view(),
                old(parse_state).args_view(),
            ),
    {
        let _tag = parse_state.get_first_token();
        let tokens = parse_state.collect_rest();
        proof {
            if tokens@.len() > 0 {
                assert(crate::text::str_views(tokens@)[0] == tokens@[0]@);
            }
            if tokens@.len() > 1 {
                assert(crate::text::str_views(tokens@)[1] == tokens@[1]@);
                assert(old(parse_state).args_view().skip(1)[0] == tokens@[1]@);
            }
        }
        if !self.slg_af_parsed {
            // the header's count is only a capacity hint
            self.slg_af_parsed = true;
        } else {
            if tokens.len() >= 1 {
                let ghost before_af = crate::text::str_views(self.slg_af@);
                self.slg_af.push(tokens[0].clone());
                proof {
                    assert(crate::text::str_views(self.slg_af@) =~= before_af.push(tokens@[0]@));
                }
                let af_number = crate::text::u64_string(self.slg_af.len() as u64);
                let af_index = clamp_u32(self.slg_af.len() - 1);
                self.slg_flag_hash.insert(af_number, (FlagType::FlagAf, af_index));
                if tokens.len() >= 2 && !token_starts_hash(&tokens[1]) {
                    parse_state.add_note("Superfluous arguments after AF element");
                }
            } else {
                parse_state.add_note("Expected one argument for AF");
            }
        }
    }

    /// Parses one line of the `.aff` file by its first token: each
    /// recognized tag's exact effect on the language, and the tallying
    /// of unknown tags. The `SET` tag is handled by the caller before
    /// this runs.
    #[verifier::rlimit(100)]
    #[verifier::spinoff_prover]
    pub fn parse_aff_line(&mut self, parse_state: &mut ParseState)
        ensures
            final(parse_state).same_line(old(parse_state)),
            final(self).same_dict(old(self)),
            final(self).same_runtime(old(self)),
            old(self).budget_wf() ==> final(self).budget_wf(),
            old(self).wf() ==> final(self).wf(),
            old(parse_state).first_view() == "FLAG"@ ==> final(self).frame_fmt(old(self)) && ({
                let args = old(parse_state).args_view();
                let pre_notes = old(parse_state).notes_view();
                let post_notes = final(parse_state).notes_view();
                if args.len() == 0 {
                    final(self).slg_flag == old(self).slg_flag && post_notes == pre_notes.push(
                        ("No value for FLAG element"@, None),
                    )
                } else if args[0] == "UTF-8"@ {
                    final(self).slg_flag == FlagFormat::SingleUni && post_notes == pre_notes
                } else if args[0] == "long"@ {
                    final(self).slg_flag == FlagFormat::DoubleChar && post_notes == pre_notes
                } else if args[0] == "num"@ {
                    final(self).slg_flag == FlagFormat::Numeric && post_notes == pre_notes
                } else {
                    final(self).slg_flag == old(self).slg_flag && post_notes == pre_notes.push(
                        ("Unknown FLAG value, allowed are 'UTF-8', 'long', and 'num'"@, None),
                    )
                }
            }),
            matched_string_tag(old(parse_state).first_view()) ==> final(self).frame_opts_code(
                old(self),
            ) && string_tags_effect(
                old(self).opts,
                final(self).opts,
                old(self).slg_code@,
                final(self).slg_code@,
                old(parse_state).notes_view(),
                final(parse_state).notes_view(),
                old(parse_state).first_view(),
                old(parse_state).args_view(),
            ),
            matched_switch_tag(old(parse_state).first_view()) ==> final(self).same_but_opts(
                old(self),
            ) && switch_tags_effect(
                old(self).opts,
                final(self).opts,
                old(parse_state).notes_view(),
                final(parse_state).notes_view(),
                old(parse_state).first_view(),
                old(parse_state).args_view(),
            ),
            matched_number_tag(old(parse_state).first_view()) ==> final(self).same_but_opts(
                old(self),
            ) && number_tags_effect(
                old(self).opts,
                final(self).opts,
                old(parse_state).notes_view(),
                final(parse_state).notes_view(),
                old(parse_state).first_view(),
                old(parse_state).args_view(),
            ),
            matched_table_tag(old(parse_state).first_view()) ==> final(self).same_but_opts(
                old(self),
            ) && table_tags_effect(
                old(self).opts,
                final(self).opts,
                old(parse_state).notes_view(),
                final(parse_state).notes_view(),
                old(parse_state).first_view(),
                old(parse_state).args_view(),
            ),
            matched_flagdecl_tag(old(parse_state).first_view()) ==> final(self).frame_flagmap(
                old(self),
            ) && flagdecl_tags_effect(
                old(self).flags_of(),
                final(self).flags_of(),
                old(parse_state).notes_view(),
                final(parse_state).notes_view(),
                old(parse_state).first_view(),
                old(parse_state).args_view(),
            ),
            old(parse_state).first_view() == "COMPOUNDRULE"@ ==> final(self).frame_comprule(
                old(self),
            ) && comprule_effect(
                old(self).slg_compoundrule_parsed,
                final(self).slg_compoundrule_parsed,
                crate::text::str_views(old(self).slg_compoundrule@),
                crate::text::str_views(final(self).slg_compoundrule@),
                old(self).flags_of(),
                final(self).flags_of(),
                old(self).slg_flag,
                old(parse_state).notes_view(),
                final(parse_state).notes_view(),
                old(parse_state).args_view(),
            ),
            old(parse_state).first_view() == "PFX"@ ==> final(self).frame_affix(old(self))
                && affix_effect(
                old(self),
                final(self),
                old(parse_state).notes_view(),
                final(parse_state).notes_view(),
                old(parse_state).args_view(),
                true,
            ),
            old(parse_state).first_view() == "SFX"@ ==> final(self).frame_affix(old(self))
                && affix_effect(
                old(self),
                final(self),
                old(parse_state).notes_view(),
                final(parse_state).notes_view(),
                old(parse_state).args_view(),
                false,
            ),
            old(parse_state).first_view() == "AF"@ ==> final(self).frame_af(old(self))
                && af_effect(
                old(self).slg_af_parsed,
                final(self).slg_af_parsed,
                crate::text::str_views(old(self).slg_af@),
                crate::text::str_views(final(self).slg_af@),
                old(self).flags_of(),
                final(self).flags_of(),
                old(parse_state).notes_view(),
                final(parse_state).notes_view(),
                old(parse_state).args_view(),
            ),
            !aff_line_matched(old(parse_state).first_view()) ==> final(self).frame_tags(old(self))
                && final(self).slg_noparse_tags.entries() == crate::store::tally_bump(
                old(self).slg_noparse_tags.entries(),
                old(parse_state).first_view(),
            ) && final(parse_state).notes_view() == old(parse_state).notes_view(),
    {
        let ft = parse_state.get_first_token();
        if crate::text::str_eq(ft.as_str(), "FLAG") {
            proof {
                lemma_flag_tag_only(ft@);
            }
            self.parse_flag_format(parse_state);
        } else if Self::parse_aff_strings_head(&mut self.opts, &mut self.slg_code, parse_state) {
            proof {
                lemma_string_tag_only(ft@);
            }
        } else if Self::parse_aff_strings_tail(&mut self.opts, parse_state) {
            proof {
                lemma_string_tag_only(ft@);
            }
        } else if Self::parse_aff_switches_head(&mut self.opts, parse_state) {
            proof {
                lemma_switch_tag_only(ft@);
            }
        } else if Self::parse_aff_switches_mid(&mut self.opts, parse_state) {
            proof {
                lemma_switch_tag_only(ft@);
            }
        } else if Self::parse_aff_switches_tail(&mut self.opts, parse_state) {
            proof {
                lemma_switch_tag_only(ft@);
            }
        } else if Self::parse_aff_numbers_head(&mut self.opts, parse_state) {
            proof {
                lemma_number_tag_only(ft@);
            }
        } else if Self::parse_aff_numbers_tail(&mut self.opts, parse_state) {
            proof {
                lemma_number_tag_only(ft@);
            }
        } else if Self::parse_aff_tables_head(&mut self.opts, parse_state) {
            proof {
                lemma_table_tag_only(ft@);
            }
        } else if Self::parse_aff_tables_tail(&mut self.opts, parse_state) {
            proof {
                lemma_table_tag_only(ft@);
            }
        } else if crate::text::str_eq(ft.as_str(), "COMPOUNDRULE") {
            proof {
                lemma_comprule_tag_only(ft@);
            }
            self.parse_comp_rule_line(parse_state);
        } else if Self::parse_aff_flagdecls(&mut self.slg_flag_hash, parse_state) {
            proof {
                lemma_flagdecl_tag_only(ft@);
            }
        } else if crate::text::str_eq(ft.as_str(), "PFX") {
            proof {
                lemma_inline_tags_distinct();
            }
            self.parse_affix(parse_state, true);
        } else if crate::text::str_eq(ft.as_str(), "SFX") {
            proof {
                lemma_inline_tags_distinct();
            }
            self.parse_affix(parse_state, false);
        } else if crate::text::str_eq(ft.as_str(), "AF") {
            self.parse_af_line(parse_state);
        } else {
            self.slg_noparse_tags.bump(&ft);
        }
    }
}

} // verus!
