//! The per-line dispatch of a dictionary-definition file: which parser
//! one line goes to, under which section mode the next line is read,
//! and the bookkeeping of the inline `NEA` sections — opening them,
//! closing them on a brace, collecting the good and bad test words, and
//! settling the bad-grammar verdict by comparing note counts. The
//! caller keeps only the loop that reads lines and hands them in.

use vstd::prelude::*;

use crate::dicline::{dic_count_effect, dic_line_effect};
use crate::lang::{aff_line_post, Lang};
use crate::parsestate::ParseState;
use crate::text::str_views;
use vstd::string::StringExecFns;

verus! {

/// What kind of content the current line is read as.
#[derive(PartialEq, Eq, Structural, Clone, Copy, Debug)]
pub enum ParseMode {
    /// the line starts with a tag, as in the `.aff` file
    Toplevel,
    /// the line carries word(s) of the `.dic` file, or the initial count
    WordDic,
    /// grammar descriptions expected to draw parser notes
    TestBadGram,
    /// words expected to pass the spelling rules
    TestGoodWords,
    /// words expected to fail the spelling rules
    TestBadWords,
}

/// The character-set names the `SET` tag accepts.
pub open spec fn valid_set_name(v: Seq<char>) -> bool {
    ||| v == "UTF-8"@
    ||| v == "ISO8859-1"@
    ||| v == "ISO8859-2"@
    ||| v == "ISO8859-7"@
    ||| v == "ISO8859-13"@
    ||| v == "ISO8859-15"@
}

/// The notes a `SET` line draws: a missing value or an unsupported
/// name, one complaint each.
pub open spec fn charset_notes(
    pre_notes: Seq<(Seq<char>, Option<Seq<char>>)>,
    args: Seq<Seq<char>>,
) -> Seq<(Seq<char>, Option<Seq<char>>)> {
    if args.len() == 0 {
        pre_notes.push(("No value for SET element"@, None))
    } else if valid_set_name(args[0]) {
        pre_notes
    } else {
        pre_notes.push(("SET element *limitation*: this encoding is not yet implemented"@, None))
    }
}

/// The character set after a `SET` line.
pub open spec fn charset_after(pre_set: Seq<char>, args: Seq<Seq<char>>) -> Seq<char> {
    if args.len() > 0 && valid_set_name(args[0]) {
        args[0]
    } else {
        pre_set
    }
}

/// The mode a `NEA` section header opens.
pub open spec fn nea_mode(args: Seq<Seq<char>>) -> ParseMode {
    if args.len() == 0 {
        ParseMode::Toplevel
    } else if args[0] == "DIC"@ {
        ParseMode::WordDic
    } else if args[0] == "TESTBADGRAM"@ {
        ParseMode::TestBadGram
    } else if args[0] == "TESTGOODWORDS"@ {
        ParseMode::TestGoodWords
    } else if args[0] == "TESTBADWORDS"@ {
        ParseMode::TestBadWords
    } else {
        ParseMode::Toplevel
    }
}

/// The notes a `NEA` line draws: an unknown keyword, and for a section
/// that did open, a missing or wrong opening brace.
pub open spec fn nea_notes(
    pre_notes: Seq<(Seq<char>, Option<Seq<char>>)>,
    args: Seq<Seq<char>>,
) -> Seq<(Seq<char>, Option<Seq<char>>)> {
    let keyword_checked = if args.len() > 0 && nea_mode(args) == ParseMode::Toplevel {
        pre_notes.push(("Unknown keyword after NEA tag"@, None))
    } else {
        pre_notes
    };
    if nea_mode(args) != ParseMode::Toplevel {
        if args.len() >= 2 {
            if args[1] != "{"@ {
                keyword_checked.push(("Expected open brace '{' but found something else"@, None))
            } else {
                keyword_checked
            }
        } else {
            keyword_checked.push(("Expected open brace '{' but found nothing"@, None))
        }
    } else {
        keyword_checked
    }
}

/// The mode the next line is read under.
pub open spec fn next_mode(
    pre: &Lang,
    orig_mode: ParseMode,
    mode: ParseMode,
    tok0: Seq<char>,
    args: Seq<Seq<char>>,
) -> ParseMode {
    if tok0 == "}"@ && pre.lng_mode_until_brace {
        ParseMode::Toplevel
    } else if (mode == ParseMode::Toplevel || mode == ParseMode::TestBadGram) && tok0 == "NEA"@ {
        nea_mode(args)
    } else {
        mode
    }
}

/// A sum clipped into the `usize` range.
pub open spec fn usize_sat(a: int, b: int) -> int {
    if a + b <= usize::MAX {
        a + b
    } else {
        usize::MAX as int
    }
}

/// The two tags the reader itself handles are distinct.
proof fn lemma_set_nea_distinct()
    ensures
        "SET"@ != "NEA"@,
{
    reveal_strlit("SET");
    reveal_strlit("NEA");
    assert("SET"@[0] == 'S');
    assert("NEA"@[0] == 'N');
}

impl Lang {
    /// The fields the reader does not own are untouched: everything but
    /// the section bookkeeping, the test-word lists and the note count.
    pub open spec fn same_but_reader(&self, o: &Lang) -> bool {
        &&& self.slg_code@ == o.slg_code@
        &&& self.slg_set@ == o.slg_set@
        &&& self.slg_flag == o.slg_flag
        &&& self.opts == o.opts
        &&& self.lng_mode_flags == o.lng_mode_flags
        &&& self.lng_parse_status == o.lng_parse_status
        &&& self.lng_parsed_line@ == o.lng_parsed_line@
        &&& self.lng_passed_count == o.lng_passed_count
        &&& self.lng_failed_count == o.lng_failed_count
        &&& self.same_affix(o)
        &&& self.same_flagdecl(o)
        &&& self.same_dict(o)
        &&& self.same_tallies(o)
    }

    /// Parses a `SET` line: a recognized character-set name replaces
    /// `slg_set`; a missing or unsupported name draws one complaint.
    pub fn parse_charset(&mut self, parse_state: &mut ParseState)
        ensures
            final(parse_state).same_line(old(parse_state)),
            final(self).slg_code@ == old(self).slg_code@,
            final(self).slg_flag == old(self).slg_flag,
            final(self).opts == old(self).opts,
            final(self).same_runtime(old(self)),
            final(self).same_affix(old(self)),
            final(self).same_flagdecl(old(self)),
            final(self).same_dict(old(self)),
            final(self).same_tallies(old(self)),
            final(self).slg_set@ == charset_after(old(self).slg_set@, old(parse_state).args_view()),
            final(parse_state).notes_view() == charset_notes(
                old(parse_state).notes_view(),
                old(parse_state).args_view(),
            ),
            final(parse_state).first_view() == old(parse_state).first_view(),
            final(parse_state).pst_first_token is Some,
    {
        let _tag = parse_state.get_first_token();
        match parse_state.get_next_token() {
            Some(set_value) => {
                let known = crate::text::str_eq(set_value.as_str(), "UTF-8") || crate::text::str_eq(
                    set_value.as_str(),
                    "ISO8859-1",
                ) || crate::text::str_eq(set_value.as_str(), "ISO8859-2") || crate::text::str_eq(
                    set_value.as_str(),
                    "ISO8859-7",
                ) || crate::text::str_eq(set_value.as_str(), "ISO8859-13") || crate::text::str_eq(
                    set_value.as_str(),
                    "ISO8859-15",
                );
                if known {
                    self.slg_set = set_value;
                } else {
                    parse_state.add_note(
                        "SET element *limitation*: this encoding is not yet implemented",
                    );
                }
            },
            None => {
                parse_state.add_note("No value for SET element");
            },
        }
    }

    /// Parses a `NEA` section header: the keyword after the tag picks
    /// the section mode, a bad-grammar section records the note count it
    /// starts from, and a section that opens expects an opening brace.
    pub fn parse_nea_token(&mut self, parse_state: &mut ParseState) -> (r: ParseMode)
        ensures
            final(parse_state).same_line(old(parse_state)),
            final(self).same_but_reader(old(self)),
            r == nea_mode(old(parse_state).args_view()),
            final(self).lng_mode_until_brace == if r != ParseMode::Toplevel {
                true
            } else {
                old(self).lng_mode_until_brace
            },
            final(self).lng_testing_bad_gram == (old(self).lng_testing_bad_gram || r
                == ParseMode::TestBadGram),
            final(self).lng_start_note_count == if r == ParseMode::TestBadGram {
                old(self).lng_total_notes
            } else {
                old(self).lng_start_note_count
            },
            final(self).lng_total_notes == old(self).lng_total_notes,
            final(self).lng_test_bad_gram_passed == old(self).lng_test_bad_gram_passed,
            final(self).lng_pass_expected@ == old(self).lng_pass_expected@,
            final(self).lng_fail_expected@ == old(self).lng_fail_expected@,
            final(parse_state).notes_view() == nea_notes(
                old(parse_state).notes_view(),
                old(parse_state).args_view(),
            ),
    {
        let _tag = parse_state.get_first_token();
        let mut nea_next = ParseMode::Toplevel;
        match parse_state.get_next_token() {
            Some(nea2) => {
                if crate::text::str_eq(nea2.as_str(), "DIC") {
                    nea_next = ParseMode::WordDic;
                } else if crate::text::str_eq(nea2.as_str(), "TESTBADGRAM") {
                    nea_next = ParseMode::TestBadGram;
                    self.lng_start_note_count = self.lng_total_notes;
                    self.lng_testing_bad_gram = true;
                } else if crate::text::str_eq(nea2.as_str(), "TESTGOODWORDS") {
                    nea_next = ParseMode::TestGoodWords;
                } else if crate::text::str_eq(nea2.as_str(), "TESTBADWORDS") {
                    nea_next = ParseMode::TestBadWords;
                } else {
                    parse_state.add_note("Unknown keyword after NEA tag");
                }
            },
            None => {},
        }
        if !matches!(nea_next, ParseMode::Toplevel) {
            self.lng_mode_until_brace = true;
            match parse_state.get_next_token() {
                Some(nea3) => {
                    if !crate::text::str_eq(nea3.as_str(), "{") {
                        parse_state.add_note("Expected open brace '{' but found something else");
                    }
                },
                None => {
                    parse_state.add_note("Expected open brace '{' but found nothing");
                },
            }
        }
        nea_next
    }

    /// One line of a dictionary-definition file: dispatches it by mode
    /// and first token, and returns the mode the next line is read
    /// under. A `}` closes an open section (settling the bad-grammar
    /// verdict from the note counts), `NEA` opens one, `SET` updates the
    /// character set (and the line is still handed to the tag parser,
    /// which tallies it), a word-list line goes to the count or word
    /// parser, test-section lines collect their first token, and any
    /// other top-level line goes to the tag parser. The line's notes are
    /// counted into `lng_total_notes` at the end.
    #[verifier::rlimit(100)]
    #[verifier::spinoff_prover]
    pub fn parse_text_line(
        &mut self,
        orig_mode: ParseMode,
        mode: ParseMode,
        parse_state: &mut ParseState,
        reporting_dupl: bool,
        reporting_other: bool,
    ) -> (r: ParseMode)
        ensures
            final(parse_state).same_line(old(parse_state)),
            r == next_mode(
                old(self),
                orig_mode,
                mode,
                old(parse_state).first_view(),
                old(parse_state).args_view(),
            ),
            final(self).lng_total_notes == old(self).lng_total_notes,
            old(self).wf() ==> final(self).wf(),
            ({
                let tok0 = old(parse_state).first_view();
                let args = old(parse_state).args_view();
                let closing = tok0 == "}"@ && old(self).lng_mode_until_brace;
                let topish = mode == ParseMode::Toplevel || mode == ParseMode::TestBadGram;
                &&& (closing ==> final(self).same_but_reader(old(self)) && final(self).lng_mode_until_brace == false && final(self).lng_test_bad_gram_passed == (old(self).lng_test_bad_gram_passed && !(mode == ParseMode::TestBadGram && old(self).lng_start_note_count == old(self).lng_total_notes)) && final(self).lng_pass_expected@ == old(self).lng_pass_expected@ && final(self).lng_fail_expected@ == old(self).lng_fail_expected@ && final(self).lng_testing_bad_gram == old(self).lng_testing_bad_gram && final(parse_state).notes_view() == old(parse_state).notes_view())
                &&& (!closing && topish && tok0 == "NEA"@ ==> final(self).same_but_reader(
                    old(self),
                ) && final(self).lng_test_bad_gram_passed == old(self).lng_test_bad_gram_passed
                    && final(self).lng_pass_expected@ == old(self).lng_pass_expected@ && final(self).lng_fail_expected@ == old(self).lng_fail_expected@ && final(self).lng_mode_until_brace == (if r != ParseMode::Toplevel {
                    true
                } else {
                    old(self).lng_mode_until_brace
                }) && final(self).lng_testing_bad_gram == (old(self).lng_testing_bad_gram || r
                    == ParseMode::TestBadGram) && final(self).lng_start_note_count == (if r
                    == ParseMode::TestBadGram {
                    old(self).lng_total_notes
                } else {
                    old(self).lng_start_note_count
                }) && final(parse_state).notes_view() == nea_notes(
                    old(parse_state).notes_view(),
                    args,
                ))
                &&& (!closing && topish && tok0 == "SET"@ ==> final(self).slg_set@
                    == charset_after(old(self).slg_set@, args) && final(self).slg_noparse_tags.entries() == crate::store::tally_bump(
                    old(self).slg_noparse_tags.entries(),
                    tok0,
                ) && final(self).same_dict(old(self)) && final(self).same_affix(old(self))
                    && final(self).same_flagdecl(old(self)) && final(parse_state).notes_view()
                    == charset_notes(old(parse_state).notes_view(), args))
                &&& (!closing && topish && tok0 != "NEA"@ && tok0 != "SET"@ ==> aff_line_post(
                    old(self),
                    final(self),
                    old(parse_state).notes_view(),
                    final(parse_state).notes_view(),
                    tok0,
                    args,
                ) && final(self).same_reader_fields(old(self)))
                &&& (!closing && !topish && orig_mode == ParseMode::WordDic && old(self).slg_dic_count == 0 ==> dic_count_effect(
                    old(self),
                    final(self),
                    old(parse_state).notes_view(),
                    final(parse_state).notes_view(),
                    tok0,
                    args,
                ) && final(self).same_reader_fields(old(self)))
                &&& (!closing && !topish && !(orig_mode == ParseMode::WordDic && old(self).slg_dic_count == 0) && mode == ParseMode::WordDic ==> dic_line_effect(
                    old(self),
                    final(self),
                    old(parse_state).pst_line_no,
                    old(self).lng_parsed_line@,
                    reporting_dupl,
                    reporting_other,
                    old(parse_state).notes_view(),
                    final(parse_state).notes_view(),
                ) && final(self).same_reader_fields(old(self)))
                &&& (!closing && mode == ParseMode::TestGoodWords && !(orig_mode
                    == ParseMode::WordDic && old(self).slg_dic_count == 0) ==> final(self).same_but_reader(
                    old(self),
                ) && str_views(final(self).lng_pass_expected@) == str_views(
                    old(self).lng_pass_expected@,
                ).push(tok0) && final(self).lng_fail_expected@ == old(self).lng_fail_expected@
                    && final(parse_state).notes_view() == old(parse_state).notes_view())
                &&& (!closing && mode == ParseMode::TestBadWords && !(orig_mode
                    == ParseMode::WordDic && old(self).slg_dic_count == 0) ==> final(self).same_but_reader(
                    old(self),
                ) && str_views(final(self).lng_fail_expected@) == str_views(
                    old(self).lng_fail_expected@,
                ).push(tok0) && final(self).lng_pass_expected@ == old(self).lng_pass_expected@
                    && final(parse_state).notes_view() == old(parse_state).notes_view())
            }),
    {
        let ghost tok0 = old(parse_state).first_view();
        let ghost args0 = old(parse_state).args_view();
        let ft = parse_state.get_first_token();
        proof {
            lemma_set_nea_distinct();
        }
        let mut next: ParseMode = mode;
        if crate::text::str_eq(ft.as_str(), "}") && self.lng_mode_until_brace {
            proof {
                assert(next_mode(old(self), orig_mode, mode, tok0, args0) is Toplevel);
            }
            if matches!(mode, ParseMode::TestBadGram) && self.lng_start_note_count
                == self.lng_total_notes {
                // the section promised at least one parser note and
                // produced none
                self.lng_test_bad_gram_passed = false;
            }
            self.lng_mode_until_brace = false;
            next = ParseMode::Toplevel;
        } else if matches!(mode, ParseMode::Toplevel | ParseMode::TestBadGram) {
            if crate::text::str_eq(ft.as_str(), "NEA") {
                next = self.parse_nea_token(parse_state);
                proof {
                    assert(next == nea_mode(args0));
                    assert(next_mode(old(self), orig_mode, mode, tok0, args0) == nea_mode(args0));
                }
            } else {
                // a SET line updates the character set and is then still
                // handed to the tag parser, which tallies it as unknown
                if crate::text::str_eq(ft.as_str(), "SET") {
                    self.parse_charset(parse_state);
                }
                proof {
                    if ft@ == "SET"@ {
                        crate::lang::lemma_set_not_aff_tag(ft@);
                    }
                }
                self.parse_aff_line(parse_state);
                proof {
                    assert(next_mode(old(self), orig_mode, mode, tok0, args0) == mode);
                    if tok0 != "SET"@ {
                        assert(aff_line_post(
                            old(self),
                            self,
                            old(parse_state).notes_view(),
                            parse_state.notes_view(),
                            tok0,
                            args0,
                        ));
                    }
                }
            }
        } else if matches!(orig_mode, ParseMode::WordDic) && self.slg_dic_count == 0 {
            self.parse_dictionary_count(parse_state);
            proof {
                assert(next_mode(old(self), orig_mode, mode, tok0, args0) == mode);
                assert(dic_count_effect(
                    old(self),
                    self,
                    old(parse_state).notes_view(),
                    parse_state.notes_view(),
                    tok0,
                    args0,
                ));
            }
        } else if matches!(mode, ParseMode::WordDic) {
            self.parse_dic_line(parse_state, reporting_dupl, reporting_other);
        } else if matches!(mode, ParseMode::TestGoodWords) {
            let ghost before = str_views(self.lng_pass_expected@);
            self.lng_pass_expected.push(ft);
            proof {
                assert(str_views(self.lng_pass_expected@) =~= before.push(
                    old(parse_state).first_view(),
                ));
            }
        } else {
            let ghost before = str_views(self.lng_fail_expected@);
            self.lng_fail_expected.push(ft);
            proof {
                assert(str_views(self.lng_fail_expected@) =~= before.push(
                    old(parse_state).first_view(),
                ));
            }
        }
        next
    }

    /// Counts a finished line's notes into the running total, clipped
    /// at the top of the range; the reading loop calls this after each
    /// line, and the bad-grammar verdict compares against it.
    pub fn count_line_notes(&mut self, parse_state: &ParseState)
        ensures
            final(self).lng_total_notes == usize_sat(
                old(self).lng_total_notes as int,
                parse_state.pst_notes@.len() as int,
            ),
            final(self).same_but_reader(old(self)),
            final(self).lng_mode_until_brace == old(self).lng_mode_until_brace,
            final(self).lng_pass_expected@ == old(self).lng_pass_expected@,
            final(self).lng_fail_expected@ == old(self).lng_fail_expected@,
            final(self).lng_start_note_count == old(self).lng_start_note_count,
            final(self).lng_testing_bad_gram == old(self).lng_testing_bad_gram,
            final(self).lng_test_bad_gram_passed == old(self).lng_test_bad_gram_passed,
    {
        let line_notes = parse_state.get_note_length();
        self.lng_total_notes = if line_notes <= usize::MAX - self.lng_total_notes {
            self.lng_total_notes + line_notes
        } else {
            usize::MAX
        };
    }

    /// The reader-owned bookkeeping other branches leave alone.
    pub open spec fn same_reader_fields(&self, o: &Lang) -> bool {
        &&& self.lng_mode_until_brace == o.lng_mode_until_brace
        &&& self.lng_pass_expected@ == o.lng_pass_expected@
        &&& self.lng_fail_expected@ == o.lng_fail_expected@
        &&& self.lng_start_note_count == o.lng_start_note_count
        &&& self.lng_testing_bad_gram == o.lng_testing_bad_gram
        &&& self.lng_test_bad_gram_passed == o.lng_test_bad_gram_passed
    }
}

} // verus!
