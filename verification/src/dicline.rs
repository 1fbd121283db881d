//! The `.dic` side of loading: the entry count, the `word[/flags]`
//! tokens of a word line, and the keyed store with its duplicate
//! policy — two lines with equal key and equal trimmed source leave a
//! single stored entry, and on any key collision the first entry wins.

use vstd::prelude::*;

use crate::caseclass::{classify_case, classify_key, CharCase};
use crate::dict::{dic_key, DicEntry, FlaggedWord};
use crate::lang::{flags_split, Lang};
use crate::parsestate::ParseState;
use crate::store::{bumped, tally_bump, FlagType};
use crate::text::{
    dec_str, numeral_digits, numeral_val, parses_as_u32, split_ws, str_views, trim_ws_spec,
};
use vstd::string::StrSliceExecFns;
use vstd::string::StringExecFns;

verus! {

/// The index of the last slash of a token, or -1 when it has none.
pub open spec fn last_slash(t: Seq<char>) -> int
    decreases t.len(),
{
    if t.len() == 0 {
        -1
    } else if t.last() == '/' {
        t.len() - 1
    } else {
        last_slash(t.drop_last())
    }
}

/// One `word[/flags]` token of a dictionary line: the last slash starts
/// the flags, unless it opens the token (an error) or is preceded by a
/// backslash (the escape is kept in the stored word).
pub open spec fn token_parse(fmt: crate::lang::FlagFormat, t: Seq<char>) -> Option<
    (Seq<char>, Seq<Seq<char>>),
> {
    let p = last_slash(t);
    if p == -1 {
        Some((t, Seq::empty()))
    } else if p == 0 {
        None
    } else if t[p - 1] == '\\' {
        Some((t, Seq::empty()))
    } else {
        Some((t.subrange(0, p), flags_split(fmt, t.subrange(p + 1, t.len() as int))))
    }
}

/// The classified view of one stored word: its case, its key form and
/// its flags.
pub open spec fn fword_views(ws: Seq<FlaggedWord>) -> Seq<(CharCase, Seq<char>, Seq<Seq<char>>)> {
    ws.map_values(|w: FlaggedWord| (w.flw_char_case, w.flw_word@, crate::dict::flag_views(w.flw_flags@)))
}

/// Folding the tokens of a dictionary line into stored words: a
/// well-formed token is classified and appended; a token opening with a
/// slash draws one complaint instead.
pub open spec fn dic_words_fold(
    fmt: crate::lang::FlagFormat,
    toks: Seq<Seq<char>>,
    ws: Seq<(CharCase, Seq<char>, Seq<Seq<char>>)>,
    notes: Seq<(Seq<char>, Option<Seq<char>>)>,
) -> (Seq<(CharCase, Seq<char>, Seq<Seq<char>>)>, Seq<(Seq<char>, Option<Seq<char>>)>)
    decreases toks.len(),
{
    if toks.len() == 0 {
        (ws, notes)
    } else {
        match token_parse(fmt, toks[0]) {
            Some(p) => dic_words_fold(
                fmt,
                toks.drop_first(),
                ws.push((classify_case(p.0), classify_key(p.0), p.1)),
                notes,
            ),
            None => dic_words_fold(
                fmt,
                toks.drop_first(),
                ws,
                notes.push(("Incorrect slash at the start of word"@, None)),
            ),
        }
    }
}

/// Folding the flags of one word through the unknown-flag check: a flag
/// absent from the flag map draws a complaint when asked for, and is
/// tallied either way.
pub open spec fn unknown_flags_fold(
    m: Map<Seq<char>, (FlagType, u32)>,
    fs: Seq<Seq<char>>,
    reporting: bool,
    notes: Seq<(Seq<char>, Option<Seq<char>>)>,
    tally: Seq<(Seq<char>, u32)>,
) -> (Seq<(Seq<char>, Option<Seq<char>>)>, Seq<(Seq<char>, u32)>)
    decreases fs.len(),
{
    if fs.len() == 0 {
        (notes, tally)
    } else if !m.dom().contains(fs[0]) {
        unknown_flags_fold(
            m,
            fs.drop_first(),
            reporting,
            if reporting {
                notes.push(("Unknown flag"@, Some(fs[0])))
            } else {
                notes
            },
            tally_bump(tally, fs[0]),
        )
    } else {
        unknown_flags_fold(m, fs.drop_first(), reporting, notes, tally)
    }
}

/// The unknown-flag check over every word of an entry, in order.
pub open spec fn unknown_words_fold(
    m: Map<Seq<char>, (FlagType, u32)>,
    ws: Seq<(CharCase, Seq<char>, Seq<Seq<char>>)>,
    reporting: bool,
    notes: Seq<(Seq<char>, Option<Seq<char>>)>,
    tally: Seq<(Seq<char>, u32)>,
) -> (Seq<(Seq<char>, Option<Seq<char>>)>, Seq<(Seq<char>, u32)>)
    decreases ws.len(),
{
    if ws.len() == 0 {
        (notes, tally)
    } else {
        let inner = unknown_flags_fold(m, ws[0].2, reporting, notes, tally);
        unknown_words_fold(m, ws.drop_first(), reporting, inner.0, inner.1)
    }
}

/// The key forms of a sequence of classified words.
pub open spec fn word_keys(ws: Seq<(CharCase, Seq<char>, Seq<Seq<char>>)>) -> Seq<Seq<char>> {
    ws.map_values(|w: (CharCase, Seq<char>, Seq<Seq<char>>)| w.1)
}

/// What one `.dic` word line does: its tokens become the entry's words
/// (with complaints for slash-opening tokens), unknown flags are noted
/// and tallied, and the entry is stored under its key unless the key is
/// taken — on a collision nothing is stored, the duplicate counter
/// rises, and a collision with equal trimmed source draws a complaint
/// naming the original line when duplicates are reported.
pub open spec fn dic_line_effect(
    pre: &Lang,
    post: &Lang,
    line_no: u32,
    source: Seq<char>,
    reporting_dupl: bool,
    reporting_other: bool,
    pre_notes: Seq<(Seq<char>, Option<Seq<char>>)>,
    post_notes: Seq<(Seq<char>, Option<Seq<char>>)>,
) -> bool {
    let toks = split_ws(source);
    let parsed = dic_words_fold(pre.slg_flag, toks, Seq::empty(), pre_notes);
    let checked = unknown_words_fold(
        pre.flags_of(),
        parsed.0,
        reporting_other,
        parsed.1,
        pre.slg_noparse_flags.entries(),
    );
    &&& post.slg_noparse_flags.entries() == checked.1
    &&& if parsed.0.len() == 0 {
        &&& post.dict_of() == pre.dict_of()
        &&& post.slg_dic_count == pre.slg_dic_count
        &&& post.slg_dic_duplicated == pre.slg_dic_duplicated
        &&& post_notes == checked.0
    } else {
        let key = dic_key(word_keys(parsed.0));
        &&& post.slg_dic_count == pre.slg_dic_count
        &&& if pre.dict_of().dom().contains(key) {
            &&& post.dict_of() == pre.dict_of()
            &&& post.slg_dic_duplicated == bumped(pre.slg_dic_duplicated)
            &&& if trim_ws_spec(pre.dict_of()[key].den_source@) == trim_ws_spec(source)
                && reporting_dupl {
                post_notes == checked.0.push(
                    (
                        "Duplicate entry"@,
                        Some(
                            dec_str(pre.dict_of()[key].den_line_no as nat)
                                + ": Original entry: "@ + pre.dict_of()[key].den_source@,
                        ),
                    ),
                )
            } else {
                post_notes == checked.0
            }
        } else {
            &&& post.dict_of() == pre.dict_of().insert(key, post.dict_of()[key])
            &&& post.dict_of()[key].den_line_no == line_no
            &&& post.dict_of()[key].den_source@ == source
            &&& fword_views(post.dict_of()[key].den_words@) == parsed.0
            &&& post.slg_dic_duplicated == pre.slg_dic_duplicated
            &&& post_notes == checked.0
        }
    }
}

/// What the first line of a `.dic` file does: a readable count becomes
/// `slg_dic_count`; a malformed count, or anything after it, draws one
/// complaint each. Everything else is untouched.
pub open spec fn dic_count_effect(
    pre: &Lang,
    post: &Lang,
    pre_notes: Seq<(Seq<char>, Option<Seq<char>>)>,
    post_notes: Seq<(Seq<char>, Option<Seq<char>>)>,
    tok0: Seq<char>,
    args: Seq<Seq<char>>,
) -> bool {
    let notes1 = if parses_as_u32(tok0) {
        pre_notes
    } else {
        pre_notes.push(("Entry count not recognized as number"@, None))
    };
    &&& post.same_core(pre)
    &&& post.same_affix(pre)
    &&& post.same_flagdecl(pre)
    &&& post.same_tallies(pre)
    &&& post.dict_of() == pre.dict_of()
    &&& post.slg_dic_duplicated == pre.slg_dic_duplicated
    &&& (parses_as_u32(tok0) ==> post.slg_dic_count as nat == numeral_val(numeral_digits(tok0)))
    &&& (!parses_as_u32(tok0) ==> post.slg_dic_count == pre.slg_dic_count)
    &&& post_notes == if args.len() > 0 {
        notes1.push(("Unexpected argument after entry count"@, None))
    } else {
        notes1
    }
}

proof fn lemma_last_slash(t: Seq<char>, p: int)
    requires
        -1 <= p < t.len(),
        p >= 0 ==> t[p] == '/',
        forall|j: int| p < j < t.len() ==> t[j] != '/',
    ensures
        last_slash(t) == p,
    decreases t.len(),
{
    if t.len() == 0 {
    } else if p == t.len() - 1 {
    } else {
        assert(t.last() != '/');
        let u = t.drop_last();
        lemma_last_slash(u, p);
    }
}

impl Lang {
    /// Parses the first line of a `.dic` file: the announced entry
    /// count. A malformed count, or anything after it, draws a
    /// complaint.
    pub fn parse_dictionary_count(&mut self, parse_state: &mut ParseState)
        ensures
            final(parse_state).same_line(old(parse_state)),
            final(self).same_core(old(self)),
            final(self).same_affix(old(self)),
            final(self).same_flagdecl(old(self)),
            final(self).same_tallies(old(self)),
            final(self).dict_of() == old(self).dict_of(),
            final(self).slg_dic_duplicated == old(self).slg_dic_duplicated,
            ({
                let tok0 = old(parse_state).first_view();
                let args = old(parse_state).args_view();
                let notes1 = if parses_as_u32(tok0) {
                    old(parse_state).notes_view()
                } else {
                    old(parse_state).notes_view().push(
                        ("Entry count not recognized as number"@, None),
                    )
                };
                &&& (parses_as_u32(tok0) ==> final(self).slg_dic_count as nat == numeral_val(
                    numeral_digits(tok0),
                ))
                &&& (!parses_as_u32(tok0) ==> final(self).slg_dic_count == old(self).slg_dic_count)
                &&& final(parse_state).notes_view() == if args.len() > 0 {
                    notes1.push(("Unexpected argument after entry count"@, None))
                } else {
                    notes1
                }
            }),
    {
        let ft = parse_state.get_first_token();
        match crate::text::parse_u32(ft.as_str()) {
            Some(group_size) => {
                self.slg_dic_count = group_size;
            },
            None => {
                parse_state.add_note("Entry count not recognized as number");
            },
        }
        if parse_state.get_next_token().is_some() {
            parse_state.add_note("Unexpected argument after entry count");
        }
    }

    /// Splits one `word[/flags]` token: the text before the last slash
    /// and the decoded flags, the whole token when the slash is escaped
    /// or absent, or nothing when the slash opens the token.
    pub fn split_dic_token(&self, token: &String) -> (r: Option<(String, Vec<String>)>)
        ensures
            r is Some <==> token_parse(self.slg_flag, token@) is Some,
            r matches Some(p) ==> token_parse(self.slg_flag, token@) matches Some(q) && p.0@ == q.0
                && str_views(p.1@) == q.1,
    {
        let t = token.as_str();
        let n = t.unicode_len();
        let mut p: usize = n;
        while p > 0 && t.get_char(p - 1) != '/'
            invariant
                n == t@.len(),
                p <= n,
                forall|j: int| p <= j < n ==> t@[j] != '/',
            decreases p,
        {
            p -= 1;
        }
        if p == 0 {
            proof {
                lemma_last_slash(t@, -1);
            }
            return Some((token.clone(), Vec::new()));
        }
        proof {
            lemma_last_slash(t@, p - 1);
        }
        if p == 1 {
            return None;
        }
        if t.get_char(p - 2) == '\\' {
            return Some((token.clone(), Vec::new()));
        }
        let before = String::from_str(t.substring_char(0, p - 1));
        let flags = self.parse_flags(t.substring_char(p, n));
        Some((before, flags))
    }

    /// Parses the words of one dictionary line into the entry, then
    /// notes and tallies the flags the flag map does not know.
    #[verifier::rlimit(100)]
    #[verifier::spinoff_prover]
    pub fn parse_dic_entry(
        &mut self,
        dic_entry: &mut DicEntry,
        parse_state: &mut ParseState,
        reporting_other: bool,
    )
        ensures
            final(parse_state).same_line(old(parse_state)),
            final(self).same_core(old(self)),
            final(self).same_affix(old(self)),
            final(self).flags_of() == old(self).flags_of(),
            final(self).slg_af@ == old(self).slg_af@,
            final(self).slg_af_parsed == old(self).slg_af_parsed,
            final(self).slg_compoundrule@ == old(self).slg_compoundrule@,
            final(self).slg_compoundrule_parsed == old(self).slg_compoundrule_parsed,
            final(self).dict_of() == old(self).dict_of(),
            final(self).slg_dic_count == old(self).slg_dic_count,
            final(self).slg_dic_duplicated == old(self).slg_dic_duplicated,
            final(self).slg_noparse_tags.entries() == old(self).slg_noparse_tags.entries(),
            final(dic_entry).den_line_no == old(dic_entry).den_line_no,
            final(dic_entry).den_source@ == old(dic_entry).den_source@,
            ({
                let parsed = dic_words_fold(
                    old(self).slg_flag,
                    split_ws(old(dic_entry).den_source@),
                    fword_views(old(dic_entry).den_words@),
                    old(parse_state).notes_view(),
                );
                let checked = unknown_words_fold(
                    old(self).flags_of(),
                    fword_views(final(dic_entry).den_words@),
                    reporting_other,
                    parsed.1,
                    old(self).slg_noparse_flags.entries(),
                );
                &&& fword_views(final(dic_entry).den_words@) == parsed.0
                &&& final(parse_state).notes_view() == checked.0
                &&& final(self).slg_noparse_flags.entries() == checked.1
            }),
    {
        let tokens = crate::text::split_tokens(dic_entry.den_source.as_str());
        let ghost toks = str_views(tokens@);
        let ghost words0 = fword_views(dic_entry.den_words@);
        let ghost notes0 = parse_state.notes_view();
        let mut i: usize = 0;
        proof {
            assert(toks.subrange(0, toks.len() as int) =~= toks);
        }
        while i < tokens.len()
            invariant
                i <= tokens@.len(),
                toks == str_views(tokens@),
                self == old(self),
                parse_state.same_line(old(parse_state)),
                dic_entry.den_line_no == old(dic_entry).den_line_no,
                dic_entry.den_source@ == old(dic_entry).den_source@,
                dic_words_fold(self.slg_flag, toks, words0, notes0) == dic_words_fold(
                    self.slg_flag,
                    toks.subrange(i as int, toks.len() as int),
                    fword_views(dic_entry.den_words@),
                    parse_state.notes_view(),
                ),
            decreases tokens@.len() - i,
        {
            let ghost rest = toks.subrange(i as int, toks.len() as int);
            proof {
                assert(rest.drop_first() =~= toks.subrange(i + 1 as int, toks.len() as int));
                assert(rest[0] == tokens@[i as int]@);
            }
            match self.split_dic_token(&tokens[i]) {
                Some(pair) => {
                    let ghost before = fword_views(dic_entry.den_words@);
                    let fw = FlaggedWord::new(pair.0.as_str(), pair.1);
                    dic_entry.den_words.push(fw);
                    proof {
                        assert(fword_views(dic_entry.den_words@) =~= before.push(
                            (
                                classify_case((token_parse(self.slg_flag, rest[0])->0).0),
                                classify_key((token_parse(self.slg_flag, rest[0])->0).0),
                                (token_parse(self.slg_flag, rest[0])->0).1,
                            ),
                        ));
                    }
                },
                None => {
                    parse_state.add_note("Incorrect slash at the start of word");
                },
            }
            i += 1;
        }
        proof {
            assert(toks.subrange(toks.len() as int, toks.len() as int) =~= Seq::<Seq<char>>::empty());
        }
        let ghost words1 = fword_views(dic_entry.den_words@);
        let ghost notes1 = parse_state.notes_view();
        let ghost tally0 = self.slg_noparse_flags.entries();
        let wcount = dic_entry.den_words.len();
        let mut wi: usize = 0;
        proof {
            assert(words1.subrange(0, words1.len() as int) =~= words1);
        }
        while wi < wcount
            invariant
                wi <= wcount,
                wcount == dic_entry.den_words@.len(),
                self.same_core(old(self)),
                self.same_affix(old(self)),
                self.flags_of() == old(self).flags_of(),
                self.slg_af@ == old(self).slg_af@,
                self.slg_af_parsed == old(self).slg_af_parsed,
                self.slg_compoundrule@ == old(self).slg_compoundrule@,
                self.slg_compoundrule_parsed == old(self).slg_compoundrule_parsed,
                self.dict_of() == old(self).dict_of(),
                self.slg_dic_count == old(self).slg_dic_count,
                self.slg_dic_duplicated == old(self).slg_dic_duplicated,
                self.slg_noparse_tags.entries() == old(self).slg_noparse_tags.entries(),
                dic_entry.den_line_no == old(dic_entry).den_line_no,
                dic_entry.den_source@ == old(dic_entry).den_source@,
                parse_state.same_line(old(parse_state)),
                words1 == fword_views(dic_entry.den_words@),
                unknown_words_fold(self.flags_of(), words1, reporting_other, notes1, tally0)
                    == unknown_words_fold(
                    self.flags_of(),
                    words1.subrange(wi as int, words1.len() as int),
                    reporting_other,
                    parse_state.notes_view(),
                    self.slg_noparse_flags.entries(),
                ),
            decreases wcount - wi,
        {
            let ghost wrest = words1.subrange(wi as int, words1.len() as int);
            let ghost notes_w = parse_state.notes_view();
            let ghost tally_w = self.slg_noparse_flags.entries();
            proof {
                assert(wrest.drop_first() =~= words1.subrange(
                    wi + 1 as int,
                    words1.len() as int,
                ));
                assert(wrest[0] == words1[wi as int]);
            }
            let fcount = dic_entry.den_words[wi].flw_flags.len();
            let ghost fseq = wrest[0].2;
            let mut fi: usize = 0;
            proof {
                assert(fseq =~= crate::dict::flag_views(dic_entry.den_words@[wi as int].flw_flags@));
                assert(fseq.subrange(0, fseq.len() as int) =~= fseq);
            }
            while fi < fcount
                invariant
                    fi <= fcount,
                    wi < wcount,
                    wcount == dic_entry.den_words@.len(),
                    fcount == dic_entry.den_words@[wi as int].flw_flags@.len(),
                    fseq == crate::dict::flag_views(dic_entry.den_words@[wi as int].flw_flags@),
                    self.same_core(old(self)),
                    self.same_affix(old(self)),
                    self.flags_of() == old(self).flags_of(),
                    self.slg_af@ == old(self).slg_af@,
                    self.slg_af_parsed == old(self).slg_af_parsed,
                    self.slg_compoundrule@ == old(self).slg_compoundrule@,
                    self.slg_compoundrule_parsed == old(self).slg_compoundrule_parsed,
                    self.dict_of() == old(self).dict_of(),
                    self.slg_dic_count == old(self).slg_dic_count,
                    self.slg_dic_duplicated == old(self).slg_dic_duplicated,
                    self.slg_noparse_tags.entries() == old(self).slg_noparse_tags.entries(),
                    dic_entry.den_line_no == old(dic_entry).den_line_no,
                    dic_entry.den_source@ == old(dic_entry).den_source@,
                    parse_state.same_line(old(parse_state)),
                    words1 == fword_views(dic_entry.den_words@),
                    unknown_flags_fold(self.flags_of(), fseq, reporting_other, notes_w, tally_w)
                        == unknown_flags_fold(
                        self.flags_of(),
                        fseq.subrange(fi as int, fseq.len() as int),
                        reporting_other,
                        parse_state.notes_view(),
                        self.slg_noparse_flags.entries(),
                    ),
                decreases fcount - fi,
            {
                let ghost frest = fseq.subrange(fi as int, fseq.len() as int);
                proof {
                    assert(frest.drop_first() =~= fseq.subrange(
                        fi + 1 as int,
                        fseq.len() as int,
                    ));
                    assert(frest[0] == dic_entry.den_words@[wi as int].flw_flags@[fi as int]@);
                }
                let flag = dic_entry.den_words[wi].flw_flags[fi].clone();
                if !self.slg_flag_hash.contains(&flag) {
                    if reporting_other {
                        parse_state.add_note2("Unknown flag", &flag);
                    }
                    self.slg_noparse_flags.bump(&flag);
                }
                fi += 1;
            }
            proof {
                assert(fseq.subrange(fseq.len() as int, fseq.len() as int)
                    =~= Seq::<Seq<char>>::empty());
            }
            wi += 1;
        }
        proof {
            assert(words1.subrange(words1.len() as int, words1.len() as int) =~= Seq::<
                (CharCase, Seq<char>, Seq<Seq<char>>),
            >::empty());
        }
    }
}

impl Lang {
    /// Parses one word line of a `.dic` file into the store, as
    /// `dic_line_effect` lays out: on a key collision the first entry
    /// wins, so two lines with equal key and equal trimmed source leave
    /// a single stored entry.
    #[verifier::rlimit(100)]
    #[verifier::spinoff_prover]
    pub fn parse_dic_line(
        &mut self,
        parse_state: &mut ParseState,
        reporting_dupl: bool,
        reporting_other: bool,
    )
        ensures
            final(parse_state).same_line(old(parse_state)),
            final(self).same_core(old(self)),
            final(self).same_affix(old(self)),
            final(self).flags_of() == old(self).flags_of(),
            final(self).slg_af@ == old(self).slg_af@,
            final(self).slg_af_parsed == old(self).slg_af_parsed,
            final(self).slg_compoundrule@ == old(self).slg_compoundrule@,
            final(self).slg_compoundrule_parsed == old(self).slg_compoundrule_parsed,
            final(self).slg_noparse_tags.entries() == old(self).slg_noparse_tags.entries(),
            old(self).wf() ==> final(self).wf(),
            dic_line_effect(
                old(self),
                final(self),
                old(parse_state).pst_line_no,
                old(self).lng_parsed_line@,
                reporting_dupl,
                reporting_other,
                old(parse_state).notes_view(),
                final(parse_state).notes_view(),
            ),
    {
        let mut dic_entry = DicEntry::new(parse_state.pst_line_no, self.lng_parsed_line.clone());
        proof {
            assert(fword_views(dic_entry.den_words@) =~= Seq::<
                (CharCase, Seq<char>, Seq<Seq<char>>),
            >::empty());
        }
        self.parse_dic_entry(&mut dic_entry, parse_state, reporting_other);
        if dic_entry.den_words.len() == 0 {
            return ;
        }
        let key = dic_entry.hash_key();
        proof {
            assert(word_keys(fword_views(dic_entry.den_words@)) =~= dic_entry.word_views());
        }
        let mut collision = false;
        let mut ex_line: u32 = 0;
        let mut ex_source = String::new();
        match self.slg_dic_hash.get(&key) {
            Some(existing) => {
                collision = true;
                ex_line = existing.den_line_no;
                ex_source = existing.den_source.clone();
            },
            None => {},
        }
        if collision {
            self.slg_dic_duplicated = if self.slg_dic_duplicated < 0xffff_ffff {
                self.slg_dic_duplicated + 1
            } else {
                self.slg_dic_duplicated
            };
            let ex_trim = crate::text::trim_spaces(ex_source.as_str());
            let new_trim = crate::text::trim_spaces(dic_entry.den_source.as_str());
            if crate::text::str_eq(ex_trim.as_str(), new_trim.as_str()) && reporting_dupl {
                let mut description = crate::text::u64_string(ex_line as u64);
                description.append(": Original entry: ");
                description.append(ex_source.as_str());
                proof {
                    reveal_strlit(": Original entry: ");
                }
                parse_state.add_note2("Duplicate entry", &description);
            }
        } else {
            self.slg_dic_hash.insert(key, dic_entry);
        }
    }
}

} // verus!
