//! The tokenizer: splitting text into word and non-word runs, honoring
//! the language's optional word characters, and the text checker that
//! grades each word run. Concatenating the texts of the runs gives the
//! input back unchanged.

use vstd::prelude::*;

use crate::check::{is_optional_char, token_accepted};
use crate::lang::Lang;
use crate::text::{char_is_alphabetic, is_alpha_char, push_char, str_views};
use vstd::string::StrSliceExecFns;
use vstd::string::StringExecFns;

verus! {

/// The marking of one run of text.
#[derive(PartialEq, Eq, Structural, Clone, Copy, Debug)]
pub enum TokenType {
    /// a run of characters that cannot be in a word
    NotWord,
    /// a word run not yet checked
    IsWord,
    /// a word run that passed the spelling check
    IsGoodWord,
    /// a word run that failed the spelling check
    IsBadWord,
}

/// A character that can stand in a word: alphabetic, or one of the
/// language's optional word characters.
pub open spec fn in_word_char(lang: &Lang, c: char) -> bool {
    is_alpha_char(c) || is_optional_char(lang, c)
}

/// Folding a text into runs: word characters extend the current word
/// run; every other character closes it and stands as a one-character
/// non-word run of its own. Empty runs are never emitted.
pub open spec fn pair_fold(
    lang: &Lang,
    s: Seq<char>,
    cur: Seq<char>,
    acc: Seq<(Seq<char>, TokenType)>,
) -> Seq<(Seq<char>, TokenType)>
    decreases s.len(),
{
    if s.len() == 0 {
        if cur.len() > 0 {
            acc.push((cur, TokenType::IsWord))
        } else {
            acc
        }
    } else if !in_word_char(lang, s[0]) {
        let acc1 = if cur.len() > 0 {
            acc.push((cur, TokenType::IsWord))
        } else {
            acc
        };
        pair_fold(lang, s.drop_first(), Seq::empty(), acc1.push((seq![s[0]], TokenType::NotWord)))
    } else {
        pair_fold(lang, s.drop_first(), cur.push(s[0]), acc)
    }
}

/// The runs of a text.
pub open spec fn text_runs(lang: &Lang, s: Seq<char>) -> Seq<(Seq<char>, TokenType)> {
    pair_fold(lang, s, Seq::empty(), Seq::empty())
}

/// Each word run graded by the checker; other runs pass unchanged.
pub open spec fn graded(lang: &Lang, ps: Seq<(Seq<char>, TokenType)>) -> Seq<
    (Seq<char>, TokenType),
> {
    ps.map_values(
        |p: (Seq<char>, TokenType)|
            if p.1 == TokenType::IsWord && p.0.len() > 0 {
                (
                    p.0,
                    if token_accepted(lang, p.0) {
                        TokenType::IsGoodWord
                    } else {
                        TokenType::IsBadWord
                    },
                )
            } else {
                p
            },
    )
}

/// The texts of the runs, concatenated in order.
pub open spec fn concat_texts(ps: Seq<(Seq<char>, TokenType)>) -> Seq<char>
    decreases ps.len(),
{
    if ps.len() == 0 {
        Seq::empty()
    } else {
        concat_texts(ps.drop_last()) + ps.last().0
    }
}

/// The view of a run vector.
pub open spec fn pair_text_views(ps: Seq<(String, TokenType)>) -> Seq<(Seq<char>, TokenType)> {
    ps.map_values(|p: (String, TokenType)| (p.0@, p.1))
}

proof fn lemma_concat_push(ps: Seq<(Seq<char>, TokenType)>, p: (Seq<char>, TokenType))
    ensures
        concat_texts(ps.push(p)) == concat_texts(ps) + p.0,
{
    assert(ps.push(p).drop_last() =~= ps);
    assert(ps.push(p).last() == p);
}

/// Concatenating the texts the fold emits gives back the accumulated
/// texts, the open run and the rest of the input.
proof fn lemma_fold_concat(
    lang: &Lang,
    s: Seq<char>,
    cur: Seq<char>,
    acc: Seq<(Seq<char>, TokenType)>,
)
    ensures
        concat_texts(pair_fold(lang, s, cur, acc)) == concat_texts(acc) + cur + s,
    decreases s.len(),
{
    if s.len() == 0 {
        if cur.len() > 0 {
            lemma_concat_push(acc, (cur, TokenType::IsWord));
        }
        assert(concat_texts(acc) + cur + s =~= if cur.len() > 0 {
            concat_texts(acc) + cur
        } else {
            concat_texts(acc)
        });
    } else if !in_word_char(lang, s[0]) {
        let acc1 = if cur.len() > 0 {
            acc.push((cur, TokenType::IsWord))
        } else {
            acc
        };
        let acc2 = acc1.push((seq![s[0]], TokenType::NotWord));
        lemma_fold_concat(lang, s.drop_first(), Seq::empty(), acc2);
        if cur.len() > 0 {
            lemma_concat_push(acc, (cur, TokenType::IsWord));
        }
        lemma_concat_push(acc1, (seq![s[0]], TokenType::NotWord));
        assert(concat_texts(acc2) + Seq::<char>::empty() + s.drop_first() =~= concat_texts(acc)
            + cur + s);
    } else {
        lemma_fold_concat(lang, s.drop_first(), cur.push(s[0]), acc);
        assert(concat_texts(acc) + cur.push(s[0]) + s.drop_first() =~= concat_texts(acc) + cur
            + s);
    }
}

/// Grading keeps every run's text, so the concatenation is unchanged.
proof fn lemma_graded_concat(lang: &Lang, ps: Seq<(Seq<char>, TokenType)>)
    ensures
        concat_texts(graded(lang, ps)) == concat_texts(ps),
    decreases ps.len(),
{
    if ps.len() > 0 {
        lemma_graded_concat(lang, ps.drop_last());
        assert(graded(lang, ps).drop_last() =~= graded(lang, ps.drop_last()));
        assert(graded(lang, ps).last().0 == ps.last().0);
    }
}

/// The tokenizer round trip: concatenating the texts of the graded runs
/// of a text gives the text back.
pub proof fn lemma_round_trip(lang: &Lang, s: Seq<char>)
    ensures
        concat_texts(graded(lang, text_runs(lang, s))) == s,
{
    lemma_fold_concat(lang, s, Seq::empty(), Seq::empty());
    lemma_graded_concat(lang, text_runs(lang, s));
    assert(concat_texts(Seq::<(Seq<char>, TokenType)>::empty()) + Seq::<char>::empty() + s =~= s);
}

impl Lang {
    /// Whether the character can be in a word.
    pub fn in_word_or_optional(&self, c: char) -> (r: bool)
        ensures
            r == in_word_char(self, c),
    {
        char_is_alphabetic(c) || self.is_non_alphabetic_in_word(c)
    }

    /// Splits a text into its word and non-word runs, in order: word
    /// runs are maximal, each non-word character stands alone, and no
    /// run is empty.
    #[verifier::rlimit(100)]
    #[verifier::spinoff_prover]
    pub fn tokenize(&self, text: &str) -> (r: Vec<(String, TokenType)>)
        ensures
            pair_text_views(r@) == text_runs(self, text@),
    {
        let n = text.unicode_len();
        let mut out: Vec<(String, TokenType)> = Vec::new();
        let mut cur = String::new();
        let mut i: usize = 0;
        proof {
            assert(text@.subrange(0, n as int) =~= text@);
            assert(pair_text_views(out@) =~= Seq::<(Seq<char>, TokenType)>::empty());
            assert(cur@ =~= Seq::<char>::empty());
        }
        while i < n
            invariant
                n == text@.len(),
                i <= n,
                text_runs(self, text@) == pair_fold(
                    self,
                    text@.subrange(i as int, n as int),
                    cur@,
                    pair_text_views(out@),
                ),
            decreases n - i,
        {
            let ghost rest = text@.subrange(i as int, n as int);
            proof {
                assert(rest.drop_first() =~= text@.subrange(i + 1 as int, n as int));
                assert(rest[0] == text@[i as int]);
            }
            let c = text.get_char(i);
            if !self.in_word_or_optional(c) {
                if !cur.as_str().is_empty() {
                    let ghost before = pair_text_views(out@);
                    let ghost run = cur@;
                    out.push((cur, TokenType::IsWord));
                    cur = String::new();
                    proof {
                        assert(pair_text_views(out@) =~~= before.push((run, TokenType::IsWord)));
                        assert(cur@ =~= Seq::<char>::empty());
                    }
                } else {
                    proof {
                        assert(cur@ =~= Seq::<char>::empty());
                    }
                }
                let mut single = String::new();
                push_char(&mut single, c);
                let ghost before2 = pair_text_views(out@);
                out.push((single, TokenType::NotWord));
                proof {
                    assert(pair_text_views(out@) =~~= before2.push(
                        (seq![text@[i as int]], TokenType::NotWord),
                    ));
                }
            } else {
                push_char(&mut cur, c);
            }
            i += 1;
        }
        proof {
            assert(text@.subrange(n as int, n as int) =~= Seq::<char>::empty());
        }
        if !cur.as_str().is_empty() {
            let ghost before = pair_text_views(out@);
            let ghost run = cur@;
            out.push((cur, TokenType::IsWord));
            proof {
                assert(pair_text_views(out@) =~~= before.push((run, TokenType::IsWord)));
            }
        }
        out
    }

    /// Checks a text: each word run is marked good or bad by the
    /// recognizer, other runs pass through, and concatenating the texts
    /// of the result gives the input back.
    #[verifier::rlimit(100)]
    #[verifier::spinoff_prover]
    pub fn check_text(&self, text: &str) -> (r: Vec<(String, TokenType)>)
        requires
            self.wf(),
        ensures
            pair_text_views(r@) == graded(self, text_runs(self, text@)),
            concat_texts(pair_text_views(r@)) == text@,
    {
        let mut tokens = self.tokenize(text);
        let ghost runs = pair_text_views(tokens@);
        let count = tokens.len();
        let mut i: usize = 0;
        while i < count
            invariant
                self.wf(),
                i <= count,
                count == tokens@.len(),
                runs.len() == count,
                forall|j: int|
                    0 <= j < i ==> #[trigger] pair_text_views(tokens@)[j] == graded(self, runs)[j],
                forall|j: int|
                    i <= j < count ==> #[trigger] pair_text_views(tokens@)[j] == runs[j],
            decreases count - i,
        {
            proof {
                assert(pair_text_views(tokens@)[i as int] == runs[i as int]);
            }
            let is_word = matches!(tokens[i].1, TokenType::IsWord);
            if is_word && !tokens[i].0.as_str().is_empty() {
                proof {
                    assert(runs[i as int].1 == TokenType::IsWord);
                    assert(runs[i as int].0.len() > 0);
                }
                let word = tokens[i].0.clone();
                let verdict = if self.check_token(word.as_str()) {
                    TokenType::IsGoodWord
                } else {
                    TokenType::IsBadWord
                };
                proof {
                    assert(word@ == runs[i as int].0);
                }
                let ghost vold = pair_text_views(tokens@);
                tokens.set(i, (word, verdict));
                proof {
                    assert(pair_text_views(tokens@)[i as int] == (runs[i as int].0, verdict));
                    assert(forall|j: int|
                        0 <= j < count && j != i ==> #[trigger] pair_text_views(tokens@)[j]
                            == vold[j]);
                }
            } else {
                proof {
                    assert(pair_text_views(tokens@)[i as int] == runs[i as int]);
                    assert(tokens@[i as int].1 == runs[i as int].1);
                    assert(tokens@[i as int].0@ == runs[i as int].0);
                    if runs[i as int].1 == TokenType::IsWord {
                        assert(tokens@[i as int].1 == TokenType::IsWord);
                        assert(tokens@[i as int].1 is IsWord);
                        assert(tokens@[i as int].0@.len() == 0);
                        assert(runs[i as int].0.len() == 0);
                    }
                    assert(!(runs[i as int].1 == TokenType::IsWord && runs[i as int].0.len() > 0));
                }
            }
            proof {
                assert(graded(self, runs)[i as int] == pair_text_views(tokens@)[i as int]);
            }
            i += 1;
        }
        proof {
            assert(pair_text_views(tokens@) =~~= graded(self, runs));
            lemma_round_trip(self, text@);
        }
        tokens
    }

    /// Splits a line at every character that cannot be in a word; the
    /// pieces between separators are kept, empty ones included.
    #[verifier::rlimit(100)]
    #[verifier::spinoff_prover]
    pub fn split_words(&self, line: &str) -> (r: Vec<String>)
        ensures
            str_views(r@) == word_split(self, line@),
    {
        let n = line.unicode_len();
        let mut out: Vec<String> = Vec::new();
        let mut cur = String::new();
        let mut i: usize = 0;
        proof {
            assert(line@.subrange(0, n as int) =~= line@);
            assert(str_views(out@) =~= Seq::<Seq<char>>::empty());
            assert(cur@ =~= Seq::<char>::empty());
        }
        while i < n
            invariant
                n == line@.len(),
                i <= n,
                word_split(self, line@) == word_fold(
                    self,
                    line@.subrange(i as int, n as int),
                    cur@,
                    str_views(out@),
                ),
            decreases n - i,
        {
            let ghost rest = line@.subrange(i as int, n as int);
            proof {
                assert(rest.drop_first() =~= line@.subrange(i + 1 as int, n as int));
                assert(rest[0] == line@[i as int]);
            }
            let c = line.get_char(i);
            if !self.in_word_or_optional(c) {
                let ghost before = str_views(out@);
                let ghost run = cur@;
                out.push(cur);
                cur = String::new();
                proof {
                    assert(str_views(out@) =~= before.push(run));
                    assert(cur@ =~= Seq::<char>::empty());
                }
            } else {
                push_char(&mut cur, c);
            }
            i += 1;
        }
        let ghost before = str_views(out@);
        let ghost run = cur@;
        out.push(cur);
        proof {
            assert(line@.subrange(n as int, n as int) =~= Seq::<char>::empty());
            assert(str_views(out@) =~= before.push(run));
        }
        out
    }

    /// Checks a line of words not yet tokenized: every nonempty piece of
    /// the word split is paired with its verdict.
    #[verifier::rlimit(100)]
    #[verifier::spinoff_prover]
    pub fn check_untokenized(&self, untokenized: &str) -> (r: Vec<(String, bool)>)
        requires
            self.wf(),
        ensures
            checked_views(r@) == checked_fold(
                self,
                word_split(self, untokenized@),
                Seq::empty(),
            ),
    {
        let words = self.split_words(untokenized);
        let ghost toks = str_views(words@);
        let mut out: Vec<(String, bool)> = Vec::new();
        let count = words.len();
        let mut i: usize = 0;
        proof {
            assert(toks.subrange(0, toks.len() as int) =~= toks);
            assert(checked_views(out@) =~= Seq::<(Seq<char>, bool)>::empty());
        }
        while i < count
            invariant
                self.wf(),
                i <= count,
                count == words@.len(),
                toks == str_views(words@),
                checked_fold(self, toks, Seq::empty()) == checked_fold(
                    self,
                    toks.subrange(i as int, toks.len() as int),
                    checked_views(out@),
                ),
            decreases count - i,
        {
            let ghost rest = toks.subrange(i as int, toks.len() as int);
            proof {
                assert(rest.drop_first() =~= toks.subrange(i + 1 as int, toks.len() as int));
                assert(rest[0] == words@[i as int]@);
            }
            if !words[i].as_str().is_empty() {
                let word = words[i].clone();
                let verdict = self.check_token(word.as_str());
                let ghost before = checked_views(out@);
                out.push((word, verdict));
                proof {
                    assert(checked_views(out@) =~~= before.push((rest[0], verdict)));
                }
            }
            i += 1;
        }
        proof {
            assert(toks.subrange(toks.len() as int, toks.len() as int) =~= Seq::<
                Seq<char>,
            >::empty());
        }
        out
    }
}

/// Folding a word split: word characters extend the piece, any other
/// character closes it; empty pieces are kept.
pub open spec fn word_fold(
    lang: &Lang,
    s: Seq<char>,
    cur: Seq<char>,
    acc: Seq<Seq<char>>,
) -> Seq<Seq<char>>
    decreases s.len(),
{
    if s.len() == 0 {
        acc.push(cur)
    } else if !in_word_char(lang, s[0]) {
        word_fold(lang, s.drop_first(), Seq::empty(), acc.push(cur))
    } else {
        word_fold(lang, s.drop_first(), cur.push(s[0]), acc)
    }
}

/// The pieces of a line between non-word characters.
pub open spec fn word_split(lang: &Lang, s: Seq<char>) -> Seq<Seq<char>> {
    word_fold(lang, s, Seq::empty(), Seq::empty())
}

/// The view of a checked-word vector.
pub open spec fn checked_views(ps: Seq<(String, bool)>) -> Seq<(Seq<char>, bool)> {
    ps.map_values(|p: (String, bool)| (p.0@, p.1))
}

/// Pairing each nonempty word with its verdict.
pub open spec fn checked_fold(
    lang: &Lang,
    toks: Seq<Seq<char>>,
    acc: Seq<(Seq<char>, bool)>,
) -> Seq<(Seq<char>, bool)>
    decreases toks.len(),
{
    if toks.len() == 0 {
        acc
    } else if toks[0].len() > 0 {
        checked_fold(lang, toks.drop_first(), acc.push((toks[0], token_accepted(lang, toks[0]))))
    } else {
        checked_fold(lang, toks.drop_first(), acc)
    }
}

} // verus!
