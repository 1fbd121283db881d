//! Dictionary entries: flagged words and the lines that carry them.

use vstd::prelude::*;

use crate::caseclass::{classify_case, classify_key, CharCase};
use crate::text::str_views;
use vstd::string::StringExecFns;

verus! {

/// One word of a dictionary line, with its flags and its letter case.
pub struct FlaggedWord {
    /// the case the surface form in the file had
    pub flw_char_case: CharCase,
    /// the word under its dictionary key form
    pub flw_word: String,
    /// the flags given after the slash, if any
    pub flw_flags: Vec<String>,
}

impl FlaggedWord {
    pub fn new(word: &str, flw_flags: Vec<String>) -> (r: FlaggedWord)
        ensures
            r.flw_char_case == classify_case(word@),
            r.flw_word@ == classify_key(word@),
            r.flw_flags@ == flw_flags@,
    {
        let (flw_char_case, flw_word) = CharCase::normalize_case(word);
        FlaggedWord { flw_char_case, flw_word, flw_flags }
    }
}

/// Joining the words of an entry with single spaces, the way the
/// dictionary key is formed: nothing is added before a word when the key
/// so far is empty.
pub open spec fn key_fold(ws: Seq<Seq<char>>, acc: Seq<char>) -> Seq<char>
    decreases ws.len(),
{
    if ws.len() == 0 {
        acc
    } else {
        key_fold(
            ws.drop_first(),
            if acc.len() == 0 {
                acc + ws[0]
            } else {
                acc + seq![' '] + ws[0]
            },
        )
    }
}

/// The dictionary key of a sequence of words.
pub open spec fn dic_key(ws: Seq<Seq<char>>) -> Seq<char> {
    key_fold(ws, Seq::empty())
}

/// One logical dictionary line.
pub struct DicEntry {
    /// line number in the dictionary file
    pub den_line_no: u32,
    /// the line in the dictionary file defining the entry
    pub den_source: String,
    /// the flagged words of the line
    pub den_words: Vec<FlaggedWord>,
}

impl DicEntry {
    /// The key forms of the entry's words.
    pub open spec fn word_views(&self) -> Seq<Seq<char>> {
        self.den_words@.map_values(|w: FlaggedWord| w.flw_word@)
    }

    pub fn new(den_line_no: u32, den_source: String) -> (r: DicEntry)
        ensures
            r.den_line_no == den_line_no,
            r.den_source@ == den_source@,
            r.den_words@.len() == 0,
    {
        DicEntry { den_line_no, den_source, den_words: Vec::new() }
    }

    /// The key the entry is stored under: its words joined by single
    /// spaces.
    pub fn hash_key(&self) -> (r: String)
        ensures
            r@ == dic_key(self.word_views()),
    {
        let mut key = String::new();
        let mut i: usize = 0;
        proof {
            assert(self.word_views().subrange(0, self.word_views().len() as int) =~= self
                .word_views());
        }
        while i < self.den_words.len()
            invariant
                i <= self.den_words@.len(),
                dic_key(self.word_views()) == key_fold(
                    self.word_views().subrange(i as int, self.word_views().len() as int),
                    key@,
                ),
            decreases self.den_words@.len() - i,
        {
            let ghost rest = self.word_views().subrange(i as int, self.word_views().len() as int);
            let ghost rest2 = self.word_views().subrange(
                i + 1 as int,
                self.word_views().len() as int,
            );
            proof {
                assert(rest.drop_first() =~= rest2);
                assert(rest[0] == self.word_views()[i as int]);
            }
            if key.as_str().is_empty() {
                let ghost before = key@;
                key.append(self.den_words[i].flw_word.as_str());
                proof {
                    assert(key@ =~= before + self.word_views()[i as int]);
                }
            } else {
                let ghost before = key@;
                key.append(" ");
                key.append(self.den_words[i].flw_word.as_str());
                proof {
                    reveal_strlit(" ");
                    assert(" "@ =~= seq![' ']);
                    assert(key@ =~= before + seq![' '] + self.word_views()[i as int]);
                }
            }
            i += 1;
        }
        proof {
            assert(self.word_views().subrange(
                self.word_views().len() as int,
                self.word_views().len() as int,
            ) =~= Seq::<Seq<char>>::empty());
        }
        key
    }
}

/// The views of a sequence of flags.
pub open spec fn flag_views(fs: Seq<String>) -> Seq<Seq<char>> {
    str_views(fs)
}

/// Whether a flag list holds a given flag.
pub fn flags_contain(flags: &Vec<String>, flag: &String) -> (r: bool)
    ensures
        r == flag_views(flags@).contains(flag@),
{
    let n = flags.len();
    let mut i: usize = 0;
    while i < n
        invariant
            n == flags@.len(),
            i <= n,
            forall|j: int| 0 <= j < i ==> flag_views(flags@)[j] != flag@,
        decreases n - i,
    {
        if flags[i].eq(flag) {
            proof {
                assert(flag_views(flags@)[i as int] == flag@);
            }
            return true;
        }
        proof {
            assert(flag_views(flags@)[i as int] == flags@[i as int]@);
        }
        i += 1;
    }
    proof {
        assert(!flag_views(flags@).contains(flag@));
    }
    false
}

} // verus!
