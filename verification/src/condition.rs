//! The edge condition of an affix rule: a restricted regular expression
//! of literal characters, `.` for any character, and bracket classes
//! `[...]` with an optional leading `^` for complement.
//!
//! Compilation yields an ordered list of atoms, each either "accept any
//! of this set" or "reject any of this set"; the dot compiles to a
//! reject-empty-set atom, which admits anything. Evaluation anchors the
//! atoms at the start or the end of a word.

use vstd::prelude::*;

use crate::text::{str_contains_char, str_eq, str_starts_with, str_ends_with};
use vstd::string::StrSliceExecFns;
use vstd::string::StringExecFns;

verus! {

/// One step of compilation: the atoms so far, the bracket state, and the
/// first error met, if any.
pub struct CondState {
    pub atoms: Seq<(Seq<char>, bool)>,
    pub in_brackets: bool,
    pub included: bool,
    pub bracket: Seq<char>,
    pub error: Option<(Seq<char>, int)>,
}

/// The state compilation starts from.
pub open spec fn compile_init() -> CondState {
    CondState {
        atoms: Seq::empty(),
        in_brackets: false,
        included: true,
        bracket: Seq::empty(),
        error: None,
    }
}

/// The effect of one definition character on the compilation state;
/// `pos` is its one-based column.
pub open spec fn compile_step(st: CondState, c: char, pos: int) -> CondState {
    if c == '[' {
        CondState {
            in_brackets: true,
            included: true,
            error: if st.in_brackets {
                Some(("Open brackets ([) inside brackets in regex"@, pos))
            } else {
                st.error
            },
            ..st
        }
    } else if c == '.' {
        if !st.in_brackets {
            CondState { atoms: st.atoms.push((Seq::empty(), false)), ..st }
        } else {
            CondState { error: Some(("Dot (.) inside brackets in regex"@, pos)), ..st }
        }
    } else if c == ']' {
        CondState {
            atoms: st.atoms.push((st.bracket, st.included)),
            in_brackets: false,
            bracket: Seq::empty(),
            error: if !st.in_brackets {
                Some(("Close brackets (]) not within brackets in regex"@, pos))
            } else {
                st.error
            },
            ..st
        }
    } else if c == '^' {
        if st.in_brackets && st.included {
            CondState { included: false, ..st }
        } else {
            CondState { error: Some(("Unexpected caron (^) in regex"@, pos)), ..st }
        }
    } else {
        if st.in_brackets {
            CondState { bracket: st.bracket.push(c), ..st }
        } else if c == '{' || c == '}' || c == '*' || c == '+' || c == '?' || c == '(' || c == ')' {
            CondState { error: Some(("Unexpected character in regex"@, pos)), ..st }
        } else {
            CondState { atoms: st.atoms.push((seq![c], true)), ..st }
        }
    }
}

/// The compilation state after the whole definition string.
pub open spec fn compile_all(s: Seq<char>) -> CondState
    decreases s.len(),
{
    if s.len() == 0 {
        compile_init()
    } else {
        compile_step(compile_all(s.drop_last()), s.last(), s.len() as int)
    }
}

/// The definition after stripping one of the legacy wrappers: a leading
/// `(^` with a trailing `)`, a leading `.+`, or a leading `^`.
pub open spec fn cleaned_def(s: Seq<char>) -> Seq<char> {
    if s.len() >= 2 && s.subrange(0, 2) == "(^"@ && s.len() >= 1 && s.subrange(
        s.len() - 1,
        s.len() as int,
    ) == ")"@ {
        s.subrange(2, s.len() - 1)
    } else if s.len() >= 2 && s.subrange(0, 2) == ".+"@ {
        s.subrange(2, s.len() as int)
    } else if s.len() >= 1 && s.subrange(0, 1) == "^"@ {
        s.subrange(1, s.len() as int)
    } else {
        s
    }
}

/// Whether one atom admits one character.
pub open spec fn atom_admits(atom: (Seq<char>, bool), c: char) -> bool {
    atom.0.contains(c) == atom.1
}

/// Whether the atoms match the word at one of its edges: each atom is
/// zipped with one word character, from the start when `at_start`, else
/// aligned with the end of the word.
pub open spec fn cond_match(atoms: Seq<(Seq<char>, bool)>, w: Seq<char>, at_start: bool) -> bool {
    &&& atoms.len() <= w.len()
    &&& if at_start {
        forall|i: int| 0 <= i < atoms.len() ==> atom_admits(#[trigger] atoms[i], w[i])
    } else {
        forall|i: int|
            0 <= i < atoms.len() ==> atom_admits(#[trigger] atoms[i], w[w.len() - atoms.len() + i])
    }
}

/// A simple edge-anchored regular expression over characters.
pub struct Regex {
    /// the definition string the expression was compiled from
    pub rgx_def: String,
    /// each atom: the characters of its set, and whether they are
    /// accepted (`true`) or rejected (`false`)
    pub rgx_vec: Vec<(String, bool)>,
    /// the first syntax error and its one-based column, if any
    pub rgx_error: Option<(String, usize)>,
}

impl Regex {
    /// The atoms, as character sequences.
    pub open spec fn atoms(&self) -> Seq<(Seq<char>, bool)> {
        self.rgx_vec@.map_values(|p: (String, bool)| (p.0@, p.1))
    }

    /// The compiled form agrees with compiling the cleaned definition.
    pub open spec fn well_compiled(&self) -> bool {
        &&& self.atoms() == compile_all(cleaned_def(self.rgx_def@)).atoms
        &&& (self.rgx_error is Some) == (compile_all(cleaned_def(self.rgx_def@)).error is Some)
        &&& self.rgx_error matches Some(e) ==> compile_all(cleaned_def(self.rgx_def@)).error
            == Some((e.0@, e.1 as int))
    }

    /// Whether the expression matches the word at the given edge: never
    /// when compilation failed, otherwise per `cond_match`.
    pub open spec fn matches_at(&self, w: Seq<char>, is_prefix: bool) -> bool {
        &&& self.rgx_error is None
        &&& cond_match(self.atoms(), w, is_prefix)
    }

    /// Compiles a definition string.
    pub fn new(rgx_def: String) -> (r: Regex)
        ensures
            r.rgx_def@ == rgx_def@,
            r.atoms() == compile_all(cleaned_def(rgx_def@)).atoms,
            r.rgx_error matches Some(e) ==> compile_all(cleaned_def(rgx_def@)).error == Some(
                (e.0@, e.1 as int),
            ),
            (r.rgx_error is Some) == (compile_all(cleaned_def(rgx_def@)).error is Some),
            r.well_compiled(),
    {
        proof {
            reveal_strlit("(^");
            reveal_strlit(")");
            reveal_strlit(".+");
            reveal_strlit("^");
        }
        let def_str = rgx_def.as_str();
        let clean: &str = if str_starts_with(def_str, "(^") && str_ends_with(def_str, ")") {
            let n = def_str.unicode_len();
            proof {
                assert(rgx_def@.subrange(0, 2)[1] == rgx_def@[1]);
                assert(rgx_def@[1] == '^');
                assert(rgx_def@.subrange(n - 1, n as int)[0] == rgx_def@[n - 1]);
                assert(rgx_def@[n - 1] == ')');
                assert(n >= 3);
            }
            def_str.substring_char(2, n - 1)
        } else if str_starts_with(def_str, ".+") {
            def_str.substring_char(2, def_str.unicode_len())
        } else if str_starts_with(def_str, "^") {
            def_str.substring_char(1, def_str.unicode_len())
        } else {
            def_str
        };
        proof {
            assert(clean@ == cleaned_def(rgx_def@));
        }
        let n = clean.unicode_len();
        let mut rgx_vec: Vec<(String, bool)> = Vec::new();
        let mut in_brackets = false;
        let mut is_included = true;
        let mut rgx_error: Option<(String, usize)> = None;
        let mut bracket_chars = String::new();
        let mut i: usize = 0;
        while i < n
            invariant
                n == clean@.len(),
                i <= n,
                rgx_vec@.map_values(|p: (String, bool)| (p.0@, p.1)) == compile_all(
                    clean@.subrange(0, i as int),
                ).atoms,
                in_brackets == compile_all(clean@.subrange(0, i as int)).in_brackets,
                is_included == compile_all(clean@.subrange(0, i as int)).included,
                bracket_chars@ == compile_all(clean@.subrange(0, i as int)).bracket,
                rgx_error matches Some(e) ==> compile_all(clean@.subrange(0, i as int)).error
                    == Some((e.0@, e.1 as int)),
                (rgx_error is Some) == (compile_all(clean@.subrange(0, i as int)).error is Some),
            decreases n - i,
        {
            let ghost pre = clean@.subrange(0, i as int);
            let ghost cur = clean@.subrange(0, i + 1 as int);
            proof {
                assert(cur.drop_last() =~= pre);
                assert(cur.last() == clean@[i as int]);
                assert(cur.len() == i + 1);
            }
            let c = clean.get_char(i);
            let pos: usize = i + 1;
            if c == '[' {
                if in_brackets {
                    rgx_error = Some((String::from_str("Open brackets ([) inside brackets in regex"), pos));
                }
                in_brackets = true;
                is_included = true;
            } else if c == '.' {
                if !in_brackets {
                    rgx_vec.push((String::new(), false));
                } else {
                    rgx_error = Some((String::from_str("Dot (.) inside brackets in regex"), pos));
                }
            } else if c == ']' {
                if !in_brackets {
                    rgx_error = Some((String::from_str("Close brackets (]) not within brackets in regex"), pos));
                }
                rgx_vec.push((bracket_chars, is_included));
                in_brackets = false;
                bracket_chars = String::new();
            } else if c == '^' {
                if in_brackets && is_included {
                    is_included = false;
                } else {
                    rgx_error = Some((String::from_str("Unexpected caron (^) in regex"), pos));
                }
            } else {
                if in_brackets {
                    crate::text::push_char(&mut bracket_chars, c);
                } else {
                    if c == '{' || c == '}' || c == '*' || c == '+' || c == '?' || c == '('
                        || c == ')' {
                        rgx_error = Some((String::from_str("Unexpected character in regex"), pos));
                    } else {
                        let mut single = String::new();
                        crate::text::push_char(&mut single, c);
                        rgx_vec.push((single, true));
                        proof {
                            assert(single@ =~= seq![c]);
                        }
                    }
                }
            }
            proof {
                assert(rgx_vec@.map_values(|p: (String, bool)| (p.0@, p.1)) =~= compile_all(
                    cur,
                ).atoms);
            }
            i += 1;
        }
        proof {
            assert(clean@.subrange(0, n as int) =~= clean@);
        }
        Regex { rgx_def, rgx_vec, rgx_error }
    }

    /// Returns whether the expression matches the word at its start
    /// (`is_prefix`) or at its end.
    pub fn match_edge(&self, s: &str, is_prefix: bool) -> (r: bool)
        ensures
            r == self.matches_at(s@, is_prefix),
    {
        if self.rgx_error.is_some() {
            return false;
        }
        let wlen = s.unicode_len();
        let alen = self.rgx_vec.len();
        if alen > wlen {
            return false;
        }
        let mut i: usize = 0;
        while i < alen
            invariant
                wlen == s@.len(),
                alen == self.rgx_vec@.len(),
                alen <= wlen,
                i <= alen,
                self.rgx_error is None,
                is_prefix ==> forall|j: int|
                    0 <= j < i ==> atom_admits(#[trigger] self.atoms()[j], s@[j]),
                !is_prefix ==> forall|j: int|
                    0 <= j < i ==> atom_admits(#[trigger] self.atoms()[j], s@[wlen - alen + j]),
            decreases alen - i,
        {
            let atom = &self.rgx_vec[i];
            let ci = if is_prefix {
                i
            } else {
                wlen - alen + i
            };
            let c = s.get_char(ci);
            if str_contains_char(atom.0.as_str(), c) != atom.1 {
                proof {
                    assert(!atom_admits(self.atoms()[i as int], s@[ci as int]));
                }
                return false;
            }
            proof {
                assert(atom_admits(self.atoms()[i as int], s@[ci as int]));
            }
            i += 1;
        }
        true
    }
}

/// Against the empty word an edge condition matches exactly when it has
/// no atoms.
pub proof fn lemma_match_empty(atoms: Seq<(Seq<char>, bool)>, at_start: bool)
    ensures
        cond_match(atoms, Seq::<char>::empty(), at_start) == (atoms.len() == 0),
{
}

/// Matching at the start equals matching the reversed word at the end
/// with the atoms reversed.
pub proof fn lemma_match_reverse(atoms: Seq<(Seq<char>, bool)>, w: Seq<char>)
    ensures
        cond_match(atoms, w, true) == cond_match(atoms.reverse(), w.reverse(), false),
{
    let ra = atoms.reverse();
    let rw = w.reverse();
    if atoms.len() <= w.len() {
        if cond_match(atoms, w, true) {
            assert forall|i: int| 0 <= i < ra.len() implies atom_admits(
                #[trigger] ra[i],
                rw[rw.len() - ra.len() + i],
            ) by {
                let j = atoms.len() - 1 - i;
                assert(ra[i] == atoms[j]);
                assert(rw[rw.len() - ra.len() + i] == w[w.len() - 1 - (rw.len() - ra.len() + i)]);
                assert(w.len() - 1 - (rw.len() - ra.len() + i) == j);
                assert(atom_admits(atoms[j], w[j]));
            }
        }
        if cond_match(ra, rw, false) {
            assert forall|i: int| 0 <= i < atoms.len() implies atom_admits(
                #[trigger] atoms[i],
                w[i],
            ) by {
                let j = atoms.len() - 1 - i;
                assert(ra[j] == atoms[i]);
                assert(rw[rw.len() - ra.len() + j] == w[w.len() - 1 - (rw.len() - ra.len() + j)]);
                assert(w.len() - 1 - (rw.len() - ra.len() + j) == i);
                assert(atom_admits(ra[j], rw[rw.len() - ra.len() + j]));
            }
        }
    }
}

} // verus!
