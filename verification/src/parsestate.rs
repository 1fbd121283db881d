//! Per-line parsing state: the tokens of one line of an `.aff` or `.dic`
//! file, and the notes (warnings and explanations) the parsers attach to
//! the line.

use vstd::prelude::*;

use crate::text::{split_tokens, split_ws, str_views};

verus! {

/// A comment on a single line or a problem met while parsing it.
pub struct ParseNote {
    /// line number in the file, starting with 1; 0 when the note has no line
    pub psn_line_no: u32,
    /// the description of the problem
    pub psn_desc: String,
    /// a detail shown on a separate line, after the description
    pub psn_details: Option<String>,
}

/// The outcome of reading one line.
#[derive(PartialEq, Eq, Structural, Clone, Copy, Debug)]
pub enum ParseStatus {
    /// line is correctly encoded and non-empty
    LineReady,
    /// line empty, commented or incorrectly encoded
    EncodingErrorOrEmpty,
    /// end of file or reading error
    FileEnded,
}

/// A text line together with its whitespace tokenization.
pub struct ParsedLine {
    pub pln_line: String,
    pub pln_tokens: Vec<String>,
}

impl ParsedLine {
    pub fn new(pln_line: String) -> (r: ParsedLine)
        ensures
            r.pln_line@ == pln_line@,
            str_views(r.pln_tokens@) == split_ws(pln_line@),
    {
        let pln_tokens = split_tokens(pln_line.as_str());
        ParsedLine { pln_line, pln_tokens }
    }
}

/// State while parsing a single line: its number, its tokens, a cursor
/// over them, the first token once taken, and the notes gathered so far.
pub struct ParseState {
    /// line number in the file, starting with 1
    pub pst_line_no: u32,
    /// all tokens of the line
    pub pst_tokens: Vec<String>,
    /// index of the next token not yet handed out
    pub pst_next: usize,
    /// the first token of the line, once it has been asked for
    pub pst_first_token: Option<String>,
    /// warnings and explanations of error handling
    pub pst_notes: Vec<ParseNote>,
}

impl ParseState {
    /// The token a call of `get_first_token` returns in this state.
    pub open spec fn first_view(&self) -> Seq<char> {
        if self.pst_first_token is Some {
            self.pst_first_token->0@
        } else if self.pst_next < self.pst_tokens@.len() {
            self.pst_tokens@[self.pst_next as int]@
        } else {
            Seq::empty()
        }
    }

    /// The tokens not yet handed out.
    pub open spec fn rest_view(&self) -> Seq<Seq<char>> {
        if self.pst_next <= self.pst_tokens@.len() {
            str_views(self.pst_tokens@).subrange(
                self.pst_next as int,
                self.pst_tokens@.len() as int,
            )
        } else {
            Seq::empty()
        }
    }

    /// The arguments of the line: the tokens after the first one,
    /// as the parsers see them once the first token has been taken.
    pub open spec fn args_view(&self) -> Seq<Seq<char>> {
        if self.pst_first_token is Some {
            self.rest_view()
        } else if self.rest_view().len() > 0 {
            self.rest_view().drop_first()
        } else {
            Seq::empty()
        }
    }

    /// The notes, as pairs of description and optional detail.
    pub open spec fn notes_view(&self) -> Seq<(Seq<char>, Option<Seq<char>>)> {
        self.pst_notes@.map_values(
            |n: ParseNote|
                (
                    n.psn_desc@,
                    match n.psn_details {
                        Some(d) => Some(d@),
                        None => None,
                    },
                ),
        )
    }

    /// Everything but the cursor and the notes is unchanged.
    pub open spec fn same_line(&self, other: &ParseState) -> bool {
        &&& self.pst_line_no == other.pst_line_no
        &&& self.pst_tokens@ == other.pst_tokens@
    }

    pub fn new(pst_line_no: u32, pst_tokens: Vec<String>) -> (r: ParseState)
        ensures
            r.pst_line_no == pst_line_no,
            r.pst_tokens@ == pst_tokens@,
            r.pst_next == 0,
            r.pst_first_token is None,
            r.pst_notes@.len() == 0,
    {
        ParseState { pst_line_no, pst_tokens, pst_next: 0, pst_first_token: None, pst_notes: Vec::new() }
    }

    /// Records a note without detail on this line.
    pub fn add_note(&mut self, desc: &str)
        ensures
            final(self).same_line(old(self)),
            final(self).pst_next == old(self).pst_next,
            final(self).pst_first_token == old(self).pst_first_token,
            final(self).notes_view() == old(self).notes_view().push((desc@, None)),
            final(self).pst_notes@.len() == old(self).pst_notes@.len() + 1,
            final(self).pst_notes@.last().psn_line_no == old(self).pst_line_no,
    {
        self.pst_notes.push(
            ParseNote {
                psn_line_no: self.pst_line_no,
                psn_desc: String::from_str(desc),
                psn_details: None,
            },
        );
        proof {
            assert(self.notes_view() =~= old(self).notes_view().push((desc@, None)));
        }
    }

    /// Records a note with a detail line.
    pub fn add_note2(&mut self, desc: &str, detail: &String)
        ensures
            final(self).same_line(old(self)),
            final(self).pst_next == old(self).pst_next,
            final(self).pst_first_token == old(self).pst_first_token,
            final(self).notes_view() == old(self).notes_view().push((desc@, Some(detail@))),
            final(self).pst_notes@.len() == old(self).pst_notes@.len() + 1,
            final(self).pst_notes@.last().psn_line_no == old(self).pst_line_no,
    {
        self.pst_notes.push(
            ParseNote {
                psn_line_no: self.pst_line_no,
                psn_desc: String::from_str(desc),
                psn_details: Some(detail.clone()),
            },
        );
        proof {
            assert(self.notes_view() =~= old(self).notes_view().push((desc@, Some(detail@))));
        }
    }

    /// Hands out the next token of the line, if any is left.
    pub fn get_next_token(&mut self) -> (r: Option<String>)
        ensures
            final(self).same_line(old(self)),
            final(self).pst_first_token == old(self).pst_first_token,
            final(self).pst_notes@ == old(self).pst_notes@,
            r is Some <==> old(self).pst_next < old(self).pst_tokens@.len(),
            r matches Some(t) ==> {
                &&& t@ == old(self).pst_tokens@[old(self).pst_next as int]@
                &&& final(self).pst_next == old(self).pst_next + 1
                &&& t@ == old(self).rest_view()[0]
                &&& final(self).rest_view() == old(self).rest_view().drop_first()
            },
            r is None ==> final(self).pst_next == old(self).pst_next,
    {
        if self.pst_next < self.pst_tokens.len() {
            let t = self.pst_tokens[self.pst_next].clone();
            self.pst_next += 1;
            proof {
                assert(self.rest_view() =~= old(self).rest_view().drop_first());
                assert(t@ == old(self).rest_view()[0]);
            }
            Some(t)
        } else {
            None
        }
    }

    /// Returns the first token of the line, or the empty string when the
    /// line has none. The first call takes it from the cursor.
    pub fn get_first_token(&mut self) -> (r: String)
        ensures
            final(self).same_line(old(self)),
            final(self).pst_notes@ == old(self).pst_notes@,
            r@ == old(self).first_view(),
            final(self).first_view() == old(self).first_view(),
            final(self).pst_first_token is Some,
            final(self).rest_view() == old(self).args_view(),
            final(self).args_view() == old(self).args_view(),
            old(self).pst_first_token is Some ==> final(self).pst_next == old(self).pst_next,
            old(self).pst_first_token is None ==> final(self).pst_next as int == if old(
                self,
            ).pst_next < old(self).pst_tokens@.len() {
                old(self).pst_next + 1
            } else {
                old(self).pst_next as int
            },
    {
        if self.pst_first_token.is_none() {
            if self.pst_next < self.pst_tokens.len() {
                let t = self.pst_tokens[self.pst_next].clone();
                self.pst_next += 1;
                self.pst_first_token = Some(t);
                proof {
                    assert(self.rest_view() =~= old(self).args_view());
                }
            } else {
                self.pst_first_token = Some(String::new());
                proof {
                    assert(self.rest_view() =~= old(self).args_view());
                }
            }
        }
        match &self.pst_first_token {
            Some(t) => t.clone(),
            None => String::new(),
        }
    }

    /// The notes gathered on this line.
    pub fn get_notes(&self) -> (r: &Vec<ParseNote>)
        ensures
            r@ == self.pst_notes@,
    {
        &self.pst_notes
    }

    /// How many notes the line has gathered.
    pub fn get_note_length(&self) -> (r: usize)
        ensures
            r == self.pst_notes@.len(),
    {
        self.pst_notes.len()
    }

    /// Hands out all remaining tokens of the line at once.
    pub fn collect_rest(&mut self) -> (r: Vec<String>)
        ensures
            final(self).same_line(old(self)),
            final(self).pst_first_token == old(self).pst_first_token,
            final(self).pst_notes@ == old(self).pst_notes@,
            str_views(r@) == old(self).rest_view(),
            final(self).rest_view() == Seq::<Seq<char>>::empty(),
    {
        let mut r: Vec<String> = Vec::new();
        proof {
            assert(str_views(r@) =~= Seq::<Seq<char>>::empty());
        }
        while self.pst_next < self.pst_tokens.len()
            invariant
                self.same_line(old(self)),
                self.pst_first_token == old(self).pst_first_token,
                self.pst_notes@ == old(self).pst_notes@,
                self.pst_next >= old(self).pst_next,
                old(self).pst_next <= old(self).pst_tokens@.len() ==> (self.pst_next
                    <= self.pst_tokens@.len() && str_views(r@) =~= str_views(
                    old(self).pst_tokens@,
                ).subrange(old(self).pst_next as int, self.pst_next as int)),
                old(self).pst_next > old(self).pst_tokens@.len() ==> (r@.len() == 0
                    && self.pst_next == old(self).pst_next),
            decreases self.pst_tokens@.len() - self.pst_next,
        {
            let ghost before = str_views(r@);
            r.push(self.pst_tokens[self.pst_next].clone());
            self.pst_next += 1;
            proof {
                assert(str_views(r@) =~= before.push(
                    self.pst_tokens@[self.pst_next - 1]@,
                ));
            }
        }
        proof {
            if old(self).pst_next <= old(self).pst_tokens@.len() {
                assert(str_views(r@) =~= old(self).rest_view());
            } else {
                assert(str_views(r@) =~= old(self).rest_view());
            }
            assert(self.rest_view() =~= Seq::<Seq<char>>::empty());
        }
        r
    }
}

} // verus!
