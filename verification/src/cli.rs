//! The compute side of the command line: walking the argument list,
//! normalizing path separators and matching wildcard patterns. Reading
//! the environment, the file system and the terminal stays outside the
//! library.

use vstd::prelude::*;

use crate::text::{main_separator, push_char, str_ends_with, str_starts_with};
use vstd::string::StrSliceExecFns;
use vstd::string::StringExecFns;

verus! {

/// A string with every occurrence of one character replaced by another.
pub open spec fn replaced(s: Seq<char>, from: char, to: char) -> Seq<char> {
    Seq::new(
        s.len(),
        |i: int|
            if s[i] == from {
                to
            } else {
                s[i]
            },
    )
}

/// Replaces every occurrence of one character.
pub fn replace_char(s: &str, from: char, to: char) -> (r: String)
    ensures
        r@ == replaced(s@, from, to),
{
    let n = s.unicode_len();
    let mut out = String::new();
    let mut i: usize = 0;
    while i < n
        invariant
            n == s@.len(),
            i <= n,
            out@ =~= replaced(s@, from, to).subrange(0, i as int),
        decreases n - i,
    {
        let c = s.get_char(i);
        if c == from {
            push_char(&mut out, to);
        } else {
            push_char(&mut out, c);
        }
        proof {
            assert(out@ =~= replaced(s@, from, to).subrange(0, i + 1 as int));
        }
        i += 1;
    }
    proof {
        assert(out@ =~= replaced(s@, from, to));
    }
    out
}

/// The command-line arguments of the process, walked as tokens.
pub struct ArgTokens {
    /// the arguments; the first is the process name
    pub args: Vec<String>,
    /// index of the next argument to take
    pub agt_current_ix: usize,
    /// index of the last non-value argument handed out
    pub agt_last_ix: usize,
    /// positive when a value for an option was taken
    pub agt_option_processed: usize,
}

impl ArgTokens {
    pub fn new() -> (r: ArgTokens)
        ensures
            r.args@.len() == 0,
            r.agt_current_ix == 0,
            r.agt_last_ix == 0,
            r.agt_option_processed == 0,
    {
        ArgTokens { args: Vec::new(), agt_current_ix: 0, agt_last_ix: 0, agt_option_processed: 0 }
    }

    /// Takes the arguments; the process name at the front is skipped.
    pub fn set_arguments(&mut self, args: Vec<String>)
        ensures
            final(self).args@ == args@,
            final(self).agt_current_ix == 1,
            final(self).agt_last_ix == old(self).agt_last_ix,
            final(self).agt_option_processed == old(self).agt_option_processed,
    {
        self.args = args;
        self.agt_current_ix = 1;
    }

    /// Hands out the next argument, skipping any option values already
    /// consumed, or nothing when the list is exhausted.
    pub fn get_next_arg(&mut self) -> (r: Option<String>)
        ensures
            final(self).args@ == old(self).args@,
            final(self).agt_option_processed == 0,
            ({
                let start = if old(self).agt_current_ix + old(self).agt_option_processed
                    <= usize::MAX {
                    old(self).agt_current_ix + old(self).agt_option_processed
                } else {
                    usize::MAX as int
                };
                if start < old(self).args@.len() {
                    &&& r matches Some(t) && t@ == old(self).args@[start]@
                    &&& final(self).agt_last_ix == start
                    &&& final(self).agt_current_ix == start + 1
                } else {
                    &&& r is None
                    &&& final(self).agt_last_ix == old(self).agt_last_ix
                    &&& final(self).agt_current_ix == start
                }
            }),
    {
        if self.agt_option_processed <= usize::MAX - self.agt_current_ix {
            self.agt_current_ix = self.agt_current_ix + self.agt_option_processed;
        } else {
            self.agt_current_ix = usize::MAX;
        }
        self.agt_option_processed = 0;
        if self.agt_current_ix < self.args.len() {
            let result = self.args[self.agt_current_ix].clone();
            self.agt_last_ix = self.agt_current_ix;
            self.agt_current_ix += 1;
            Some(result)
        } else {
            None
        }
    }
}

/// The command-line speller's gathered settings; the dictionary and
/// test codes accumulate as options are read.
pub struct CliSpeller {
    pub arg_tokens: ArgTokens,
    /// when set, slashes in file names must already match the platform
    /// and paths pass through unchanged
    pub spl_strict_slash: bool,
    /// comma-separated dictionary codes or paths
    pub dict_codes: String,
    /// comma-separated test codes
    pub test_codes: String,
    /// comma-separated test words, filtering out the others
    pub test_words: String,
    /// plain text files to check
    pub text_files: Vec<String>,
    /// true after a bare `--` argument
    pub options_finished: bool,
}

impl CliSpeller {
    pub fn new() -> (r: CliSpeller)
        ensures
            r.spl_strict_slash == false,
            r.arg_tokens.args@.len() == 0,
            r.dict_codes@.len() == 0,
            r.test_codes@.len() == 0,
            r.test_words@.len() == 0,
            r.text_files@.len() == 0,
            r.options_finished == false,
    {
        CliSpeller {
            arg_tokens: ArgTokens::new(),
            spl_strict_slash: false,
            dict_codes: String::new(),
            test_codes: String::new(),
            test_words: String::new(),
            text_files: Vec::new(),
            options_finished: false,
        }
    }

    /// Rewrites the slashes of a path toward one separator: a backslash
    /// separator rewrites forward slashes, any other rewrites
    /// backslashes.
    pub fn normalize_path_to(path: &String, sep: char) -> (r: String)
        ensures
            sep == '\\' ==> r@ == replaced(path@, '/', '\\'),
            sep != '\\' ==> r@ == replaced(path@, '\\', sep),
    {
        if sep == '\\' {
            replace_char(path.as_str(), '/', sep)
        } else {
            replace_char(path.as_str(), '\\', sep)
        }
    }

    /// Rewrites the slashes of a path to the platform's separator, or
    /// passes the path through unchanged in strict-slash mode. Which
    /// direction the platform picks is pinned by `normalize_path_to`;
    /// here only the two possible outcomes can be stated, since the
    /// platform separator itself carries no specification beyond being
    /// a slash or a backslash.
    pub fn normalize_path(&self, path: &String) -> (r: String)
        ensures
            self.spl_strict_slash ==> r@ == path@,
            !self.spl_strict_slash ==> r@ == replaced(path@, '/', '\\') || r@ == replaced(
                path@,
                '\\',
                '/',
            ),
            r@.len() == path@.len(),
    {
        if self.spl_strict_slash {
            return path.clone();
        }
        let sep = main_separator();
        Self::normalize_path_to(path, sep)
    }

    /// Whether a name matches a single-asterisk pattern split into the
    /// text before and after the wildcard.
    pub fn matches_wildcarded(name: &str, pre_wild: &str, post_wild: &str) -> (r: bool)
        ensures
            r == (pre_wild@.len() <= name@.len() && name@.subrange(0, pre_wild@.len() as int)
                == pre_wild@ && post_wild@.len() <= name@.len() && name@.subrange(
                name@.len() - post_wild@.len(),
                name@.len() as int,
            ) == post_wild@),
    {
        str_starts_with(name, pre_wild) && str_ends_with(name, post_wild)
    }
}

} // verus!
