//! Affix rules: one entry per rewrite, grouped into named classes that
//! act on one edge of the word (prefix or suffix).

use vstd::prelude::*;

use crate::condition::{compile_all, cleaned_def, Regex};

verus! {

/// One parsed `PFX` or `SFX` data line.
pub struct AffixEntry {
    /// text removed from the edge of the surface form to reach the root
    pub afe_sub: String,
    /// text present at the edge of the surface form
    pub afe_add: String,
    /// names of further classes that may be applied toward the root
    pub afe_next_flags: Vec<String>,
    /// edge-anchored condition on the root
    pub afe_cond: Regex,
    /// additional morphological fields; the recognizer ignores them
    pub afe_morph: Vec<String>,
    /// index of the entry within its class
    pub afe_ix: u32,
}

impl AffixEntry {
    pub fn new(afe_sub: String, afe_add: String, afe_next_flags: Vec<String>, afe_cond: String) -> (r:
        AffixEntry)
        ensures
            r.afe_sub@ == afe_sub@,
            r.afe_add@ == afe_add@,
            r.afe_next_flags@ == afe_next_flags@,
            r.afe_cond.rgx_def@ == afe_cond@,
            r.afe_cond.well_compiled(),
            r.afe_morph@.len() == 0,
            r.afe_ix == 0,
    {
        AffixEntry {
            afe_sub,
            afe_add,
            afe_next_flags,
            afe_cond: Regex::new(afe_cond),
            afe_morph: Vec::new(),
            afe_ix: 0,
        }
    }
}

/// A named group of affix entries sharing an orientation, built from the
/// initial `PFX`/`SFX` line and filled by the following data lines.
pub struct AffixGroup {
    /// the name of the group; dictionary words carry it as a flag
    pub afg_name: String,
    /// index of the group in the language's group vector
    pub afg_ix: u32,
    /// true for a prefix group
    pub afg_is_pre: bool,
    /// true if the class may take part in a circumfix (cross product `Y`)
    pub afg_circum: bool,
    /// entry count as declared in the header line
    pub afg_size: u32,
    /// the entries of the group
    pub afg_affixes: Vec<AffixEntry>,
    /// indexes of the groups that list this one among their continuation
    /// flags; computed when loading finishes
    pub afg_prev_flags: Vec<u32>,
}

impl AffixGroup {
    pub fn build_affix_group(afg_name: String, afg_is_pre: bool, afg_circum: bool, afg_size: u32) -> (r:
        AffixGroup)
        ensures
            r.afg_name@ == afg_name@,
            r.afg_ix == 0,
            r.afg_is_pre == afg_is_pre,
            r.afg_circum == afg_circum,
            r.afg_size == afg_size,
            r.afg_affixes@.len() == 0,
            r.afg_prev_flags@.len() == 0,
    {
        AffixGroup {
            afg_name,
            afg_ix: 0,
            afg_is_pre,
            afg_circum,
            afg_size,
            afg_affixes: Vec::new(),
            afg_prev_flags: Vec::new(),
        }
    }

    pub fn add_entry(&mut self, affix_entry: AffixEntry)
        ensures
            final(self).afg_affixes@ == old(self).afg_affixes@.push(affix_entry),
            final(self).afg_name == old(self).afg_name,
            final(self).afg_ix == old(self).afg_ix,
            final(self).afg_is_pre == old(self).afg_is_pre,
            final(self).afg_circum == old(self).afg_circum,
            final(self).afg_size == old(self).afg_size,
            final(self).afg_prev_flags == old(self).afg_prev_flags,
    {
        self.afg_affixes.push(affix_entry);
    }

    /// Whether the group already holds as many entries as its header
    /// declared.
    pub fn is_complete(&self) -> (r: bool)
        ensures
            r == (self.afg_affixes@.len() >= self.afg_size),
    {
        self.afg_affixes.len() >= self.afg_size as usize
    }
}

} // verus!
