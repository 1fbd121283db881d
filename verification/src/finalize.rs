//! End-of-load finalization: the affix-class names enter the flag map,
//! the affix entries are counted, and the continuation-class graph is
//! turned around — each class learns which classes name it among their
//! continuation flags, so that the recognizer can restrict a second
//! strip on a side to continuation-linked pairs.

use vstd::prelude::*;

use crate::affix::AffixGroup;
use crate::dict::flag_views;
use crate::lang::{u32_clamp, Lang};
use crate::store::FlagType;
use crate::text::str_views;
use vstd::string::StringExecFns;

verus! {

/// The flag map after each class name is registered, in class order,
/// as an affix flag carrying the class's index.
pub open spec fn names_inserted(
    m: Map<Seq<char>, (FlagType, u32)>,
    groups: Seq<AffixGroup>,
) -> Map<Seq<char>, (FlagType, u32)>
    decreases groups.len(),
{
    if groups.len() == 0 {
        m
    } else {
        names_inserted(
            m.insert(groups[0].afg_name@, (FlagType::FlagAffix, groups[0].afg_ix)),
            groups.drop_first(),
        )
    }
}

/// The total entry count of the classes.
pub open spec fn entry_count_sum(groups: Seq<AffixGroup>) -> int
    decreases groups.len(),
{
    if groups.len() == 0 {
        0
    } else {
        groups[0].afg_affixes@.len() + entry_count_sum(groups.drop_first())
    }
}

/// The continuation flags of entry `e` of class `c`.
pub open spec fn entry_flags(groups: Seq<AffixGroup>, c: int, e: int) -> Seq<Seq<char>> {
    flag_views(groups[c].afg_affixes@[e].afe_next_flags@)
}

/// Entry `e` of class `c` carries a continuation flag at position `fi`
/// that the flag map resolves to class index `d`.
pub open spec fn link_at(
    m: Map<Seq<char>, (FlagType, u32)>,
    groups: Seq<AffixGroup>,
    c: int,
    e: int,
    fi: int,
    d: int,
) -> bool {
    &&& 0 <= e < groups[c].afg_affixes@.len()
    &&& 0 <= fi < entry_flags(groups, c, e).len()
    &&& m.dom().contains(entry_flags(groups, c, e)[fi])
    &&& m[entry_flags(groups, c, e)[fi]].1 == d
}

/// Some continuation flag of class `c` resolves to class index `d`.
pub open spec fn class_links(
    m: Map<Seq<char>, (FlagType, u32)>,
    groups: Seq<AffixGroup>,
    c: int,
    d: int,
) -> bool {
    exists|e: int, fi: int| #[trigger] link_at(m, groups, c, e, fi, d)
}

/// A class index value belongs in the predecessor list of class `d`:
/// some class carries it and has a continuation flag resolving to `d`.
pub open spec fn is_predecessor(
    m: Map<Seq<char>, (FlagType, u32)>,
    groups: Seq<AffixGroup>,
    d: int,
    v: u32,
) -> bool {
    exists|c: int|
        0 <= c < groups.len() && (#[trigger] groups[c].afg_ix) == v && class_links(m, groups, c, d)
}

/// The message naming an unresolved continuation flag of a class.
pub open spec fn unresolved_msg(name: Seq<char>, f: Seq<char>) -> Seq<char> {
    "Unknown next flags in group "@ + name + ": "@ + f
}

/// The unresolved-flag notes of one entry's continuation flags.
pub open spec fn unresolved_fold_flags(
    m: Map<Seq<char>, (FlagType, u32)>,
    name: Seq<char>,
    fs: Seq<Seq<char>>,
    notes: Seq<Seq<char>>,
) -> Seq<Seq<char>>
    decreases fs.len(),
{
    if fs.len() == 0 {
        notes
    } else if !m.dom().contains(fs[0]) {
        unresolved_fold_flags(m, name, fs.drop_first(), notes.push(unresolved_msg(name, fs[0])))
    } else {
        unresolved_fold_flags(m, name, fs.drop_first(), notes)
    }
}

/// The unresolved-flag notes of one class's entries.
pub open spec fn unresolved_fold_entries(
    m: Map<Seq<char>, (FlagType, u32)>,
    name: Seq<char>,
    ess: Seq<Seq<Seq<char>>>,
    notes: Seq<Seq<char>>,
) -> Seq<Seq<char>>
    decreases ess.len(),
{
    if ess.len() == 0 {
        notes
    } else {
        unresolved_fold_entries(
            m,
            name,
            ess.drop_first(),
            unresolved_fold_flags(m, name, ess[0], notes),
        )
    }
}

/// The continuation-flag sequences of a class's entries.
pub open spec fn group_flag_views(g: AffixGroup) -> Seq<Seq<Seq<char>>> {
    g.afg_affixes@.map_values(|e: crate::affix::AffixEntry| flag_views(e.afe_next_flags@))
}

/// The unresolved-flag notes of every class, in class order.
pub open spec fn unresolved_fold_groups(
    m: Map<Seq<char>, (FlagType, u32)>,
    groups: Seq<AffixGroup>,
    notes: Seq<Seq<char>>,
) -> Seq<Seq<char>>
    decreases groups.len(),
{
    if groups.len() == 0 {
        notes
    } else {
        unresolved_fold_groups(
            m,
            groups.drop_first(),
            unresolved_fold_entries(m, groups[0].afg_name@, group_flag_views(groups[0]), notes),
        )
    }
}

/// The header fields and entries of a class are untouched.
pub open spec fn same_group_but_prev(a: AffixGroup, b: AffixGroup) -> bool {
    &&& a.afg_name@ == b.afg_name@
    &&& a.afg_ix == b.afg_ix
    &&& a.afg_is_pre == b.afg_is_pre
    &&& a.afg_circum == b.afg_circum
    &&& a.afg_size == b.afg_size
    &&& a.afg_affixes@ == b.afg_affixes@
}

proof fn lemma_entry_count_nonneg(groups: Seq<AffixGroup>)
    ensures
        entry_count_sum(groups) >= 0,
    decreases groups.len(),
{
    if groups.len() > 0 {
        lemma_entry_count_nonneg(groups.drop_first());
    }
}

proof fn lemma_entry_count_suffix(groups: Seq<AffixGroup>)
    requires
        groups.len() > 0,
    ensures
        entry_count_sum(groups) == entry_count_sum(groups.drop_last())
            + groups.last().afg_affixes@.len(),
    decreases groups.len(),
{
    if groups.len() == 1 {
        assert(groups.drop_last() =~= Seq::<AffixGroup>::empty());
        assert(groups.drop_first() =~= Seq::<AffixGroup>::empty());
    } else {
        lemma_entry_count_suffix(groups.drop_first());
        assert(groups.drop_first().drop_last() =~= groups.drop_last().drop_first());
        assert(groups.drop_last()[0] == groups[0]);
        assert(groups.drop_first().last() == groups.last());
    }
}

impl Lang {
    /// Collects, for class `d`, the indexes of the classes whose
    /// continuation flags the flag map resolves to `d`.
    #[verifier::rlimit(100)]
    #[verifier::spinoff_prover]
    fn gather_predecessors(&self, d: usize) -> (prev: Vec<u32>)
        requires
            d < self.slg_aff_groups@.len(),
        ensures
            forall|v: u32|
                (#[trigger] prev@.contains(v)) <==> is_predecessor(
                    self.flags_of(),
                    self.slg_aff_groups@,
                    d as int,
                    v,
                ),
    {
        let ghost m = self.flags_of();
        let ghost groups = self.slg_aff_groups@;
        let glen = self.slg_aff_groups.len();
        let mut prev: Vec<u32> = Vec::new();
        let mut ci: usize = 0;
        while ci < glen
            invariant
                ci <= glen,
                glen == self.slg_aff_groups@.len(),
                m == self.flags_of(),
                groups == self.slg_aff_groups@,
                d < glen,
                forall|k: int|
                    0 <= k < prev@.len() ==> is_predecessor(m, groups, d as int, #[trigger] prev@[k]),
                forall|c: int, e: int, fi: int|
                    0 <= c < ci && #[trigger] link_at(m, groups, c, e, fi, d as int)
                        ==> prev@.contains(groups[c].afg_ix),
            decreases glen - ci,
        {
            let elen = self.slg_aff_groups[ci].afg_affixes.len();
            let mut ei: usize = 0;
            while ei < elen
                invariant
                    ei <= elen,
                    ci < glen,
                    glen == self.slg_aff_groups@.len(),
                    m == self.flags_of(),
                    groups == self.slg_aff_groups@,
                    d < glen,
                    elen == groups[ci as int].afg_affixes@.len(),
                    forall|k: int|
                        0 <= k < prev@.len() ==> is_predecessor(
                            m,
                            groups,
                            d as int,
                            #[trigger] prev@[k],
                        ),
                    forall|c: int, e: int, fi: int|
                        0 <= c < ci && #[trigger] link_at(m, groups, c, e, fi, d as int)
                            ==> prev@.contains(groups[c].afg_ix),
                    forall|e: int, fi: int|
                        0 <= e < ei && #[trigger] link_at(m, groups, ci as int, e, fi, d as int)
                            ==> prev@.contains(groups[ci as int].afg_ix),
                decreases elen - ei,
            {
                let fcount = self.slg_aff_groups[ci].afg_affixes[ei].afe_next_flags.len();
                let mut fi: usize = 0;
                while fi < fcount
                    invariant
                        fi <= fcount,
                        ei < elen,
                        ci < glen,
                        glen == self.slg_aff_groups@.len(),
                        m == self.flags_of(),
                        groups == self.slg_aff_groups@,
                        d < glen,
                        elen == groups[ci as int].afg_affixes@.len(),
                        fcount == entry_flags(groups, ci as int, ei as int).len(),
                        forall|k: int|
                            0 <= k < prev@.len() ==> is_predecessor(
                                m,
                                groups,
                                d as int,
                                #[trigger] prev@[k],
                            ),
                        forall|c: int, e: int, f: int|
                            0 <= c < ci && #[trigger] link_at(m, groups, c, e, f, d as int)
                                ==> prev@.contains(groups[c].afg_ix),
                        forall|e: int, f: int|
                            0 <= e < ei && #[trigger] link_at(m, groups, ci as int, e, f, d as int)
                                ==> prev@.contains(groups[ci as int].afg_ix),
                        forall|f: int|
                            0 <= f < fi && #[trigger] link_at(
                                m,
                                groups,
                                ci as int,
                                ei as int,
                                f,
                                d as int,
                            ) ==> prev@.contains(groups[ci as int].afg_ix),
                    decreases fcount - fi,
                {
                    proof {
                        assert(entry_flags(groups, ci as int, ei as int)[fi as int]
                            == self.slg_aff_groups@[ci as int].afg_affixes@[ei as int]
                            .afe_next_flags@[fi as int]@);
                    }
                    let flag = &self.slg_aff_groups[ci].afg_affixes[ei].afe_next_flags[fi];
                    let mut hit = false;
                    match self.slg_flag_hash.get(flag) {
                        Some(pair) => {
                            if pair.1 as usize == d {
                                hit = true;
                            }
                        },
                        None => {},
                    }
                    if hit {
                        let ghost before = prev@;
                        prev.push(self.slg_aff_groups[ci].afg_ix);
                        proof {
                            assert(link_at(m, groups, ci as int, ei as int, fi as int, d as int));
                            assert(is_predecessor(m, groups, d as int, groups[ci as int].afg_ix));
                            assert(prev@[prev@.len() - 1] == groups[ci as int].afg_ix);
                            assert(prev@.contains(groups[ci as int].afg_ix));
                            assert(forall|v: u32|
                                before.contains(v) ==> #[trigger] prev@.contains(v)) by {
                                assert(forall|k: int|
                                    0 <= k < before.len() ==> prev@[k] == #[trigger] before[k]);
                            }
                        }
                    } else {
                        proof {
                            assert(!link_at(m, groups, ci as int, ei as int, fi as int, d as int));
                        }
                    }
                    fi += 1;
                }
                ei += 1;
            }
            ci += 1;
        }
        proof {
            assert forall|v: u32|
                (#[trigger] prev@.contains(v)) implies is_predecessor(
                m,
                groups,
                d as int,
                v,
            ) by {
                let k = choose|k: int| 0 <= k < prev@.len() && prev@[k] == v;
                assert(is_predecessor(m, groups, d as int, prev@[k]));
            }
        }
        prev
    }

    /// Finishes loading: registers every class name in the flag map as
    /// an affix flag carrying the class's index, counts the entries,
    /// and fills each class's predecessor list — a class index stands
    /// in it exactly when some continuation flag of a class bearing
    /// that index resolves, through the finished flag map, to the class
    /// holding the list. One note names each unresolved continuation
    /// flag.
    #[verifier::rlimit(100)]
    #[verifier::spinoff_prover]
    pub fn finalize_parsing(&mut self) -> (notes: Vec<String>)
        ensures
            final(self).same_core(old(self)),
            final(self).same_dict(old(self)),
            final(self).same_tallies(old(self)),
            final(self).slg_af@ == old(self).slg_af@,
            final(self).slg_af_parsed == old(self).slg_af_parsed,
            final(self).slg_compoundrule@ == old(self).slg_compoundrule@,
            final(self).slg_compoundrule_parsed == old(self).slg_compoundrule_parsed,
            final(self).slg_pfxes@ == old(self).slg_pfxes@,
            final(self).slg_sfxes@ == old(self).slg_sfxes@,
            final(self).flags_of() == names_inserted(
                old(self).flags_of(),
                old(self).slg_aff_groups@,
            ),
            final(self).slg_affix_ct == u32_clamp(entry_count_sum(old(self).slg_aff_groups@)),
            str_views(notes@) == unresolved_fold_groups(
                final(self).flags_of(),
                old(self).slg_aff_groups@,
                Seq::empty(),
            ),
            final(self).slg_aff_groups@.len() == old(self).slg_aff_groups@.len(),
            forall|d: int|
                0 <= d < final(self).slg_aff_groups@.len() ==> same_group_but_prev(
                    #[trigger] final(self).slg_aff_groups@[d],
                    old(self).slg_aff_groups@[d],
                ),
            forall|d: int, v: u32|
                0 <= d < final(self).slg_aff_groups@.len() ==> ((#[trigger] final(self).slg_aff_groups@[d].afg_prev_flags@.contains(v)) <==> is_predecessor(
                    final(self).flags_of(),
                    old(self).slg_aff_groups@,
                    d,
                    v,
                )),
    {
        let ghost groups0 = self.slg_aff_groups@;
        let glen = self.slg_aff_groups.len();

        // first pass: register the class names and count the entries
        let mut affix_ct: u32 = 0;
        let mut gi: usize = 0;
        proof {
            assert(groups0.subrange(0, glen as int) =~= groups0);
            assert(groups0.subrange(0, 0) =~= Seq::<AffixGroup>::empty());
        }
        while gi < glen
            invariant
                gi <= glen,
                glen == self.slg_aff_groups@.len(),
                self.slg_aff_groups@ == groups0,
                self.same_core(old(self)),
                self.same_dict(old(self)),
                self.same_tallies(old(self)),
                self.slg_af@ == old(self).slg_af@,
                self.slg_af_parsed == old(self).slg_af_parsed,
                self.slg_compoundrule@ == old(self).slg_compoundrule@,
                self.slg_compoundrule_parsed == old(self).slg_compoundrule_parsed,
                self.slg_pfxes@ == old(self).slg_pfxes@,
                self.slg_sfxes@ == old(self).slg_sfxes@,
                self.slg_affix_ct == old(self).slg_affix_ct,
                names_inserted(old(self).flags_of(), groups0) == names_inserted(
                    self.flags_of(),
                    groups0.subrange(gi as int, glen as int),
                ),
                affix_ct == u32_clamp(entry_count_sum(groups0.subrange(0, gi as int))),
            decreases glen - gi,
        {
            let ghost rest = groups0.subrange(gi as int, glen as int);
            proof {
                assert(rest.drop_first() =~= groups0.subrange(gi + 1 as int, glen as int));
                assert(rest[0] == groups0[gi as int]);
                lemma_entry_count_suffix(groups0.subrange(0, gi + 1 as int));
                lemma_entry_count_nonneg(groups0.subrange(0, gi as int));
                lemma_entry_count_nonneg(groups0.subrange(0, gi + 1 as int));
                assert(groups0.subrange(0, gi + 1 as int).drop_last() =~= groups0.subrange(
                    0,
                    gi as int,
                ));
                assert(groups0.subrange(0, gi + 1 as int).last() == groups0[gi as int]);
            }
            let name = self.slg_aff_groups[gi].afg_name.clone();
            let ix = self.slg_aff_groups[gi].afg_ix;
            self.slg_flag_hash.insert(name, (FlagType::FlagAffix, ix));
            let elen = self.slg_aff_groups[gi].afg_affixes.len();
            affix_ct = if elen <= 0xffff_ffffusize && affix_ct <= 0xffff_ffffu32 - (elen as u32) {
                affix_ct + (elen as u32)
            } else {
                0xffff_ffff
            };
            gi += 1;
        }
        proof {
            assert(groups0.subrange(glen as int, glen as int) =~= Seq::<AffixGroup>::empty());
            assert(groups0.subrange(0, glen as int) =~= groups0);
        }
        self.slg_affix_ct = affix_ct;

        // second pass: one note per continuation flag the finished map
        // does not resolve
        let mut notes: Vec<String> = Vec::new();
        let mut ci: usize = 0;
        proof {
            assert(str_views(notes@) =~= Seq::<Seq<char>>::empty());
        }
        while ci < glen
            invariant
                ci <= glen,
                glen == self.slg_aff_groups@.len(),
                self.slg_aff_groups@ == groups0,
                self.flags_of() == names_inserted(old(self).flags_of(), groups0),
                unresolved_fold_groups(self.flags_of(), groups0, Seq::empty())
                    == unresolved_fold_groups(
                    self.flags_of(),
                    groups0.subrange(ci as int, glen as int),
                    str_views(notes@),
                ),
            decreases glen - ci,
        {
            let ghost grest = groups0.subrange(ci as int, glen as int);
            let ghost notes_g = str_views(notes@);
            proof {
                assert(grest.drop_first() =~= groups0.subrange(ci + 1 as int, glen as int));
                assert(grest[0] == groups0[ci as int]);
            }
            let elen = self.slg_aff_groups[ci].afg_affixes.len();
            let ghost ess = group_flag_views(groups0[ci as int]);
            let ghost gname = groups0[ci as int].afg_name@;
            let mut ei: usize = 0;
            proof {
                assert(ess.subrange(0, ess.len() as int) =~= ess);
            }
            while ei < elen
                invariant
                    ei <= elen,
                    ci < glen,
                    glen == self.slg_aff_groups@.len(),
                    self.slg_aff_groups@ == groups0,
                    elen == groups0[ci as int].afg_affixes@.len(),
                    elen == ess.len(),
                    ess == group_flag_views(groups0[ci as int]),
                    gname == groups0[ci as int].afg_name@,
                    self.flags_of() == names_inserted(old(self).flags_of(), groups0),
                    unresolved_fold_entries(self.flags_of(), gname, ess, notes_g)
                        == unresolved_fold_entries(
                        self.flags_of(),
                        gname,
                        ess.subrange(ei as int, ess.len() as int),
                        str_views(notes@),
                    ),
                decreases elen - ei,
            {
                let ghost erest = ess.subrange(ei as int, ess.len() as int);
                let ghost notes_e = str_views(notes@);
                proof {
                    assert(erest.drop_first() =~= ess.subrange(ei + 1 as int, ess.len() as int));
                    assert(erest[0] == ess[ei as int]);
                    assert(ess[ei as int] =~= flag_views(
                        groups0[ci as int].afg_affixes@[ei as int].afe_next_flags@,
                    ));
                }
                let fcount = self.slg_aff_groups[ci].afg_affixes[ei].afe_next_flags.len();
                let ghost fs = ess[ei as int];
                let mut fi: usize = 0;
                proof {
                    assert(fs.subrange(0, fs.len() as int) =~= fs);
                }
                while fi < fcount
                    invariant
                        fi <= fcount,
                        ci < glen,
                        ei < elen,
                        glen == self.slg_aff_groups@.len(),
                        self.slg_aff_groups@ == groups0,
                        elen == groups0[ci as int].afg_affixes@.len(),
                        fcount == groups0[ci as int].afg_affixes@[ei as int].afe_next_flags@.len(),
                        fcount == fs.len(),
                        fs == flag_views(
                            groups0[ci as int].afg_affixes@[ei as int].afe_next_flags@,
                        ),
                        gname == groups0[ci as int].afg_name@,
                        self.flags_of() == names_inserted(old(self).flags_of(), groups0),
                        unresolved_fold_flags(self.flags_of(), gname, fs, notes_e)
                            == unresolved_fold_flags(
                            self.flags_of(),
                            gname,
                            fs.subrange(fi as int, fs.len() as int),
                            str_views(notes@),
                        ),
                    decreases fcount - fi,
                {
                    let ghost frest = fs.subrange(fi as int, fs.len() as int);
                    proof {
                        assert(frest.drop_first() =~= fs.subrange(
                            fi + 1 as int,
                            fs.len() as int,
                        ));
                        assert(frest[0] == groups0[ci as int].afg_affixes@[ei as int]
                            .afe_next_flags@[fi as int]@);
                    }
                    let flag = self.slg_aff_groups[ci].afg_affixes[ei].afe_next_flags[fi].clone();
                    if !self.slg_flag_hash.contains(&flag) {
                        let mut msg = String::from_str("Unknown next flags in group ");
                        msg.append(self.slg_aff_groups[ci].afg_name.as_str());
                        msg.append(": ");
                        msg.append(flag.as_str());
                        proof {
                            reveal_strlit("Unknown next flags in group ");
                            reveal_strlit(": ");
                        }
                        let ghost before = str_views(notes@);
                        notes.push(msg);
                        proof {
                            assert(str_views(notes@) =~= before.push(
                                unresolved_msg(gname, frest[0]),
                            ));
                        }
                    }
                    fi += 1;
                }
                proof {
                    assert(fs.subrange(fs.len() as int, fs.len() as int) =~= Seq::<
                        Seq<char>,
                    >::empty());
                }
                ei += 1;
            }
            proof {
                assert(ess.subrange(ess.len() as int, ess.len() as int) =~= Seq::<
                    Seq<Seq<char>>,
                >::empty());
            }
            ci += 1;
        }
        proof {
            assert(groups0.subrange(glen as int, glen as int) =~= Seq::<AffixGroup>::empty());
        }

        // third pass: each class gathers its predecessors
        let mut di: usize = 0;
        while di < glen
            invariant
                di <= glen,
                glen == self.slg_aff_groups@.len(),
                groups0.len() == glen,
                self.flags_of() == names_inserted(old(self).flags_of(), groups0),
                forall|d: int|
                    0 <= d < glen ==> same_group_but_prev(
                        #[trigger] self.slg_aff_groups@[d],
                        groups0[d],
                    ),
                forall|d: int, v: u32|
                    0 <= d < di ==> ((#[trigger] self.slg_aff_groups@[d].afg_prev_flags@.contains(
                        v,
                    )) <==> is_predecessor(self.flags_of(), groups0, d, v)),
                self.same_core(old(self)),
                self.same_dict(old(self)),
                self.same_tallies(old(self)),
                self.slg_af@ == old(self).slg_af@,
                self.slg_af_parsed == old(self).slg_af_parsed,
                self.slg_compoundrule@ == old(self).slg_compoundrule@,
                self.slg_compoundrule_parsed == old(self).slg_compoundrule_parsed,
                self.slg_pfxes@ == old(self).slg_pfxes@,
                self.slg_sfxes@ == old(self).slg_sfxes@,
                self.slg_affix_ct == u32_clamp(entry_count_sum(groups0)),
            decreases glen - di,
        {
            let ghost groups_now = self.slg_aff_groups@;
            let prev = self.gather_predecessors(di);
            proof {
                lemma_links_same_groups(self.flags_of(), groups_now, groups0, di as int);
            }
            let mut g = self.slg_aff_groups.remove(di);
            proof {
                assert(same_group_but_prev(g, groups0[di as int]));
            }
            g.afg_prev_flags = prev;
            self.slg_aff_groups.insert(di, g);
            proof {
                assert(self.slg_aff_groups@[di as int] == g);
                assert(same_group_but_prev(g, groups0[di as int]));
                assert(self.slg_aff_groups@ =~= groups_now.update(di as int, g));
                assert(forall|dd: int|
                    0 <= dd < glen && dd != di ==> #[trigger] self.slg_aff_groups@[dd]
                        == groups_now[dd]);
            }
            di += 1;
        }
        notes
    }
}

/// Two group sequences equal in names, indexes and entries carry the
/// same continuation links.
proof fn lemma_links_same_groups(
    m: Map<Seq<char>, (FlagType, u32)>,
    a: Seq<AffixGroup>,
    b: Seq<AffixGroup>,
    d: int,
)
    requires
        a.len() == b.len(),
        forall|i: int| 0 <= i < a.len() ==> same_group_but_prev(#[trigger] a[i], b[i]),
    ensures
        forall|v: u32| is_predecessor(m, a, d, v) <==> is_predecessor(m, b, d, v),
{
    assert forall|c: int, e: int, fi: int| 0 <= c < a.len() implies (#[trigger] link_at(
        m,
        a,
        c,
        e,
        fi,
        d,
    ) <==> link_at(m, b, c, e, fi, d)) by {
        assert(same_group_but_prev(a[c], b[c]));
        assert(a[c].afg_affixes@ == b[c].afg_affixes@);
    }
    assert forall|v: u32| #[trigger] is_predecessor(m, a, d, v) implies is_predecessor(
        m,
        b,
        d,
        v,
    ) by {
        let c = choose|c: int|
            0 <= c < a.len() && (#[trigger] a[c].afg_ix) == v && class_links(m, a, c, d);
        let (e, fi) = choose|e: int, fi: int| #[trigger] link_at(m, a, c, e, fi, d);
        assert(link_at(m, b, c, e, fi, d));
        assert(class_links(m, b, c, d));
        assert(b[c].afg_ix == v);
    }
    assert forall|v: u32| #[trigger] is_predecessor(m, b, d, v) implies is_predecessor(
        m,
        a,
        d,
        v,
    ) by {
        let c = choose|c: int|
            0 <= c < b.len() && (#[trigger] b[c].afg_ix) == v && class_links(m, b, c, d);
        let (e, fi) = choose|e: int, fi: int| #[trigger] link_at(m, b, c, e, fi, d);
        assert(link_at(m, a, c, e, fi, d));
        assert(class_links(m, a, c, d));
        assert(a[c].afg_ix == v);
    }
}

} // verus!
