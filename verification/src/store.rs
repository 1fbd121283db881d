//! The keyed stores of a loaded language: the dictionary map and the
//! flag map, backed by `hashbrown`, and a small tally list for counting
//! unrecognized tags and flags.
//!
//! The two hash maps are held in opaque wrappers; what they hold is
//! named by a contents function, and each method the checker calls has a
//! contract over it.

use vstd::prelude::*;

use crate::dict::DicEntry;
use crate::text::str_eq;

verus! {

/// Flags can be declared by many kinds of element; each entry of the
/// flag map records which kind declared it.
#[derive(PartialEq, Eq, Structural, Clone, Copy, Debug)]
pub enum FlagType {
    FlagAffix,
    FlagAf,
    FlagCompRule,
    FlagCompound,
    FlagCompBegin,
    FlagCompLast,
    FlagCompMid,
    FlagCompEnd,
    FlagOnlyComp,
    FlagCompPermit,
    FlagCompForbid,
    FlagCompRoot,
    FlagNeedAffix,
    FlagCircumfix,
    FlagForbidden,
    FlagSubstandard,
    FlagNoSuggest,
    FlagKeepCase,
    FlagForceUcase,
    FlagWarn,
    FlagLemma,
}

/// The dictionary store: a map from entry key to dictionary entry.
#[verifier::external_body]
pub struct DictTable {
    map: hashbrown::HashMap<String, DicEntry>,
}

/// What the dictionary store holds.
pub uninterp spec fn dict_contents(t: DictTable) -> Map<Seq<char>, DicEntry>;

/// The empty dictionary contents.
pub open spec fn dict_empty_map() -> Map<Seq<char>, DicEntry> {
    Map::empty()
}

impl DictTable {
    /// Relies on `hashbrown::HashMap::new`: the new map is empty.
    #[verifier::external_body]
    pub fn new() -> (r: DictTable)
        ensures
            dict_contents(r) == dict_empty_map(),
    {
        DictTable { map: hashbrown::HashMap::new() }
    }

    /// Relies on `hashbrown::HashMap::get`: the value stored under the
    /// key, if the key is present.
    #[verifier::external_body]
    pub fn get(&self, k: &String) -> (r: Option<&DicEntry>)
        ensures
            r is Some <==> dict_contents(*self).dom().contains(k@),
            r matches Some(e) ==> *e == dict_contents(*self)[k@],
    {
        self.map.get(k)
    }

    /// Relies on `hashbrown::HashMap::insert`: maps the key to the
    /// value; other keys keep their values.
    #[verifier::external_body]
    pub fn insert(&mut self, k: String, v: DicEntry)
        ensures
            dict_contents(*final(self)) == dict_contents(*old(self)).insert(k@, v),
    {
        self.map.insert(k, v);
    }

}

/// The flag map: from flag name to the kind that declared it and an
/// index (an affix-group index, an alias index, or a rule index).
#[verifier::external_body]
pub struct FlagTable {
    map: hashbrown::HashMap<String, (FlagType, u32)>,
}

/// What the flag map holds.
pub uninterp spec fn flag_contents(t: FlagTable) -> Map<Seq<char>, (FlagType, u32)>;

/// The empty flag-map contents.
pub open spec fn flag_empty_map() -> Map<Seq<char>, (FlagType, u32)> {
    Map::empty()
}

impl FlagTable {
    /// Relies on `hashbrown::HashMap::new`: the new map is empty.
    #[verifier::external_body]
    pub fn new() -> (r: FlagTable)
        ensures
            flag_contents(r) == flag_empty_map(),
    {
        FlagTable { map: hashbrown::HashMap::new() }
    }

    /// Relies on `hashbrown::HashMap::get`: the value stored under the
    /// key, if the key is present.
    #[verifier::external_body]
    pub fn get(&self, k: &String) -> (r: Option<(FlagType, u32)>)
        ensures
            r is Some <==> flag_contents(*self).dom().contains(k@),
            r matches Some(p) ==> p == flag_contents(*self)[k@],
    {
        self.map.get(k).copied()
    }

    /// Relies on `hashbrown::HashMap::contains_key`: whether the key is
    /// present.
    #[verifier::external_body]
    pub fn contains(&self, k: &String) -> (r: bool)
        ensures
            r == flag_contents(*self).dom().contains(k@),
    {
        self.map.contains_key(k)
    }

    /// Relies on `hashbrown::HashMap::insert`: maps the key to the
    /// value; other keys keep their values.
    #[verifier::external_body]
    pub fn insert(&mut self, k: String, v: (FlagType, u32))
        ensures
            flag_contents(*final(self)) == flag_contents(*old(self)).insert(k@, v),
    {
        self.map.insert(k, v);
    }
}

/// Saturating increment.
pub open spec fn bumped(c: u32) -> u32 {
    if c < 0xffff_ffff {
        (c + 1) as u32
    } else {
        c
    }
}

/// Counting one more sighting of a key: the first entry with that key is
/// incremented, or a fresh entry appended.
pub open spec fn tally_bump(s: Seq<(Seq<char>, u32)>, k: Seq<char>) -> Seq<(Seq<char>, u32)>
    decreases s.len(),
{
    if s.len() == 0 {
        seq![(k, 1u32)]
    } else if s[0].0 == k {
        seq![(s[0].0, bumped(s[0].1))] + s.drop_first()
    } else {
        seq![s[0]] + tally_bump(s.drop_first(), k)
    }
}

/// A histogram of strings, kept in first-sighting order.
pub struct TallyList {
    pub items: Vec<(String, u32)>,
}

impl TallyList {
    /// The entries, as pairs of key and count.
    pub open spec fn entries(&self) -> Seq<(Seq<char>, u32)> {
        self.items@.map_values(|p: (String, u32)| (p.0@, p.1))
    }

    pub fn new() -> (r: TallyList)
        ensures
            r.entries() == Seq::<(Seq<char>, u32)>::empty(),
    {
        let r = TallyList { items: Vec::new() };
        proof {
            assert(r.entries() =~= Seq::<(Seq<char>, u32)>::empty());
        }
        r
    }

    /// Counts one more sighting of the key.
    pub fn bump(&mut self, k: &String)
        ensures
            final(self).entries() == tally_bump(old(self).entries(), k@),
    {
        let n = self.items.len();
        let mut i: usize = 0;
        while i < n
            invariant
                n == self.items@.len(),
                i <= n,
                self.items@ == old(self).items@,
                forall|j: int| 0 <= j < i ==> old(self).entries()[j].0 != k@,
            decreases n - i,
        {
            if str_eq(self.items[i].0.as_str(), k.as_str()) {
                let count = self.items[i].1;
                let name = self.items[i].0.clone();
                let newcount: u32 = if count < 0xffff_ffff {
                    count + 1
                } else {
                    count
                };
                self.items.set(i, (name, newcount));
                proof {
                    lemma_tally_bump_at(old(self).entries(), k@, i as int);
                    assert(self.entries() =~= old(self).entries().update(
                        i as int,
                        (old(self).entries()[i as int].0, bumped(old(self).entries()[i as int].1)),
                    ));
                }
                return ;
            }
            proof {
                assert(old(self).entries()[i as int].0 == self.items@[i as int].0@);
            }
            i += 1;
        }
        self.items.push((k.clone(), 1));
        proof {
            lemma_tally_bump_missing(old(self).entries(), k@);
            assert(self.entries() =~= old(self).entries().push((k@, 1u32)));
        }
    }

    /// Hands the entries out for display.
    pub fn all(&self) -> (r: &Vec<(String, u32)>)
        ensures
            r@.map_values(|p: (String, u32)| (p.0@, p.1)) == self.entries(),
    {
        &self.items
    }
}

proof fn lemma_tally_bump_at(s: Seq<(Seq<char>, u32)>, k: Seq<char>, i: int)
    requires
        0 <= i < s.len(),
        forall|j: int| 0 <= j < i ==> s[j].0 != k,
        s[i].0 == k,
    ensures
        tally_bump(s, k) == s.update(i, (s[i].0, bumped(s[i].1))),
    decreases i,
{
    if i == 0 {
        assert(tally_bump(s, k) =~= s.update(0, (s[0].0, bumped(s[0].1))));
    } else {
        let t = s.drop_first();
        lemma_tally_bump_at(t, k, i - 1);
        assert(tally_bump(s, k) =~= s.update(i, (s[i].0, bumped(s[i].1))));
    }
}

proof fn lemma_tally_bump_missing(s: Seq<(Seq<char>, u32)>, k: Seq<char>)
    requires
        forall|j: int| 0 <= j < s.len() ==> s[j].0 != k,
    ensures
        tally_bump(s, k) == s.push((k, 1u32)),
    decreases s.len(),
{
    if s.len() == 0 {
        assert(tally_bump(s, k) =~= s.push((k, 1u32)));
    } else {
        lemma_tally_bump_missing(s.drop_first(), k);
        assert(tally_bump(s, k) =~= s.push((k, 1u32)));
    }
}

} // verus!
