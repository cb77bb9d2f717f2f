//! The remap table: from the bucket of a source identity to the source as it
//! was first stored and the target it is turned into.

use crate::codes::{
    ABS_HAT0X, ABS_HAT0Y, ABS_RZ, ABS_Z, BTN_DPAD_DOWN, BTN_DPAD_LEFT, BTN_DPAD_RIGHT,
    BTN_DPAD_UP, BTN_TL2, BTN_TR2,
};
use crate::identity::InputRemap;
use std::collections::HashMap;
use vstd::prelude::*;
use vstd::std_specs::iter::IteratorSpec;

verus! {

broadcast use vstd::std_specs::hash::group_hash_axioms;

/// A table entry: the source identity as stored, then the target.
pub type Entry = (InputRemap, InputRemap);

/// The mathematical content of a table: each entry under the bucket of its
/// source.
pub type Entries = Map<u32, Entry>;

/// Every entry is filed under the bucket of its own source.
pub open spec fn well_filed(m: Entries) -> bool {
    forall|b: u32| #[trigger] m.contains_key(b) ==> m[b].0.spec_bucket() == b
}

/// The table after `from` is mapped to `to`. A source whose bucket is
/// already taken gets the new target and keeps the source that was stored
/// first, threshold included; a new source is stored as given.
pub open spec fn upserted(m: Entries, from: InputRemap, to: InputRemap) -> Entries {
    let b = from.spec_bucket();
    if m.contains_key(b) {
        m.insert(b, (m[b].0, to))
    } else {
        m.insert(b, (from, to))
    }
}

/// The entry that the table holds for `key`, if any.
pub open spec fn looked_up(m: Entries, key: InputRemap) -> Option<Entry> {
    if m.contains_key(key.spec_bucket()) {
        Some(m[key.spec_bucket()])
    } else {
        None
    }
}

/// The six entries of the built-in profile, in the order in which a new
/// table takes them: the four directions of the D-pad onto the hat axes,
/// then the two trigger buttons onto the trigger axes.
pub open spec fn default_entries() -> Seq<Entry> {
    seq![
        (InputRemap::Key(BTN_DPAD_UP), InputRemap::Abs(ABS_HAT0Y, -1i32)),
        (InputRemap::Key(BTN_DPAD_DOWN), InputRemap::Abs(ABS_HAT0Y, 1)),
        (InputRemap::Key(BTN_DPAD_LEFT), InputRemap::Abs(ABS_HAT0X, -1i32)),
        (InputRemap::Key(BTN_DPAD_RIGHT), InputRemap::Abs(ABS_HAT0X, 1)),
        (InputRemap::Key(BTN_TL2), InputRemap::Abs(ABS_Z, 256)),
        (InputRemap::Key(BTN_TR2), InputRemap::Abs(ABS_RZ, 256)),
    ]
}

/// The table that holds `entries` and nothing else.
pub open spec fn filed(entries: Seq<Entry>) -> Entries
    decreases entries.len(),
{
    if entries.len() == 0 {
        Map::empty()
    } else {
        upserted(filed(entries.drop_last()), entries.last().0, entries.last().1)
    }
}

/// The content of a table that holds the built-in profile.
pub open spec fn default_profile() -> Entries {
    filed(default_entries())
}

/// The remap table. Only its owner changes it.
pub struct RemapTable {
    slots: HashMap<u32, Entry>,
}

impl View for RemapTable {
    type V = Entries;

    closed spec fn view(&self) -> Entries {
        self.slots@
    }
}

impl RemapTable {
    #[verifier::type_invariant]
    spec fn inv(&self) -> bool {
        well_filed(self.slots@)
    }

    /// A table without entries.
    pub fn empty() -> (r: RemapTable)
        ensures
            r@ == Map::<u32, Entry>::empty(),
            well_filed(r@),
    {
        RemapTable { slots: HashMap::new() }
    }

    /// A table with the built-in profile.
    pub fn new() -> (r: RemapTable)
        ensures
            r@ == default_profile(),
            well_filed(r@),
    {
        let mut table = RemapTable::empty();
        table.reset();
        table
    }

    /// Maps `from` to `to`.
    pub fn upsert(&mut self, from: InputRemap, to: InputRemap)
        ensures
            final(self)@ == upserted(old(self)@, from, to),
            well_filed(final(self)@),
    {
        proof {
            use_type_invariant(&*self);
        }
        let b: u32 = from.bucket();
        let stored: InputRemap = match self.slots.get(&b) {
            Some(e) => e.0,
            None => from,
        };
        let mut slots: HashMap<u32, Entry> = HashMap::new();
        std::mem::swap(&mut self.slots, &mut slots);
        slots.insert(b, (stored, to));
        self.slots = slots;
    }

    /// Puts the built-in profile in place of whatever the table holds.
    pub fn reset(&mut self)
        ensures
            final(self)@ == default_profile(),
            well_filed(final(self)@),
    {
        self.slots = HashMap::new();
        self.upsert(InputRemap::Key(BTN_DPAD_UP), InputRemap::Abs(ABS_HAT0Y, -1));
        self.upsert(InputRemap::Key(BTN_DPAD_DOWN), InputRemap::Abs(ABS_HAT0Y, 1));
        self.upsert(InputRemap::Key(BTN_DPAD_LEFT), InputRemap::Abs(ABS_HAT0X, -1));
        self.upsert(InputRemap::Key(BTN_DPAD_RIGHT), InputRemap::Abs(ABS_HAT0X, 1));
        self.upsert(InputRemap::Key(BTN_TL2), InputRemap::Abs(ABS_Z, 256));
        self.upsert(InputRemap::Key(BTN_TR2), InputRemap::Abs(ABS_RZ, 256));
        proof {
            lemma_default_profile_unfolded();
        }
    }

    /// The stored source and the target for `key`, if the table has an
    /// entry for an equivalent source.
    pub fn get_key_value(&self, key: &InputRemap) -> (r: Option<Entry>)
        ensures
            r == looked_up(self@, *key),
            r matches Some(e) ==> e.0.equivalent(*key),
            well_filed(self@),
    {
        proof {
            use_type_invariant(self);
            assert(forall|a: InputRemap, b: InputRemap|
                a.spec_bucket() == b.spec_bucket() ==> #[trigger] a.equivalent(b));
        }
        let b: u32 = key.bucket();
        match self.slots.get(&b) {
            Some(e) => Some(*e),
            None => None,
        }
    }

    /// The target for `key`, if the table has an entry for an equivalent
    /// source.
    pub fn get(&self, key: &InputRemap) -> (r: Option<InputRemap>)
        ensures
            r == match looked_up(self@, *key) {
                Some(e) => Some(e.1),
                None => None,
            },
    {
        match self.get_key_value(key) {
            Some(e) => Some(e.1),
            None => None,
        }
    }

    /// Number of entries.
    pub fn len(&self) -> (r: usize)
        ensures
            r == self@.len(),
    {
        self.slots.len()
    }

    /// The entries of the table, each once, in no particular order. The
    /// table is left as it is.
    pub fn snapshot(&self) -> (r: Vec<Entry>)
        ensures
            is_snapshot_of(r@, self@),
            well_filed(self@),
    {
        proof {
            use_type_invariant(self);
        }
        let mut out: Vec<Entry> = Vec::new();
        let ghost all: Seq<(&u32, &Entry)> = self.slots.iter().remaining();
        for kv in it: self.slots.iter()
            invariant
                it.seq() == all,
                out@.len() == it.index(),
                forall|j: int| 0 <= j < out@.len() ==> out@[j] == *(#[trigger] all[j]).1,
        {
            out.push(*kv.1);
        }
        proof {
            let m = self.slots@;
            assert(out@.len() == all.len());
            assert(all.no_duplicates());
            assert forall|i: int, j: int| 0 <= i < j < out@.len() implies (#[trigger] out@[i])
                .0.spec_bucket() != (#[trigger] out@[j]).0.spec_bucket() by {
                assert(m.contains_key(*all[i].0) && m[*all[i].0] == *all[i].1);
                assert(m.contains_key(*all[j].0) && m[*all[j].0] == *all[j].1);
                assert(all[i] != all[j]);
            }
            assert forall|e: Entry| #[trigger]
                out@.contains(e) <==> looked_up(m, e.0) == Some(e) by {
                if out@.contains(e) {
                    let i = choose|i: int| 0 <= i < out@.len() && out@[i] == e;
                    assert(m.contains_key(*all[i].0) && m[*all[i].0] == *all[i].1);
                }
                if looked_up(m, e.0) == Some(e) {
                    let k = e.0.spec_bucket();
                    assert(m.contains_key(k));
                    assert(all.contains((&k, &m[k])));
                    let i = choose|i: int| 0 <= i < all.len() && all[i] == (&k, &m[k]);
                    assert(out@[i] == e);
                }
            }
        }
        out
    }
}

/// `s` lists the entries of `m`: each entry of the table once, and nothing
/// else.
pub open spec fn is_snapshot_of(s: Seq<Entry>, m: Entries) -> bool {
    &&& s.len() == m.len()
    &&& forall|e: Entry| #[trigger] s.contains(e) <==> looked_up(m, e.0) == Some(e)
    &&& forall|i: int, j: int|
        0 <= i < j < s.len() ==> (#[trigger] s[i]).0.spec_bucket() != (#[trigger] s[j])
            .0.spec_bucket()
}

proof fn lemma_default_profile_unfolded()
    ensures
        default_profile() == upserted(
            upserted(
                upserted(
                    upserted(
                        upserted(
                            upserted(
                                Map::<u32, Entry>::empty(),
                                InputRemap::Key(BTN_DPAD_UP),
                                InputRemap::Abs(ABS_HAT0Y, -1i32),
                            ),
                            InputRemap::Key(BTN_DPAD_DOWN),
                            InputRemap::Abs(ABS_HAT0Y, 1),
                        ),
                        InputRemap::Key(BTN_DPAD_LEFT),
                        InputRemap::Abs(ABS_HAT0X, -1i32),
                    ),
                    InputRemap::Key(BTN_DPAD_RIGHT),
                    InputRemap::Abs(ABS_HAT0X, 1),
                ),
                InputRemap::Key(BTN_TL2),
                InputRemap::Abs(ABS_Z, 256),
            ),
            InputRemap::Key(BTN_TR2),
            InputRemap::Abs(ABS_RZ, 256),
        ),
{
    let s = default_entries();
    let s5 = s.drop_last();
    let s4 = s5.drop_last();
    let s3 = s4.drop_last();
    let s2 = s3.drop_last();
    let s1 = s2.drop_last();
    let s0 = s1.drop_last();
    assert(s0.len() == 0);
    assert(filed(s0) == Map::<u32, Entry>::empty());
    assert(filed(s1) == upserted(filed(s0), s1.last().0, s1.last().1));
    assert(filed(s2) == upserted(filed(s1), s2.last().0, s2.last().1));
    assert(filed(s3) == upserted(filed(s2), s3.last().0, s3.last().1));
    assert(filed(s4) == upserted(filed(s3), s4.last().0, s4.last().1));
    assert(filed(s5) == upserted(filed(s4), s5.last().0, s5.last().1));
    assert(filed(s) == upserted(filed(s5), s.last().0, s.last().1));
}

/// The built-in profile has exactly six entries, one for each of the six
/// default sources, each with the target it was given.
pub proof fn lemma_default_profile_entries()
    ensures
        well_filed(default_profile()),
        default_profile().dom().finite(),
        default_profile().len() == 6,
        forall|i: int|
            0 <= i < 6 ==> looked_up(default_profile(), (#[trigger] default_entries()[i]).0)
                == Some(default_entries()[i]),
{
    lemma_default_profile_unfolded();
    let e = default_entries();
    let m = default_profile();
    assert(m.dom() =~= set![
        e[0].0.spec_bucket(),
        e[1].0.spec_bucket(),
        e[2].0.spec_bucket(),
        e[3].0.spec_bucket(),
        e[4].0.spec_bucket(),
        e[5].0.spec_bucket(),
    ]);
}

/// Mapping a source keeps every entry under the bucket of its source.
pub proof fn lemma_upsert_keeps_filing(m: Entries, from: InputRemap, to: InputRemap)
    requires
        well_filed(m),
    ensures
        well_filed(upserted(m, from, to)),
{
}

/// After `from` is mapped to `to`, a lookup of any source equivalent to
/// `from` gives the target `to`, and a lookup of any other source gives what
/// it gave before.
pub proof fn lemma_upsert_then_lookup(m: Entries, from: InputRemap, to: InputRemap, key: InputRemap)
    ensures
        key.equivalent(from) ==> (looked_up(upserted(m, from, to), key) matches Some(e) && e.1
            == to),
        !key.equivalent(from) ==> looked_up(upserted(m, from, to), key) == looked_up(m, key),
{
    crate::identity::lemma_bucket_consistent(key, from);
}

/// Mapping a source that the table has no entry for adds exactly one entry,
/// stored as given; every other entry stays.
pub proof fn lemma_upsert_fresh(m: Entries, from: InputRemap, to: InputRemap)
    requires
        m.dom().finite(),
        looked_up(m, from) is None,
    ensures
        upserted(m, from, to).dom().finite(),
        upserted(m, from, to).len() == m.len() + 1,
        looked_up(upserted(m, from, to), from) == Some((from, to)),
        forall|b: u32| #[trigger] m.contains_key(b) ==> upserted(m, from, to).contains_key(b)
            && upserted(m, from, to)[b] == m[b],
{
}

/// Mapping two sources that the table has no entry for leaves every entry
/// that was there and adds the two new ones, so the table grows by two; by
/// one only where the two sources are equivalent, and then the first is the
/// one stored and the second target the one kept.
pub proof fn lemma_two_new_sources(
    m: Entries,
    a: InputRemap,
    ta: InputRemap,
    b: InputRemap,
    tb: InputRemap,
)
    requires
        m.dom().finite(),
        looked_up(m, a) is None,
        looked_up(m, b) is None,
    ensures
        ({
            let after = upserted(upserted(m, a, ta), b, tb);
            &&& after.dom().finite()
            &&& after.len() == m.len() + if a.equivalent(b) {
                1int
            } else {
                2int
            }
            &&& forall|k: u32| #[trigger]
                m.contains_key(k) ==> after.contains_key(k) && after[k] == m[k]
            &&& !a.equivalent(b) ==> looked_up(after, a) == Some((a, ta)) && looked_up(after, b)
                == Some((b, tb))
            &&& a.equivalent(b) ==> looked_up(after, a) == Some((a, tb))
        }),
{
    crate::identity::lemma_bucket_consistent(a, b);
    lemma_upsert_fresh(m, a, ta);
    let first = upserted(m, a, ta);
    if a.equivalent(b) {
        lemma_upsert_known(first, b, tb);
    } else {
        lemma_upsert_fresh(first, b, tb);
    }
}

/// Mapping a source that the table already has an entry for replaces the
/// target only: the number of entries and the stored source stay.
pub proof fn lemma_upsert_known(m: Entries, from: InputRemap, to: InputRemap)
    requires
        m.dom().finite(),
        looked_up(m, from) is Some,
    ensures
        upserted(m, from, to).dom().finite(),
        upserted(m, from, to).len() == m.len(),
        looked_up(m, from) matches Some(e) && looked_up(upserted(m, from, to), from) == Some(
            (e.0, to),
        ),
{
    assert(upserted(m, from, to).dom() =~= m.dom());
}

} // verus!
