//! The tag-keyed record store: one record per 32-byte tag, created lazily
//! on first submission and never deleted.

use vstd::prelude::*;

use crate::record::CrushPda;
use crate::record::ErrorCode;
use crate::record::SubmitCrush;
use crate::record::step;
use crate::record::submit_crush;

verus! {

/// The store transition on the abstract map: the map after one submission
/// for `tag`, paired with what the call reports. A missing record is
/// created fresh (with `bump` as its address proof) before the fill rule
/// runs; on failure the map is untouched.
pub open spec fn store_step(
    m: Map<Seq<u8>, CrushPda>,
    tag: Seq<u8>,
    cipher: [u8; 48],
    bump: u8,
) -> (Map<Seq<u8>, CrushPda>, Result<u8, ErrorCode>) {
    let r0 = if m.contains_key(tag) {
        m[tag]
    } else {
        CrushPda::fresh(bump)
    };
    match step(r0, cipher, bump) {
        Ok(updated) => (m.insert(tag, updated), Ok(updated.filled)),
        Err(e) => (m, Err(e)),
    }
}

/// The durable record store, modelled in memory: a list of records, each
/// under its tag. Its abstract view is the map from tag bytes to records.
pub struct RecordStore {
    entries: Vec<([u8; 32], CrushPda)>,
}

impl View for RecordStore {
    type V = Map<Seq<u8>, CrushPda>;

    closed spec fn view(&self) -> Map<Seq<u8>, CrushPda> {
        RecordStore::map_of(self.entries@)
    }
}

impl RecordStore {
    /// The map described by a list of tagged records: later entries win,
    /// though a well-formed store never holds a tag twice.
    spec fn map_of(s: Seq<([u8; 32], CrushPda)>) -> Map<Seq<u8>, CrushPda>
        decreases s.len(),
    {
        if s.len() == 0 {
            Map::empty()
        } else {
            RecordStore::map_of(s.drop_last()).insert(s.last().0@, s.last().1)
        }
    }

    /// No two entries carry the same tag.
    spec fn distinct_tags(s: Seq<([u8; 32], CrushPda)>) -> bool {
        forall|i: int, j: int|
            #![trigger s[i], s[j]]
            0 <= i < j < s.len() ==> s[i].0@ != s[j].0@
    }

    /// Well-formedness: tags are pairwise distinct and every stored
    /// record satisfies its own invariant.
    pub closed spec fn wf(self) -> bool {
        &&& RecordStore::distinct_tags(self.entries@)
        &&& forall|i: int|
            0 <= i < self.entries@.len() ==> (#[trigger] self.entries@[i]).1.wf()
    }

    /// An empty store.
    pub fn new() -> (s: RecordStore)
        ensures
            s.wf(),
            s@ == Map::<Seq<u8>, CrushPda>::empty(),
    {
        RecordStore { entries: Vec::new() }
    }

    /// The index of the entry for `tag`, if the store holds one.
    fn find(&self, tag: &[u8; 32]) -> (r: Option<usize>)
        ensures
            r matches Some(i) ==> i < self.entries@.len() && self.entries@[i as int].0@ == tag@,
            r is None ==> forall|j: int|
                0 <= j < self.entries@.len() ==> (#[trigger] self.entries@[j]).0@ != tag@,
    {
        let n: usize = self.entries.len();
        for i in 0..n
            invariant
                n == self.entries@.len(),
                forall|j: int| 0 <= j < i ==> (#[trigger] self.entries@[j]).0@ != tag@,
        {
            if tags_equal(&self.entries[i].0, tag) {
                return Some(i);
            }
        }
        None
    }

    /// Returns a copy of the record stored for `tag`, if one exists.
    pub fn get(&self, tag: &[u8; 32]) -> (r: Option<CrushPda>)
        requires
            self.wf(),
        ensures
            r is Some <==> self@.contains_key(tag@),
            r matches Some(rec) ==> rec == self@[tag@] && rec.wf(),
    {
        match self.find(tag) {
            Some(i) => {
                proof {
                    lemma_map_of_contains(self.entries@, tag@);
                    lemma_map_of_value(self.entries@, i as int);
                }
                Some(self.entries[i].1)
            },
            None => {
                proof {
                    lemma_map_of_contains(self.entries@, tag@);
                }
                None
            },
        }
    }

    /// Applies one submission to the record for `tag`, creating the
    /// record first when the store holds none. `bump` is the address
    /// proof the boundary derived for the record; `user_signer` and
    /// `relayer` are the two authenticated principals (the submitting
    /// party and the party funding creation), which the fill rule is
    /// handed but deliberately never reads: arrival order alone decides
    /// slot assignment.
    pub fn submit(
        &mut self,
        tag: [u8; 32],
        cipher: [u8; 48],
        bump: u8,
        user_signer: [u8; 32],
        relayer: [u8; 32],
    ) -> (r: Result<u8, ErrorCode>)
        requires
            old(self).wf(),
        ensures
            final(self).wf(),
            final(self)@ == store_step(old(self)@, tag@, cipher, bump).0,
            r == store_step(old(self)@, tag@, cipher, bump).1,
    {
        let ghost s = self.entries@;
        let ghost m = self@;
        match self.find(&tag) {
            Some(i) => {
                proof {
                    lemma_map_of_contains(s, tag@);
                    lemma_map_of_value(s, i as int);
                }
                let mut ctx = SubmitCrush {
                    crush_pda: self.entries[i].1,
                    crush_pda_bump: bump,
                    user_signer: user_signer,
                    relayer: relayer,
                };
                let r = submit_crush(&mut ctx, tag, cipher);
                if r.is_err() {
                    return r;
                }
                self.entries[i].1 = ctx.crush_pda;
                proof {
                    lemma_map_of_update(s, i as int, ctx.crush_pda);
                    assert(self.entries@ == s.update(i as int, (s[i as int].0, ctx.crush_pda)));
                    assert forall|a: int, b: int|
                        #![trigger self.entries@[a], self.entries@[b]]
                        0 <= a < b < self.entries@.len() implies self.entries@[a].0@
                        != self.entries@[b].0@ by {
                        assert(self.entries@[a].0 == s[a].0);
                        assert(self.entries@[b].0 == s[b].0);
                    }
                    assert forall|a: int|
                        0 <= a < self.entries@.len() implies (#[trigger] self.entries@[a]).1.wf() by {
                        if a != i {
                            assert(self.entries@[a] == s[a]);
                        }
                    }
                }
                r
            },
            None => {
                proof {
                    lemma_map_of_contains(s, tag@);
                    assert(!m.contains_key(tag@));
                }
                let mut ctx = SubmitCrush {
                    crush_pda: CrushPda::new(bump),
                    crush_pda_bump: bump,
                    user_signer: user_signer,
                    relayer: relayer,
                };
                let r = submit_crush(&mut ctx, tag, cipher);
                self.entries.push((tag, ctx.crush_pda));
                proof {
                    lemma_map_of_push(s, tag, ctx.crush_pda);
                    assert(self.entries@ == s.push((tag, ctx.crush_pda)));
                    assert forall|a: int, b: int|
                        #![trigger self.entries@[a], self.entries@[b]]
                        0 <= a < b < self.entries@.len() implies self.entries@[a].0@
                        != self.entries@[b].0@ by {
                        if b < s.len() {
                            assert(self.entries@[a] == s[a]);
                            assert(self.entries@[b] == s[b]);
                        } else {
                            assert(self.entries@[a] == s[a]);
                            assert(self.entries@[b].0@ == tag@);
                        }
                    }
                    assert forall|a: int|
                        0 <= a < self.entries@.len() implies (#[trigger] self.entries@[a]).1.wf() by {
                        if a < s.len() {
                            assert(self.entries@[a] == s[a]);
                        }
                    }
                }
                r
            },
        }
    }
}

/// Byte-for-byte equality of two tags.
fn tags_equal(a: &[u8; 32], b: &[u8; 32]) -> (r: bool)
    ensures
        r <==> a@ == b@,
{
    let n: usize = 32;
    for i in 0..n
        invariant
            n == 32,
            forall|j: int| 0 <= j < i ==> a@[j] == b@[j],
    {
        if a[i] != b[i] {
            return false;
        }
    }
    proof {
        assert(a@ =~= b@);
    }
    true
}

/// A list's map holds a key exactly when some entry carries that tag.
proof fn lemma_map_of_contains(s: Seq<([u8; 32], CrushPda)>, k: Seq<u8>)
    ensures
        RecordStore::map_of(s).contains_key(k) <==> (exists|i: int|
            0 <= i < s.len() && (#[trigger] s[i]).0@ == k),
    decreases s.len(),
{
    if s.len() == 0 {
    } else {
        let s0 = s.drop_last();
        lemma_map_of_contains(s0, k);
        if s.last().0@ == k {
            assert(s[s.len() - 1].0@ == k);
        } else {
            if RecordStore::map_of(s).contains_key(k) {
                let i = choose|i: int| 0 <= i < s0.len() && (#[trigger] s0[i]).0@ == k;
                assert(s[i] == s0[i]);
            }
            if exists|i: int| 0 <= i < s.len() && (#[trigger] s[i]).0@ == k {
                let i = choose|i: int| 0 <= i < s.len() && (#[trigger] s[i]).0@ == k;
                assert(i != s.len() - 1);
                assert(s0[i] == s[i]);
            }
        }
    }
}

/// With distinct tags, the map's value at an entry's tag is that entry's
/// record.
proof fn lemma_map_of_value(s: Seq<([u8; 32], CrushPda)>, i: int)
    requires
        RecordStore::distinct_tags(s),
        0 <= i < s.len(),
    ensures
        RecordStore::map_of(s).contains_key(s[i].0@),
        RecordStore::map_of(s)[s[i].0@] == s[i].1,
    decreases s.len(),
{
    let s0 = s.drop_last();
    if i == s.len() - 1 {
    } else {
        assert(s[i].0@ != s[s.len() - 1].0@);
        assert(RecordStore::distinct_tags(s0)) by {
            assert forall|a: int, b: int|
                #![trigger s0[a], s0[b]]
                0 <= a < b < s0.len() implies s0[a].0@ != s0[b].0@ by {
                assert(s0[a] == s[a]);
                assert(s0[b] == s[b]);
            }
        }
        assert(s0[i] == s[i]);
        lemma_map_of_value(s0, i);
    }
}

/// Overwriting one entry's record, tag kept, updates the map at that tag
/// alone.
proof fn lemma_map_of_update(s: Seq<([u8; 32], CrushPda)>, i: int, v: CrushPda)
    requires
        RecordStore::distinct_tags(s),
        0 <= i < s.len(),
    ensures
        RecordStore::map_of(s.update(i, (s[i].0, v))) == RecordStore::map_of(s).insert(
            s[i].0@,
            v,
        ),
    decreases s.len(),
{
    let t = s.update(i, (s[i].0, v));
    let s0 = s.drop_last();
    let k = s[i].0@;
    if i == s.len() - 1 {
        assert(t.drop_last() =~= s0);
        assert(t.last() == (s[i].0, v));
        assert(RecordStore::map_of(t) == RecordStore::map_of(s0).insert(k, v));
        assert(RecordStore::map_of(s0).insert(k, s[i].1).insert(k, v) =~= RecordStore::map_of(
            s0,
        ).insert(k, v));
    } else {
        assert(RecordStore::distinct_tags(s0)) by {
            assert forall|a: int, b: int|
                #![trigger s0[a], s0[b]]
                0 <= a < b < s0.len() implies s0[a].0@ != s0[b].0@ by {
                assert(s0[a] == s[a]);
                assert(s0[b] == s[b]);
            }
        }
        assert(s0[i] == s[i]);
        lemma_map_of_update(s0, i, v);
        assert(t.drop_last() =~= s0.update(i, (s0[i].0, v)));
        assert(t.last() == s.last());
        assert(RecordStore::map_of(t) == RecordStore::map_of(s0).insert(k, v).insert(
            s.last().0@,
            s.last().1,
        ));
        assert(s[i].0@ != s[s.len() - 1].0@);
        assert(RecordStore::map_of(s0).insert(k, v).insert(s.last().0@, s.last().1)
            =~= RecordStore::map_of(s0).insert(s.last().0@, s.last().1).insert(k, v));
    }
}

/// Appending an entry for a tag adds exactly that tag's record to the map.
proof fn lemma_map_of_push(s: Seq<([u8; 32], CrushPda)>, t: [u8; 32], v: CrushPda)
    ensures
        RecordStore::map_of(s.push((t, v))) == RecordStore::map_of(s).insert(t@, v),
{
    let p = s.push((t, v));
    assert(p.drop_last() =~= s);
    assert(p.last() == (t, v));
}

} // verus!
