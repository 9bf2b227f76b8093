//! The protocol's guarantees, stated over the abstract transition
//! [`store_step`] and the single-record fill rule, and proved once for all
//! inputs.

use vstd::prelude::*;

use crate::record::CrushPda;
use crate::record::ErrorCode;
use crate::record::step_record;
use crate::record::zeroed;
use crate::store::store_step;

verus! {

/// `m0` and `m1` agree on every tag but `tag`: no submission ever touches
/// another tag's record.
pub open spec fn unchanged_except(
    m0: Map<Seq<u8>, CrushPda>,
    m1: Map<Seq<u8>, CrushPda>,
    tag: Seq<u8>,
) -> bool {
    forall|k: Seq<u8>|
        k != tag ==> (m0.contains_key(k) <==> #[trigger] m1.contains_key(k)) && (m0.contains_key(k)
            ==> m0[k] == m1[k])
}

/// The first submission for a tag never submitted before creates the
/// record, moves the fill count from zero to one, writes the payload into
/// the first slot, leaves the second slot all zeroes, and touches no other
/// tag.
pub proof fn lemma_first_submission(
    m: Map<Seq<u8>, CrushPda>,
    tag: Seq<u8>,
    cipher: [u8; 48],
    bump: u8,
)
    requires
        !m.contains_key(tag),
    ensures
        store_step(m, tag, cipher, bump).1 == Ok::<u8, ErrorCode>(1u8),
        store_step(m, tag, cipher, bump).0.contains_key(tag),
        store_step(m, tag, cipher, bump).0[tag].filled == 1,
        store_step(m, tag, cipher, bump).0[tag].cipher1 == cipher,
        store_step(m, tag, cipher, bump).0[tag].cipher2 == zeroed(),
        store_step(m, tag, cipher, bump).0[tag].bump == bump,
        unchanged_except(m, store_step(m, tag, cipher, bump).0, tag),
{
}

/// The second submission for a tag holding one payload moves the fill
/// count from one to two, writes the payload into the second slot, leaves
/// the first slot unchanged, and touches no other tag.
pub proof fn lemma_second_submission(
    m: Map<Seq<u8>, CrushPda>,
    tag: Seq<u8>,
    cipher: [u8; 48],
    bump: u8,
)
    requires
        m.contains_key(tag),
        m[tag].filled == 1,
    ensures
        store_step(m, tag, cipher, bump).1 == Ok::<u8, ErrorCode>(2u8),
        store_step(m, tag, cipher, bump).0.contains_key(tag),
        store_step(m, tag, cipher, bump).0[tag].filled == 2,
        store_step(m, tag, cipher, bump).0[tag].cipher1 == m[tag].cipher1,
        store_step(m, tag, cipher, bump).0[tag].cipher2 == cipher,
        unchanged_except(m, store_step(m, tag, cipher, bump).0, tag),
{
}

/// Once a record holds both payloads, every further submission fails with
/// `AlreadyMutual` and the whole store is left exactly as it was.
pub proof fn lemma_already_mutual(
    m: Map<Seq<u8>, CrushPda>,
    tag: Seq<u8>,
    cipher: [u8; 48],
    bump: u8,
)
    requires
        m.contains_key(tag),
        m[tag].filled == 2,
    ensures
        store_step(m, tag, cipher, bump).1 == Err::<u8, ErrorCode>(ErrorCode::AlreadyMutual),
        store_step(m, tag, cipher, bump).0 == m,
{
}

/// Two submissions racing on a fresh tag serialize: whichever the store
/// commits first lands in the first slot and the other in the second; the
/// fill count passes through one on its way to two, never skipping a
/// value, and no interleaving puts both payloads in the same slot.
pub proof fn lemma_serialized_pair(
    m: Map<Seq<u8>, CrushPda>,
    tag: Seq<u8>,
    first: [u8; 48],
    second: [u8; 48],
    bump1: u8,
    bump2: u8,
)
    requires
        !m.contains_key(tag),
    ensures
        ({
            let (m1, r1) = store_step(m, tag, first, bump1);
            let (m2, r2) = store_step(m1, tag, second, bump2);
            &&& r1 == Ok::<u8, ErrorCode>(1u8)
            &&& r2 == Ok::<u8, ErrorCode>(2u8)
            &&& m1[tag].filled == 1
            &&& m2[tag].filled == 2
            &&& m2[tag].cipher1 == first
            &&& m2[tag].cipher2 == second
        }),
{
}

/// A payload a successful submission writes is read back byte-exact: the
/// reported fill count names the slot that now holds exactly the bytes
/// submitted.
pub proof fn lemma_round_trip(m: Map<Seq<u8>, CrushPda>, tag: Seq<u8>, cipher: [u8; 48], bump: u8)
    ensures
        store_step(m, tag, cipher, bump).1 == Ok::<u8, ErrorCode>(1u8) ==> store_step(
            m,
            tag,
            cipher,
            bump,
        ).0[tag].cipher1 == cipher,
        store_step(m, tag, cipher, bump).1 == Ok::<u8, ErrorCode>(2u8) ==> store_step(
            m,
            tag,
            cipher,
            bump,
        ).0[tag].cipher2 == cipher,
{
}

/// Over a record's lifetime the fill count never decreases and never
/// exceeds two, and a slot, once its turn is past, is never rewritten.
pub proof fn lemma_fill_monotonic(r: CrushPda, cipher: [u8; 48], bump: u8)
    requires
        r.wf(),
    ensures
        step_record(r, cipher, bump).wf(),
        step_record(r, cipher, bump).filled >= r.filled,
        r.filled >= 1 ==> step_record(r, cipher, bump).cipher1 == r.cipher1,
        r.filled >= 2 ==> step_record(r, cipher, bump).cipher2 == r.cipher2,
{
}

} // verus!
