//! The record for one tag and the one-shot fill rule applied to it.

use vstd::prelude::*;

verus! {

broadcast use vstd::array::group_array_axioms;

/// The one error the fill rule itself can raise: the record already holds
/// both ciphertexts and is frozen.
#[derive(Clone, Copy, Debug, PartialEq, Eq, Structural)]
pub enum ErrorCode {
    AlreadyMutual,
}

/// The all-zeroes payload that a freshly created record holds in each slot.
pub open spec fn zeroed() -> [u8; 48] {
    vstd::array::spec_array_fill_for_copy_type(0u8)
}

/// The durable record for one tag: an address proof recorded on each
/// successful submission, a fill counter, and two fixed-size ciphertext
/// slots filled in arrival order.
#[derive(Clone, Copy, Debug)]
pub struct CrushPda {
    pub bump: u8,
    pub filled: u8,
    pub cipher1: [u8; 48],
    pub cipher2: [u8; 48],
}

impl CrushPda {
    /// Well-formedness: the fill counter only ever holds 0, 1 or 2.
    pub open spec fn wf(self) -> bool {
        self.filled <= 2
    }

    /// The record as the store creates it for a tag seen for the first
    /// time: nothing filled, both slots all zeroes.
    pub open spec fn fresh(bump: u8) -> CrushPda {
        CrushPda { bump: bump, filled: 0, cipher1: zeroed(), cipher2: zeroed() }
    }

    /// Creates an empty record with zeroed slots.
    pub fn new(bump: u8) -> (r: CrushPda)
        ensures
            r == CrushPda::fresh(bump),
    {
        CrushPda { bump: bump, filled: 0, cipher1: [0u8; 48], cipher2: [0u8; 48] }
    }
}

/// The one-shot fill rule on a single record: the record after a
/// submission of `cipher`, or `AlreadyMutual` when it is already full.
/// `bump` is the address proof the boundary derived for the record; a
/// successful submission records it.
pub open spec fn step(r: CrushPda, cipher: [u8; 48], bump: u8) -> Result<CrushPda, ErrorCode> {
    if r.filled >= 2 {
        Err(ErrorCode::AlreadyMutual)
    } else if r.filled == 0 {
        Ok(CrushPda { bump: bump, filled: 1, cipher1: cipher, cipher2: r.cipher2 })
    } else {
        Ok(CrushPda { bump: bump, filled: 2, cipher1: r.cipher1, cipher2: cipher })
    }
}

/// The record after a submission: updated on success, untouched on failure.
pub open spec fn step_record(r: CrushPda, cipher: [u8; 48], bump: u8) -> CrushPda {
    match step(r, cipher, bump) {
        Ok(updated) => updated,
        Err(_) => r,
    }
}

/// What a submission reports: the new fill count, or the error.
pub open spec fn step_count(r: CrushPda, cipher: [u8; 48], bump: u8) -> Result<u8, ErrorCode> {
    match step(r, cipher, bump) {
        Ok(updated) => Ok(updated.filled),
        Err(e) => Err(e),
    }
}

/// The caller context for one submission: the resolved record, the address
/// proof the boundary derived for it, and the two authenticated principals
/// (the submitting party and the party funding record creation). The fill
/// rule trusts that both principals were authenticated upstream and reads
/// neither; arrival order alone decides which slot a payload lands in.
pub struct SubmitCrush {
    pub crush_pda: CrushPda,
    pub crush_pda_bump: u8,
    pub user_signer: [u8; 32],
    pub relayer: [u8; 32],
}

/// Applies one ciphertext submission to the record in `ctx`.
///
/// If the record already holds two submissions, fails with
/// `AlreadyMutual` and changes nothing. Otherwise writes `cipher` into
/// the first empty slot, increments the fill counter, records the
/// address proof, and reports the new fill count. The tag selects the
/// record at the boundary and is not read here.
pub fn submit_crush(ctx: &mut SubmitCrush, _tag: [u8; 32], cipher: [u8; 48]) -> (r: Result<
    u8,
    ErrorCode,
>)
    ensures
        final(ctx).crush_pda == step_record(old(ctx).crush_pda, cipher, old(ctx).crush_pda_bump),
        r == step_count(old(ctx).crush_pda, cipher, old(ctx).crush_pda_bump),
        final(ctx).crush_pda_bump == old(ctx).crush_pda_bump,
        final(ctx).user_signer == old(ctx).user_signer,
        final(ctx).relayer == old(ctx).relayer,
{
    if ctx.crush_pda.filled >= 2 {
        return Err(ErrorCode::AlreadyMutual);
    }
    if ctx.crush_pda.filled == 0 {
        ctx.crush_pda.cipher1 = cipher;
    } else {
        ctx.crush_pda.cipher2 = cipher;
    }
    ctx.crush_pda.filled = ctx.crush_pda.filled + 1;
    ctx.crush_pda.bump = ctx.crush_pda_bump;
    Ok(ctx.crush_pda.filled)
}

} // verus!
