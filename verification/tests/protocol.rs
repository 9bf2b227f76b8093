use crush_store::record::{submit_crush, CrushPda, ErrorCode, SubmitCrush};
use crush_store::store::RecordStore;

fn tag(seed: u8) -> [u8; 32] {
    let mut t = [0u8; 32];
    for (i, b) in t.iter_mut().enumerate() {
        *b = seed.wrapping_add(i as u8);
    }
    t
}

fn cipher(seed: u8) -> [u8; 48] {
    let mut c = [0u8; 48];
    for (i, b) in c.iter_mut().enumerate() {
        *b = seed.wrapping_mul(31).wrapping_add(i as u8);
    }
    c
}

#[test]
fn new_record_is_zeroed() {
    let rec = CrushPda::new(7);
    assert_eq!(rec.bump, 7);
    assert_eq!(rec.filled, 0);
    assert_eq!(rec.cipher1, [0u8; 48]);
    assert_eq!(rec.cipher2, [0u8; 48]);
}

#[test]
fn first_submission_fills_slot_a() {
    let mut st = RecordStore::new();
    let t = tag(1);
    let c1 = cipher(1);
    let r = st.submit(t, c1, 254, tag(10), tag(20));
    assert_eq!(r, Ok(1));
    let rec = st.get(&t).expect("record must exist after first submission");
    assert_eq!(rec.filled, 1);
    assert_eq!(rec.cipher1, c1);
    assert_eq!(rec.cipher2, [0u8; 48], "slot for the second party stays unset");
    assert_eq!(rec.bump, 254);
}

#[test]
fn second_submission_fills_slot_b_and_keeps_slot_a() {
    let mut st = RecordStore::new();
    let t = tag(2);
    let c1 = cipher(2);
    let c2 = cipher(3);
    assert_eq!(st.submit(t, c1, 200, tag(10), tag(20)), Ok(1));
    assert_eq!(st.submit(t, c2, 200, tag(20), tag(10)), Ok(2));
    let rec = st.get(&t).expect("record must exist");
    assert_eq!(rec.filled, 2);
    assert_eq!(rec.cipher1, c1, "first payload is untouched");
    assert_eq!(rec.cipher2, c2);
}

#[test]
fn third_submission_fails_and_changes_nothing() {
    let mut st = RecordStore::new();
    let t = tag(3);
    let c1 = cipher(4);
    let c2 = cipher(5);
    let c3 = cipher(6);
    assert_eq!(st.submit(t, c1, 9, tag(10), tag(20)), Ok(1));
    assert_eq!(st.submit(t, c2, 9, tag(20), tag(10)), Ok(2));
    let before = st.get(&t).expect("record must exist");
    let r = st.submit(t, c3, 9, tag(30), tag(20));
    assert_eq!(r, Err(ErrorCode::AlreadyMutual));
    let after = st.get(&t).expect("record must still exist");
    assert_eq!(after.filled, before.filled);
    assert_eq!(after.cipher1, before.cipher1);
    assert_eq!(after.cipher2, before.cipher2);
    // a repeated attempt reports the same error again
    assert_eq!(st.submit(t, c3, 9, tag(30), tag(20)), Err(ErrorCode::AlreadyMutual));
}

#[test]
fn round_trip_is_byte_exact() {
    let mut st = RecordStore::new();
    let t = tag(4);
    let mut c1 = [0u8; 48];
    let mut c2 = [0u8; 48];
    for i in 0..48 {
        c1[i] = (i as u8) ^ 0xA5;
        c2[i] = 255 - (i as u8);
    }
    st.submit(t, c1, 1, tag(10), tag(20)).unwrap();
    st.submit(t, c2, 1, tag(20), tag(10)).unwrap();
    let rec = st.get(&t).expect("record must exist");
    assert_eq!(&rec.cipher1[..], &c1[..]);
    assert_eq!(&rec.cipher2[..], &c2[..]);
}

#[test]
fn end_to_end_scenario() {
    let mut st = RecordStore::new();
    let t = tag(5);
    let c1 = cipher(7);
    let c2 = cipher(8);
    let c3 = cipher(9);

    assert_eq!(st.submit(t, c1, 11, tag(10), tag(20)), Ok(1));
    let rec = st.get(&t).expect("record must exist");
    assert_eq!((rec.filled, rec.cipher1), (1, c1));

    assert_eq!(st.submit(t, c2, 11, tag(20), tag(10)), Ok(2));
    let rec = st.get(&t).expect("record must exist");
    assert_eq!((rec.filled, rec.cipher1, rec.cipher2), (2, c1, c2));

    assert_eq!(st.submit(t, c3, 11, tag(30), tag(20)), Err(ErrorCode::AlreadyMutual));
    let rec = st.get(&t).expect("record must exist");
    assert_eq!((rec.filled, rec.cipher1, rec.cipher2), (2, c1, c2));
}

#[test]
fn fresh_tag_is_created_and_filled_in_one_call() {
    let mut st = RecordStore::new();
    let t = tag(6);
    assert!(st.get(&t).is_none(), "no record exists before the first submission");
    assert_eq!(st.submit(t, cipher(10), 3, tag(10), tag(20)), Ok(1));
    let rec = st.get(&t).expect("the same call created and filled the record");
    assert_eq!(rec.filled, 1);
}

#[test]
fn distinct_tags_have_independent_records() {
    let mut st = RecordStore::new();
    let ta = tag(7);
    let tb = tag(8);
    let ca = cipher(11);
    let cb = cipher(12);
    assert_eq!(st.submit(ta, ca, 1, tag(10), tag(20)), Ok(1));
    assert_eq!(st.submit(tb, cb, 2, tag(30), tag(40)), Ok(1));
    let ra = st.get(&ta).expect("record a");
    let rb = st.get(&tb).expect("record b");
    assert_eq!((ra.filled, ra.cipher1), (1, ca));
    assert_eq!((rb.filled, rb.cipher1), (1, cb));
    assert_eq!(st.submit(ta, cipher(13), 1, tag(20), tag(10)), Ok(2));
    let rb = st.get(&tb).expect("record b");
    assert_eq!(rb.filled, 1, "a submission for one tag leaves other tags alone");
}

#[test]
fn submit_crush_applies_the_fill_rule_directly() {
    let mut ctx = SubmitCrush {
        crush_pda: CrushPda::new(0),
        crush_pda_bump: 42,
        user_signer: tag(10),
        relayer: tag(20),
    };
    let t = tag(9);
    let c1 = cipher(14);
    let c2 = cipher(15);
    let c3 = cipher(16);

    assert_eq!(submit_crush(&mut ctx, t, c1), Ok(1));
    assert_eq!(ctx.crush_pda.filled, 1);
    assert_eq!(ctx.crush_pda.cipher1, c1);
    assert_eq!(ctx.crush_pda.bump, 42, "the derived address proof is recorded");

    assert_eq!(submit_crush(&mut ctx, t, c2), Ok(2));
    assert_eq!(ctx.crush_pda.filled, 2);
    assert_eq!(ctx.crush_pda.cipher1, c1);
    assert_eq!(ctx.crush_pda.cipher2, c2);

    assert_eq!(submit_crush(&mut ctx, t, c3), Err(ErrorCode::AlreadyMutual));
    assert_eq!(ctx.crush_pda.filled, 2);
    assert_eq!(ctx.crush_pda.cipher1, c1);
    assert_eq!(ctx.crush_pda.cipher2, c2);
}
