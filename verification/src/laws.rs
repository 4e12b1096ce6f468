//! The properties that tie the decoder and the encoder together.

use vstd::prelude::*;
use crate::decode::{
    parse_good, parse_save, portrait_len_pos, rec_in_bounds, soldier_decoded, ROSTER_SIZE,
};
use crate::encode::{
    patch_all, patch_all_ok, patch_name_seq, patch_ok, patch_record_seq, patch_stats_seq,
    patched_len,
};
use crate::encode::write_save_data;
use crate::scan::scan_ranges;
use crate::soldier::Soldier;

verus! {

/// A record patched with exactly what it was decoded from changes nothing.
pub proof fn lemma_patch_record_identity(data: Seq<u8>, s: Soldier, start: int)
    requires
        rec_in_bounds(data, start),
        soldier_decoded(s, data, start),
    ensures
        patch_ok(data.len() as int, s),
        patch_record_seq(data, s) == data,
{
    assert(s.orig_name_offset + 4 + s.orig_name_len == portrait_len_pos(data, start));
    let ds = patch_stats_seq(data, s);
    assert(ds =~= data);
    assert(s.name@.len() == s.orig_name_len);
    assert(patch_name_seq(ds, s) =~= data);
}

/// Round-trip identity for any roster whose records were all decoded from
/// `data`: patching them back, last first, reproduces `data` byte for byte.
pub proof fn lemma_round_trip(data: Seq<u8>, soldiers: Seq<Soldier>, starts: Seq<int>)
    requires
        soldiers.len() == starts.len(),
        forall|i: int|
            0 <= i < soldiers.len() ==> rec_in_bounds(data, #[trigger] starts[i])
                && soldier_decoded(soldiers[i], data, starts[i]),
    ensures
        patch_all_ok(data.len() as int, soldiers),
        patch_all(data, soldiers) == data,
    decreases soldiers.len(),
{
    if soldiers.len() > 0 {
        lemma_patch_record_identity(data, soldiers.last(), starts.last());
        lemma_round_trip(data, soldiers.drop_last(), starts.drop_last());
    }
}

/// Round-trip identity: a roster decoded from a valid save buffer and
/// encoded again without edits reproduces the buffer byte for byte.
pub proof fn lemma_parse_encode_round_trip(data: Seq<u8>, soldiers: Seq<Soldier>)
    requires
        parse_good(data),
        soldiers.len() == ROSTER_SIZE,
        forall|i: int|
            0 <= i < ROSTER_SIZE ==> soldier_decoded(
                #[trigger] soldiers[i],
                data,
                scan_ranges(data, 0)->Some_0[i].0,
            ),
    ensures
        patch_all_ok(data.len() as int, soldiers),
        patch_all(data, soldiers) == data,
{
    let rs = scan_ranges(data, 0)->Some_0;
    let starts = Seq::new(soldiers.len(), |i: int| rs[i].0);
    lemma_round_trip(data, soldiers, starts);
}

/// Attribute overwrite is fixed width: writing the six attribute bytes,
/// whatever their values, never changes the buffer length, and touches no
/// byte outside the six slots.
pub proof fn lemma_stats_patch_fixed_width(data: Seq<u8>, s: Soldier)
    requires
        s.orig_stats_offset + 24 < data.len(),
    ensures
        patch_stats_seq(data, s).len() == data.len(),
        ({
            let sp = s.orig_stats_offset as int;
            let r = patch_stats_seq(data, s);
            &&& r[sp + 4] == s.hps
            &&& r[sp + 8] == s.stg
            &&& r[sp + 12] == s.acc
            &&& r[sp + 16] == s.rfl
            &&& r[sp + 20] == s.brv
            &&& r[sp + 24] == s.tus
            &&& forall|j: int|
                0 <= j < data.len() && j != sp + 4 && j != sp + 8 && j != sp + 12 && j != sp + 16
                    && j != sp + 20 && j != sp + 24 ==> r[j] == data[j]
        }),
{
}

/// In-place vs. splice equivalence: a name of the stored length leaves the
/// buffer length unchanged; any other length changes it by exactly the byte
/// difference, every byte before the name field stays put, and every byte
/// after the stored span shifts by exactly that difference.
pub proof fn lemma_name_patch_shape(data: Seq<u8>, s: Soldier)
    requires
        s.orig_name_offset + 4 + s.orig_name_len <= data.len(),
        s.name@.len() <= 255,
    ensures
        ({
            let np = s.orig_name_offset as int;
            let onl = s.orig_name_len as int;
            let nl = s.name@.len() as int;
            let r = patch_name_seq(data, s);
            &&& r.len() == data.len() + nl - onl
            &&& (nl == onl ==> r.len() == data.len())
            &&& forall|j: int| 0 <= j < np ==> r[j] == data[j]
            &&& r[np] == (if nl == onl {
                data[np]
            } else {
                nl as u8
            })
            &&& forall|j: int| np < j < np + 4 ==> r[j] == data[j]
            &&& r.subrange(np + 4, np + 4 + nl) == s.name@
            &&& forall|j: int|
                np + 4 + onl <= j < data.len() ==> r[j + (nl - onl)] == data[j]
        }),
{
    let np = s.orig_name_offset as int;
    let onl = s.orig_name_len as int;
    let nl = s.name@.len() as int;
    let r = patch_name_seq(data, s);
    assert(r.subrange(np + 4, np + 4 + nl) =~= s.name@);
}

/// One record's patch in detail, for records laid out as decoding captures
/// them (the name field before the statistics block): where the new name
/// and the six attributes land, and how every byte after the stored name
/// span shifts by the length difference.
pub proof fn lemma_patch_record_shape(data: Seq<u8>, s: Soldier)
    requires
        patch_ok(data.len() as int, s),
        s.orig_name_offset + 4 + s.orig_name_len <= s.orig_stats_offset,
    ensures
        ({
            let np = s.orig_name_offset as int;
            let onl = s.orig_name_len as int;
            let nl = s.name@.len() as int;
            let sp = s.orig_stats_offset as int;
            let d = nl - onl;
            let r = patch_record_seq(data, s);
            &&& r.len() == data.len() + d
            &&& forall|j: int| 0 <= j < np ==> r[j] == data[j]
            &&& r[np] == (if nl == onl {
                data[np]
            } else {
                nl as u8
            })
            &&& forall|j: int| np < j < np + 4 ==> r[j] == data[j]
            &&& r.subrange(np + 4, np + 4 + nl) == s.name@
            &&& r[sp + 4 + d] == s.hps
            &&& r[sp + 8 + d] == s.stg
            &&& r[sp + 12 + d] == s.acc
            &&& r[sp + 16 + d] == s.rfl
            &&& r[sp + 20 + d] == s.brv
            &&& r[sp + 24 + d] == s.tus
            &&& forall|j: int|
                np + 4 + onl <= j < data.len() && j != sp + 4 && j != sp + 8 && j != sp + 12 && j
                    != sp + 16 && j != sp + 20 && j != sp + 24 ==> r[j + d] == data[j]
        }),
{
    let np = s.orig_name_offset as int;
    let onl = s.orig_name_len as int;
    let nl = s.name@.len() as int;
    let sp = s.orig_stats_offset as int;
    let d = nl - onl;
    let ds = patch_stats_seq(data, s);
    lemma_stats_patch_fixed_width(data, s);
    lemma_name_patch_shape(ds, s);
    let r = patch_record_seq(data, s);
    assert(r.subrange(np + 4, np + 4 + nl) == s.name@);
    assert(r[sp + 4 + d] == ds[sp + 4]);
    assert(r[sp + 8 + d] == ds[sp + 8]);
    assert(r[sp + 12 + d] == ds[sp + 12]);
    assert(r[sp + 16 + d] == ds[sp + 16]);
    assert(r[sp + 20 + d] == ds[sp + 20]);
    assert(r[sp + 24 + d] == ds[sp + 24]);
}

/// Offset independence under reverse patching: with record `a` lying
/// wholly before record `b` in the buffer, patching `b` first and `a`
/// second — whatever the two names do to the lengths — places both new
/// names and both attribute blocks correctly: `a`'s at its captured
/// offsets, `b`'s shifted by exactly `a`'s length difference.
#[verifier::rlimit(100)]
pub proof fn lemma_reverse_patch_independence(data: Seq<u8>, a: Soldier, b: Soldier)
    requires
        a.orig_name_offset + 4 + a.orig_name_len <= a.orig_stats_offset,
        a.orig_stats_offset + 24 < b.orig_name_offset,
        b.orig_name_offset + 4 + b.orig_name_len <= b.orig_stats_offset,
        b.orig_stats_offset + 24 < data.len(),
        a.name@.len() <= 255,
        b.name@.len() <= 255,
    ensures
        ({
            let r = patch_all(data, seq![a, b]);
            let da = a.name@.len() - a.orig_name_len;
            let db = b.name@.len() - b.orig_name_len;
            let anp = a.orig_name_offset as int;
            let bnp = b.orig_name_offset as int;
            &&& patch_all_ok(data.len() as int, seq![a, b])
            &&& r.len() == data.len() + da + db
            &&& forall|j: int| 0 <= j < a.orig_name_offset ==> r[j] == data[j]
            &&& r.subrange(anp + 4, anp + 4 + a.name@.len()) == a.name@
            &&& r.subrange(bnp + 4 + da, bnp + 4 + da + b.name@.len()) == b.name@
            &&& r[a.orig_stats_offset + 4 + da] == a.hps
            &&& r[b.orig_stats_offset + 4 + da + db] == b.hps
        }),
{
    let da = a.name@.len() - a.orig_name_len;
    let db = b.name@.len() - b.orig_name_len;
    let anp = a.orig_name_offset as int;
    let bnp = b.orig_name_offset as int;
    let asp = a.orig_stats_offset as int;
    let bsp = b.orig_stats_offset as int;
    let d1 = patch_record_seq(data, b);
    lemma_patch_record_shape(data, b);
    assert(d1.len() == data.len() + db);
    assert(patch_ok(d1.len() as int, a));
    lemma_patch_record_shape(d1, a);
    let r = patch_record_seq(d1, a);
    assert(seq![a, b].last() == b);
    assert(seq![a, b].drop_last() =~= seq![a]);
    assert(patch_all(data, seq![a, b]) == patch_all(d1, seq![a]));
    assert(seq![a].last() == a);
    assert(seq![a].drop_last() =~= Seq::<Soldier>::empty());
    assert(patch_all(d1, seq![a]) == patch_all(r, Seq::<Soldier>::empty()));
    assert(patch_all(r, Seq::<Soldier>::empty()) == r);
    assert(patch_all(data, seq![a, b]) == r);
    assert(patch_ok(data.len() as int, b));
    assert(patched_len(data.len() as int, b) == data.len() + db);
    assert(patch_all_ok(patched_len(data.len() + db, a), Seq::<Soldier>::empty()));
    assert(seq![a].drop_last() == Seq::<Soldier>::empty());
    assert(patch_all_ok(data.len() + db, seq![a]));
    assert(patch_all_ok(data.len() as int, seq![a, b]));
    // b's name sits in d1 at its captured field; a's patch shifts it by da
    assert(d1.subrange(bnp + 4, bnp + 4 + b.name@.len()) == b.name@);
    assert forall|m: int| 0 <= m < b.name@.len() implies r[bnp + 4 + da + m] == b.name@[m] by {
        let j = bnp + 4 + m;
        assert(anp + 4 + a.orig_name_len <= j < d1.len());
        assert(r[j + da] == d1[j]);
        assert(d1[j] == d1.subrange(bnp + 4, bnp + 4 + b.name@.len())[m]);
    }
    assert(r.subrange(bnp + 4 + da, bnp + 4 + da + b.name@.len()) =~= b.name@);
    // b's first attribute, already shifted by b's own splice, shifts by da too
    assert(d1[bsp + 4 + db] == b.hps);
    assert(anp + 4 + a.orig_name_len <= bsp + 4 + db < d1.len());
    assert(r[bsp + 4 + db + da] == d1[bsp + 4 + db]);
    assert(r[bsp + 4 + da + db] == b.hps);
}

/// Round-trip identity, executable: decodes a buffer and immediately
/// re-encodes the unedited roster; whenever the decode succeeds the result
/// is the original buffer, byte for byte.
pub fn reencode_unedited(data: &Vec<u8>) -> (r: Option<Vec<u8>>)
    ensures
        match r {
            Some(v) => parse_good(data@) && v@ == data@,
            None => !parse_good(data@),
        },
{
    match parse_save(data) {
        Ok(roster) => {
            proof {
                lemma_parse_encode_round_trip(data@, roster@);
            }
            Some(write_save_data(data, &roster))
        },
        Err(_) => None,
    }
}

} // verus!
