//! Re-encoding an edited roster over the original buffer.
//!
//! The encoder starts from a full copy of the original bytes and patches
//! one record at a time, last record first. Records are decoded in forward
//! scan order, so later records sit at larger offsets; a name whose length
//! changed splices the buffer and shifts every later byte, so patching from
//! the highest offset down keeps every not-yet-patched record's captured
//! offsets valid at the moment it is patched.

use vstd::prelude::*;
use crate::bytes::{splice_bytes, splice_seq};
use crate::soldier::Soldier;

verus! {

/// The buffer with the six attribute bytes of `s` written at their
/// captured offsets; a fixed-width overwrite that never changes length.
pub open spec fn patch_stats_seq(data: Seq<u8>, s: Soldier) -> Seq<u8> {
    let sp = s.orig_stats_offset as int;
    data.update(sp + 4, s.hps).update(sp + 8, s.stg).update(sp + 12, s.acc).update(
        sp + 16,
        s.rfl,
    ).update(sp + 20, s.brv).update(sp + 24, s.tus)
}

/// The buffer with the name of `s` written over its captured field. A name
/// of the stored length is overwritten in place; any other length first
/// rewrites the one-byte length prefix and then splices the new bytes over
/// the old span, shifting everything after it.
pub open spec fn patch_name_seq(data: Seq<u8>, s: Soldier) -> Seq<u8> {
    let np = s.orig_name_offset as int;
    let onl = s.orig_name_len as int;
    if s.name@.len() == onl {
        splice_seq(data, np + 4, np + 4 + onl, s.name@)
    } else {
        splice_seq(data.update(np, s.name@.len() as u8), np + 4, np + 4 + onl, s.name@)
    }
}

/// One record's full patch: attributes first, then the name.
pub open spec fn patch_record_seq(data: Seq<u8>, s: Soldier) -> Seq<u8> {
    patch_name_seq(patch_stats_seq(data, s), s)
}

/// The captured offsets of `s` fit a buffer of length `len`, and the name
/// fits its one-byte length prefix.
pub open spec fn patch_ok(len: int, s: Soldier) -> bool {
    &&& s.orig_name_offset + 4 + s.orig_name_len <= len
    &&& s.orig_stats_offset + 24 < len
    &&& s.name@.len() <= 255
}

/// The buffer length after one record's patch.
pub open spec fn patched_len(len: int, s: Soldier) -> int {
    if s.name@.len() == s.orig_name_len {
        len
    } else {
        len - s.orig_name_len + s.name@.len()
    }
}

/// The buffer after patching every record of `soldiers`, last first.
pub open spec fn patch_all(data: Seq<u8>, soldiers: Seq<Soldier>) -> Seq<u8>
    decreases soldiers.len(),
{
    if soldiers.len() == 0 {
        data
    } else {
        patch_all(patch_record_seq(data, soldiers.last()), soldiers.drop_last())
    }
}

/// Every patch of the reverse pass lands inside the buffer as it stands
/// when that record's turn comes.
pub open spec fn patch_all_ok(len: int, soldiers: Seq<Soldier>) -> bool
    decreases soldiers.len(),
{
    soldiers.len() == 0 || (patch_ok(len, soldiers.last()) && patch_all_ok(
        patched_len(len, soldiers.last()),
        soldiers.drop_last(),
    ))
}

/// A record's patch changes the buffer length exactly by the difference
/// between the new and the stored name length.
pub proof fn lemma_patch_record_len(data: Seq<u8>, s: Soldier)
    requires
        patch_ok(data.len() as int, s),
    ensures
        patch_record_seq(data, s).len() == patched_len(data.len() as int, s),
{
    let ds = patch_stats_seq(data, s);
    assert(ds.len() == data.len());
}

/// Encodes the roster over a copy of `orig_data`, patching the records in
/// reverse roster order; the result is exactly the `patch_all` of the two.
pub fn write_save_data(orig_data: &Vec<u8>, soldiers: &Vec<Soldier>) -> (r: Vec<u8>)
    requires
        patch_all_ok(orig_data@.len() as int, soldiers@),
    ensures
        r@ == patch_all(orig_data@, soldiers@),
{
    let mut result: Vec<u8> = Vec::new();
    result.extend_from_slice(orig_data.as_slice());
    proof {
        assert(result@ =~= orig_data@);
        assert(soldiers@.skip(soldiers@.len() as int) =~= Seq::<Soldier>::empty());
        assert(soldiers@.take(soldiers@.len() as int) =~= soldiers@);
    }
    let _count: usize = result.len();
    let mut i: usize = soldiers.len();
    while i > 0
        invariant
            i <= soldiers@.len(),
            soldiers@.len() <= usize::MAX,
            result@.len() <= usize::MAX,
            patch_all_ok(result@.len() as int, soldiers@.take(i as int)),
            patch_all(orig_data@, soldiers@) == patch_all(result@, soldiers@.take(i as int)),
        decreases i,
    {
        let s = &soldiers[i - 1];
        let ghost prefix = soldiers@.take(i as int);
        let ghost before = result@;
        proof {
            assert(prefix.last() == soldiers@[i - 1]);
            assert(patch_ok(result@.len() as int, soldiers@[i - 1]));
        }
        // the six attributes: fixed-width, in the order they sit in the file
        let sp = s.orig_stats_offset;
        result[sp + 4] = s.hps;
        result[sp + 8] = s.stg;
        result[sp + 12] = s.acc;
        result[sp + 16] = s.rfl;
        result[sp + 20] = s.brv;
        result[sp + 24] = s.tus;
        proof {
            assert(result@ == patch_stats_seq(before, soldiers@[i - 1]));
        }
        // the name: in place when the length matches, else prefix and splice
        let np = s.orig_name_offset;
        let onl = s.orig_name_len;
        if s.name.len() == onl {
            result = splice_bytes(&result, np + 4, np + 4 + onl, s.name.as_bytes());
        } else {
            result[np] = s.name.len() as u8;
            result = splice_bytes(&result, np + 4, np + 4 + onl, s.name.as_bytes());
        }
        proof {
            assert(result@ == patch_record_seq(before, soldiers@[i - 1]));
            assert(prefix.drop_last() =~= soldiers@.take(i - 1));
            lemma_patch_record_len(before, soldiers@[i - 1]);
            lemma_patch_all_unwind(before, soldiers@.take(i - 1), soldiers@[i - 1]);
            assert(soldiers@.take(i - 1).push(soldiers@[i - 1]) =~= prefix);
        }
        i = i - 1;
    }
    proof {
        assert(soldiers@.take(0) =~= Seq::<Soldier>::empty());
    }
    result
}

/// Patching a roster that ends in `s` is patching `s` first and then the
/// rest.
pub proof fn lemma_patch_all_unwind(data: Seq<u8>, rest: Seq<Soldier>, s: Soldier)
    ensures
        patch_all(data, rest.push(s)) == patch_all(patch_record_seq(data, s), rest),
{
    assert(rest.push(s).last() == s);
    assert(rest.push(s).drop_last() =~= rest);
}

/// Checks, without touching the buffer, that every captured offset of the
/// roster stays valid through the reverse patch pass over a buffer of
/// length `orig_len`.
pub fn can_patch(orig_len: usize, soldiers: &Vec<Soldier>) -> (r: bool)
    ensures
        r == patch_all_ok(orig_len as int, soldiers@),
{
    let mut len: u128 = orig_len as u128;
    let mut i: usize = soldiers.len();
    proof {
        assert(soldiers@.take(soldiers@.len() as int) =~= soldiers@);
    }
    while i > 0
        invariant
            i <= soldiers@.len(),
            soldiers@.len() <= usize::MAX,
            len <= orig_len + 255 * (soldiers@.len() - i),
            patch_all_ok(orig_len as int, soldiers@) == patch_all_ok(
                len as int,
                soldiers@.take(i as int),
            ),
        decreases i,
    {
        let s = &soldiers[i - 1];
        let ghost prefix = soldiers@.take(i as int);
        proof {
            assert(prefix.last() == soldiers@[i - 1]);
            assert(prefix.drop_last() =~= soldiers@.take(i - 1));
        }
        let name_len = s.name.len();
        let fits = (s.orig_name_offset as u128) + 4 + (s.orig_name_len as u128) <= len
            && (s.orig_stats_offset as u128) + 24 < len && name_len <= 255;
        if !fits {
            return false;
        }
        if name_len != s.orig_name_len {
            len = len - (s.orig_name_len as u128) + (name_len as u128);
        }
        i = i - 1;
    }
    proof {
        assert(soldiers@.take(0) =~= Seq::<Soldier>::empty());
    }
    true
}

/// Encodes the roster only when every captured offset checks out against
/// the buffer; a roster whose offsets do not fit the buffer is refused.
pub fn write_save_data_checked(orig_data: &Vec<u8>, soldiers: &Vec<Soldier>) -> (r: Option<
    Vec<u8>,
>)
    ensures
        match r {
            Some(v) => patch_all_ok(orig_data@.len() as int, soldiers@) && v@ == patch_all(
                orig_data@,
                soldiers@,
            ),
            None => !patch_all_ok(orig_data@.len() as int, soldiers@),
        },
{
    if can_patch(orig_data.len(), soldiers) {
        Some(write_save_data(orig_data, soldiers))
    } else {
        None
    }
}

} // verus!
