//! Decoding one record range into a `Soldier`, and decoding the whole
//! roster.
//!
//! A record is walked with a repeating pattern: a one-byte length prefix
//! followed by three fixed bytes, then that many content bytes. The fields
//! come in a fixed order: nationality, display name, portrait identifier,
//! one reserved four-byte span, home country, then the fixed-width block
//! of six attributes, each preceded by three fixed bytes.

use vstd::prelude::*;
use crate::errors::DecodeError;
use crate::scan::{find_record_ranges, ranges_view, scan_ranges};
use crate::soldier::{NameString, Soldier};

verus! {

/// The roster always holds exactly this many records.
pub const ROSTER_SIZE: usize = 12;

/// Offset of the one-byte length prefix of the display name: past the
/// leading three bytes, the nationality prefix and its content.
pub open spec fn name_len_pos(data: Seq<u8>, start: int) -> int {
    start + 7 + data[start + 3]
}

/// Offset of the length prefix of the portrait identifier.
pub open spec fn portrait_len_pos(data: Seq<u8>, start: int) -> int {
    name_len_pos(data, start) + 4 + data[name_len_pos(data, start)]
}

/// Offset of the length prefix of the home-country text: past the portrait
/// field and the reserved four-byte span.
pub open spec fn country_len_pos(data: Seq<u8>, start: int) -> int {
    portrait_len_pos(data, start) + 8 + data[portrait_len_pos(data, start)]
}

/// Offset of the start of the fixed-width statistics block; the six
/// attribute bytes sit at strides of four past it.
pub open spec fn stats_pos(data: Seq<u8>, start: int) -> int {
    country_len_pos(data, start) + 4 + data[country_len_pos(data, start)]
}

/// Every byte the record walk reads lies inside the buffer.
pub open spec fn rec_in_bounds(data: Seq<u8>, start: int) -> bool {
    &&& 0 <= start
    &&& start + 3 < data.len()
    &&& name_len_pos(data, start) < data.len()
    &&& portrait_len_pos(data, start) < data.len()
    &&& country_len_pos(data, start) < data.len()
    &&& stats_pos(data, start) + 24 < data.len()
}

/// `s` holds exactly what the record starting at `start` stores: the name
/// bytes, the six attributes, and the captured patch offsets.
pub open spec fn soldier_decoded(s: Soldier, data: Seq<u8>, start: int) -> bool {
    let np = name_len_pos(data, start);
    let sp = stats_pos(data, start);
    &&& s.orig_name_offset == np
    &&& s.orig_name_len == data[np]
    &&& s.name@ == data.subrange(np + 4, np + 4 + data[np])
    &&& s.orig_stats_offset == sp
    &&& s.hps == data[sp + 4]
    &&& s.stg == data[sp + 8]
    &&& s.acc == data[sp + 12]
    &&& s.rfl == data[sp + 16]
    &&& s.brv == data[sp + 20]
    &&& s.tus == data[sp + 24]
}

/// From the length prefix at `pos`, steps to the next length prefix: past
/// the four prefix bytes, the content bytes it describes and `extra`
/// further bytes; fails when that lands at or past the buffer end.
fn skip_field(data: &Vec<u8>, pos: usize, extra: usize) -> (r: Result<usize, DecodeError>)
    requires
        pos < data@.len(),
        extra <= 8,
    ensures
        match r {
            Ok(q) => q == pos + 4 + extra + data@[pos as int] && q < data@.len(),
            Err(e) => e == DecodeError::TruncatedRecord && pos + 4 + extra + data@[pos as int]
                >= data@.len(),
        },
{
    let l = data[pos] as usize;
    let rem = data.len() - pos - 1;
    if 4 + extra + l > rem {
        Err(DecodeError::TruncatedRecord)
    } else {
        Ok(pos + 4 + extra + l)
    }
}

/// Decodes the record whose range starts at `start`, capturing the name,
/// the six attributes and the patch offsets; any read past the buffer end
/// is a truncation error.
pub fn decode_record(data: &Vec<u8>, start: usize) -> (r: Result<Soldier, DecodeError>)
    ensures
        match r {
            Ok(s) => rec_in_bounds(data@, start as int) && soldier_decoded(
                s,
                data@,
                start as int,
            ),
            Err(e) => e == DecodeError::TruncatedRecord && !rec_in_bounds(data@, start as int),
        },
{
    let n = data.len();
    if n < 4 || start > n - 4 {
        return Err(DecodeError::TruncatedRecord);
    }
    // nationality length prefix at start + 3
    let c1 = match skip_field(data, start + 3, 0) {
        Ok(q) => q,
        Err(e) => {
            return Err(e);
        },
    };
    assert(c1 == name_len_pos(data@, start as int));
    let orig_name_len = data[c1] as usize;
    let c2 = match skip_field(data, c1, 0) {
        Ok(q) => q,
        Err(e) => {
            return Err(e);
        },
    };
    assert(c2 == portrait_len_pos(data@, start as int));
    // portrait field, then the reserved four-byte span
    let c3 = match skip_field(data, c2, 4) {
        Ok(q) => q,
        Err(e) => {
            return Err(e);
        },
    };
    assert(c3 == country_len_pos(data@, start as int));
    let sp = match skip_field(data, c3, 0) {
        Ok(q) => q,
        Err(e) => {
            return Err(e);
        },
    };
    assert(sp == stats_pos(data@, start as int));
    if n - sp < 25 {
        return Err(DecodeError::TruncatedRecord);
    }
    // copy the stored name bytes; c2 == c1 + 4 + orig_name_len <= n
    let mut name_bytes: Vec<u8> = Vec::new();
    let mut i: usize = 0;
    while i < orig_name_len
        invariant
            i <= orig_name_len,
            data@.len() <= usize::MAX,
            c1 + 4 + orig_name_len < data@.len(),
            name_bytes@ == data@.subrange(c1 + 4, c1 + 4 + i),
        decreases orig_name_len - i,
    {
        name_bytes.push(data[c1 + 4 + i]);
        proof {
            assert(data@.subrange(c1 + 4, c1 + 4 + i + 1) =~= data@.subrange(
                c1 + 4,
                c1 + 4 + i,
            ).push(data@[c1 + 4 + i]));
        }
        i = i + 1;
    }
    Ok(
        Soldier {
            name: NameString { bytes: name_bytes },
            hps: data[sp + 4],
            stg: data[sp + 8],
            acc: data[sp + 12],
            rfl: data[sp + 16],
            brv: data[sp + 20],
            tus: data[sp + 24],
            orig_name_offset: c1,
            orig_name_len,
            orig_stats_offset: sp,
        },
    )
}

/// The buffer scans cleanly into exactly `ROSTER_SIZE` ranges and every
/// record walk stays inside the buffer.
pub open spec fn parse_good(data: Seq<u8>) -> bool {
    &&& scan_ranges(data, 0) is Some
    &&& scan_ranges(data, 0)->Some_0.len() == ROSTER_SIZE
    &&& forall|i: int|
        0 <= i < ROSTER_SIZE ==> rec_in_bounds(data, scan_ranges(data, 0)->Some_0[i].0)
}

/// Decodes a whole save buffer into the fixed-size roster, in the order
/// the records appear. Any marker problem or wrong record count is
/// `MalformedMarkers`; a record walk leaving the buffer is
/// `TruncatedRecord`; no partial roster is ever returned.
pub fn parse_save(data: &Vec<u8>) -> (r: Result<Vec<Soldier>, DecodeError>)
    ensures
        r is Ok <==> parse_good(data@),
        match r {
            Ok(v) => {
                &&& v@.len() == ROSTER_SIZE
                &&& forall|i: int|
                    0 <= i < ROSTER_SIZE ==> soldier_decoded(
                        v@[i],
                        data@,
                        scan_ranges(data@, 0)->Some_0[i].0,
                    )
            },
            Err(e) => {
                &&& (e == DecodeError::MalformedMarkers <==> (scan_ranges(data@, 0) is None
                    || scan_ranges(data@, 0)->Some_0.len() != ROSTER_SIZE))
                &&& (e == DecodeError::TruncatedRecord <==> (scan_ranges(data@, 0) is Some
                    && scan_ranges(data@, 0)->Some_0.len() == ROSTER_SIZE && !(forall|i: int|
                    0 <= i < ROSTER_SIZE ==> rec_in_bounds(
                        data@,
                        scan_ranges(data@, 0)->Some_0[i].0,
                    ))))
            },
        },
{
    let ranges = match find_record_ranges(data) {
        Ok(v) => v,
        Err(_) => {
            return Err(DecodeError::MalformedMarkers);
        },
    };
    if ranges.len() != ROSTER_SIZE {
        return Err(DecodeError::MalformedMarkers);
    }
    let ghost gr = scan_ranges(data@, 0)->Some_0;
    proof {
        assert(gr == ranges_view(ranges@));
    }
    let mut out: Vec<Soldier> = Vec::new();
    let mut i: usize = 0;
    while i < ROSTER_SIZE
        invariant
            i <= ROSTER_SIZE,
            out@.len() == i,
            ranges@.len() == ROSTER_SIZE,
            gr == ranges_view(ranges@),
            scan_ranges(data@, 0) == Some(gr),
            forall|j: int| 0 <= j < i ==> rec_in_bounds(data@, gr[j].0),
            forall|j: int| 0 <= j < i ==> soldier_decoded(out@[j], data@, gr[j].0),
        decreases ROSTER_SIZE - i,
    {
        let (s, _e) = ranges[i];
        match decode_record(data, s) {
            Ok(soldier) => {
                out.push(soldier);
            },
            Err(_) => {
                proof {
                    assert(gr[i as int].0 == s as int);
                    assert(!rec_in_bounds(data@, gr[i as int].0));
                }
                return Err(DecodeError::TruncatedRecord);
            },
        }
        i = i + 1;
    }
    Ok(out)
}

} // verus!
