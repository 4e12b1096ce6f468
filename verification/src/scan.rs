//! Locating the byte range of every personnel record in a buffer.

use vstd::prelude::*;
use crate::errors::DecodeError;
use crate::markers::{
    find_first, lemma_next_match, mark2_bytes, mark2_seq, mark_bytes, mark_seq, matches_at,
    next_match,
};

verus! {

/// The ranges produced by scanning `data` left to right from `from`: each
/// start marker, taken non-overlapping, contributes the range running from
/// one byte past the marker plus one reserved byte up to the nearest end
/// marker at or after that point. A start marker with no following end
/// marker fails the whole scan.
pub open spec fn scan_ranges(data: Seq<u8>, from: int) -> Option<Seq<(int, int)>>
    decreases data.len() - from,
{
    if from < 0 || from + 15 > data.len() {
        Some(Seq::empty())
    } else if matches_at(data, mark_seq(), from) {
        match next_match(data, mark2_seq(), from + 16) {
            Some(e) => match scan_ranges(data, from + 15) {
                Some(rest) => Some(seq![(from + 16, e)] + rest),
                None => None,
            },
            None => None,
        }
    } else {
        scan_ranges(data, from + 1)
    }
}

/// Unfolds `scan_ranges` to the next start marker: the scan from `from` is
/// empty when no start marker follows, and otherwise is determined by the
/// first start marker, its nearest end marker and the scan past the marker.
pub proof fn lemma_scan_step(data: Seq<u8>, from: int)
    requires
        0 <= from,
    ensures
        match next_match(data, mark_seq(), from) {
            None => scan_ranges(data, from) == Some(Seq::<(int, int)>::empty()),
            Some(p) => match next_match(data, mark2_seq(), p + 16) {
                None => scan_ranges(data, from) is None,
                Some(e) => scan_ranges(data, from) == (match scan_ranges(data, p + 15) {
                    Some(rest) => Some(seq![(p + 16, e)] + rest),
                    None => None::<Seq<(int, int)>>,
                }),
            },
        },
    decreases data.len() - from,
{
    lemma_next_match(data, mark_seq(), from);
    assert(mark_seq().len() == 15);
    if from + 15 > data.len() {
        if next_match(data, mark_seq(), from) is Some {
            let j = next_match(data, mark_seq(), from)->Some_0;
            assert(matches_at(data, mark_seq(), j));
            assert(false);
        }
    } else if matches_at(data, mark_seq(), from) {
        assert(next_match(data, mark_seq(), from) == Some(from));
    } else {
        lemma_scan_step(data, from + 1);
        assert(next_match(data, mark_seq(), from) == next_match(data, mark_seq(), from + 1));
        assert(scan_ranges(data, from) == scan_ranges(data, from + 1));
    }
}

/// Turns exec ranges into their mathematical counterpart.
pub open spec fn ranges_view(v: Seq<(usize, usize)>) -> Seq<(int, int)> {
    Seq::new(v.len(), |i: int| (v[i].0 as int, v[i].1 as int))
}

/// Finds every record range in `data`, in ascending order of start: the
/// result is exactly what `scan_ranges` describes, and the scan fails with
/// `MalformedMarkers` exactly when some start marker has no end marker
/// after it.
pub fn find_record_ranges(data: &Vec<u8>) -> (r: Result<Vec<(usize, usize)>, DecodeError>)
    ensures
        match r {
            Ok(v) => scan_ranges(data@, 0) == Some(ranges_view(v@)),
            Err(e) => e == DecodeError::MalformedMarkers && scan_ranges(data@, 0) is None,
        },
{
    let mark = mark_bytes();
    let mark2 = mark2_bytes();
    let mut out: Vec<(usize, usize)> = Vec::new();
    let mut pos: usize = 0;
    proof {
        assert(ranges_view(out@) =~= Seq::<(int, int)>::empty());
    }
    loop
        invariant
            pos <= data@.len(),
            mark@ == mark_seq(),
            mark2@ == mark2_seq(),
            match scan_ranges(data@, pos as int) {
                Some(rest) => scan_ranges(data@, 0) == Some(ranges_view(out@) + rest),
                None => scan_ranges(data@, 0) is None,
            },
        decreases data@.len() - pos,
    {
        proof {
            lemma_scan_step(data@, pos as int);
        }
        match find_first(data, &mark, pos) {
            None => {
                proof {
                    assert(ranges_view(out@) + Seq::<(int, int)>::empty() =~= ranges_view(out@));
                }
                return Ok(out);
            },
            Some(p) => {
                if data.len() - p < 16 {
                    // no room for an end marker after this start marker
                    proof {
                        assert(next_match(data@, mark2_seq(), p + 16) is None);
                    }
                    return Err(DecodeError::MalformedMarkers);
                }
                let s = p + 16;
                match find_first(data, &mark2, s) {
                    None => {
                        return Err(DecodeError::MalformedMarkers);
                    },
                    Some(e) => {
                        let ghost old_out = out@;
                        out.push((s, e));
                        proof {
                            assert(ranges_view(out@) =~= ranges_view(old_out) + seq![
                                (s as int, e as int),
                            ]);
                            if scan_ranges(data@, p + 15 as int) is Some {
                                let rest = scan_ranges(data@, p + 15 as int)->Some_0;
                                assert(scan_ranges(data@, pos as int) == Some(
                                    seq![(s as int, e as int)] + rest,
                                ));
                                assert(ranges_view(old_out) + (seq![(s as int, e as int)] + rest)
                                    =~= ranges_view(out@) + rest);
                            }
                        }
                        pos = p + 15;
                    },
                }
            },
        }
    }
}

} // verus!
