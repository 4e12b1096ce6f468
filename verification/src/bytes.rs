//! Replacing a byte range of a buffer with other bytes.

use vstd::prelude::*;

verus! {

/// `data` with the range `[start, end)` replaced by `repl`.
pub open spec fn splice_seq(data: Seq<u8>, start: int, end: int, repl: Seq<u8>) -> Seq<u8> {
    data.subrange(0, start) + repl + data.subrange(end, data.len() as int)
}

/// Builds a new buffer equal to `data` with `[start, end)` replaced by
/// `repl`; the total length changes by the difference of the two spans.
pub fn splice_bytes(data: &Vec<u8>, start: usize, end: usize, repl: &Vec<u8>) -> (r: Vec<u8>)
    requires
        start <= end,
        end <= data@.len(),
    ensures
        r@ == splice_seq(data@, start as int, end as int, repl@),
        r@.len() <= usize::MAX,
{
    let mut r: Vec<u8> = Vec::new();
    let mut i: usize = 0;
    while i < start
        invariant
            i <= start,
            start <= end <= data@.len(),
            r@ == data@.subrange(0, i as int),
        decreases start - i,
    {
        r.push(data[i]);
        proof {
            assert(data@.subrange(0, i + 1 as int) =~= data@.subrange(0, i as int).push(
                data@[i as int],
            ));
        }
        i = i + 1;
    }
    let mut j: usize = 0;
    while j < repl.len()
        invariant
            j <= repl@.len(),
            start <= end <= data@.len(),
            r@ == data@.subrange(0, start as int) + repl@.subrange(0, j as int),
        decreases repl@.len() - j,
    {
        r.push(repl[j]);
        proof {
            assert(repl@.subrange(0, j + 1 as int) =~= repl@.subrange(0, j as int).push(
                repl@[j as int],
            ));
            assert(data@.subrange(0, start as int) + repl@.subrange(0, j + 1 as int)
                =~= (data@.subrange(0, start as int) + repl@.subrange(0, j as int)).push(
                repl@[j as int],
            ));
        }
        j = j + 1;
    }
    proof {
        assert(repl@.subrange(0, repl@.len() as int) =~= repl@);
    }
    let mut k: usize = end;
    while k < data.len()
        invariant
            end <= k <= data@.len(),
            start <= end <= data@.len(),
            r@ == data@.subrange(0, start as int) + repl@ + data@.subrange(end as int, k as int),
        decreases data@.len() - k,
    {
        r.push(data[k]);
        proof {
            assert(data@.subrange(end as int, k + 1 as int) =~= data@.subrange(
                end as int,
                k as int,
            ).push(data@[k as int]));
            assert(data@.subrange(0, start as int) + repl@ + data@.subrange(end as int, k + 1 as int)
                =~= (data@.subrange(0, start as int) + repl@ + data@.subrange(
                end as int,
                k as int,
            )).push(data@[k as int]));
        }
        k = k + 1;
    }
    let _count: usize = r.len();
    r
}

} // verus!
