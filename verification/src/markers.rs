//! The fixed marker sequences that bracket each personnel record, and the
//! specification of leftmost pattern search over the raw buffer.

use vstd::prelude::*;

verus! {

/// The 15-byte sequence that opens a personnel record.
pub open spec fn mark_seq() -> Seq<u8> {
    seq![
        0x4du8, 0x41u8, 0x52u8, 0x4bu8, 0x07u8, 0x00u8, 0x00u8, 0x00u8, 0x53u8, 0x6fu8, 0x6cu8,
        0x64u8, 0x69u8, 0x65u8, 0x72u8,
    ]
}

/// The 16-byte sequence that closes a personnel record.
pub open spec fn mark2_seq() -> Seq<u8> {
    seq![
        0x4du8, 0x41u8, 0x52u8, 0x4bu8, 0x08u8, 0x00u8, 0x00u8, 0x00u8, 0x53u8, 0x6fu8, 0x6cu8,
        0x64u8, 0x69u8, 0x65u8, 0x72u8, 0x32u8,
    ]
}

/// `pat` occurs in `data` starting at position `i`.
pub open spec fn matches_at(data: Seq<u8>, pat: Seq<u8>, i: int) -> bool {
    &&& 0 <= i
    &&& i + pat.len() <= data.len()
    &&& forall|k: int| 0 <= k < pat.len() ==> data[i + k] == pat[k]
}

/// Position of the leftmost occurrence of `pat` in `data` at or after `from`,
/// or `None` when no occurrence follows.
pub open spec fn next_match(data: Seq<u8>, pat: Seq<u8>, from: int) -> Option<int>
    decreases data.len() - from,
{
    if from + pat.len() > data.len() {
        None
    } else if matches_at(data, pat, from) {
        Some(from)
    } else {
        next_match(data, pat, from + 1)
    }
}

/// `next_match` returns the least occurrence at or after `from`, and `None`
/// exactly when there is no occurrence at or after `from`.
pub proof fn lemma_next_match(data: Seq<u8>, pat: Seq<u8>, from: int)
    ensures
        match next_match(data, pat, from) {
            Some(j) => from <= j && matches_at(data, pat, j) && (forall|k: int|
                from <= k < j ==> !matches_at(data, pat, k)),
            None => forall|k: int| from <= k ==> !matches_at(data, pat, k),
        },
    decreases data.len() - from,
{
    if from + pat.len() > data.len() {
    } else if matches_at(data, pat, from) {
    } else {
        lemma_next_match(data, pat, from + 1);
    }
}

/// Builds the record-start marker as plain bytes.
pub fn mark_bytes() -> (v: Vec<u8>)
    ensures
        v@ == mark_seq(),
{
    let mut v: Vec<u8> = Vec::new();
    v.push(0x4d);
    v.push(0x41);
    v.push(0x52);
    v.push(0x4b);
    v.push(0x07);
    v.push(0x00);
    v.push(0x00);
    v.push(0x00);
    v.push(0x53);
    v.push(0x6f);
    v.push(0x6c);
    v.push(0x64);
    v.push(0x69);
    v.push(0x65);
    v.push(0x72);
    proof {
        assert(v@ =~= mark_seq());
    }
    v
}

/// Builds the record-end marker as plain bytes.
pub fn mark2_bytes() -> (v: Vec<u8>)
    ensures
        v@ == mark2_seq(),
{
    let mut v: Vec<u8> = Vec::new();
    v.push(0x4d);
    v.push(0x41);
    v.push(0x52);
    v.push(0x4b);
    v.push(0x08);
    v.push(0x00);
    v.push(0x00);
    v.push(0x00);
    v.push(0x53);
    v.push(0x6f);
    v.push(0x6c);
    v.push(0x64);
    v.push(0x69);
    v.push(0x65);
    v.push(0x72);
    v.push(0x32);
    proof {
        assert(v@ =~= mark2_seq());
    }
    v
}

/// Relies on `aho_corasick::AhoCorasick::new` and `AhoCorasick::find` with the
/// default (leftmost) match semantics and a single pattern: the returned match
/// is the leftmost occurrence of `pat` inside `data[from..]`, reported here as
/// an absolute position in `data`. The bound on the pattern length keeps the
/// automaton build well under its size limits, so building cannot fail; both
/// markers are far shorter.
#[verifier::external_body]
pub(crate) fn find_first(data: &Vec<u8>, pat: &Vec<u8>, from: usize) -> (r: Option<usize>)
    requires
        from <= data@.len(),
        1 <= pat@.len() <= 64,
    ensures
        match r {
            Some(j) => next_match(data@, pat@, from as int) == Some(j as int) && from <= j && j
                + pat@.len() <= data@.len(),
            None => next_match(data@, pat@, from as int) is None,
        },
{
    let ac = aho_corasick::AhoCorasick::new([pat.as_slice()]).unwrap();
    ac.find(&data[from..]).map(|m| m.start() + from)
}

} // verus!
