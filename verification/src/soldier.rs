//! The roster model: one personnel record with its editable fields and the
//! patch offsets captured when it was decoded.

use vstd::prelude::*;
use crate::bytes::splice_bytes;

verus! {

/// Lowest attribute value offered by the editing surface.
pub const MIN_STAT: u8 = 35;

/// Highest attribute value offered by the editing surface.
pub const MAX_STAT: u8 = 70;

/// Longest display name, in bytes, accepted from the editing surface.
pub const MAX_NAME_LEN: usize = 20;

/// Every byte is seven-bit ASCII.
pub open spec fn ascii_seq(s: Seq<u8>) -> bool {
    forall|i: int| 0 <= i < s.len() ==> s[i] < 128
}

/// Checks that every byte of `v` is seven-bit ASCII.
pub fn is_ascii_bytes(v: &Vec<u8>) -> (r: bool)
    ensures
        r == ascii_seq(v@),
{
    let mut i: usize = 0;
    while i < v.len()
        invariant
            i <= v@.len(),
            forall|k: int| 0 <= k < i ==> v@[k] < 128,
        decreases v@.len() - i,
    {
        if v[i] >= 128 {
            return false;
        }
        i = i + 1;
    }
    true
}

/// What `String::from_utf8_lossy` makes of a byte sequence; the result is
/// a pure function of the bytes.
pub uninterp spec fn lossy_utf8(bytes: Seq<u8>) -> Seq<char>;

/// Relies on `String::from_utf8_lossy`: a pure function of the bytes that
/// keeps valid UTF-8 as it is and replaces each invalid sequence with
/// U+FFFD; an empty input gives an empty string.
#[verifier::external_body]
fn bytes_to_lossy_string(bytes: &Vec<u8>) -> (r: String)
    ensures
        r@ == lossy_utf8(bytes@),
        bytes@.len() == 0 ==> r@.len() == 0,
{
    String::from_utf8_lossy(bytes.as_slice()).into_owned()
}

/// An editable display name, kept as the raw bytes stored in the file.
/// Edits through the mutating methods only ever accept ASCII text of at
/// most `MAX_NAME_LEN` bytes; decoding may load any bytes the file holds,
/// up to the 255 a single length prefix can describe.
#[derive(Clone, Debug)]
pub struct NameString {
    pub bytes: Vec<u8>,
}

impl View for NameString {
    type V = Seq<u8>;

    open spec fn view(&self) -> Seq<u8> {
        self.bytes@
    }
}

impl NameString {
    /// An empty name.
    pub fn new() -> (r: NameString)
        ensures
            r@ == Seq::<u8>::empty(),
    {
        NameString { bytes: Vec::new() }
    }

    /// The name is always editable.
    pub fn is_mutable(&self) -> (r: bool)
        ensures
            r,
    {
        true
    }

    /// The stored bytes.
    pub fn as_bytes(&self) -> (r: &Vec<u8>)
        ensures
            r@ == self@,
    {
        &self.bytes
    }

    /// The stored length in bytes.
    pub fn len(&self) -> (r: usize)
        ensures
            r == self@.len(),
    {
        self.bytes.len()
    }

    /// The name as text for display, decoded permissively: invalid byte
    /// sequences come out as replacement characters.
    pub fn display(&self) -> (r: String)
        ensures
            r@ == lossy_utf8(self@),
    {
        bytes_to_lossy_string(&self.bytes)
    }

    /// Inserts `text` at byte position `at`. Text that is not ASCII, or
    /// that would push the name past `MAX_NAME_LEN` bytes, is rejected
    /// whole: nothing changes and no bytes count as inserted.
    pub fn insert_text(&mut self, text: &Vec<u8>, at: usize) -> (n: usize)
        requires
            at <= old(self)@.len(),
        ensures
            ascii_seq(text@) && text@.len() + old(self)@.len() <= MAX_NAME_LEN ==> {
                &&& final(self)@ == old(self)@.subrange(0, at as int) + text@ + old(self)@.subrange(
                    at as int,
                    old(self)@.len() as int,
                )
                &&& n == text@.len()
            },
            !(ascii_seq(text@) && text@.len() + old(self)@.len() <= MAX_NAME_LEN) ==> {
                &&& final(self)@ == old(self)@
                &&& n == 0
            },
    {
        if !is_ascii_bytes(text) || text.len() > MAX_NAME_LEN || self.bytes.len() > MAX_NAME_LEN
            - text.len() {
            return 0;
        }
        self.bytes = splice_bytes(&self.bytes, at, at, text);
        text.len()
    }

    /// Removes the byte range `[start, end)` from the name.
    pub fn delete_char_range(&mut self, start: usize, end: usize)
        requires
            start <= end <= old(self)@.len(),
        ensures
            final(self)@ == old(self)@.subrange(0, start as int) + old(self)@.subrange(
                end as int,
                old(self)@.len() as int,
            ),
    {
        let empty: Vec<u8> = Vec::new();
        self.bytes = splice_bytes(&self.bytes, start, end, &empty);
        proof {
            assert(old(self)@.subrange(0, start as int) + empty@ + old(self)@.subrange(
                end as int,
                old(self)@.len() as int,
            ) =~= old(self)@.subrange(0, start as int) + old(self)@.subrange(
                end as int,
                old(self)@.len() as int,
            ));
        }
    }

    /// Empties the name.
    pub fn clear(&mut self)
        ensures
            final(self)@ == Seq::<u8>::empty(),
    {
        self.bytes.clear();
    }

    /// Replaces the whole name with `text` when it is ASCII and at most
    /// `MAX_NAME_LEN` bytes; anything else is rejected and nothing changes.
    pub fn replace(&mut self, text: &Vec<u8>)
        ensures
            ascii_seq(text@) && text@.len() <= MAX_NAME_LEN ==> final(self)@ == text@,
            !(ascii_seq(text@) && text@.len() <= MAX_NAME_LEN) ==> final(self)@ == old(self)@,
    {
        if is_ascii_bytes(text) && text.len() <= MAX_NAME_LEN {
            self.bytes = text.clone();
            proof {
                assert(self@ =~= text@);
            }
        }
    }

    /// Hands the stored bytes out, leaving the name empty.
    pub fn take(&mut self) -> (r: Vec<u8>)
        ensures
            r@ == old(self)@,
            final(self)@ == Seq::<u8>::empty(),
    {
        let r = self.bytes.split_off(0);
        proof {
            assert(r@ =~= old(self)@);
            assert(self@ =~= Seq::<u8>::empty());
        }
        r
    }
}

/// One personnel record: the display name, the six single-byte attributes,
/// and the offsets captured at decode time that the encoder patches. The
/// offsets are meaningful only against the exact buffer the record was
/// decoded from.
#[derive(Clone, Debug)]
pub struct Soldier {
    pub name: NameString,
    pub tus: u8,
    pub hps: u8,
    pub stg: u8,
    pub acc: u8,
    pub rfl: u8,
    pub brv: u8,
    /// Absolute offset of the one-byte length prefix of the stored name.
    pub orig_name_offset: usize,
    /// Stored byte length of the name at decode time.
    pub orig_name_len: usize,
    /// Absolute offset of the start of the fixed-width statistics block.
    pub orig_stats_offset: usize,
}

impl Soldier {
    /// The total of the six attributes; at most 6 * 255, so it always fits.
    pub fn sum(&self) -> (r: u32)
        ensures
            r == self.tus + self.hps + self.stg + self.acc + self.rfl + self.brv,
    {
        self.tus as u32 + self.hps as u32 + self.stg as u32 + self.acc as u32 + self.rfl as u32
            + self.brv as u32
    }
}

impl Default for Soldier {
    /// A placeholder record: name "None", every attribute at `MIN_STAT`,
    /// no captured offsets.
    fn default() -> (s: Soldier)
        ensures
            s.name@ == seq![0x4eu8, 0x6fu8, 0x6eu8, 0x65u8],
            s.tus == MIN_STAT && s.hps == MIN_STAT && s.stg == MIN_STAT,
            s.acc == MIN_STAT && s.rfl == MIN_STAT && s.brv == MIN_STAT,
            s.orig_name_offset == 0 && s.orig_name_len == 0 && s.orig_stats_offset == 0,
    {
        let mut bytes: Vec<u8> = Vec::new();
        bytes.push(0x4e);
        bytes.push(0x6f);
        bytes.push(0x6e);
        bytes.push(0x65);
        proof {
            assert(bytes@ =~= seq![0x4eu8, 0x6fu8, 0x6eu8, 0x65u8]);
        }
        Soldier {
            name: NameString { bytes },
            tus: MIN_STAT,
            hps: MIN_STAT,
            stg: MIN_STAT,
            acc: MIN_STAT,
            rfl: MIN_STAT,
            brv: MIN_STAT,
            orig_name_offset: 0,
            orig_name_len: 0,
            orig_stats_offset: 0,
        }
    }
}

} // verus!
