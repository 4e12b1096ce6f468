//! Planning the backup-then-overwrite sequence used when saving.
//!
//! The caller that owns the file system runs the plan: it asks the planner
//! what to do next and reports each outcome back. The planner decides; it
//! never touches a file itself. Backup names replace the target's
//! extension — the part after the last dot of the last path component,
//! when that dot does not start the component — with "bak", then "bak0"
//! through "bak255" while candidates are taken; a trailing separator or a
//! name without an extension simply gets the new extension appended.

use vstd::prelude::*;
use crate::errors::WriteError;

verus! {

/// Position of the dot starting the extension, scanning down from `i`:
/// the last dot of the last path component, unless it is the component's
/// first byte.
pub open spec fn ext_dot(name: Seq<u8>, i: int) -> Option<int>
    decreases i,
{
    if i <= 0 {
        None
    } else if name[i - 1] == 47u8 {
        None
    } else if name[i - 1] == 46u8 {
        if i - 1 > 0 && name[i - 2] != 47u8 {
            Some(i - 1)
        } else {
            None
        }
    } else {
        ext_dot(name, i - 1)
    }
}

/// The target name without its extension (the extension's dot included in
/// the cut); the whole name when it has no extension.
pub open spec fn stem_of(name: Seq<u8>) -> Seq<u8> {
    match ext_dot(name, name.len() as int) {
        Some(p) => name.subrange(0, p),
        None => name,
    }
}

/// The decimal digits of `n`, for `n` up to 255.
pub open spec fn dec_digits(n: int) -> Seq<u8> {
    if n < 10 {
        seq![(48 + n) as u8]
    } else if n < 100 {
        seq![(48 + n / 10) as u8, (48 + n % 10) as u8]
    } else {
        seq![(48 + n / 100) as u8, (48 + (n / 10) % 10) as u8, (48 + n % 10) as u8]
    }
}

/// The replacement extension of the given attempt: "bak" first, then
/// "bak0" through "bak255".
pub open spec fn bak_ext(attempt: int) -> Seq<u8> {
    if attempt == 0 {
        seq![98u8, 97u8, 107u8]
    } else {
        seq![98u8, 97u8, 107u8] + dec_digits(attempt - 1)
    }
}

/// The backup path probed at the given attempt: the target's stem, a dot,
/// and the attempt's extension.
pub open spec fn backup_candidate_spec(target: Seq<u8>, attempt: int) -> Seq<u8> {
    stem_of(target) + seq![46u8] + bak_ext(attempt)
}

/// Finds the extension dot of `name`, if any.
fn ext_dot_pos(name: &Vec<u8>) -> (r: Option<usize>)
    ensures
        match r {
            Some(p) => ext_dot(name@, name@.len() as int) == Some(p as int) && p < name@.len(),
            None => ext_dot(name@, name@.len() as int) is None,
        },
{
    let mut i: usize = name.len();
    loop
        invariant
            i <= name@.len(),
            ext_dot(name@, name@.len() as int) == ext_dot(name@, i as int),
        decreases i,
    {
        if i == 0 {
            return None;
        }
        let c = name[i - 1];
        if c == 47 {
            return None;
        }
        if c == 46 {
            if i - 1 > 0 && name[i - 2] != 47 {
                return Some(i - 1);
            } else {
                return None;
            }
        }
        i = i - 1;
    }
}

/// Builds the backup path probed at the given attempt.
pub fn backup_candidate(target: &Vec<u8>, attempt: u16) -> (r: Vec<u8>)
    requires
        attempt <= 256,
    ensures
        r@ == backup_candidate_spec(target@, attempt as int),
{
    let stem_len = match ext_dot_pos(target) {
        Some(p) => p,
        None => target.len(),
    };
    let mut r: Vec<u8> = Vec::new();
    let mut i: usize = 0;
    while i < stem_len
        invariant
            i <= stem_len,
            stem_len <= target@.len(),
            r@ == target@.subrange(0, i as int),
        decreases stem_len - i,
    {
        r.push(target[i]);
        proof {
            assert(target@.subrange(0, i + 1 as int) =~= target@.subrange(0, i as int).push(
                target@[i as int],
            ));
        }
        i = i + 1;
    }
    proof {
        assert(r@ =~= stem_of(target@));
    }
    r.push(46);
    r.push(98);
    r.push(97);
    r.push(107);
    if attempt > 0 {
        let n = attempt - 1;
        if n >= 100 {
            r.push(48 + (n / 100) as u8);
        }
        if n >= 10 {
            r.push(48 + ((n / 10) % 10) as u8);
        }
        r.push(48 + (n % 10) as u8);
    }
    proof {
        assert(r@ =~= backup_candidate_spec(target@, attempt as int));
    }
    r
}

/// The next thing the saving caller must do.
#[derive(Clone, Copy, Debug, PartialEq, Eq, Structural)]
pub enum SaveStep {
    /// Write the new buffer over the target.
    WriteTarget,
    /// Ask whether the backup candidate with this attempt number exists.
    ProbeBackup(u16),
    /// Copy the existing target to the candidate with this attempt number.
    CopyToBackup(u16),
    /// The save is complete.
    Done,
    /// The save failed; nothing more may be written.
    Failed(WriteError),
}

/// The first decision: without backup, or without an existing target,
/// write directly; otherwise probe the first backup name.
pub open spec fn begin_step(backup: bool, target_exists: bool) -> SaveStep {
    if backup && target_exists {
        SaveStep::ProbeBackup(0)
    } else {
        SaveStep::WriteTarget
    }
}

/// The decision after a probe: a free candidate is copied to; a taken one
/// moves to the next attempt until the last candidate, after which the
/// save fails with every name exhausted.
pub open spec fn probe_step(attempt: u16, exists: bool) -> SaveStep {
    if !exists {
        SaveStep::CopyToBackup(attempt)
    } else if attempt < 256 {
        SaveStep::ProbeBackup((attempt + 1) as u16)
    } else {
        SaveStep::Failed(WriteError::BackupNameExhausted)
    }
}

/// The decision after the backup copy: only a fully successful copy lets
/// the target be written.
pub open spec fn copy_step(ok: bool) -> SaveStep {
    if ok {
        SaveStep::WriteTarget
    } else {
        SaveStep::Failed(WriteError::BackupCopyFailed)
    }
}

/// The decision after writing the target.
pub open spec fn write_step(ok: bool) -> SaveStep {
    if ok {
        SaveStep::Done
    } else {
        SaveStep::Failed(WriteError::WriteFailed)
    }
}

/// Starts a save of the target.
pub fn save_begin(backup: bool, target_exists: bool) -> (r: SaveStep)
    ensures
        r == begin_step(backup, target_exists),
{
    if backup && target_exists {
        SaveStep::ProbeBackup(0)
    } else {
        SaveStep::WriteTarget
    }
}

/// Continues a save after the caller probed the candidate of `attempt`.
pub fn save_after_probe(attempt: u16, exists: bool) -> (r: SaveStep)
    requires
        attempt <= 256,
    ensures
        r == probe_step(attempt, exists),
{
    if !exists {
        SaveStep::CopyToBackup(attempt)
    } else if attempt < 256 {
        SaveStep::ProbeBackup(attempt + 1)
    } else {
        SaveStep::Failed(WriteError::BackupNameExhausted)
    }
}

/// Continues a save after the caller copied the target to the backup.
pub fn save_after_copy(ok: bool) -> (r: SaveStep)
    ensures
        r == copy_step(ok),
{
    if ok {
        SaveStep::WriteTarget
    } else {
        SaveStep::Failed(WriteError::BackupCopyFailed)
    }
}

/// Finishes a save after the caller wrote the target.
pub fn save_after_write(ok: bool) -> (r: SaveStep)
    ensures
        r == write_step(ok),
{
    if ok {
        SaveStep::Done
    } else {
        SaveStep::Failed(WriteError::WriteFailed)
    }
}

/// Backup sequencing: with an existing target whose plain ".bak" name is
/// already taken, the planner never overwrites it — it probes on, copies
/// the old target to the first free candidate (".bak0" when that one is
/// free), and reaches the target write only through a successful copy.
pub proof fn lemma_backup_sequencing(target: Seq<u8>)
    ensures
        begin_step(true, true) == SaveStep::ProbeBackup(0),
        probe_step(0, true) == SaveStep::ProbeBackup(1),
        probe_step(1, false) == SaveStep::CopyToBackup(1),
        backup_candidate_spec(target, 0) == stem_of(target) + seq![46u8, 98u8, 97u8, 107u8],
        backup_candidate_spec(target, 1) == stem_of(target) + seq![
            46u8,
            98u8,
            97u8,
            107u8,
            48u8,
        ],
        copy_step(true) == SaveStep::WriteTarget,
        copy_step(false) == SaveStep::Failed(WriteError::BackupCopyFailed),
{
    assert(backup_candidate_spec(target, 0) =~= stem_of(target) + seq![46u8, 98u8, 97u8, 107u8]);
    assert(backup_candidate_spec(target, 1) =~= stem_of(target) + seq![
        46u8,
        98u8,
        97u8,
        107u8,
        48u8,
    ]);
}

/// Distinct attempts probe distinct names: "bak" and the numbered
/// extensions "bak0" through "bak255" never collide, so the first free
/// candidate found is a name no earlier attempt probed.
pub proof fn lemma_backup_candidates_distinct(target: Seq<u8>, a: int, b: int)
    requires
        0 <= a <= 256,
        0 <= b <= 256,
        a != b,
    ensures
        backup_candidate_spec(target, a) != backup_candidate_spec(target, b),
{
    let sa = backup_candidate_spec(target, a);
    let sb = backup_candidate_spec(target, b);
    let k = stem_of(target).len() as int;
    assert(sa.len() == k + 4 + dec_len(a));
    assert(sb.len() == k + 4 + dec_len(b));
    if dec_len(a) != dec_len(b) {
        assert(sa.len() != sb.len());
    } else if dec_len(a) == 1 {
        let n = a - 1;
        let m = b - 1;
        assert(sa[k + 4] == (48 + n) as u8);
        assert(sb[k + 4] == (48 + m) as u8);
        assert(sa[k + 4] != sb[k + 4]);
    } else if dec_len(a) == 2 {
        let n = a - 1;
        let m = b - 1;
        assert(sa[k + 4] == (48 + n / 10) as u8 && sa[k + 5] == (48 + n % 10) as u8);
        assert(sb[k + 4] == (48 + m / 10) as u8 && sb[k + 5] == (48 + m % 10) as u8);
        assert(n == 10 * (n / 10) + n % 10);
        assert(m == 10 * (m / 10) + m % 10);
        assert(sa[k + 4] != sb[k + 4] || sa[k + 5] != sb[k + 5]);
    } else if dec_len(a) == 3 {
        let n = a - 1;
        let m = b - 1;
        assert(sa[k + 4] == (48 + n / 100) as u8 && sa[k + 5] == (48 + (n / 10) % 10) as u8
            && sa[k + 6] == (48 + n % 10) as u8);
        assert(sb[k + 4] == (48 + m / 100) as u8 && sb[k + 5] == (48 + (m / 10) % 10) as u8
            && sb[k + 6] == (48 + m % 10) as u8);
        assert(n == 100 * (n / 100) + 10 * ((n / 10) % 10) + n % 10);
        assert(m == 100 * (m / 100) + 10 * ((m / 10) % 10) + m % 10);
        assert(sa[k + 4] != sb[k + 4] || sa[k + 5] != sb[k + 5] || sa[k + 6] != sb[k + 6]);
    }
}

/// How many decimal digits the candidate of `attempt` carries.
pub open spec fn dec_len(attempt: int) -> int {
    if attempt == 0 {
        0
    } else if attempt - 1 < 10 {
        1
    } else if attempt - 1 < 100 {
        2
    } else {
        3
    }
}

/// Exhaustion: while every candidate is taken the planner keeps probing
/// through the last attempt and then fails; no probe outcome and no failed
/// copy ever writes the target, so an exhausted or failed backup leaves
/// the target untouched.
pub proof fn lemma_backup_exhaustion()
    ensures
        forall|attempt: u16|
            attempt < 256 ==> probe_step(attempt, true) == SaveStep::ProbeBackup(
                (attempt + 1) as u16,
            ),
        probe_step(256, true) == SaveStep::Failed(WriteError::BackupNameExhausted),
        forall|attempt: u16, exists: bool|
            probe_step(attempt, exists) != SaveStep::WriteTarget && probe_step(attempt, exists)
                != SaveStep::Done,
        copy_step(false) != SaveStep::WriteTarget && copy_step(false) != SaveStep::Done,
{
}

} // verus!
