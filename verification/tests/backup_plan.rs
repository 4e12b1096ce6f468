use save_editor::backup::{
    backup_candidate, save_after_copy, save_after_probe, save_after_write, save_begin, SaveStep,
};
use save_editor::errors::WriteError;

fn cand(target: &[u8], attempt: u16) -> Vec<u8> {
    backup_candidate(&target.to_vec(), attempt)
}

#[test]
fn candidate_names_replace_extension() {
    assert_eq!(cand(b"game.sav", 0), b"game.bak".to_vec());
    assert_eq!(cand(b"game.sav", 1), b"game.bak0".to_vec());
    assert_eq!(cand(b"game.sav", 2), b"game.bak1".to_vec());
    assert_eq!(cand(b"game.sav", 10), b"game.bak9".to_vec());
    assert_eq!(cand(b"game.sav", 11), b"game.bak10".to_vec());
    assert_eq!(cand(b"game.sav", 100), b"game.bak99".to_vec());
    assert_eq!(cand(b"game.sav", 101), b"game.bak100".to_vec());
    assert_eq!(cand(b"game.sav", 256), b"game.bak255".to_vec());
}

#[test]
fn candidate_names_handle_odd_targets() {
    // the dot of a directory never counts as the extension
    assert_eq!(cand(b"saves.v2/slot1", 0), b"saves.v2/slot1.bak".to_vec());
    // only the last dot of the file name is the extension
    assert_eq!(cand(b"archive.tar.gz", 0), b"archive.tar.bak".to_vec());
    // a leading dot starts a hidden name, not an extension
    assert_eq!(cand(b".hidden", 0), b".hidden.bak".to_vec());
    assert_eq!(cand(b"dir/.hidden", 0), b"dir/.hidden.bak".to_vec());
    // no extension at all: the new one is appended
    assert_eq!(cand(b"plainname", 0), b"plainname.bak".to_vec());
}

#[test]
fn backup_disabled_or_fresh_target_writes_directly() {
    assert_eq!(save_begin(false, true), SaveStep::WriteTarget);
    assert_eq!(save_begin(false, false), SaveStep::WriteTarget);
    assert_eq!(save_begin(true, false), SaveStep::WriteTarget);
}

#[test]
fn backup_sequencing_picks_first_free_name() {
    // target exists and ".bak" is already taken: probe on to ".bak0",
    // never overwriting ".bak", and write only after the copy succeeded
    assert_eq!(save_begin(true, true), SaveStep::ProbeBackup(0));
    assert_eq!(save_after_probe(0, true), SaveStep::ProbeBackup(1));
    assert_eq!(save_after_probe(1, false), SaveStep::CopyToBackup(1));
    assert_eq!(cand(b"game.sav", 1), b"game.bak0".to_vec());
    assert_eq!(save_after_copy(true), SaveStep::WriteTarget);
    assert_eq!(save_after_write(true), SaveStep::Done);
}

#[test]
fn backup_exhaustion_fails_without_writing() {
    let mut step = save_begin(true, true);
    let mut probes = 0;
    loop {
        match step {
            SaveStep::ProbeBackup(attempt) => {
                probes += 1;
                step = save_after_probe(attempt, true); // every name is taken
            },
            other => {
                step = other;
                break;
            },
        }
        assert_ne!(step, SaveStep::WriteTarget);
        assert_ne!(step, SaveStep::Done);
    }
    // ".bak" plus ".bak0" through ".bak255" were all probed
    assert_eq!(probes, 257);
    assert_eq!(step, SaveStep::Failed(WriteError::BackupNameExhausted));
}

#[test]
fn failed_copy_aborts_before_target() {
    assert_eq!(save_begin(true, true), SaveStep::ProbeBackup(0));
    assert_eq!(save_after_probe(0, false), SaveStep::CopyToBackup(0));
    assert_eq!(
        save_after_copy(false),
        SaveStep::Failed(WriteError::BackupCopyFailed)
    );
}

#[test]
fn failed_write_is_reported() {
    assert_eq!(
        save_after_write(false),
        SaveStep::Failed(WriteError::WriteFailed)
    );
}

#[test]
fn candidate_appends_after_trailing_separator() {
    // a trailing separator means an empty file name: nothing to cut, so
    // the extension is appended
    assert_eq!(cand(b"dir/", 0), b"dir/.bak".to_vec());
}

#[test]
fn distinct_attempts_probe_distinct_names() {
    let mut seen: Vec<Vec<u8>> = Vec::new();
    for attempt in 0..=256u16 {
        let c = cand(b"game.sav", attempt);
        assert!(!seen.contains(&c));
        seen.push(c);
    }
}
