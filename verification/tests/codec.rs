use save_editor::decode::parse_save;
use save_editor::encode::{can_patch, write_save_data, write_save_data_checked};
use save_editor::errors::DecodeError;
use save_editor::soldier::Soldier;

const MARK: [u8; 15] = [
    0x4d, 0x41, 0x52, 0x4b, 0x07, 0x00, 0x00, 0x00, 0x53, 0x6f, 0x6c, 0x64, 0x69, 0x65, 0x72,
];
const MARK2: [u8; 16] = [
    0x4d, 0x41, 0x52, 0x4b, 0x08, 0x00, 0x00, 0x00, 0x53, 0x6f, 0x6c, 0x64, 0x69, 0x65, 0x72,
    0x32,
];

fn push_field(v: &mut Vec<u8>, content: &[u8]) {
    v.push(content.len() as u8);
    v.extend_from_slice(&[0, 0, 0]);
    v.extend_from_slice(content);
}

fn push_record(v: &mut Vec<u8>, name: &[u8], stats: [u8; 6]) {
    v.extend_from_slice(&MARK);
    v.push(0); // reserved byte after the start marker
    v.extend_from_slice(&[0, 0, 0]);
    push_field(v, b"FR"); // nationality
    push_field(v, name); // display name
    push_field(v, b"p01"); // portrait identifier
    v.extend_from_slice(&[0, 0, 0, 0]); // reserved span
    push_field(v, b"France"); // home country
    // stats block: hps, stg, acc, rfl, brv, tus at strides of four
    v.extend_from_slice(&[0, 0, 0, 0]);
    v.push(stats[0]);
    for k in 1..6 {
        v.extend_from_slice(&[0, 0, 0]);
        v.push(stats[k]);
    }
    v.extend_from_slice(&MARK2);
}

fn build_save(names: &[&[u8]], stats: [u8; 6]) -> Vec<u8> {
    let mut v = vec![9u8, 9, 9];
    for n in names {
        push_record(&mut v, n, stats);
    }
    v.extend_from_slice(&[7, 7]);
    v
}

fn twelve_names() -> Vec<Vec<u8>> {
    (0..12).map(|i| format!("Soldat{i:02}").into_bytes()).collect()
}

fn build_default_save() -> Vec<u8> {
    let names = twelve_names();
    let refs: Vec<&[u8]> = names.iter().map(|n| n.as_slice()).collect();
    build_save(&refs, [50, 51, 52, 53, 54, 55])
}

#[test]
fn round_trip_identity() {
    let data = build_default_save();
    let roster = parse_save(&data).expect("valid save must parse");
    let out = write_save_data_checked(&data, &roster).expect("decoded roster must patch");
    assert_eq!(out, data);
}

#[test]
fn decode_extracts_fields() {
    let data = build_default_save();
    let roster = parse_save(&data).unwrap();
    assert_eq!(roster.len(), 12);
    assert_eq!(roster[0].name.as_bytes().as_slice(), b"Soldat00");
    assert_eq!(roster[11].name.as_bytes().as_slice(), b"Soldat11");
    for s in &roster {
        assert_eq!(s.orig_name_len, 8);
        assert_eq!(
            (s.hps, s.stg, s.acc, s.rfl, s.brv, s.tus),
            (50, 51, 52, 53, 54, 55)
        );
    }
    // the name length prefix really sits at the captured offset
    assert_eq!(data[roster[0].orig_name_offset] as usize, roster[0].orig_name_len);
}

#[test]
fn roster_keeps_scan_order() {
    let data = build_default_save();
    let roster = parse_save(&data).unwrap();
    for (i, s) in roster.iter().enumerate() {
        assert_eq!(s.name.as_bytes().as_slice(), format!("Soldat{i:02}").as_bytes());
        if i > 0 {
            assert!(roster[i - 1].orig_name_offset < s.orig_name_offset);
        }
    }
}

#[test]
fn short_roster_rejected() {
    let names = twelve_names();
    let refs: Vec<&[u8]> = names.iter().take(11).map(|n| n.as_slice()).collect();
    let data = build_save(&refs, [50; 6]);
    assert_eq!(parse_save(&data).unwrap_err(), DecodeError::MalformedMarkers);
}

#[test]
fn long_roster_rejected() {
    let mut names = twelve_names();
    names.push(b"Extra".to_vec());
    let refs: Vec<&[u8]> = names.iter().map(|n| n.as_slice()).collect();
    let data = build_save(&refs, [50; 6]);
    assert_eq!(parse_save(&data).unwrap_err(), DecodeError::MalformedMarkers);
}

#[test]
fn missing_end_marker_rejected() {
    let mut data = build_default_save();
    // cut the buffer in the middle of the last record's end marker
    data.truncate(data.len() - 10);
    assert_eq!(parse_save(&data).unwrap_err(), DecodeError::MalformedMarkers);
}

#[test]
fn corrupt_length_prefix_rejected() {
    let mut data = build_default_save();
    let roster = parse_save(&data).unwrap();
    // the portrait length prefix of the last record claims more bytes
    // than the buffer holds
    let last = &roster[11];
    let portrait_len_pos = last.orig_name_offset + 4 + last.orig_name_len;
    data[portrait_len_pos] = 0xff;
    assert_eq!(parse_save(&data).unwrap_err(), DecodeError::TruncatedRecord);
}

#[test]
fn empty_buffer_rejected() {
    let data: Vec<u8> = Vec::new();
    assert_eq!(parse_save(&data).unwrap_err(), DecodeError::MalformedMarkers);
}

#[test]
fn equal_length_name_patched_in_place() {
    let data = build_default_save();
    let mut roster = parse_save(&data).unwrap();
    roster[3].name.replace(&b"Renamed3".to_vec()); // same 8 bytes
    let out = write_save_data_checked(&data, &roster).unwrap();
    assert_eq!(out.len(), data.len());
    let reparsed = parse_save(&out).unwrap();
    assert_eq!(reparsed[3].name.as_bytes().as_slice(), b"Renamed3");
    assert_eq!(reparsed[2].name.as_bytes().as_slice(), b"Soldat02");
    assert_eq!(reparsed[4].name.as_bytes().as_slice(), b"Soldat04");
    // outside the patched record the buffer is untouched
    let begin = roster[3].orig_name_offset;
    let end = roster[3].orig_stats_offset + 25;
    assert_eq!(out[..begin], data[..begin]);
    assert_eq!(out[end..], data[end..]);
}

#[test]
fn splice_changes_length_by_delta() {
    let data = build_default_save();
    let mut roster = parse_save(&data).unwrap();
    roster[5].name.replace(&b"Longername05".to_vec()); // 12 bytes, was 8
    let out = write_save_data_checked(&data, &roster).unwrap();
    assert_eq!(out.len(), data.len() + 4);
    // every byte after the patched span shifts by exactly the delta
    let end = roster[5].orig_name_offset + 4 + roster[5].orig_name_len;
    assert_eq!(out[end + 4..], data[end..]);
    let reparsed = parse_save(&out).unwrap();
    assert_eq!(reparsed[5].name.as_bytes().as_slice(), b"Longername05");
    assert_eq!(reparsed[5].orig_name_len, 12);
}

#[test]
fn reverse_patching_keeps_both_edits() {
    let data = build_default_save();
    let mut roster = parse_save(&data).unwrap();
    roster[0].name.replace(&b"Shrt".to_vec()); // shortened
    roster[11].name.replace(&b"MuchLongerName11".to_vec()); // lengthened
    let out = write_save_data_checked(&data, &roster).unwrap();
    assert_eq!(out.len(), data.len() - 4 + 8);
    let reparsed = parse_save(&out).unwrap();
    assert_eq!(reparsed[0].name.as_bytes().as_slice(), b"Shrt");
    assert_eq!(reparsed[11].name.as_bytes().as_slice(), b"MuchLongerName11");
    for i in 1..11 {
        assert_eq!(
            reparsed[i].name.as_bytes().as_slice(),
            format!("Soldat{i:02}").as_bytes()
        );
    }
}

#[test]
fn attribute_overwrite_is_fixed_width() {
    let data = build_default_save();
    let mut roster = parse_save(&data).unwrap();
    for (i, s) in roster.iter_mut().enumerate() {
        s.hps = 0;
        s.stg = 255;
        s.acc = 1;
        s.rfl = 254;
        s.brv = 35;
        s.tus = 70 + i as u8;
    }
    let out = write_save_data(&data, &roster);
    assert_eq!(out.len(), data.len());
    let reparsed = parse_save(&out).unwrap();
    for (i, s) in reparsed.iter().enumerate() {
        assert_eq!(
            (s.hps, s.stg, s.acc, s.rfl, s.brv, s.tus),
            (0, 255, 1, 254, 35, 70 + i as u8)
        );
        assert_eq!(s.name.as_bytes().as_slice(), format!("Soldat{i:02}").as_bytes());
    }
}

#[test]
fn stale_offsets_refused() {
    let data = build_default_save();
    let roster = parse_save(&data).unwrap();
    // the captured offsets are only valid against the buffer they came
    // from; a shorter buffer is refused outright
    let other: Vec<u8> = data[..40].to_vec();
    assert!(write_save_data_checked(&other, &roster).is_none());
    assert!(!can_patch(other.len(), &roster));
    assert!(can_patch(data.len(), &roster));
}

#[test]
fn display_name_is_lossy() {
    let names = twelve_names();
    let mut refs: Vec<&[u8]> = names.iter().map(|n| n.as_slice()).collect();
    let weird: &[u8] = &[0xff, 0x41];
    refs[7] = weird;
    let data = build_save(&refs, [50; 6]);
    let roster = parse_save(&data).unwrap();
    assert_eq!(roster[7].name.as_bytes().as_slice(), &[0xff, 0x41]);
    assert_eq!(roster[7].name.display(), "\u{fffd}A");
    assert_eq!(roster[0].name.display(), "Soldat00");
}

#[test]
fn sum_totals_the_six_attributes() {
    let mut s = Soldier::default();
    assert_eq!(s.sum(), 6 * 35);
    s.tus = 70;
    s.hps = 0;
    s.stg = 255;
    assert_eq!(s.sum(), 70 + 0 + 255 + 35 + 35 + 35);
}

#[test]
fn default_soldier_is_placeholder() {
    let s = Soldier::default();
    assert_eq!(s.name.as_bytes().as_slice(), b"None");
    assert_eq!(
        (s.tus, s.hps, s.stg, s.acc, s.rfl, s.brv),
        (35, 35, 35, 35, 35, 35)
    );
    assert_eq!(
        (s.orig_name_offset, s.orig_name_len, s.orig_stats_offset),
        (0, 0, 0)
    );
}

#[test]
fn reencode_unedited_reproduces_buffer() {
    let data = build_default_save();
    assert_eq!(save_editor::laws::reencode_unedited(&data).unwrap(), data);
    let mut bad = data.clone();
    bad.truncate(bad.len() - 10);
    assert!(save_editor::laws::reencode_unedited(&bad).is_none());
}
