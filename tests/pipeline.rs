use std::io::{Read, Write};

use submissions_archivarius::pipeline::{Action, ErrorKind, Phase, Pipeline};
use submissions_archivarius::record::FileRecord;
use submissions_archivarius::time::Timestamp;

// 2024-03-05 10:00:00 UTC
const TEN_AM: i64 = 1_709_632_800;

fn rec(name: &str, secs: i64) -> FileRecord {
    FileRecord { name: name.to_string(), created: Timestamp { secs, nanos: 0 }, utc_offset: 0 }
}

fn inbox() -> Vec<FileRecord> {
    vec![rec("c.json", TEN_AM + 10), rec("a.json", TEN_AM), rec("b.json", TEN_AM + 5)]
}

fn pending_names(p: &Pipeline) -> Vec<String> {
    (0..p.pending_len()).map(|i| p.pending_at(i).name.clone()).collect()
}

#[test]
fn three_files_threshold_two() {
    let mut p = Pipeline::new(2, false);
    assert_eq!(p.phase(), Phase::Scanning);
    assert_eq!(p.on_scan(Some(inbox())), Action::Build);
    assert_eq!(p.archive_name(), "submissions-20240305-100000.tar.xz");
    assert_eq!(p.batch_names(), vec!["a.json".to_string(), "b.json".to_string()]);

    assert_eq!(p.on_outcome(true), Action::RemoveSource);
    assert_eq!(p.source_to_remove(), "a.json");
    assert_eq!(p.on_outcome(true), Action::RemoveSource);
    assert_eq!(p.source_to_remove(), "b.json");
    assert_eq!(p.on_outcome(true), Action::Sleep);
    assert_eq!(pending_names(&p), vec!["c.json".to_string()]);

    assert_eq!(p.on_outcome(true), Action::Scan);
    assert_eq!(p.on_scan(Some(vec![rec("c.json", TEN_AM + 10)])), Action::Sleep);
    assert_eq!(p.phase(), Phase::Waiting);
    assert_eq!(pending_names(&p), vec!["c.json".to_string()]);
}

#[test]
fn threshold_reached_exactly() {
    let mut p = Pipeline::new(3, false);
    assert_eq!(p.on_scan(Some(inbox())), Action::Build);
    assert_eq!(p.batch_names().len(), 3);
}

#[test]
fn below_threshold_waits_and_rescans() {
    let mut p = Pipeline::new(4, false);
    assert_eq!(p.on_scan(Some(inbox())), Action::Sleep);
    assert_eq!(p.on_outcome(true), Action::Scan);
    let mut more = inbox();
    more.push(rec("d.json", TEN_AM + 20));
    assert_eq!(p.on_scan(Some(more)), Action::Build);
}

#[test]
fn empty_inbox_waits() {
    let mut p = Pipeline::new(1, true);
    assert_eq!(p.on_scan(Some(Vec::new())), Action::Sleep);
    assert_eq!(p.pending_len(), 0);
}

#[test]
fn rescan_replaces_pending() {
    let mut p = Pipeline::new(5, false);
    assert_eq!(p.on_scan(Some(inbox())), Action::Sleep);
    assert_eq!(p.on_outcome(true), Action::Scan);
    assert_eq!(p.on_scan(Some(vec![rec("z.json", TEN_AM + 99), rec("b.json", TEN_AM + 5)])), Action::Sleep);
    assert_eq!(pending_names(&p), vec!["b.json".to_string(), "z.json".to_string()]);
}

#[test]
fn backlog_builds_back_to_back() {
    let mut p = Pipeline::new(1, false);
    assert_eq!(p.on_scan(Some(inbox())), Action::Build);
    assert_eq!(p.archive_name(), "submissions-20240305-100000.tar.xz");
    assert_eq!(p.on_outcome(true), Action::RemoveSource);
    assert_eq!(p.on_outcome(true), Action::Build);
    assert_eq!(p.archive_name(), "submissions-20240305-100005.tar.xz");
    assert_eq!(p.batch_names(), vec!["b.json".to_string()]);
    assert_eq!(pending_names(&p), vec!["b.json".to_string(), "c.json".to_string()]);
}

#[test]
fn upload_cycle_order() {
    let mut p = Pipeline::new(2, true);
    assert_eq!(p.on_scan(Some(inbox())), Action::Build);
    assert_eq!(p.on_outcome(true), Action::Transfer);
    assert_eq!(p.on_outcome(true), Action::RemoveArchive);
    assert_eq!(p.on_outcome(true), Action::RemoveSource);
    assert_eq!(p.source_to_remove(), "a.json");
    assert_eq!(p.on_outcome(true), Action::RemoveSource);
    assert_eq!(p.source_to_remove(), "b.json");
    assert_eq!(p.on_outcome(true), Action::Sleep);
    assert_eq!(pending_names(&p), vec!["c.json".to_string()]);
}

#[test]
fn transfer_failure_deletes_nothing() {
    let mut p = Pipeline::new(2, true);
    assert_eq!(p.on_scan(Some(inbox())), Action::Build);
    assert_eq!(p.on_outcome(true), Action::Transfer);
    assert_eq!(p.on_outcome(false), Action::Halt(ErrorKind::Transfer));
    assert_eq!(p.phase(), Phase::Halted);
    assert_eq!(pending_names(&p), vec!["a.json".to_string(), "b.json".to_string(), "c.json".to_string()]);

    // a restart that finds the same files picks the same batch
    let mut again = Pipeline::new(2, true);
    let rescan = vec![rec("b.json", TEN_AM + 5), rec("c.json", TEN_AM + 10), rec("a.json", TEN_AM)];
    assert_eq!(again.on_scan(Some(rescan)), Action::Build);
    assert_eq!(again.batch_names(), p.batch_names());
    assert_eq!(again.archive_name(), p.archive_name());
}

#[test]
fn source_removal_failure_does_not_stop_the_cycle() {
    let mut p = Pipeline::new(2, false);
    assert_eq!(p.on_scan(Some(inbox())), Action::Build);
    assert_eq!(p.on_outcome(true), Action::RemoveSource);
    assert_eq!(p.on_outcome(false), Action::RemoveSource);
    assert_eq!(p.source_to_remove(), "b.json");
    assert_eq!(p.on_outcome(false), Action::Sleep);
    assert_eq!(pending_names(&p), vec!["c.json".to_string()]);
}

#[test]
fn build_failure_halts() {
    let mut p = Pipeline::new(2, false);
    assert_eq!(p.on_scan(Some(inbox())), Action::Build);
    assert_eq!(p.on_outcome(false), Action::Halt(ErrorKind::Build));
    assert_eq!(p.pending_len(), 3);
}

#[test]
fn scan_failure_halts() {
    let mut p = Pipeline::new(2, false);
    assert_eq!(p.on_scan(None), Action::Halt(ErrorKind::Io));
    assert_eq!(p.phase(), Phase::Halted);
}

#[test]
fn archive_removal_failure_halts() {
    let mut p = Pipeline::new(2, true);
    assert_eq!(p.on_scan(Some(inbox())), Action::Build);
    assert_eq!(p.on_outcome(true), Action::Transfer);
    assert_eq!(p.on_outcome(true), Action::RemoveArchive);
    assert_eq!(p.on_outcome(false), Action::Halt(ErrorKind::Io));
    assert_eq!(p.pending_len(), 3);
}

#[test]
fn unplaceable_oldest_time_halts_the_build() {
    let mut p = Pipeline::new(1, false);
    let far = FileRecord { name: "far.json".to_string(), created: Timestamp { secs: i64::MAX, nanos: 0 }, utc_offset: 0 };
    assert_eq!(p.on_scan(Some(vec![far])), Action::Halt(ErrorKind::Build));
}

#[test]
fn name_uses_local_offset_of_oldest() {
    let mut p = Pipeline::new(2, false);
    let mut files = inbox();
    files[1].utc_offset = 7200;
    assert_eq!(p.on_scan(Some(files)), Action::Build);
    assert_eq!(p.archive_name(), "submissions-20240305-120000.tar.xz");
}

#[test]
fn same_oldest_member_same_name() {
    let mut p = Pipeline::new(2, false);
    let mut q = Pipeline::new(2, false);
    p.on_scan(Some(inbox()));
    q.on_scan(Some(vec![rec("a.json", TEN_AM), rec("x.json", TEN_AM + 500)]));
    assert_eq!(p.archive_name(), q.archive_name());
}

#[test]
fn archive_round_trip() {
    let contents = [("a.json", b"{\"id\": 1}".to_vec()), ("b.json", b"{\"id\": 2}".to_vec())];
    let mut p = Pipeline::new(2, false);
    assert_eq!(p.on_scan(Some(inbox())), Action::Build);
    let names = p.batch_names();

    let mut builder = tar::Builder::new(xz2::write::XzEncoder::new(Vec::new(), 1));
    for name in &names {
        let data = &contents.iter().find(|(n, _)| n == name).unwrap().1;
        let mut header = tar::Header::new_gnu();
        header.set_size(data.len() as u64);
        header.set_mode(0o644);
        header.set_cksum();
        builder.append_data(&mut header, name, data.as_slice()).unwrap();
    }
    let bytes = builder.into_inner().unwrap().finish().unwrap();

    let mut unpacked = Vec::new();
    let mut archive = tar::Archive::new(xz2::read::XzDecoder::new(bytes.as_slice()));
    for entry in archive.entries().unwrap() {
        let mut entry = entry.unwrap();
        let name = entry.path().unwrap().to_string_lossy().into_owned();
        let mut data = Vec::new();
        entry.read_to_end(&mut data).unwrap();
        unpacked.push((name, data));
    }
    assert_eq!(unpacked.len(), 2);
    for (i, (name, data)) in unpacked.iter().enumerate() {
        assert_eq!(name, contents[i].0);
        assert_eq!(data, &contents[i].1);
    }
    let mut sink = Vec::new();
    sink.write_all(&bytes).unwrap();
    assert!(!sink.is_empty());
}
