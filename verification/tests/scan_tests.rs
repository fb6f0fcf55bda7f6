use dirscan::error::{validate_root, ScanError, ScanErrorKind};
use dirscan::events::{finish_events, progress_due, scan_events, ScanEvent};
use dirscan::order::{lex_le_bytes, record_le_exec};
use dirscan::record::EntryRecord;
use dirscan::sort::sort_records;

fn file(name: &str, size: u64) -> EntryRecord {
    EntryRecord::new(name.as_bytes().to_vec(), false, size)
}

fn dir(name: &str) -> EntryRecord {
    EntryRecord::new(name.as_bytes().to_vec(), true, 0)
}

fn assert_record(r: &EntryRecord, name: &str, is_dir: bool, size_bytes: u64) {
    assert_eq!(r.name, name.as_bytes().to_vec());
    assert_eq!(r.is_dir, is_dir);
    assert_eq!(r.size_bytes, size_bytes);
}

#[test]
fn record_for_directory_has_zero_size() {
    let r = EntryRecord::new(b"sub".to_vec(), true, 4096);
    assert!(r.is_dir);
    assert_eq!(r.size_bytes, 0);
    let size_kb = r.size_bytes as f64 / 1024.0;
    assert_eq!(size_kb, 0.0);
}

#[test]
fn record_for_file_keeps_byte_length() {
    let r = EntryRecord::new(b"notes.txt".to_vec(), false, 2048);
    assert!(!r.is_dir);
    assert_eq!(r.size_bytes, 2048);
    assert_eq!(r.size_bytes as f64 / 1024.0, 2.0);
}

#[test]
fn lexicographic_name_comparison() {
    assert!(lex_le_bytes(&b"a".to_vec(), &b"b".to_vec()));
    assert!(!lex_le_bytes(&b"b".to_vec(), &b"a".to_vec()));
    assert!(lex_le_bytes(&b"a".to_vec(), &b"ab".to_vec()));
    assert!(!lex_le_bytes(&b"ab".to_vec(), &b"a".to_vec()));
    assert!(lex_le_bytes(&b"".to_vec(), &b"".to_vec()));
    assert!(lex_le_bytes(&b"".to_vec(), &b"x".to_vec()));
    // plain byte comparison: upper-case bytes sort before lower-case ones
    assert!(lex_le_bytes(&b"B".to_vec(), &b"a".to_vec()));
}

#[test]
fn directories_precede_files_in_record_order() {
    assert!(record_le_exec(&dir("zzz"), &file("aaa", 1)));
    assert!(!record_le_exec(&file("aaa", 1), &dir("zzz")));
    assert!(record_le_exec(&dir("a"), &dir("b")));
    assert!(record_le_exec(&file("a", 1), &file("b", 2)));
}

#[test]
fn sort_orders_dirs_first_then_names() {
    let records = vec![file("b.txt", 10), file("a.txt", 20), dir("z")];
    let sorted = sort_records(records);
    assert_eq!(sorted.len(), 3);
    assert_record(&sorted[0], "z", true, 0);
    assert_record(&sorted[1], "a.txt", false, 20);
    assert_record(&sorted[2], "b.txt", false, 10);
}

#[test]
fn sort_keeps_records_with_equal_names() {
    let records = vec![file("same", 1), file("other", 5), file("same", 2)];
    let sorted = sort_records(records);
    assert_eq!(sorted.len(), 3);
    assert_eq!(sorted[0].name, b"other".to_vec());
    assert_eq!(sorted[1].name, b"same".to_vec());
    assert_eq!(sorted[2].name, b"same".to_vec());
    let mut sizes = vec![sorted[1].size_bytes, sorted[2].size_bytes];
    sizes.sort();
    assert_eq!(sizes, vec![1, 2]);
}

#[test]
fn sort_of_empty_list_is_empty() {
    let sorted = sort_records(Vec::new());
    assert_eq!(sorted.len(), 0);
}

#[test]
fn empty_directory_yields_single_zero_completion() {
    let evs = scan_events(Vec::new());
    assert_eq!(evs.len(), 1);
    match &evs[0] {
        ScanEvent::Complete(n) => assert_eq!(*n, 0),
        _ => panic!("expected a completion event"),
    }
}

#[test]
fn three_files_and_a_directory_make_one_batch() {
    let entries = vec![file("b.txt", 1), file("a.txt", 2), dir("z")];
    let evs = scan_events(entries);
    assert_eq!(evs.len(), 2);
    match &evs[0] {
        ScanEvent::Batch(records) => {
            assert_eq!(records.len(), 3);
            assert_record(&records[0], "z", true, 0);
            assert_record(&records[1], "a.txt", false, 2);
            assert_record(&records[2], "b.txt", false, 1);
        }
        _ => panic!("expected a batch event first"),
    }
    match &evs[1] {
        ScanEvent::Complete(n) => assert_eq!(*n, 3),
        _ => panic!("expected a completion event last"),
    }
}

#[test]
fn five_hundred_files_make_two_progress_events_and_two_full_batches() {
    let mut entries = Vec::new();
    for i in 0..500u64 {
        entries.push(file(&format!("f{i:03}"), i));
    }
    let evs = scan_events(entries);
    assert_eq!(evs.len(), 5);
    match &evs[0] {
        ScanEvent::Progress(c) => assert_eq!(*c, 250),
        _ => panic!("expected the first progress event"),
    }
    match &evs[1] {
        ScanEvent::Progress(c) => assert_eq!(*c, 500),
        _ => panic!("expected the second progress event"),
    }
    for i in 2..4 {
        match &evs[i] {
            ScanEvent::Batch(records) => assert_eq!(records.len(), 250),
            _ => panic!("expected a batch event"),
        }
    }
    match &evs[4] {
        ScanEvent::Complete(n) => assert_eq!(*n, 500),
        _ => panic!("expected a completion event last"),
    }
}

#[test]
fn batches_concatenate_to_the_sorted_listing() {
    let mut entries = Vec::new();
    for i in 0..260u64 {
        entries.push(file(&format!("f{i:03}"), i));
    }
    entries.push(dir("later"));
    let evs = scan_events(entries);
    // 261 entries: one progress event, one full batch, one batch of 11
    assert_eq!(evs.len(), 4);
    let mut all = Vec::new();
    let mut batch_sizes = Vec::new();
    for ev in &evs {
        if let ScanEvent::Batch(records) = ev {
            batch_sizes.push(records.len());
            for r in records {
                all.push((r.name.clone(), r.is_dir, r.size_bytes));
            }
        }
    }
    assert_eq!(batch_sizes, vec![250, 11]);
    assert_eq!(all.len(), 261);
    // the directory sorts first, then the files in name order
    assert_eq!(all[0].0, b"later".to_vec());
    assert!(all[0].1);
    for i in 0..260 {
        assert_eq!(all[i + 1].0, format!("f{i:03}").into_bytes());
    }
    match &evs[3] {
        ScanEvent::Complete(n) => assert_eq!(*n, 261),
        _ => panic!("expected a completion event last"),
    }
}

#[test]
fn progress_is_due_exactly_at_interval_multiples() {
    assert!(!progress_due(0));
    assert!(!progress_due(1));
    assert!(!progress_due(249));
    assert!(progress_due(250));
    assert!(!progress_due(251));
    assert!(progress_due(500));
    assert!(progress_due(750));
}

#[test]
fn finish_events_always_end_with_completion() {
    let evs = finish_events(vec![file("only", 7)]);
    assert_eq!(evs.len(), 2);
    match &evs[0] {
        ScanEvent::Batch(records) => {
            assert_eq!(records.len(), 1);
            assert_record(&records[0], "only", false, 7);
        }
        _ => panic!("expected a batch event"),
    }
    match &evs[1] {
        ScanEvent::Complete(n) => assert_eq!(*n, 1),
        _ => panic!("expected a completion event"),
    }
}

#[test]
fn unresolved_root_is_a_path_access_error() {
    let r = validate_root(None, "No such file or directory (os error 2)".to_string());
    let err = r.err().expect("an unresolved root must fail");
    assert_eq!(err.kind, ScanErrorKind::PathAccess);
    assert_eq!(
        err.message(),
        "Unable to access directory: No such file or directory (os error 2)"
    );
}

#[test]
fn non_directory_root_is_rejected() {
    let r = validate_root(Some(false), String::new());
    let err = r.err().expect("a non-directory root must fail");
    assert_eq!(err.kind, ScanErrorKind::NotADirectory);
    assert_eq!(err.message(), "Selected path is not a directory.");
}

#[test]
fn directory_root_passes_validation() {
    assert!(validate_root(Some(true), String::new()).is_ok());
}

#[test]
fn each_error_class_has_its_message_prefix() {
    let cases = [
        (ScanErrorKind::PathAccess, "Unable to access directory: boom"),
        (ScanErrorKind::NotADirectory, "Selected path is not a directory.boom"),
        (ScanErrorKind::Listing, "Unable to read directory: boom"),
        (ScanErrorKind::EntryRead, "Scan failed: boom"),
        (ScanErrorKind::Metadata, "Metadata error: boom"),
        (ScanErrorKind::Sink, "Event dispatch failed: boom"),
    ];
    for (kind, expected) in cases {
        let err = ScanError::new(kind, "boom".to_string());
        assert_eq!(err.kind, kind);
        assert_eq!(err.detail, "boom");
        assert_eq!(err.message(), expected);
    }
}
