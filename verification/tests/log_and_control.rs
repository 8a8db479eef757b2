use fs_mutator::delta::{FsDelta, FsOp};
use fs_mutator::feedback::{next_power_of_two, BoundedFsAccessFeedback};
use fs_mutator::ffi::{delta_result_from_counts, has_interior_nul, validate_delta, DeltaResult};
use fs_mutator::guidance::{
    guidance_from_log, log_entry_path, peek_live, update_live, FuseLogEntry,
    FuseLogKind, MutationGuidance,
};

fn entry(kind: FuseLogKind, path: &str, width: usize) -> FuseLogEntry {
    let mut bytes = path.as_bytes().to_vec();
    bytes.resize(width, 0);
    FuseLogEntry { kind, path: bytes }
}

#[test]
fn guidance_from_log_sorts_entries_by_kind_in_order() {
    let entries = vec![
        entry(FuseLogKind::Enoent, "/missing", 16),
        entry(FuseLogKind::Write, "/w", 16),
        entry(FuseLogKind::Unlink, "/gone", 16),
        entry(FuseLogKind::Mkdir, "/newdir", 16),
        entry(FuseLogKind::Other, "/ignored", 16),
        entry(FuseLogKind::RenameFrom, "/old", 16),
        entry(FuseLogKind::Enoent, "/late", 16),
    ];
    let g = guidance_from_log(7, &entries, 16);
    assert_eq!(g.enoent_paths, vec!["/missing", "/late"]);
    assert_eq!(g.write_paths, vec!["/w", "/newdir"]);
    assert_eq!(g.recreate_paths, vec!["/gone", "/old"]);

    let first_two = guidance_from_log(2, &entries, 16);
    assert_eq!(first_two.enoent_paths, vec!["/missing"]);
    assert_eq!(first_two.write_paths, vec!["/w"]);
    assert!(first_two.recreate_paths.is_empty());

    let none = guidance_from_log(-4, &entries, 16);
    assert!(!none.has_enoent() && !none.has_write() && !none.has_recreate());
}

#[test]
fn log_paths_stop_at_nul_or_width() {
    assert_eq!(log_entry_path(b"/abc\0zzz", 8), "/abc");
    assert_eq!(log_entry_path(b"/abcdefg", 4), "/abc");
    assert_eq!(log_entry_path(b"\0/abc", 5), "");
    assert_eq!(log_entry_path(b"/ok\0", 4), "/ok");
    assert_eq!(log_entry_path(b"/\xffx\0", 4), "/\u{fffd}x", "invalid UTF-8 is replaced");
}

#[test]
fn live_guidance_reads_back_what_was_published() {
    let mut live = MutationGuidance::none();
    let mut g = MutationGuidance::none();
    g.record(FuseLogKind::Create, "/created".to_string());
    g.record(FuseLogKind::Enoent, "/wanted".to_string());
    update_live(&mut live, g);
    let seen = peek_live(&live);
    assert_eq!(seen.write_paths, vec!["/created"]);
    assert_eq!(seen.enoent_paths, vec!["/wanted"]);
    assert!(seen.recreate_paths.is_empty());
}

#[test]
fn validate_delta_checks_structure() {
    assert!(validate_delta(&FsDelta::new(vec![FsOp::mkdir("/d")])));
    assert!(!validate_delta(&FsDelta::new(vec![])), "a delta needs at least one op");
    assert!(!validate_delta(&FsDelta::new(vec![FsOp::mkdir("relative")])));
    let mut bad_size = FsOp::create_file("/f", b"abc".to_vec());
    bad_size.size = 2;
    assert!(!validate_delta(&FsDelta::new(vec![bad_size])));
    let truncate = FsOp::truncate("/f", 99);
    assert!(validate_delta(&FsDelta::new(vec![truncate])), "size only binds file ops");
}

#[test]
fn delta_results_and_c_paths() {
    let r = delta_result_from_counts(3, 0);
    assert_eq!((r.succeeded, r.failed), (3, 0));
    assert!(r.all_ok());
    assert!(!DeltaResult { succeeded: 1, failed: 2 }.all_ok());
    assert!(has_interior_nul("/a\0b"));
    assert!(!has_interior_nul("/ab"));
}

#[test]
fn bounded_feedback_admits_at_most_map_size_paths() {
    let mut fb = BoundedFsAccessFeedback::new(8);
    let mut novel = 0;
    for i in 0..500 {
        if fb.note(&format!("/p{i}")) {
            novel += 1;
        }
    }
    assert!(novel <= 8);
    assert_eq!(novel, fb.seen.iter().filter(|b| **b != 0).count());
    assert!(!fb.note("/p0"), "the same path lands in the same bucket");
    assert_eq!(next_power_of_two(5), 8);
    assert_eq!(next_power_of_two(8), 8);
    assert_eq!(next_power_of_two(0), 1);
}
