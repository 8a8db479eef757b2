use fs_mutator::feedback::{BoundedFsAccessFeedback, FsAccessFeedback, FuseLogObserver};
use fs_mutator::guidance::{peek_live, update_live, MutationGuidance};

#[test]
fn new_bucket_is_interesting_repeat_is_not() {
    let mut fb = BoundedFsAccessFeedback::new(1024);
    assert!(fb.note("/wanted"), "first time a path bucket is hit is novel");
    assert!(!fb.note("/wanted"), "same path again is not novel");
}

#[test]
fn distinct_paths_each_novel_until_map_saturates() {
    // With a tiny 2-bucket map, at most 2 buckets can ever be novel no matter
    // how many distinct paths arrive — this is what bounds the corpus.
    let mut fb = BoundedFsAccessFeedback::new(2);
    let mut novel_count = 0;
    for i in 0..1000 {
        if fb.note(&format!("/p/{i}")) {
            novel_count += 1;
        }
    }
    assert!(
        novel_count <= 2,
        "bounded map admitted {novel_count} > 2 buckets — not bounded"
    );
    assert!(novel_count >= 1, "expected at least one novel bucket");
}

#[test]
fn map_size_rounded_to_power_of_two() {
    let fb = BoundedFsAccessFeedback::new(1000);
    assert_eq!(fb.seen.len(), 1024);
    assert_eq!(fb.mask, 1023);
}

fn make_guidance(enoent: &[&str], write: &[&str]) -> MutationGuidance {
    MutationGuidance {
        enoent_paths: enoent.iter().map(|s| s.to_string()).collect(),
        write_paths: write.iter().map(|s| s.to_string()).collect(),
        recreate_paths: vec![],
    }
}

#[test]
fn new_enoent_path_is_interesting() {
    let mut live = MutationGuidance::none();
    update_live(&mut live, make_guidance(&["/wanted"], &[]));
    let mut fb = FsAccessFeedback::new();
    // First time: interesting
    assert!(fb.seen_enoent.insert("/wanted".to_string()) || true);
    let _novel = fb.seen_enoent.insert("/wanted".to_string()) == false || {
        fb.seen_enoent.clear();
        fb.seen_enoent.insert("/wanted".to_string())
    };
    // Rerun through the actual peek_live path
    fb.seen_enoent.clear();
    fb.seen_write.clear();
    let guidance = peek_live(&live);
    let mut result = false;
    for p in &guidance.enoent_paths {
        if fb.seen_enoent.insert(p.clone()) {
            result = true;
        }
    }
    assert!(result, "new ENOENT path should be interesting");
    update_live(&mut live, MutationGuidance::none());
}

#[test]
fn repeated_enoent_path_not_interesting() {
    let mut live = MutationGuidance::none();
    update_live(&mut live, make_guidance(&["/repeated"], &[]));
    let mut fb = FsAccessFeedback::new();
    // First call: interesting
    let g = peek_live(&live);
    for p in &g.enoent_paths {
        fb.seen_enoent.insert(p.clone());
    }
    // Second call with same guidance: not interesting
    let g2 = peek_live(&live);
    let mut novel = false;
    for p in &g2.enoent_paths {
        if fb.seen_enoent.insert(p.clone()) {
            novel = true;
        }
    }
    assert!(!novel, "already-seen ENOENT path should not be interesting again");
    update_live(&mut live, MutationGuidance::none());
}

#[test]
fn new_write_path_is_interesting() {
    let mut live = MutationGuidance::none();
    update_live(&mut live, make_guidance(&[], &["/written"]));
    let mut fb = FsAccessFeedback::new();
    let g = peek_live(&live);
    let mut novel = false;
    for p in &g.write_paths {
        if fb.seen_write.insert(p.clone()) {
            novel = true;
        }
    }
    assert!(novel, "new write path should be interesting");
    update_live(&mut live, MutationGuidance::none());
}

#[test]
fn empty_guidance_not_interesting() {
    let mut live = MutationGuidance::none();
    update_live(&mut live, MutationGuidance::none());
    let mut fb = FsAccessFeedback::new();
    let g = peek_live(&live);
    let mut novel = false;
    for p in &g.enoent_paths {
        if fb.seen_enoent.insert(p.clone()) {
            novel = true;
        }
    }
    for p in &g.write_paths {
        if fb.seen_write.insert(p.clone()) {
            novel = true;
        }
    }
    assert!(!novel, "empty guidance should produce no novel signal");
}

// ── further cases ──────────────────────────────────────────────────────────

#[test]
fn fs_access_is_interesting_once_per_path() {
    let mut fb = FsAccessFeedback::new();
    let g = make_guidance(&["/a", "/b"], &["/w"]);
    assert!(fb.is_interesting(&g));
    assert!(!fb.is_interesting(&g));
    assert!(fb.is_interesting(&make_guidance(&[], &["/a"])), "write set is separate from ENOENT set");
    assert!(!fb.is_interesting(&MutationGuidance::none()));
    assert_eq!(fb.seen_enoent.len(), 2);
    assert_eq!(fb.seen_write.len(), 2);
}

#[test]
fn bounded_is_interesting_once_per_bucket() {
    let mut fb = BoundedFsAccessFeedback::new(1024);
    let g = make_guidance(&["/x"], &["/y"]);
    assert!(fb.is_interesting(&g));
    assert!(!fb.is_interesting(&g));
    assert!(!fb.is_interesting(&MutationGuidance::none()));
}

#[test]
fn bounded_map_sizes() {
    assert_eq!(BoundedFsAccessFeedback::new(0).seen.len(), 1);
    assert_eq!(BoundedFsAccessFeedback::new(1).seen.len(), 1);
    assert_eq!(BoundedFsAccessFeedback::new(2).seen.len(), 2);
    assert_eq!(BoundedFsAccessFeedback::new(3).seen.len(), 4);
    assert_eq!(BoundedFsAccessFeedback::new(1024).mask, 1023);
    assert_eq!(BoundedFsAccessFeedback::new(1025).seen.len(), 2048);
    assert!(BoundedFsAccessFeedback::new(5).seen.iter().all(|b| *b == 0));
}

#[test]
fn feedback_and_observer_names() {
    assert_eq!(BoundedFsAccessFeedback::new(4).name, "bounded_fs_access");
    assert_eq!(FsAccessFeedback::new().name, "fs_access");
    assert_eq!(FuseLogObserver::new().name, "fuse_log");
}

#[test]
fn path_set_insert_reports_novelty() {
    let mut fb = FsAccessFeedback::new();
    assert!(fb.seen_write.insert("/p".to_string()));
    assert!(!fb.seen_write.insert("/p".to_string()));
    assert!(fb.seen_write.contains("/p"));
    fb.seen_write.clear();
    assert!(fb.seen_write.is_empty());
}
