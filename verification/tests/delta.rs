use fs_mutator::delta::{generate_seed, generate_seed_corpus, initial_corpus_pool, FsDelta, FsOp, FsOpKind};

#[test]
fn generate_seed_corpus_returns_seven_families() {
    let files = vec!["/input".to_string(), "/etc/config".to_string()];
    let corpus = generate_seed_corpus(&files);
    assert_eq!(corpus.len(), 7, "expected exactly 7 seed families");
}

#[test]
fn generate_seed_corpus_all_deltas_non_empty() {
    let files = vec!["/input".to_string(), "/etc/config".to_string()];
    let corpus = generate_seed_corpus(&files);
    for (i, delta) in corpus.iter().enumerate() {
        assert!(!delta.ops.is_empty(), "seed family {i} has no ops");
    }
}

#[test]
fn generate_seed_corpus_all_ops_have_absolute_paths() {
    let files = vec!["/input".to_string(), "/etc/config".to_string()];
    let corpus = generate_seed_corpus(&files);
    for (i, delta) in corpus.iter().enumerate() {
        for op in &delta.ops {
            assert!(
                op.path.starts_with('/'),
                "seed family {i}: path '{}' is not absolute",
                op.path
            );
        }
    }
}

#[test]
fn generate_seed_corpus_uses_fallback_when_empty() {
    let corpus = generate_seed_corpus(&[]);
    assert_eq!(corpus.len(), 7);
    for delta in &corpus {
        assert!(!delta.ops.is_empty());
    }
}

#[test]
fn seed_one_uses_update_not_create() {
    // UpdateFile avoids EEXIST on /input which already exists in the baseline
    let files = vec!["/input".to_string()];
    let corpus = generate_seed_corpus(&files);
    let first_op = &corpus[0].ops[0];
    assert_eq!(
        first_op.kind,
        FsOpKind::UpdateFile,
        "first seed must be UpdateFile — CreateFile would hit EEXIST on /input"
    );
}

#[test]
fn initial_corpus_pool_has_no_eexist_collision() {
    let pool = initial_corpus_pool();
    let baseline = ["/input", "/etc/config", "/etc"];
    for (i, delta) in pool.iter().enumerate() {
        for op in &delta.ops {
            if matches!(op.kind, FsOpKind::CreateFile) {
                assert!(
                    !baseline.contains(&op.path.as_str()),
                    "pool[{i}] CreateFile on baseline path '{}' → always EEXIST",
                    op.path
                );
            }
        }
    }
}

// ── further cases ──────────────────────────────────────────────────────────

#[test]
fn generate_seed_is_update_of_input() {
    let d = generate_seed();
    assert_eq!(d.len(), 1);
    assert_eq!(d.ops[0].kind, FsOpKind::UpdateFile);
    assert_eq!(d.ops[0].path, "/input");
    assert_eq!(d.ops[0].content, b"seed".to_vec());
    assert_eq!(d.ops[0].size, 4);
}

#[test]
fn generate_seed_corpus_uses_given_paths() {
    let files = vec!["/a".to_string(), "/b".to_string()];
    let corpus = generate_seed_corpus(&files);
    assert_eq!(corpus[0].ops[0].path, "/a");
    assert_eq!(corpus[1].ops[0].path, "/b");
    assert_eq!(corpus[1].ops[0].content, b"[settings]\nverbose=1\n".to_vec());
    assert_eq!(corpus[2].ops[0].kind, FsOpKind::Truncate);
    assert_eq!(corpus[2].ops[0].size, 2);
    assert_eq!(corpus[3].ops[0].mtime_sec, 1_700_000_000);
    assert_eq!(corpus[4].ops.len(), 2);
    assert_eq!(corpus[4].ops[1].atime_sec, 1_000_000_000);
    assert_eq!(corpus[5].ops[0].path, "/fuzz_input");
    assert_eq!(corpus[6].ops[0].kind, FsOpKind::Mkdir);
    assert_eq!(corpus[6].ops[1].path, "/fuzz_dir/file");
}

#[test]
fn generate_seed_corpus_fallback_paths() {
    let corpus = generate_seed_corpus(&[]);
    assert_eq!(corpus[0].ops[0].path, "/input");
    assert_eq!(corpus[1].ops[0].path, "/etc/config");
}

#[test]
fn initial_corpus_pool_contents() {
    let pool = initial_corpus_pool();
    assert_eq!(pool.len(), 4);
    assert_eq!(pool[1].ops[1].content, vec![0xde, 0xad, 0xbe, 0xef]);
    assert_eq!(pool[2].ops[0].content, b"AAAAAAAAAAAAAAAA".to_vec());
    assert_eq!(pool[3].ops[1].kind, FsOpKind::Truncate);
}

#[test]
fn constructors_set_kind_size_and_times() {
    let c = FsOp::create_file("/f", b"abc".to_vec());
    assert_eq!((c.kind, c.size, c.mtime_sec), (FsOpKind::CreateFile, 3, 0));
    let t = FsOp::truncate("/f", 9);
    assert_eq!((t.kind, t.size), (FsOpKind::Truncate, 9));
    let s = FsOp::set_times("/f", 1, 2, 3, 4);
    assert_eq!((s.mtime_sec, s.mtime_nsec, s.atime_sec, s.atime_nsec), (1, 2, 3, 4));
    let l = FsOp::create_symlink("/l", "/target");
    assert_eq!((l.kind, l.target.as_str()), (FsOpKind::CreateSymlink, "/target"));
    assert_eq!(FsOp::rmdir("/d").kind, FsOpKind::Rmdir);
    assert_eq!(FsOp::delete_file("/d").kind, FsOpKind::DeleteFile);
}

#[test]
fn dedup_keeps_only_last_content_op_per_path() {
    let d = FsDelta::new(vec![
        FsOp::create_file("/a", b"1".to_vec()),
        FsOp::set_times("/a", 5, 0, 5, 0),
        FsOp::update_file("/a", b"2".to_vec()),
        FsOp::update_file("/b", b"x".to_vec()),
        FsOp::update_file("/a", b"3".to_vec()),
    ]);
    let out = d.dedup_content_ops();
    let kinds: Vec<_> = out.ops.iter().map(|o| (o.kind, o.path.clone())).collect();
    assert_eq!(
        kinds,
        vec![
            (FsOpKind::SetTimes, "/a".to_string()),
            (FsOpKind::UpdateFile, "/b".to_string()),
            (FsOpKind::UpdateFile, "/a".to_string()),
        ]
    );
    assert_eq!(out.ops[2].content, b"3".to_vec());
    // idempotent
    let again = out.dedup_content_ops();
    assert_eq!(again.ops.len(), out.ops.len());
}

#[test]
fn delta_len_and_is_empty() {
    let d = FsDelta::new(vec![]);
    assert!(d.is_empty());
    assert_eq!(d.len(), 0);
    let d = FsDelta::new(vec![FsOp::mkdir("/x")]);
    assert!(!d.is_empty());
    assert_eq!(d.len(), 1);
}

#[test]
fn corpus_names_count_ops() {
    let d = FsDelta::new(vec![FsOp::mkdir("/a"), FsOp::mkdir("/b")]);
    assert_eq!(d.generate_name(Some(17)), "delta_17_ops2.json");
    assert_eq!(d.generate_name(None), "delta_ops2.json");
    assert_eq!(FsDelta::new(vec![]).generate_name(Some(0)), "delta_0_ops0.json");
}
