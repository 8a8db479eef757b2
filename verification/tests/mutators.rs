use fs_mutator::delta::{FsDelta, FsOp, FsOpKind};
use fs_mutator::gen::dictionary_entry;
use fs_mutator::guidance::{update_live, MutationGuidance};
use fs_mutator::mutators::{
    insert_bytes, le_bytes_of, substitution_pairs, perturb_bytes, AddFileOp, ByteFlipFileContent, CompareOperands, DestructiveMutator,
    FsDeltaI2SMutator, MutatePath, MutationResult, RemoveOp, ReplaceFileContent,
    ReplayWriteFile, SpliceDelta, UpdateExistingFile, MAX_OPS,
};
use libafl_bolts::rands::StdRand;

struct TestState {
    rand: StdRand,
}

impl TestState {
    fn new() -> Self {
        Self {
            rand: StdRand::with_seed(0xdeadbeef_cafebabe),
        }
    }
}

fn file_delta() -> FsDelta {
    FsDelta::new(vec![FsOp::create_file("/input", b"hello world".to_vec())])
}

fn multi_op_delta() -> FsDelta {
    FsDelta::new(vec![
        FsOp::create_file("/a.txt", b"aaaa".to_vec()),
        FsOp::mkdir("/dir"),
        FsOp::create_file("/dir/b.txt", b"bbbb".to_vec()),
    ])
}

fn full_delta() -> FsDelta {
    let ops = (0..MAX_OPS)
        .map(|i| FsOp::create_file(&format!("/f{i}"), vec![i as u8]))
        .collect();
    FsDelta::new(ops)
}

fn no_guidance() -> MutationGuidance {
    MutationGuidance::none()
}

#[test]
fn byte_flip_mutates_content() {
    let mut state = TestState::new();
    let m = ByteFlipFileContent::new();
    let mut delta = file_delta();
    let before = delta.ops[0].content.clone();

    let res = m.mutate(&mut state.rand, &mut delta);
    assert_eq!(res, MutationResult::Mutated);
    assert_ne!(delta.ops[0].content, before);
}

#[test]
fn byte_flip_skips_when_no_file_ops() {
    let mut state = TestState::new();
    let m = ByteFlipFileContent::new();
    let mut delta = FsDelta::new(vec![FsOp::mkdir("/empty")]);
    let res = m.mutate(&mut state.rand, &mut delta);
    assert_eq!(res, MutationResult::Skipped);
}

#[test]
fn replace_file_content_changes_content_and_size() {
    let mut state = TestState::new();
    let m = ReplaceFileContent::new();
    let mut delta = file_delta();
    let content_before = delta.ops[0].content.clone();

    let res = m.mutate(&mut state.rand, &mut delta);
    assert_eq!(res, MutationResult::Mutated);
    assert_ne!(delta.ops[0].content, content_before);
    // size must stay in sync with content len
    assert_eq!(delta.ops[0].size, delta.ops[0].content.len());
}

#[test]
fn replace_file_content_skips_when_no_file_ops() {
    let mut state = TestState::new();
    let m = ReplaceFileContent::new();
    let mut delta = FsDelta::new(vec![FsOp::rmdir("/gone")]);
    let res = m.mutate(&mut state.rand, &mut delta);
    assert_eq!(res, MutationResult::Skipped);
}

#[test]
fn add_file_op_grows_delta() {
    let mut state = TestState::new();
    let m = AddFileOp::new();
    let mut delta = file_delta();
    let before = delta.ops.len();

    let res = m.mutate(&mut state.rand, &mut delta, &no_guidance());
    assert_eq!(res, MutationResult::Mutated);
    assert_eq!(delta.ops.len(), before + 1);
    let new_op = delta.ops.last().unwrap();
    assert!(
        matches!(new_op.kind, FsOpKind::CreateFile | FsOpKind::Mkdir),
        "unexpected kind: {:?}",
        new_op.kind
    );
    assert!(new_op.path.starts_with('/'));
}

#[test]
fn add_file_op_uses_guidance_enoent_paths() {
    let mut live = MutationGuidance::none();
    let mut g = MutationGuidance::none();
    g.enoent_paths = vec!["/guided/path".to_string()];
    update_live(&mut live, g);

    let mut state = TestState::new();
    let m = AddFileOp::new();
    let delta = file_delta();

    let mut used_guided = false;
    for _ in 0..50 {
        let mut d = delta.clone();
        m.mutate(&mut state.rand, &mut d, &live);
        if d.ops.last().unwrap().path == "/guided/path" {
            used_guided = true;
            break;
        }
    }
    update_live(&mut live, MutationGuidance::none());
    assert!(used_guided, "guided path was never chosen in 50 tries");
}

#[test]
fn remove_op_shrinks_delta() {
    let mut state = TestState::new();
    let m = RemoveOp::new();
    let mut delta = multi_op_delta();
    let before = delta.ops.len();

    let res = m.mutate(&mut state.rand, &mut delta);
    assert_eq!(res, MutationResult::Mutated);
    assert_eq!(delta.ops.len(), before - 1);
}

#[test]
fn remove_op_skips_single_op_delta() {
    let mut state = TestState::new();
    let m = RemoveOp::new();
    let mut delta = file_delta(); // exactly 1 op
    let res = m.mutate(&mut state.rand, &mut delta);
    assert_eq!(res, MutationResult::Skipped);
    assert_eq!(delta.ops.len(), 1);
}

#[test]
fn mutate_path_changes_a_component() {
    let mut state = TestState::new();
    let m = MutatePath::new();
    let path_before = "/input".to_string();
    let mut changed = false;
    for _ in 0..20 {
        let mut delta = file_delta();
        m.mutate(&mut state.rand, &mut delta, &no_guidance());
        if delta.ops[0].path != path_before {
            changed = true;
            assert!(delta.ops[0].path.starts_with('/'));
            break;
        }
    }
    assert!(changed, "path never changed across 20 attempts");
}

#[test]
fn mutate_path_skips_empty_delta() {
    let mut state = TestState::new();
    let m = MutatePath::new();
    let mut delta = FsDelta::new(vec![]);
    let res = m.mutate(&mut state.rand, &mut delta, &no_guidance());
    assert_eq!(res, MutationResult::Skipped);
}

#[test]
fn splice_delta_appends_ops_from_donor() {
    let mut state = TestState::new();
    let donor = FsDelta::new(vec![
        FsOp::mkdir("/splice_a"),
        FsOp::create_file("/splice_b", b"data".to_vec()),
    ]);
    let m = SpliceDelta::new_fixed(vec![donor]);
    let mut delta = file_delta();
    let before = delta.ops.len();

    let res = m.mutate(&mut state.rand, &mut delta, &vec![]);
    assert_eq!(res, MutationResult::Mutated);
    assert!(
        delta.ops.len() > before,
        "splice should append at least 1 op"
    );
}

#[test]
fn fixed_splice_ignores_the_live_corpus() {
    let mut state = TestState::new();
    let live = vec![FsDelta::new(vec![FsOp::mkdir("/live")])];
    let m = SpliceDelta::new_fixed(vec![]);
    let mut delta = file_delta();
    assert_eq!(m.pool_len(&live), 0);
    assert_eq!(m.mutate(&mut state.rand, &mut delta, &live), MutationResult::Skipped);

    let shared = SpliceDelta::new();
    assert_eq!(shared.pool_len(&live), 1);
    let before = delta.ops.len();
    assert_eq!(shared.mutate(&mut state.rand, &mut delta, &live), MutationResult::Mutated);
    assert_eq!(delta.ops[before].path, "/live");
}

#[test]
fn splice_delta_skips_empty_pool() {
    let mut state = TestState::new();
    let m = SpliceDelta::new_fixed(vec![]);
    let mut delta = file_delta();
    let res = m.mutate(&mut state.rand, &mut delta, &vec![]);
    assert_eq!(res, MutationResult::Skipped);
}

#[test]
fn splice_delta_sees_live_corpus_updates() {
    // empty pool skips; after pushing a donor, mutate sees it
    let mut state = TestState::new();
    let mut pool: Vec<FsDelta> = vec![];
    let m = SpliceDelta::new();

    let mut delta = file_delta();
    let res = m.mutate(&mut state.rand, &mut delta, &pool);
    assert_eq!(res, MutationResult::Skipped, "empty pool must skip");

    pool.push(FsDelta::new(vec![FsOp::mkdir("/live")]));
    let mut delta = file_delta();
    let res = m.mutate(&mut state.rand, &mut delta, &pool);
    assert_eq!(
        res,
        MutationResult::Mutated,
        "mutator must pick up live pool update"
    );
}

#[test]
fn destructive_mutator_grows_delta() {
    let mut state = TestState::new();
    let m = DestructiveMutator::new();
    let mut delta = file_delta();
    let before = delta.ops.len();

    let res = m.mutate(&mut state.rand, &mut delta, &no_guidance());
    assert_eq!(res, MutationResult::Mutated);
    assert_eq!(delta.ops.len(), before + 1);

    let new_op = delta.ops.last().unwrap();
    assert!(
        matches!(
            new_op.kind,
            FsOpKind::DeleteFile | FsOpKind::Rmdir | FsOpKind::Truncate | FsOpKind::SetTimes
        ),
        "unexpected kind: {:?}",
        new_op.kind
    );
    assert!(new_op.path.starts_with('/'));
}

#[test]
fn destructive_mutator_generates_all_four_kinds() {
    let mut state = TestState::new();
    let m = DestructiveMutator::new();
    let mut seen = std::collections::HashSet::new();

    for _ in 0..200 {
        let mut delta = file_delta();
        m.mutate(&mut state.rand, &mut delta, &no_guidance());
        seen.insert(std::mem::discriminant(&delta.ops.last().unwrap().kind));
    }
    assert_eq!(seen.len(), 4, "not all destructive kinds were generated");
}

#[test]
fn add_file_op_skips_at_max_ops() {
    let mut state = TestState::new();
    let m = AddFileOp::new();
    let mut delta = full_delta();
    assert_eq!(delta.ops.len(), MAX_OPS);

    let res = m.mutate(&mut state.rand, &mut delta, &no_guidance());
    assert_eq!(res, MutationResult::Skipped);
    assert_eq!(delta.ops.len(), MAX_OPS, "delta grew past MAX_OPS");
}

#[test]
fn splice_delta_skips_at_max_ops() {
    let mut state = TestState::new();
    let donor = FsDelta::new(vec![FsOp::mkdir("/extra")]);
    let m = SpliceDelta::new_fixed(vec![donor]);
    let mut delta = full_delta();

    let res = m.mutate(&mut state.rand, &mut delta, &vec![]);
    assert_eq!(res, MutationResult::Skipped);
    assert_eq!(delta.ops.len(), MAX_OPS);
}

#[test]
fn destructive_mutator_skips_at_max_ops() {
    let mut state = TestState::new();
    let m = DestructiveMutator::new();
    let mut delta = full_delta();

    let res = m.mutate(&mut state.rand, &mut delta, &no_guidance());
    assert_eq!(res, MutationResult::Skipped);
    assert_eq!(delta.ops.len(), MAX_OPS);
}

#[test]
fn destructive_mutator_uses_baseline_paths() {
    let mut state = TestState::new();
    let file_paths = vec!["/input".to_string(), "/etc/config".to_string()];
    let dir_paths = vec!["/etc".to_string()];
    let all_paths = vec![
        "/input".to_string(),
        "/etc/config".to_string(),
        "/etc".to_string(),
    ];
    let m = DestructiveMutator::with_baseline(file_paths.clone(), dir_paths.clone(), all_paths.clone());

    let mut used_baseline = false;
    for _ in 0..50 {
        let mut delta = file_delta();
        m.mutate(&mut state.rand, &mut delta, &no_guidance());
        let new_op = delta.ops.last().unwrap();
        if all_paths.contains(&new_op.path) {
            used_baseline = true;
            break;
        }
    }
    assert!(used_baseline, "baseline path was never chosen in 50 tries");
}

#[test]
fn destructive_mutator_truncate_targets_file_paths() {
    let mut state = TestState::new();
    let file_paths = vec!["/input".to_string()];
    let dir_paths = vec!["/etc".to_string()];
    let all_paths = vec!["/input".to_string(), "/etc".to_string()];
    let m = DestructiveMutator::with_baseline(file_paths.clone(), dir_paths, all_paths);

    let mut seen_truncate = false;
    for _ in 0..200 {
        let mut delta = file_delta();
        m.mutate(&mut state.rand, &mut delta, &no_guidance());
        let new_op = delta.ops.last().unwrap();
        if matches!(new_op.kind, FsOpKind::Truncate) {
            seen_truncate = true;
            assert!(new_op.path.starts_with('/'));
        }
    }
    assert!(seen_truncate, "Truncate kind never generated in 200 tries");
}

#[test]
fn mutate_path_whole_swap_uses_baseline_path() {
    let mut state = TestState::new();
    let baseline = vec!["/etc/config".to_string(), "/input".to_string()];
    let m = MutatePath::with_baseline(vec![], vec![], baseline.clone());

    let mut used_baseline = false;
    for _ in 0..50 {
        let mut delta = FsDelta::new(vec![FsOp::mkdir("/random/path")]);
        m.mutate(&mut state.rand, &mut delta, &no_guidance());
        if baseline.contains(&delta.ops[0].path) {
            used_baseline = true;
            break;
        }
    }
    assert!(
        used_baseline,
        "whole-path swap never used a baseline path in 50 tries"
    );
}

#[test]
fn update_existing_file_appends_update_op() {
    let mut state = TestState::new();
    let baseline_files = vec!["/input".to_string(), "/etc/config".to_string()];
    let m = UpdateExistingFile::new(baseline_files.clone());
    let mut delta = file_delta();
    let before = delta.ops.len();

    let res = m.mutate(&mut state.rand, &mut delta, &no_guidance());
    assert_eq!(res, MutationResult::Mutated);
    assert_eq!(delta.ops.len(), before + 1);

    let new_op = delta.ops.last().unwrap();
    assert_eq!(new_op.kind, FsOpKind::UpdateFile, "should be UpdateFile");
    assert!(
        baseline_files.contains(&new_op.path),
        "path should come from baseline"
    );
    // content may be an empty dict entry; only size/content invariant matters
    assert_eq!(new_op.size, new_op.content.len(), "size/content must match");
}

#[test]
fn update_existing_file_skips_when_no_baseline() {
    let mut state = TestState::new();
    let m = UpdateExistingFile::new(vec![]);
    let mut delta = file_delta();
    let res = m.mutate(&mut state.rand, &mut delta, &no_guidance());
    assert_eq!(res, MutationResult::Skipped);
    assert_eq!(delta.ops.len(), 1, "delta must not grow");
}

#[test]
fn update_existing_file_skips_at_max_ops() {
    let mut state = TestState::new();
    let m = UpdateExistingFile::new(vec!["/input".to_string()]);
    let mut delta = full_delta();

    let res = m.mutate(&mut state.rand, &mut delta, &no_guidance());
    assert_eq!(res, MutationResult::Skipped);
    assert_eq!(delta.ops.len(), MAX_OPS);
}

#[test]
fn update_existing_file_perturbs_baseline_content() {
    // perturb branch should yield a same-length-but-changed content (bit-flip)
    let mut state = TestState::new();
    let base = b"seed".to_vec();
    let contents = vec![("/input".to_string(), base.clone())];
    let m = UpdateExistingFile::new(vec!["/input".to_string()]).with_baseline_contents(contents);

    let mut found_small_perturb = false;
    for _ in 0..200 {
        let mut delta = FsDelta::new(vec![FsOp::mkdir("/seed_dir")]);
        m.mutate(&mut state.rand, &mut delta, &no_guidance());
        let new_op = delta.ops.last().unwrap();
        if new_op.kind == FsOpKind::UpdateFile
            && new_op.content.len() == base.len()
            && new_op.content != base
        {
            found_small_perturb = true;
            break;
        }
    }
    assert!(
        found_small_perturb,
        "no bit-flip-style perturbation seen in 200 tries"
    );
}

#[test]
fn perturb_bytes_handles_empty_base() {
    // empty base must not panic (below() on zero len would)
    let mut rand = StdRand::with_seed(0x1234);
    for _ in 0..20 {
        let _ = perturb_bytes(&mut rand, &[]);
    }
}

#[test]
fn replace_file_content_uses_dictionary_sometimes() {
    // confirms the 40% dictionary branch fires
    let mut state = TestState::new();
    let m = ReplaceFileContent::new();

    let mut used_dict = false;
    for _ in 0..200 {
        let mut delta = file_delta();
        m.mutate(&mut state.rand, &mut delta);
        let c = &delta.ops[0].content;
        if (0..18).any(|i| dictionary_entry(i) == *c) {
            used_dict = true;
            break;
        }
    }
    assert!(
        used_dict,
        "ReplaceFileContent never picked a dictionary entry in 200 tries"
    );
}

#[test]
fn mutate_path_whole_swap_prefers_enoent_paths() {
    let mut live = MutationGuidance::none();
    let mut g = MutationGuidance::none();
    g.enoent_paths = vec!["/wanted/by/target".to_string()];
    update_live(&mut live, g);

    let mut state = TestState::new();
    let m = MutatePath::with_baseline(vec![], vec![], vec!["/etc/config".to_string()]);

    let mut used_enoent = false;
    for _ in 0..100 {
        let mut delta = FsDelta::new(vec![FsOp::mkdir("/start")]);
        m.mutate(&mut state.rand, &mut delta, &live);
        if delta.ops[0].path == "/wanted/by/target" {
            used_enoent = true;
            break;
        }
    }
    update_live(&mut live, MutationGuidance::none());
    assert!(
        used_enoent,
        "guidance.enoent_paths never used in whole-swap across 100 tries"
    );
}

#[test]
fn destructive_mutator_delete_prefers_recreate_paths() {
    let mut live = MutationGuidance::none();
    let mut g = MutationGuidance::none();
    g.recreate_paths = vec!["/deleted/by/target".to_string()];
    update_live(&mut live, g);

    let mut state = TestState::new();
    let m = DestructiveMutator::with_baseline(
        vec!["/input".to_string()],
        vec!["/etc".to_string()],
        vec!["/input".to_string(), "/etc".to_string()],
    );

    let mut used_recreate = false;
    for _ in 0..200 {
        let mut delta = file_delta();
        m.mutate(&mut state.rand, &mut delta, &live);
        let new_op = delta.ops.last().unwrap();
        if matches!(new_op.kind, FsOpKind::DeleteFile | FsOpKind::Rmdir)
            && new_op.path == "/deleted/by/target"
        {
            used_recreate = true;
            break;
        }
    }
    update_live(&mut live, MutationGuidance::none());
    assert!(
        used_recreate,
        "recreate_paths never used by destructive in 200 tries"
    );
}

#[test]
fn update_existing_file_prefers_write_paths() {
    let mut live = MutationGuidance::none();
    let mut g = MutationGuidance::none();
    g.write_paths = vec!["/input".to_string()];
    update_live(&mut live, g);

    let mut state = TestState::new();
    let m = UpdateExistingFile::new(vec!["/input".to_string(), "/etc/config".to_string()]);

    let mut used_write = false;
    for _ in 0..100 {
        let mut delta = FsDelta::new(vec![FsOp::mkdir("/seed")]);
        m.mutate(&mut state.rand, &mut delta, &live);
        let new_op = delta.ops.last().unwrap();
        if new_op.kind == FsOpKind::UpdateFile && new_op.path == "/input" {
            used_write = true;
            break;
        }
    }
    update_live(&mut live, MutationGuidance::none());
    assert!(used_write, "guidance.write_paths (baseline-intersecting) never preferred by UpdateExistingFile in 100 tries");
}

#[test]
fn mutate_path_whole_swap_prefers_write_paths_over_recreate() {
    let mut live = MutationGuidance::none();
    let mut g = MutationGuidance::none();
    g.write_paths = vec!["/written/path".to_string()];
    g.recreate_paths = vec!["/recreate/path".to_string()];
    update_live(&mut live, g);

    let mut state = TestState::new();
    let m = MutatePath::with_baseline(
        vec!["/input".to_string()],
        vec![],
        vec!["/input".to_string()],
    );

    let mut used_write = false;
    for _ in 0..200 {
        let mut delta = FsDelta::new(vec![FsOp::mkdir("/random/path")]);
        m.mutate(&mut state.rand, &mut delta, &live);
        if delta.ops[0].path == "/written/path" {
            used_write = true;
            break;
        }
    }
    update_live(&mut live, MutationGuidance::none());
    assert!(
        used_write,
        "write_paths never preferred over recreate_paths in whole-swap"
    );
}

#[test]
fn replay_write_file_skips_with_no_guidance() {
    let mut live = MutationGuidance::none();
    update_live(&mut live, MutationGuidance::none());
    let mut state = TestState::new();
    let m = ReplayWriteFile::new(vec!["/input".to_string()]);
    let mut delta = file_delta();
    let res = m.mutate(&mut state.rand, &mut delta, &live);
    assert_eq!(res, MutationResult::Skipped);
}

#[test]
fn replay_write_file_skips_when_all_write_paths_in_baseline() {
    let mut live = MutationGuidance::none();
    let baseline = vec!["/input".to_string(), "/etc/config".to_string()];
    let mut g = MutationGuidance::none();
    g.write_paths = baseline.clone(); // complement is empty
    update_live(&mut live, g);
    let mut state = TestState::new();
    let m = ReplayWriteFile::new(baseline);
    let mut delta = file_delta();
    let res = m.mutate(&mut state.rand, &mut delta, &live);
    update_live(&mut live, MutationGuidance::none());
    assert_eq!(res, MutationResult::Skipped);
}

#[test]
fn replay_write_file_creates_non_baseline_path() {
    let mut live = MutationGuidance::none();
    let mut g = MutationGuidance::none();
    g.write_paths = vec!["/target/created/this".to_string()];
    update_live(&mut live, g);

    let mut state = TestState::new();
    let m = ReplayWriteFile::new(vec!["/input".to_string()]);
    let mut delta = file_delta();
    let before = delta.ops.len();
    let res = m.mutate(&mut state.rand, &mut delta, &live);
    update_live(&mut live, MutationGuidance::none());
    assert_eq!(res, MutationResult::Mutated);
    assert_eq!(delta.ops.len(), before + 1);
    let new_op = delta.ops.last().unwrap();
    assert_eq!(new_op.kind, FsOpKind::CreateFile);
    assert_eq!(new_op.path, "/target/created/this");
}

#[test]
fn replay_write_file_ignores_baseline_write_paths() {
    let mut live = MutationGuidance::none();
    let mut g = MutationGuidance::none();
    g.write_paths = vec![
        "/input".to_string(),         // in baseline, ignored
        "/target/output".to_string(), // only valid pick
    ];
    update_live(&mut live, g);

    let mut state = TestState::new();
    let m = ReplayWriteFile::new(vec!["/input".to_string()]);
    for _ in 0..100 {
        let mut delta = file_delta();
        m.mutate(&mut state.rand, &mut delta, &live);
        let new_op = delta.ops.last().unwrap();
        assert_eq!(
            new_op.path, "/target/output",
            "ReplayWriteFile picked a baseline path — should be filtered out"
        );
    }
    update_live(&mut live, MutationGuidance::none());
}

// ── further cases ──────────────────────────────────────────────────────────

#[test]
fn update_existing_file_updates_in_place() {
    let mut state = TestState::new();
    let m = UpdateExistingFile::new(vec!["/input".to_string()]);
    let mut delta = FsDelta::new(vec![
        FsOp::update_file("/input", b"old".to_vec()),
        FsOp::mkdir("/d"),
    ]);
    let res = m.mutate(&mut state.rand, &mut delta, &no_guidance());
    assert_eq!(res, MutationResult::Mutated);
    assert_eq!(delta.ops.len(), 2, "existing UpdateFile is rewritten, not duplicated");
    assert_eq!(delta.ops[0].size, delta.ops[0].content.len());
    // even a full delta is updated in place
    let mut full: Vec<FsOp> = (0..MAX_OPS - 1).map(|i| FsOp::mkdir(&format!("/d{i}"))).collect();
    full.push(FsOp::update_file("/input", b"x".to_vec()));
    let mut delta = FsDelta::new(full);
    assert_eq!(m.mutate(&mut state.rand, &mut delta, &no_guidance()), MutationResult::Mutated);
    assert_eq!(delta.ops.len(), MAX_OPS);
}

#[test]
fn mutate_path_skips_update_without_baseline() {
    let mut state = TestState::new();
    let m = MutatePath::new();
    let mut delta = FsDelta::new(vec![FsOp::update_file("/input", b"x".to_vec())]);
    let res = m.mutate(&mut state.rand, &mut delta, &no_guidance());
    assert_eq!(res, MutationResult::Skipped);
    assert_eq!(delta.ops[0].path, "/input");
}

#[test]
fn mutate_path_update_goes_to_baseline_file() {
    let mut state = TestState::new();
    let m = MutatePath::with_baseline(vec!["/etc/config".to_string()], vec![], vec![]);
    let mut delta = FsDelta::new(vec![FsOp::truncate("/input", 1)]);
    assert_eq!(m.mutate(&mut state.rand, &mut delta, &no_guidance()), MutationResult::Mutated);
    assert_eq!(delta.ops[0].path, "/etc/config");
    assert_eq!(delta.ops[0].size, 1);
}

#[test]
fn i2s_substitutes_operand_bytes() {
    let mut state = TestState::new();
    let m = FsDeltaI2SMutator::new();
    let vals = vec![CompareOperands::U16(0x4241, 0x5a59)];
    let mut delta = FsDelta::new(vec![FsOp::create_file("/f", b"xxAByy".to_vec())]);
    let res = m.mutate(&mut state.rand, &mut delta, Some(&vals));
    if res == MutationResult::Mutated {
        assert_eq!(delta.ops[0].content, b"xxYZyy".to_vec());
        assert_eq!(delta.ops[0].size, 6);
    } else {
        assert_eq!(delta.ops[0].content, b"xxAByy".to_vec());
    }
    // both directions are candidates; with only one side present, enough tries find it
    let mut hit = false;
    for _ in 0..50 {
        let mut d = FsDelta::new(vec![FsOp::create_file("/f", b"xxAByy".to_vec())]);
        if m.mutate(&mut state.rand, &mut d, Some(&vals)) == MutationResult::Mutated {
            assert_eq!(d.ops[0].content, b"xxYZyy".to_vec());
            hit = true;
        }
    }
    assert!(hit);
}

#[test]
fn i2s_skips_without_log_or_pairs() {
    let mut state = TestState::new();
    let m = FsDeltaI2SMutator::new();
    let mut delta = file_delta();
    assert_eq!(m.mutate(&mut state.rand, &mut delta, None), MutationResult::Skipped);
    let same = vec![CompareOperands::U8(3, 3), CompareOperands::Other];
    assert_eq!(m.mutate(&mut state.rand, &mut delta, Some(&same)), MutationResult::Skipped);
    let mut meta_only = FsDelta::new(vec![FsOp::mkdir("/d")]);
    let vals = vec![CompareOperands::U8(1, 2)];
    assert_eq!(m.mutate(&mut state.rand, &mut meta_only, Some(&vals)), MutationResult::Skipped);
}

#[test]
fn le_bytes_and_pairs() {
    assert_eq!(le_bytes_of(0x0102_0304, 4), vec![4, 3, 2, 1]);
    assert_eq!(le_bytes_of(0xff, 1), vec![0xff]);
    let p = substitution_pairs(&vec![CompareOperands::U32(1, 2), CompareOperands::U64(5, 5)]);
    assert_eq!(p.len(), 2);
    assert_eq!(p[0], (vec![1, 0, 0, 0], vec![2, 0, 0, 0]));
    assert_eq!(p[1], (vec![2, 0, 0, 0], vec![1, 0, 0, 0]));
}

#[test]
fn insert_bytes_splices() {
    assert_eq!(insert_bytes(&b"abcd".to_vec(), 2, &b"XY".to_vec()), b"abXYcd".to_vec());
    assert_eq!(insert_bytes(&vec![], 0, &b"Z".to_vec()), b"Z".to_vec());
}

#[test]
fn i2s_mutates_when_every_pair_occurs() {
    let mut state = TestState::new();
    let m = FsDeltaI2SMutator::new();
    for _ in 0..20 {
        let mut delta = FsDelta::new(vec![FsOp::create_file("/f", vec![9, 3, 4, 9])]);
        let vals = vec![CompareOperands::U8(3, 4)];
        assert_eq!(m.mutate(&mut state.rand, &mut delta, Some(&vals)), MutationResult::Mutated);
        let c = &delta.ops[0].content;
        assert!(*c == vec![9, 4, 4, 9] || *c == vec![9, 3, 3, 9]);
    }
}
