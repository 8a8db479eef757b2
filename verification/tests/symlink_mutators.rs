use std::sync::Arc;

use fs_mutator::delta::{FsDelta, FsOp, FsOpKind};
use fs_mutator::mutators::{MutationResult, MAX_OPS};
use fs_mutator::symlink_mutators::{
    up_path, without_root, ExecutableSymlinkMutator, LoopAndDepthMutator,
    MountDestinationSymlinkMutator, MountOptionSymlinkMutator, ParentComponentSymlinkMutator,
    SymlinkEscapeMutator,
};
use fs_mutator::symlink_utils::BaselineIndex;
use fs_mutator::text::decimal_string;
use libafl_bolts::rands::StdRand;

fn strings(v: &[&str]) -> Vec<String> {
    v.iter().map(|s| s.to_string()).collect()
}

/// The index of the test baseline: /proc, /dev, /sys, /tmp, /etc holding
/// passwd, and /bin holding true.
fn make_test_index() -> Arc<BaselineIndex> {
    let all = strings(&[
        "/proc",
        "/dev",
        "/sys",
        "/tmp",
        "/etc",
        "/etc/passwd",
        "/bin",
        "/bin/true",
    ]);
    let dirs = strings(&["/proc", "/dev", "/sys", "/tmp", "/etc", "/bin"]);
    Arc::new(BaselineIndex::build(&all, &dirs, &vec![]))
}

fn make_rand() -> StdRand {
    StdRand::with_seed(42)
}

#[test]
fn mount_dest_mutator_appends_ops() {
    let idx = make_test_index();
    let m = MountDestinationSymlinkMutator::new(idx);
    let mut rand = make_rand();
    let mut input = FsDelta::new(vec![FsOp::create_symlink("/x", "/y")]);

    let result = m.mutate(&mut rand, &mut input);
    assert_eq!(result, MutationResult::Mutated);
    assert!(
        input.ops.last().unwrap().kind == FsOpKind::CreateSymlink,
        "last op must be CreateSymlink"
    );
}

#[test]
fn parent_component_mutator_appends_ops() {
    let idx = make_test_index();
    let m = ParentComponentSymlinkMutator::new(idx);
    let mut rand = make_rand();
    let mut input = FsDelta::new(vec![FsOp::create_symlink("/x", "/y")]);

    let result = m.mutate(&mut rand, &mut input);
    assert_eq!(result, MutationResult::Mutated);
    assert!(input.ops.len() >= 2);
}

#[test]
fn escape_mutator_produces_symlink() {
    let idx = make_test_index();
    let m = SymlinkEscapeMutator::new(idx);
    let mut rand = make_rand();
    let mut input = FsDelta::new(vec![FsOp::create_symlink("/x", "/y")]);

    let result = m.mutate(&mut rand, &mut input);
    assert_eq!(result, MutationResult::Mutated);
    let last = input.ops.last().unwrap();
    assert_eq!(last.kind, FsOpKind::CreateSymlink);
    assert!(!last.target.is_empty(), "escape target must not be empty");
}

#[test]
fn loop_mutator_creates_symlinks() {
    let m = LoopAndDepthMutator::new();
    let mut rand = make_rand();
    let mut input = FsDelta::new(vec![FsOp::create_symlink("/x", "/y")]);

    let result = m.mutate(&mut rand, &mut input);
    assert_eq!(result, MutationResult::Mutated);
    assert!(input.ops.len() >= 2);
    for op in &input.ops[1..] {
        assert_eq!(op.kind, FsOpKind::CreateSymlink);
    }
}

#[test]
fn loop_mutator_chains_end_at_an_anchor() {
    let m = LoopAndDepthMutator::new();
    let mut chains_seen = 0;
    for seed in 0..400u64 {
        let mut rand = StdRand::with_seed(seed);
        let mut input = FsDelta::new(vec![]);
        assert_eq!(m.mutate(&mut rand, &mut input), MutationResult::Mutated);
        if input.ops[0].path != "/s0" {
            continue;
        }
        chains_seen += 1;
        let n = input.ops.len();
        assert!([1, 5, 10, 39, 40, 41].contains(&n));
        for (k, op) in input.ops.iter().enumerate() {
            assert_eq!(op.kind, FsOpKind::CreateSymlink);
            assert_eq!(op.path, format!("/s{}", k));
            if k + 1 < n {
                assert_eq!(op.target, format!("/s{}", k + 1));
            } else {
                assert!(["/proc", "/dev", "/bin/true"].contains(&op.target.as_str()));
            }
        }
    }
    assert!(chains_seen > 0);
}

#[test]
fn exec_mutator_targets_synthetic_exec_path() {
    let idx = make_test_index();
    let m = ExecutableSymlinkMutator::new(idx);
    let mut rand = make_rand();
    let mut input = FsDelta::new(vec![FsOp::create_symlink("/x", "/y")]);

    let result = m.mutate(&mut rand, &mut input);
    assert_eq!(result, MutationResult::Mutated);
    let last = input.ops.last().unwrap();
    assert_eq!(last.kind, FsOpKind::CreateSymlink);
    assert!(!last.target.is_empty());
}

#[test]
fn mutators_skip_at_max_ops() {
    let idx = make_test_index();
    let m = MountDestinationSymlinkMutator::new(Arc::clone(&idx));
    let mut rand = make_rand();
    let ops: Vec<FsOp> = (0..MAX_OPS)
        .map(|i| FsOp::create_symlink(&format!("/x{}", i), "/y"))
        .collect();
    let mut input = FsDelta::new(ops);

    let result = m.mutate(&mut rand, &mut input);
    assert_eq!(result, MutationResult::Skipped);
}

// ── further cases ──────────────────────────────────────────────────────────

fn full_delta() -> FsDelta {
    FsDelta::new(
        (0..MAX_OPS)
            .map(|i| FsOp::create_symlink(&format!("/x{}", i), "/y"))
            .collect(),
    )
}

#[test]
fn every_symlink_mutator_skips_a_full_delta_unchanged() {
    let idx = make_test_index();
    let mut rand = make_rand();
    let before = full_delta();
    let mut d = full_delta();
    assert_eq!(
        MountOptionSymlinkMutator::new(Arc::clone(&idx)).mutate(&mut rand, &mut d),
        MutationResult::Skipped
    );
    assert_eq!(
        ExecutableSymlinkMutator::new(Arc::clone(&idx)).mutate(&mut rand, &mut d),
        MutationResult::Skipped
    );
    assert_eq!(
        ParentComponentSymlinkMutator::new(Arc::clone(&idx)).mutate(&mut rand, &mut d),
        MutationResult::Skipped
    );
    assert_eq!(
        SymlinkEscapeMutator::new(Arc::clone(&idx)).mutate(&mut rand, &mut d),
        MutationResult::Skipped
    );
    assert_eq!(LoopAndDepthMutator::new().mutate(&mut rand, &mut d), MutationResult::Skipped);
    assert_eq!(d.ops.len(), before.ops.len());
    for (a, b) in d.ops.iter().zip(before.ops.iter()) {
        assert_eq!(a.path, b.path);
    }
}

#[test]
fn symlink_mutators_never_grow_past_max_ops() {
    let idx = make_test_index();
    let mut rand = StdRand::with_seed(7);
    for start in [MAX_OPS - 1, MAX_OPS - 2, MAX_OPS - 5] {
        for _ in 0..20 {
            let mut d = FsDelta::new(
                (0..start)
                    .map(|i| FsOp::create_symlink(&format!("/x{}", i), "/y"))
                    .collect(),
            );
            MountDestinationSymlinkMutator::new(Arc::clone(&idx)).mutate(&mut rand, &mut d);
            assert!(d.ops.len() <= MAX_OPS);
            MountOptionSymlinkMutator::new(Arc::clone(&idx)).mutate(&mut rand, &mut d);
            assert!(d.ops.len() <= MAX_OPS);
            SymlinkEscapeMutator::new(Arc::clone(&idx)).mutate(&mut rand, &mut d);
            assert!(d.ops.len() <= MAX_OPS);
            LoopAndDepthMutator::new().mutate(&mut rand, &mut d);
            assert!(d.ops.len() <= MAX_OPS);
        }
    }
}

#[test]
fn mount_dest_mutator_replaces_the_whole_mount_point_tree() {
    let idx = make_test_index();
    let m = MountDestinationSymlinkMutator::new(idx);
    let mut rand = make_rand();
    for _ in 0..20 {
        let mut input = FsDelta::new(vec![FsOp::mkdir("/keep")]);
        assert_eq!(m.mutate(&mut rand, &mut input), MutationResult::Mutated);
        assert_eq!(input.ops[0].path, "/keep");
        let last = input.ops.last().unwrap();
        assert!(["/proc", "/dev", "/sys", "/tmp"].contains(&last.path.as_str()));
        // every mount point of the test baseline is an empty directory
        assert_eq!(input.ops.len(), 3);
        assert_eq!(input.ops[1].kind, FsOpKind::Rmdir);
        assert_eq!(input.ops[1].path, last.path);
    }
}

#[test]
fn decimal_and_relative_paths() {
    assert_eq!(decimal_string(0), "0");
    assert_eq!(decimal_string(7), "7");
    assert_eq!(decimal_string(1234), "1234");
    assert_eq!(up_path(3, "etc/passwd"), "../../../etc/passwd");
    assert_eq!(up_path(0, "x"), "x");
    assert_eq!(without_root("/etc/passwd"), "etc/passwd");
}
