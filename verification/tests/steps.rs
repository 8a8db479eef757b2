use std::sync::Arc;

use fs_mutator::delta::{FsDelta, FsOp, FsOpKind};
use fs_mutator::gen::{choose_listed_or, path_from_components, timestamp_from};
use fs_mutator::guidance::MutationGuidance;
use fs_mutator::mutators::{
    perturb_step, splice_step, substitution_pairs, AddFileOp, ByteFlipFileContent, CompareOperands,
    DestructiveMutator, FsDeltaI2SMutator, MutatePath, MutationResult, RemoveOp,
    ReplaceFileContent, ReplayWriteFile, UpdateExistingFile, MAX_OPS,
};
use fs_mutator::symlink_mutators::{LoopAndDepthMutator, MountOptionSymlinkMutator};
use fs_mutator::symlink_utils::BaselineIndex;

fn strings(v: &[&str]) -> Vec<String> {
    v.iter().map(|s| s.to_string()).collect()
}

fn full_delta() -> FsDelta {
    FsDelta::new((0..MAX_OPS).map(|i| FsOp::mkdir(&format!("/d{i}"))).collect())
}

fn links(d: &FsDelta) -> Vec<(String, String)> {
    d.ops.iter().map(|o| (o.path.clone(), o.target.clone())).collect()
}

#[test]
fn loop_step_follows_each_kind_draw() {
    let m = LoopAndDepthMutator::new();
    let mut d = FsDelta::new(vec![]);
    assert_eq!(m.step(&mut d, 50, 1, 2), MutationResult::Mutated);
    let expect: Vec<(String, String)> = vec![
        ("/s0", "/s1"),
        ("/s1", "/s2"),
        ("/s2", "/s3"),
        ("/s3", "/s4"),
        ("/s4", "/bin/true"),
    ]
    .into_iter()
    .map(|(a, b)| (a.to_string(), b.to_string()))
    .collect();
    assert_eq!(links(&d), expect);

    let mut d = FsDelta::new(vec![]);
    m.step(&mut d, 10, 0, 0);
    assert_eq!(links(&d), vec![("/fuzz_loop".to_string(), "/fuzz_loop".to_string())]);
    let mut d = FsDelta::new(vec![]);
    m.step(&mut d, 30, 0, 0);
    assert_eq!(d.ops.len(), 2);
    assert_eq!(d.ops[1].target, "/fuzz_a");
    let mut d = FsDelta::new(vec![]);
    m.step(&mut d, 75, 0, 0);
    assert_eq!(d.ops[0].target, format!("{}proc/self/exe", "../".repeat(20)));
    let mut d = FsDelta::new(vec![]);
    m.step(&mut d, 99, 0, 0);
    assert_eq!(d.ops[0].target, "////proc//self//exe");

    let mut full = full_delta();
    assert_eq!(m.step(&mut full, 10, 0, 0), MutationResult::Skipped);
    assert_eq!(full.ops.len(), MAX_OPS);
    let mut almost = FsDelta::new((0..MAX_OPS - 3).map(|i| FsOp::mkdir(&format!("/d{i}"))).collect());
    assert_eq!(m.step(&mut almost, 50, 1, 0), MutationResult::Skipped);
    assert_eq!(m.step(&mut almost, 50, 0, 0), MutationResult::Mutated);
    assert_eq!(almost.ops.last().unwrap().target, "/proc");
}

#[test]
fn mount_option_step_plants_the_drawn_link() {
    let all = strings(&["/proc", "/dev", "/sys", "/tmp"]);
    let index = Arc::new(BaselineIndex::build(&all, &all, &vec![]));
    let m = MountOptionSymlinkMutator::new(index);
    let mut d = FsDelta::new(vec![]);
    assert_eq!(m.step(&mut d, 1, 2), MutationResult::Mutated);
    let last = d.ops.last().unwrap();
    assert_eq!((last.kind, last.path.as_str(), last.target.as_str()), (FsOpKind::CreateSymlink, "/dev", "/dev/null"));
    assert_eq!(d.ops[0].kind, FsOpKind::Rmdir);
}

#[test]
fn perturb_step_applies_each_kind() {
    let base = [0u8, 0];
    assert_eq!(perturb_step(&base, 0, &vec![(1, 3)], &vec![], 0, 0), vec![0, 8]);
    assert_eq!(perturb_step(&base, 0, &vec![(1, 3), (1, 3)], &vec![], 0, 0), vec![0, 0]);
    assert_eq!(perturb_step(&base, 1, &vec![], &vec![9, 7], 0, 0), vec![0, 0, 9, 7]);
    assert_eq!(perturb_step(&base, 2, &vec![], &vec![], 0, 1), vec![0]);
    assert_eq!(perturb_step(&[5u8], 2, &vec![], &vec![], 0, 0), vec![5]);
    assert_eq!(perturb_step(&base, 3, &vec![], &vec![], 14, 1), vec![0, b'A', 0]);
}

#[test]
fn update_step_writes_the_drawn_content() {
    let m = UpdateExistingFile::new(strings(&["/etc/config"]))
        .with_baseline_contents(vec![("/etc/config".to_string(), b"abcd".to_vec())]);
    let live = MutationGuidance::none();
    let mut d = FsDelta::new(vec![]);
    let r = m.step(&mut d, &live, 0, 0, 10, b"abce".to_vec(), 0, 0, vec![1]);
    assert_eq!(r, MutationResult::Mutated);
    assert_eq!((d.ops[0].kind, d.ops[0].path.as_str()), (FsOpKind::UpdateFile, "/etc/config"));
    assert_eq!(d.ops[0].content, b"abce".to_vec());
    m.step(&mut d, &live, 0, 0, 60, vec![], 10, 14, vec![1]);
    assert_eq!(d.ops.len(), 1, "last write wins");
    assert_eq!(d.ops[0].content, b"A".to_vec());
    m.step(&mut d, &live, 0, 0, 60, vec![], 50, 0, vec![1, 2, 3]);
    assert_eq!(d.ops[0].content, vec![1, 2, 3]);
    assert_eq!(d.ops[0].size, 3);

    let writes = MutationGuidance {
        write_paths: strings(&["/other", "/etc/config"]),
        enoent_paths: vec![],
        recreate_paths: vec![],
    };
    let m2 = UpdateExistingFile::new(strings(&["/a", "/etc/config"]));
    assert_eq!(m2.update_path(&writes, 10, 0), "/etc/config");
    assert_eq!(m2.update_path(&writes, 80, 0), "/a");
}

#[test]
fn splice_step_appends_the_drawn_run() {
    let pool = vec![FsDelta::new(vec![FsOp::mkdir("/x"), FsOp::mkdir("/y"), FsOp::mkdir("/z")])];
    let mut d = FsDelta::new(vec![FsOp::mkdir("/a")]);
    assert_eq!(splice_step(&pool, &mut d, 0, 1, 1), MutationResult::Mutated);
    let paths: Vec<&str> = d.ops.iter().map(|o| o.path.as_str()).collect();
    assert_eq!(paths, vec!["/a", "/y", "/z"]);
    let empty = vec![FsDelta::new(vec![])];
    assert_eq!(splice_step(&empty, &mut d, 0, 0, 0), MutationResult::Skipped);
}

#[test]
fn content_steps_follow_their_draws() {
    let mut d = FsDelta::new(vec![FsOp::mkdir("/d"), FsOp::create_file("/f", vec![1, 2, 3])]);
    assert_eq!(ByteFlipFileContent::new().step(&mut d, 1, 50, &vec![], &vec![(0, 9)]), MutationResult::Mutated);
    assert_eq!(d.ops[1].content, vec![9, 2, 3]);
    ByteFlipFileContent::new().step(&mut d, 1, 10, &vec![7], &vec![]);
    assert_eq!((d.ops[1].content.clone(), d.ops[1].size), (vec![9, 2, 3, 7], 4));
    ReplaceFileContent::new().step(&mut d, 1, 10, 14, vec![1]);
    assert_eq!(d.ops[1].content, b"A".to_vec());
    ReplaceFileContent::new().step(&mut d, 1, 90, 14, vec![4, 5]);
    assert_eq!((d.ops[1].content.clone(), d.ops[1].size), (vec![4, 5], 2));
    assert_eq!(RemoveOp::new().step(&mut d, 0), MutationResult::Mutated);
    assert_eq!(d.ops[0].path, "/f");
    assert_eq!(RemoveOp::new().step(&mut d, 0), MutationResult::Skipped);
}

#[test]
fn op_adding_steps_follow_their_draws() {
    let live = MutationGuidance::none();
    let mut d = FsDelta::new(vec![]);
    AddFileOp::new().step(&mut d, &live, 100, 0, "/data".to_string(), 10, vec![1]);
    AddFileOp::new().step(&mut d, &live, 100, 0, "/data".to_string(), 80, vec![1]);
    assert_eq!((d.ops[0].kind, d.ops[0].content.clone()), (FsOpKind::CreateFile, vec![1]));
    assert_eq!((d.ops[1].kind, d.ops[1].path.as_str()), (FsOpKind::Mkdir, "/data"));

    let m = DestructiveMutator::with_baseline(strings(&["/f"]), strings(&["/d"]), strings(&["/f", "/d"]));
    let mut d = FsDelta::new(vec![]);
    m.step(&mut d, &live, 2, 100, 10, 0, String::new(), 5, 0, 0);
    assert_eq!((d.ops[0].kind, d.ops[0].path.as_str(), d.ops[0].size), (FsOpKind::Truncate, "/f", 5));
    m.step(&mut d, &live, 3, 100, 90, 0, "/tmp".to_string(), 0, 7, -1);
    assert_eq!((d.ops[1].kind, d.ops[1].path.as_str()), (FsOpKind::SetTimes, "/tmp"));
    assert_eq!((d.ops[1].mtime_sec, d.ops[1].atime_sec), (7, -1));

    let writes = MutationGuidance {
        write_paths: strings(&["/f", "/new"]),
        enoent_paths: vec![],
        recreate_paths: vec![],
    };
    let r = ReplayWriteFile::new(strings(&["/f"]));
    let mut d = FsDelta::new(vec![]);
    assert_eq!(r.step(&mut d, &writes, 0, 10, 14, vec![1]), MutationResult::Mutated);
    assert_eq!((d.ops[0].path.as_str(), d.ops[0].content.clone()), ("/new", b"A".to_vec()));
}

#[test]
fn path_steps_follow_their_draws() {
    let m = MutatePath::with_baseline(strings(&["/a", "/b"]), strings(&["/d"]), strings(&["/a"]));
    let live = MutationGuidance::none();
    let mut d = FsDelta::new(vec![FsOp::delete_file("/x"), FsOp::mkdir("/etc/data")]);
    m.step(&mut d, &live, 0, 10, 1, 0, 0, String::new());
    assert_eq!(d.ops[0].path, "/b");
    m.step(&mut d, &live, 0, 90, 0, 0, 0, "/tmp".to_string());
    assert_eq!(d.ops[0].path, "/tmp");
    m.step(&mut d, &live, 1, 10, 0, 0, 0, String::new());
    assert_eq!(d.ops[1].path, "/a");
    m.step(&mut d, &live, 1, 50, 0, 0, 5, String::new());
    assert_eq!(d.ops[1].path, "/tmp");

    assert_eq!(path_from_components(&vec![4, 0]), "/etc/a");
    assert_eq!(timestamp_from(10, 2, 0), 2147483647);
    assert_eq!(timestamp_from(50, 2, 7), 7);
    assert_eq!(choose_listed_or(&strings(&["/a"]), 70, 10, 0, String::new()), "/a");
    assert_eq!(choose_listed_or(&strings(&["/a"]), 70, 80, 0, "/c".to_string()), "/c");
}

#[test]
fn i2s_step_substitutes_from_the_drawn_start() {
    let pairs = substitution_pairs(&vec![CompareOperands::U8(1, 2)]);
    let mut d = FsDelta::new(vec![FsOp::create_file("/f", vec![0, 1, 0, 1])]);
    assert_eq!(FsDeltaI2SMutator::new().step(&mut d, &pairs, 0, 0, 2), MutationResult::Mutated);
    assert_eq!(d.ops[0].content, vec![0, 1, 0, 2]);
    let mut d = FsDelta::new(vec![FsOp::create_file("/f", vec![0, 1, 0, 1])]);
    FsDeltaI2SMutator::new().step(&mut d, &pairs, 0, 0, 0);
    assert_eq!(d.ops[0].content, vec![0, 2, 0, 1]);
    let mut d = FsDelta::new(vec![FsOp::create_file("/f", vec![1, 0, 0])]);
    FsDeltaI2SMutator::new().step(&mut d, &pairs, 0, 0, 2);
    assert_eq!(d.ops[0].content, vec![2, 0, 0], "wraps around to the start");
    let mut d = FsDelta::new(vec![FsOp::create_file("/f", vec![3, 3])]);
    assert_eq!(FsDeltaI2SMutator::new().step(&mut d, &pairs, 0, 0, 0), MutationResult::Skipped);
}
