use fs_mutator::delta::FsOpKind;
use fs_mutator::symlink_utils::{
    parent_path, replace_empty_dir_with_symlink, replace_file_with_symlink, replace_with_symlink,
    BaselineIndex, PathKind,
};

fn strings(v: &[&str]) -> Vec<String> {
    v.iter().map(|s| s.to_string()).collect()
}

/// The index of a baseline with /etc (holding passwd and group), an empty
/// /proc, and the regular file /input.
fn make_test_index() -> BaselineIndex {
    let all = strings(&["/etc", "/etc/passwd", "/etc/group", "/proc", "/input"]);
    let dirs = strings(&["/etc", "/proc"]);
    BaselineIndex::build(&all, &dirs, &vec![])
}

#[test]
fn baseline_index_classifies_kinds_correctly() {
    let idx = make_test_index();

    assert!(idx.is_dir("/etc"), "/etc should be Dir");
    assert!(idx.is_dir("/proc"), "/proc should be Dir");
    assert!(idx.is_file("/etc/passwd"), "/etc/passwd should be File");
    assert!(idx.is_file("/input"), "/input should be File");
}

#[test]
fn baseline_index_children_populated() {
    let idx = make_test_index();

    let children = idx.children_of("/etc");
    assert!(
        children.contains(&"/etc/passwd".to_string()),
        "children_of /etc should include /etc/passwd"
    );
    assert!(
        children.contains(&"/etc/group".to_string()),
        "children_of /etc should include /etc/group"
    );

    let proc_children = idx.children_of("/proc");
    assert!(proc_children.is_empty(), "/proc children should be empty");
}

#[test]
fn replace_with_symlink_file_emits_delete_then_create() {
    let idx = make_test_index();

    let ops = replace_with_symlink("/input", "../../input", &idx);
    assert_eq!(ops.len(), 2);
    assert_eq!(ops[0].kind, FsOpKind::DeleteFile);
    assert_eq!(ops[0].path, "/input");
    assert_eq!(ops[1].kind, FsOpKind::CreateSymlink);
    assert_eq!(ops[1].path, "/input");
    assert_eq!(ops[1].target, "../../input");
}

#[test]
fn replace_with_symlink_empty_dir_emits_rmdir_then_create() {
    let idx = make_test_index();

    let ops = replace_with_symlink("/proc", "../../proc", &idx);
    assert_eq!(ops.len(), 2, "empty dir: just rmdir + create_symlink");
    assert_eq!(ops[0].kind, FsOpKind::Rmdir);
    assert_eq!(ops[0].path, "/proc");
    assert_eq!(ops[1].kind, FsOpKind::CreateSymlink);
    assert_eq!(ops[1].target, "../../proc");
}

#[test]
fn replace_with_symlink_nonempty_dir_deletes_children_first() {
    let idx = make_test_index();

    let ops = replace_with_symlink("/etc", "../../etc", &idx);
    // ops: delete /etc/passwd, delete /etc/group, rmdir /etc, create_symlink /etc
    assert!(ops.len() >= 3, "non-empty dir needs child deletions + rmdir + symlink");

    // Last op must be the symlink
    let last = ops.last().unwrap();
    assert_eq!(last.kind, FsOpKind::CreateSymlink);
    assert_eq!(last.path, "/etc");
    assert_eq!(last.target, "../../etc");

    // Second-to-last must be rmdir
    let rmdir = &ops[ops.len() - 2];
    assert_eq!(rmdir.kind, FsOpKind::Rmdir);
    assert_eq!(rmdir.path, "/etc");

    // All earlier ops must be DeleteFile for /etc children
    for op in &ops[..ops.len() - 2] {
        assert_eq!(op.kind, FsOpKind::DeleteFile);
        assert!(op.path.starts_with("/etc/"));
    }
}

#[test]
fn replace_with_symlink_unknown_path_just_creates() {
    let idx = make_test_index();

    let ops = replace_with_symlink("/nonexistent", "/proc/self/exe", &idx);
    assert_eq!(ops.len(), 1);
    assert_eq!(ops[0].kind, FsOpKind::CreateSymlink);
    assert_eq!(ops[0].target, "/proc/self/exe");
}

// ── further cases ──────────────────────────────────────────────────────────

#[test]
fn parent_path_cases() {
    assert_eq!(parent_path("/"), None);
    assert_eq!(parent_path("/etc").as_deref(), Some("/"));
    assert_eq!(parent_path("/etc/passwd").as_deref(), Some("/etc"));
    assert_eq!(parent_path("/a/b/").as_deref(), Some("/a"));
    assert_eq!(parent_path("relative"), None);
    assert_eq!(parent_path(""), None);
    assert_eq!(parent_path("//"), None);
}

#[test]
fn nested_dirs_are_deleted_depth_first() {
    let all = strings(&["/a", "/a/b", "/a/b/f", "/a/g", "/l"]);
    let dirs = strings(&["/a", "/a/b"]);
    let syms = strings(&["/l"]);
    let idx = BaselineIndex::build(&all, &dirs, &syms);
    assert_eq!(idx.get("/l").unwrap().kind, PathKind::Symlink);
    let ops = replace_with_symlink("/a", "/t", &idx);
    let got: Vec<_> = ops.iter().map(|o| (o.kind, o.path.clone())).collect();
    assert_eq!(
        got,
        vec![
            (FsOpKind::DeleteFile, "/a/b/f".to_string()),
            (FsOpKind::Rmdir, "/a/b".to_string()),
            (FsOpKind::DeleteFile, "/a/g".to_string()),
            (FsOpKind::Rmdir, "/a".to_string()),
            (FsOpKind::CreateSymlink, "/a".to_string()),
        ]
    );
    let sym = replace_with_symlink("/l", "/t", &idx);
    assert_eq!(sym[0].kind, FsOpKind::DeleteFile);
    assert_eq!(sym.len(), 2);
}

#[test]
fn fixed_replacements() {
    let f = replace_file_with_symlink("/x", "/y");
    assert_eq!((f[0].kind, f[1].kind), (FsOpKind::DeleteFile, FsOpKind::CreateSymlink));
    let d = replace_empty_dir_with_symlink("/x", "/y");
    assert_eq!((d[0].kind, d[1].kind), (FsOpKind::Rmdir, FsOpKind::CreateSymlink));
    assert_eq!(d[1].target, "/y");
}

#[test]
fn unknown_paths_are_not_dirs_or_files() {
    let idx = make_test_index();
    assert!(!idx.is_dir("/nope"));
    assert!(!idx.is_file("/nope"));
    assert!(idx.children_of("/nope").is_empty());
    assert!(idx.get("/nope").is_none());
}
