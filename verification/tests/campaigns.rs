use fs_mutator::delta::{FsDelta, FsOp, FsOpKind};
use fs_mutator::guidance::MutationGuidance;
use fs_mutator::harness::{
    combined_len, config_requested_kill, generate_runc_config, Args, CalibratedExecutor, Campaign,
    ConfigMutator, FirstRun, KillConfig, RlimitEntry, RootfsMutator, SignalNumbers, Stats, Target,
    DURATION_MAX_NS,
};
use fs_mutator::mutators::{MutationResult, MAX_OPS};
use fs_mutator::pool::{build_mutator_pool, AnyMutator};
use fs_mutator::seeds::{
    config_seeds, crun_config_seeds, crun_initial_corpus, make_baseline_config, runc_initial_corpus,
    crun_rootfs_seeds, crun_symlink_seeds, delta_large, delta_medium, delta_small, libarchive_seeds, rootfs_seeds, rootfs_symlink_seeds,
    runc_rootfs_seeds,
};
use fs_mutator::symlink_utils::BaselineIndex;
use libafl_bolts::rands::StdRand;

fn strings(v: &[&str]) -> Vec<String> {
    v.iter().map(|s| s.to_string()).collect()
}

// ── seeds ───────────────────────────────────────────────────────────────────

#[test]
fn libarchive_seeds_replace_input_with_archive_headers() {
    let seeds = libarchive_seeds();
    assert_eq!(seeds.len(), 5);
    for d in &seeds {
        assert_eq!(d.ops.len(), 1);
        assert_eq!(d.ops[0].kind, FsOpKind::UpdateFile);
        assert_eq!(d.ops[0].path, "/input");
        assert_eq!(d.ops[0].size, d.ops[0].content.len());
    }
    assert_eq!(seeds[0].ops[0].content, vec![0u8; 1024]);
    assert_eq!(&seeds[1].ops[0].content[..4], b"PK\x05\x06");
    assert_eq!(seeds[1].ops[0].content.len(), 22);
    assert_eq!(&seeds[2].ops[0].content[..2], &[0x1f, 0x8b]);
    assert_eq!(seeds[2].ops[0].content.len(), 20);
    assert_eq!(&seeds[3].ops[0].content[..6], b"\xfd7zXZ\x00");
    assert_eq!(&seeds[4].ops[0].content[..4], b"BZh9");
    assert_eq!(seeds[4].ops[0].content.len(), 14);
}

#[test]
fn runc_rootfs_seeds_corrupt_bin_true_only_when_present() {
    let without = runc_rootfs_seeds(&[]);
    assert_eq!(without.len(), 17);
    let bin = b"\x7fELF\x02\x01\x01\x00payload".to_vec();
    let with = runc_rootfs_seeds(&bin);
    assert_eq!(with.len(), 18);
    let corrupt = &with[6].ops[0];
    assert_eq!(corrupt.kind, FsOpKind::UpdateFile);
    assert_eq!(corrupt.path, "/rootfs/bin/true");
    let mut expected = bin.clone();
    expected[4] ^= 0xff;
    assert_eq!(corrupt.content, expected);
    assert_eq!(with[0].ops[0].kind, FsOpKind::Rmdir);
    assert_eq!(with[0].ops[0].path, "/rootfs/proc");
    let last = &with[17].ops[0];
    assert_eq!(last.kind, FsOpKind::SetTimes);
    assert_eq!(last.path, "/rootfs/etc/passwd");
    assert_eq!(last.mtime_sec, i32::MAX as i64);
    assert_eq!(last.atime_sec, i32::MAX as i64);
    for d in &with {
        for op in &d.ops {
            assert!(op.path.starts_with("/rootfs/"));
        }
    }
}

#[test]
fn crun_rootfs_seeds_need_more_than_four_bytes_to_corrupt() {
    assert_eq!(crun_rootfs_seeds(&[1, 2, 3, 4]).len(), 9);
    let seeds = crun_rootfs_seeds(&[1, 2, 3, 4, 5]);
    assert_eq!(seeds.len(), 10);
    assert_eq!(seeds[9].ops[0].content, vec![1, 2, 3, 4, 5 ^ 0xff]);
    assert_eq!(seeds[6].ops[0].kind, FsOpKind::Truncate);
    assert_eq!(seeds[6].ops[0].size, 0);
}

#[test]
fn rootfs_seeds_base_set_and_binary_variants() {
    let base = rootfs_seeds(&[]);
    assert_eq!(base.len(), 31);
    assert!(base[0].is_empty());
    assert_eq!(base[7].ops.len(), 4);
    assert_eq!(base[18].ops.len(), 14);
    assert_eq!(base[19].ops.len(), 10);
    for d in &base {
        for op in &d.ops {
            assert!(op.path.starts_with('/'));
        }
    }
    let short = rootfs_seeds(&[9u8; 8]);
    assert_eq!(short.len(), 31, "eight bytes are not enough for the variants");

    let bin: Vec<u8> = (0..200u32).map(|i| i as u8).collect();
    let seeds = rootfs_seeds(&bin);
    assert_eq!(seeds.len(), 35);
    let mut c4 = bin.clone();
    c4[4] ^= 0xff;
    let mut c5 = bin.clone();
    c5[5] ^= 0xff;
    assert_eq!(seeds[31].ops[0].content, c4);
    assert_eq!(seeds[32].ops[0].content, c5);
    assert_eq!(seeds[33].ops[0].content, bin[..128].to_vec());
    assert_eq!(seeds[34].ops[0].content, bin[..64].to_vec());

    let small: Vec<u8> = (0..20u8).collect();
    let seeds = rootfs_seeds(&small);
    assert_eq!(seeds[33].ops[0].content, small);
    assert_eq!(seeds[34].ops[0].content, small);
}

/// Each seed replaces `/config.json` by one compact JSON text with sorted
/// keys; the id mappings carry the given ids where the seed has them.
fn check_config_seeds(seeds: &[FsDelta], uid: u64, gid: u64) -> Vec<serde_json::Value> {
    let mut values = Vec::new();
    for d in seeds {
        assert_eq!(d.ops.len(), 1);
        let op = &d.ops[0];
        assert_eq!(op.kind, FsOpKind::UpdateFile);
        assert_eq!(op.path, "/config.json");
        assert_eq!(op.size, op.content.len());
        let v: serde_json::Value = serde_json::from_slice(&op.content).unwrap();
        assert_eq!(serde_json::to_vec(&v).unwrap(), op.content);
        assert_eq!(v["ociVersion"], "1.0.0");
        if v.get("linux").is_some() {
            assert_eq!(v["linux"]["uidMappings"][0]["hostID"].as_u64(), Some(uid));
            assert_eq!(v["linux"]["gidMappings"][0]["hostID"].as_u64(), Some(gid));
            assert_eq!(v["root"]["path"], "PLACEHOLDER");
            assert_eq!(v["hostname"], "fuzz");
        }
        values.push(v);
    }
    values
}

#[test]
fn runc_config_seeds_vary_one_part_each() {
    let seeds = config_seeds(1000, 1001);
    assert_eq!(seeds.len(), 10);
    let v = check_config_seeds(&seeds, 1000, 1001);
    assert_eq!(v[0]["root"]["readonly"], false);
    assert_eq!(v[1]["root"]["readonly"], true);
    assert_eq!(v[2]["mounts"].as_array().unwrap().len(), 5);
    assert_eq!(v[3]["process"]["capabilities"]["bounding"].as_array().unwrap().len(), 14);
    assert_eq!(v[4]["process"]["capabilities"]["bounding"].as_array().unwrap().len(), 0);
    assert_eq!(v[5]["process"]["rlimits"][1]["hard"], 64);
    assert_eq!(v[6]["process"]["noNewPrivileges"], false);
    assert_eq!(v[7]["annotations"]["io.kubernetes.cri.sandbox-id"], "abc123");
    assert_eq!(v[8]["process"]["args"].as_array().unwrap().len(), 0);
    assert_eq!(v[9]["process"]["args"][0], "/bin/nonexistent");
    assert!(seeds[0].ops[0].content.starts_with(b"{\"hostname\":\"fuzz\",\"linux\":{\"gidMappings\":[{\"containerID\":0,\"hostID\":1001,"));
}

#[test]
fn crun_config_seeds_end_with_a_bare_version() {
    let seeds = crun_config_seeds(0, 4294967295);
    assert_eq!(seeds.len(), 10);
    let v = check_config_seeds(&seeds, 0, 4294967295);
    assert_eq!(v[2]["process"]["capabilities"]["bounding"].as_array().unwrap().len(), 13);
    assert_eq!(v[4]["process"]["rlimits"][1]["hard"], 512);
    assert_eq!(seeds[9].ops[0].content, b"{\"ociVersion\":\"1.0.0\"}".to_vec());
}

#[test]
fn baseline_config_maps_the_users_ids() {
    let bytes = make_baseline_config(1000, 100);
    let v: serde_json::Value = serde_json::from_slice(&bytes).unwrap();
    assert_eq!(serde_json::to_vec(&v).unwrap(), bytes);
    assert_eq!(v["linux"]["uidMappings"][0]["hostID"], 1000);
    assert_eq!(v["linux"]["gidMappings"][0]["hostID"], 100);
    assert_eq!(v["process"]["rlimits"][0]["type"], "RLIMIT_NOFILE");
    assert_eq!(v["process"]["env"][1], "TERM=xterm");
}

#[test]
fn initial_corpus_is_configs_then_rootfs_then_donor() {
    let baseline = make_baseline_config(1000, 1000);
    let bin_true = vec![0x7f, b'E', b'L', b'F', 2, 1];
    let runc = runc_initial_corpus(1000, 1000, &bin_true, baseline.clone());
    let rootfs = runc_rootfs_seeds(&bin_true);
    assert_eq!(runc.len(), 10 + rootfs.len() + 1);
    assert_eq!(runc[0].ops[0].content, config_seeds(1000, 1000)[0].ops[0].content);
    assert_eq!(runc[10].ops[0].path, rootfs[0].ops[0].path);
    let donor = &runc.last().unwrap().ops[0];
    assert_eq!(donor.path, "/config.json");
    assert_eq!(donor.content, baseline);

    let crun = crun_initial_corpus(1000, 1000, &[], baseline.clone());
    assert_eq!(crun.len(), 10 + crun_rootfs_seeds(&[]).len() + 1);
    assert_eq!(crun[9].ops[0].content, b"{\"ociVersion\":\"1.0.0\"}".to_vec());
    assert_eq!(crun.last().unwrap().ops[0].content, baseline);
}

fn symlink_index() -> BaselineIndex {
    let all = strings(&[
        "/proc",
        "/proc/self",
        "/dev",
        "/sys",
        "/tmp",
        "/etc",
        "/etc/passwd",
        "/etc/group",
        "/bin",
        "/bin/true",
    ]);
    let dirs = strings(&["/proc", "/dev", "/sys", "/tmp", "/etc", "/bin"]);
    BaselineIndex::build(&all, &dirs, &vec![])
}

#[test]
fn symlink_seeds_are_non_empty_and_end_with_a_symlink() {
    let idx = symlink_index();
    let seeds = rootfs_symlink_seeds(&idx);
    assert_eq!(seeds.len(), 36);
    for d in &seeds {
        assert!(!d.is_empty());
        assert_eq!(d.ops.last().unwrap().kind, FsOpKind::CreateSymlink);
    }
    // /proc holds /proc/self: delete it, rmdir /proc, then the symlink
    let first: Vec<_> = seeds[0].ops.iter().map(|o| (o.kind, o.path.clone())).collect();
    assert_eq!(
        first,
        vec![
            (FsOpKind::DeleteFile, "/proc/self".to_string()),
            (FsOpKind::Rmdir, "/proc".to_string()),
            (FsOpKind::CreateSymlink, "/proc".to_string()),
        ]
    );
    assert_eq!(seeds[0].ops[2].target, "../../proc");
    assert_eq!(seeds[4].ops.len(), 3 + 2 + 2);
    assert_eq!(seeds[28].ops[0].target, "/loop");
    assert_eq!(seeds[29].ops.len(), 3);
    let crun = crun_symlink_seeds(&idx);
    assert_eq!(crun.len(), seeds.len());
    for (a, b) in crun.iter().zip(seeds.iter()) {
        assert_eq!(a.ops.len(), b.ops.len());
    }
}

// ── campaign choices ────────────────────────────────────────────────────────

#[test]
fn campaign_from_arg_and_name() {
    assert_eq!(Campaign::from_arg("libarchive"), Campaign::Libarchive);
    assert_eq!(Campaign::from_arg("runc"), Campaign::Runc);
    assert_eq!(Campaign::from_arg("foobar"), Campaign::Foobar);
    assert_eq!(Campaign::from_arg("anything"), Campaign::Foobar);
    assert_eq!(Campaign::Runc.name(), "runc");
    assert_eq!(Campaign::Libarchive.name(), "libarchive");
    assert_eq!(Campaign::Foobar.name(), "foobar");
}

#[test]
fn target_names_and_binaries() {
    assert_eq!(Target::from_str("runc"), Some(Target::Runc));
    assert_eq!(Target::from_str("crun"), Some(Target::Crun));
    assert_eq!(Target::from_str("youki"), None);
    assert_eq!(Target::Runc.binary(), "/usr/bin/runc");
    assert_eq!(Target::Crun.binary(), "/usr/bin/crun");
    assert_eq!(Target::Crun.name(), "crun");
    assert_eq!(Target::detect(true), Target::Crun);
    assert_eq!(Target::detect(false), Target::Runc);
}

#[test]
fn args_parse_reads_target_and_dry_run() {
    let a = Args::parse(&strings(&["fuzz"]), false).unwrap();
    assert_eq!((a.target, a.dry_run), (Target::Runc, None));
    let a = Args::parse(&strings(&["fuzz"]), true).unwrap();
    assert_eq!(a.target, Target::Crun);
    let a = Args::parse(&strings(&["fuzz", "--target", "runc"]), true).unwrap();
    assert_eq!(a.target, Target::Runc);
    let a = Args::parse(&strings(&["fuzz", "--dry-run"]), false).unwrap();
    assert_eq!(a.dry_run, Some(20));
    let a = Args::parse(&strings(&["fuzz", "--dry-run", "50", "--target", "crun"]), false).unwrap();
    assert_eq!((a.target, a.dry_run), (Target::Crun, Some(50)));
    let a = Args::parse(&strings(&["fuzz", "--dry-run", "+7"]), false).unwrap();
    assert_eq!(a.dry_run, Some(7));
    let a = Args::parse(&strings(&["fuzz", "--dry-run", "--target", "crun"]), false).unwrap();
    assert_eq!((a.target, a.dry_run), (Target::Crun, Some(20)));
    let a = Args::parse(&strings(&["fuzz", "--dry-run", "-3"]), false).unwrap();
    assert_eq!(a.dry_run, Some(20));
    let a = Args::parse(&strings(&["fuzz", "--verbose", "x"]), false).unwrap();
    assert_eq!((a.target, a.dry_run), (Target::Runc, None));
    assert_eq!(Args::parse(&strings(&["fuzz", "--target", "youki"]), false).unwrap_err(), "youki");
    assert_eq!(Args::parse(&strings(&["fuzz", "--target"]), false).unwrap_err(), "");
}

#[test]
fn stats_track_count_total_min_max_and_mean() {
    let mut s = Stats::new();
    assert_eq!(s.mean_ns(), 0);
    assert_eq!(s.min_ns, DURATION_MAX_NS);
    assert_eq!(DURATION_MAX_NS, std::time::Duration::MAX.as_nanos());
    s.record(30);
    s.record(10);
    s.record(21);
    assert_eq!((s.n, s.total_ns, s.min_ns, s.max_ns), (3, 61, 10, 30));
    assert_eq!(s.mean_ns(), 20);
}

fn linux_signals() -> SignalNumbers {
    SignalNumbers { kill: 9, xcpu: 24, xfsz: 25, sys: 31 }
}

fn rlimit(kind: &str, hard: Option<i64>, soft: Option<i64>) -> RlimitEntry {
    RlimitEntry { kind: Some(kind.to_string()), hard, soft }
}

#[test]
fn config_requested_kill_matches_signal_to_limit() {
    let sigs = linux_signals();
    let cfg = KillConfig {
        rlimits: Some(vec![
            rlimit("RLIMIT_NOFILE", Some(0), Some(0)),
            rlimit("RLIMIT_CPU", Some(-1), Some(1)),
        ]),
        seccomp_default_action: Some("SCMP_ACT_KILL_PROCESS".to_string()),
    };
    assert!(config_requested_kill(&cfg, 9, sigs));
    assert!(config_requested_kill(&cfg, 24, sigs));
    assert!(!config_requested_kill(&cfg, 25, sigs), "no file-size limit");
    assert!(config_requested_kill(&cfg, 31, sigs));
    assert!(!config_requested_kill(&cfg, 11, sigs));
    let loose = KillConfig {
        rlimits: Some(vec![rlimit("RLIMIT_CPU", Some(3), Some(-1)), rlimit("RLIMIT_FSIZE", None, Some(2))]),
        seccomp_default_action: Some("SCMP_ACT_ERRNO".to_string()),
    };
    assert!(!config_requested_kill(&loose, 9, sigs));
    assert!(config_requested_kill(&loose, 25, sigs));
    assert!(!config_requested_kill(&loose, 31, sigs));
    let none = KillConfig { rlimits: None, seccomp_default_action: None };
    assert!(!config_requested_kill(&none, 24, sigs));
}

#[test]
fn calibrated_executor_clamps_and_decides() {
    let ex = CalibratedExecutor::new((), 2, 0, "/tmp/config.json".to_string());
    assert_eq!(ex.threshold, 1);
    let ex = CalibratedExecutor::new((), 2, 10, "/tmp/config.json".to_string());
    assert_eq!(ex.threshold, 3);
    let ex = CalibratedExecutor::new((), 4, 2, String::new());
    assert_eq!(ex.threshold, 2);
    assert!(!ex.confirmed(0));
    assert!(ex.confirmed(1));

    let sigs = linux_signals();
    let cfg = KillConfig { rlimits: Some(vec![rlimit("RLIMIT_CPU", Some(0), None)]), seccomp_default_action: None };
    assert!(!ex.is_real_crash(false, Some(11), None, sigs));
    assert!(ex.is_real_crash(true, Some(11), Some(&cfg), sigs));
    assert!(ex.is_real_crash(true, None, Some(&cfg), sigs));
    assert!(!ex.is_real_crash(true, Some(9), Some(&cfg), sigs));
    assert!(ex.is_real_crash(true, Some(9), None, sigs), "unreadable config keeps the crash");
    assert!(ex.is_real_crash(true, Some(25), Some(&cfg), sigs));

    assert_eq!(ex.after_first_run(false, false), FirstRun::Pass);
    assert_eq!(ex.after_first_run(true, false), FirstRun::Drop);
    assert_eq!(ex.after_first_run(true, true), FirstRun::Rerun);
}

#[test]
fn adapters_are_named_after_the_inner_mutator() {
    let c = ConfigMutator::new(7u8, "Havoc");
    assert_eq!(c.name, "Config(Havoc)");
    assert_eq!(c.inner, 7);
    let r = RootfsMutator::new((), "MutatePath");
    assert_eq!(r.name, "Rootfs(MutatePath)");
}

#[test]
fn runc_config_matches_template() {
    let got = generate_runc_config("/tmp/mnt/rootfs", 1000, 1001);
    let expected = format!(
        r#"{{
  "ociVersion": "1.0.0",
  "process": {{
    "terminal": false,
    "user": {{"uid": 0, "gid": 0}},
    "args": ["/bin/true"],
    "env": ["PATH=/usr/local/sbin:/usr/local/bin:/usr/sbin:/usr/bin:/sbin:/bin"],
    "cwd": "/",
    "noNewPrivileges": true
  }},
  "root": {{
    "path": "{}",
    "readonly": false
  }},
  "hostname": "fuzz",
  "linux": {{
    "uidMappings": [{{"containerID": 0, "hostID": {}, "size": 1}}],
    "gidMappings": [{{"containerID": 0, "hostID": {}, "size": 1}}],
    "namespaces": [
      {{"type": "pid"}},
      {{"type": "mount"}},
      {{"type": "user"}}
    ]
  }}
}}"#,
        "/tmp/mnt/rootfs", 1000, 1001
    );
    assert_eq!(got, expected);
    assert!(generate_runc_config("/r", 0, 4294967295).contains("\"hostID\": 4294967295"));
}

#[test]
fn combined_len_adds_ops_and_tree_size_saturating() {
    let d = FsDelta::new(vec![FsOp::mkdir("/a"), FsOp::mkdir("/b"), FsOp::mkdir("/c")]);
    assert_eq!(combined_len(&d, 5), 8);
    assert_eq!(combined_len(&FsDelta::new(vec![]), 0), 0);
    assert_eq!(combined_len(&d, usize::MAX - 1), usize::MAX);
    assert_eq!(combined_len(&d, usize::MAX), usize::MAX);
}

// ── mutator pool ────────────────────────────────────────────────────────────

fn corpus() -> Vec<FsDelta> {
    vec![FsDelta::new(vec![FsOp::mkdir("/donor")])]
}

fn pool() -> Vec<AnyMutator> {
    build_mutator_pool(
        strings(&["/input", "/etc/config"]),
        strings(&["/etc"]),
        strings(&["/input", "/etc", "/etc/config"]),
        vec![("/input".to_string(), b"seed".to_vec())],
    )
}

#[test]
fn pool_holds_one_mutator_of_each_kind() {
    let names: Vec<&str> = pool().iter().map(|m| m.name()).collect();
    assert_eq!(
        names,
        vec![
            "ByteFlipFileContent",
            "ReplaceFileContent",
            "AddFileOp",
            "RemoveOp",
            "MutatePath",
            "SpliceDelta",
            "DestructiveMutator",
            "UpdateExistingFile",
        ]
    );
}

#[test]
fn pool_can_apply_follows_each_precondition() {
    let p = pool();
    let meta = FsDelta::new(vec![FsOp::mkdir("/d")]);
    let empty_file = FsDelta::new(vec![FsOp::create_file("/f", vec![])]);
    let file = FsDelta::new(vec![FsOp::create_file("/f", b"x".to_vec()), FsOp::mkdir("/d")]);
    let full = FsDelta::new((0..MAX_OPS).map(|i| FsOp::mkdir(&format!("/d{i}"))).collect());
    let none = FsDelta::new(vec![]);
    let c = corpus();
    let apply = |d: &FsDelta| -> Vec<bool> { p.iter().map(|m| m.can_apply(d, &c)).collect() };
    assert_eq!(apply(&meta), vec![false, false, true, false, true, true, true, true]);
    assert_eq!(apply(&empty_file), vec![false, true, true, false, true, true, true, true]);
    assert_eq!(apply(&file), vec![true, true, true, true, true, true, true, true]);
    assert_eq!(apply(&full), vec![false, false, false, true, true, false, false, false]);
    assert_eq!(apply(&none), vec![false, false, true, false, false, true, true, true]);
}

#[test]
fn pool_mutators_change_what_they_can_apply_to() {
    let p = pool();
    let live = MutationGuidance::none();
    let c = corpus();
    let mut rand = StdRand::with_seed(3);
    for m in &p {
        let mut d = FsDelta::new(vec![FsOp::create_file("/f", b"abc".to_vec()), FsOp::mkdir("/d")]);
        assert!(m.can_apply(&d, &c));
        let before = d.ops.len();
        let r = m.mutate(&mut rand, &mut d, &live, &c);
        assert_eq!(r, MutationResult::Mutated, "{} should mutate", m.name());
        assert!(d.ops.len() <= MAX_OPS);
        match m.name() {
            "AddFileOp" | "DestructiveMutator" | "UpdateExistingFile" => {
                assert_eq!(d.ops.len(), before + 1)
            }
            "RemoveOp" => assert_eq!(d.ops.len(), before - 1),
            "SpliceDelta" => assert_eq!(d.ops.last().unwrap().path, "/donor"),
            _ => assert_eq!(d.ops.len(), before),
        }
    }
}

// ── benchmark deltas ────────────────────────────────────────────────────────

#[test]
fn benchmark_deltas() {
    let s = delta_small();
    assert_eq!(s.ops.len(), 1);
    assert_eq!(s.ops[0].content, b"mutated_content_12345".to_vec());
    let m = delta_medium();
    assert_eq!(m.ops.len(), 3);
    assert_eq!(m.ops[1].path, "/tmp/new.txt");
    assert_eq!(m.ops[1].content, vec![0u8; 64]);
    assert_eq!(m.ops[2].kind, FsOpKind::Mkdir);
    let l = delta_large();
    assert_eq!(l.ops.len(), 10);
    for i in 0..8u8 {
        assert_eq!(l.ops[i as usize].path, format!("/data/file_{i}.bin"));
        assert_eq!(l.ops[i as usize].content, vec![i; 256]);
        assert_eq!(l.ops[i as usize].kind, FsOpKind::CreateFile);
    }
    assert_eq!(l.ops[8].content, b"overwritten".to_vec());
    assert_eq!(l.ops[9].path, "/tmp/deep/nested");
}
