//! The baseline trees the campaigns build in the VFS before the snapshot, as
//! the ordered `mkdir` / `create_file` steps that build them.

use vstd::prelude::*;

use crate::delta::{ascii, ascii_bytes, create_op, FsDelta, FsOp, OpView};
use crate::seeds::mkdir_op;

verus! {

pub open spec fn mkdirs(paths: Seq<Seq<char>>) -> Seq<OpView> {
    paths.map_values(|p: Seq<char>| mkdir_op(p))
}

fn push_mkdirs(ops: &mut Vec<FsOp>, paths: &[&str])
    ensures
        crate::delta::ops_view(final(ops)@) == crate::delta::ops_view(old(ops)@) + mkdirs(
            crate::gen::strs_view(paths@),
        ),
{
    let ghost start = crate::delta::ops_view(ops@);
    let ghost ps = crate::gen::strs_view(paths@);
    for i in 0..paths.len()
        invariant
            ps == crate::gen::strs_view(paths@),
            crate::delta::ops_view(ops@) == start + mkdirs(ps.take(i as int)),
    {
        let ghost before = crate::delta::ops_view(ops@);
        ops.push(FsOp::mkdir(paths[i]));
        assert(mkdirs(ps.take(i + 1)) =~= mkdirs(ps.take(i as int)).push(mkdir_op(ps[i as int])));
        assert(crate::delta::ops_view(ops@) =~= before.push(mkdir_op(ps[i as int])));
    }
    assert(ps.take(paths@.len() as int) =~= ps);
}

/// The `/etc` files every container rootfs gets, under `root` ("" or a
/// rootfs directory).
pub open spec fn passwd_text() -> Seq<u8> {
    ascii("root:x:0:0:root:/root:/bin/sh\nnobody:x:65534:65534:nobody:/:/usr/sbin/nologin\n"@)
}

pub open spec fn group_text() -> Seq<u8> {
    ascii("root:x:0:\ndaemon:x:1:\nbin:x:2:\nnobody:x:65534:\n"@)
}

pub open spec fn hosts_text() -> Seq<u8> {
    ascii("127.0.0.1 localhost\n::1 localhost\n"@)
}

pub open spec fn hostname_text() -> Seq<u8> {
    ascii("fuzz\n"@)
}

pub open spec fn resolv_text() -> Seq<u8> {
    ascii("nameserver 8.8.8.8\n"@)
}

fn passwd_bytes() -> (v: Vec<u8>)
    ensures
        v@ == passwd_text(),
{
    proof {
        reveal_strlit(
            "root:x:0:0:root:/root:/bin/sh\nnobody:x:65534:65534:nobody:/:/usr/sbin/nologin\n",
        );
    }
    ascii_bytes("root:x:0:0:root:/root:/bin/sh\nnobody:x:65534:65534:nobody:/:/usr/sbin/nologin\n")
}

fn group_bytes() -> (v: Vec<u8>)
    ensures
        v@ == group_text(),
{
    proof {
        reveal_strlit("root:x:0:\ndaemon:x:1:\nbin:x:2:\nnobody:x:65534:\n");
    }
    ascii_bytes("root:x:0:\ndaemon:x:1:\nbin:x:2:\nnobody:x:65534:\n")
}

fn hosts_bytes() -> (v: Vec<u8>)
    ensures
        v@ == hosts_text(),
{
    proof {
        reveal_strlit("127.0.0.1 localhost\n::1 localhost\n");
    }
    ascii_bytes("127.0.0.1 localhost\n::1 localhost\n")
}

fn hostname_bytes() -> (v: Vec<u8>)
    ensures
        v@ == hostname_text(),
{
    proof {
        reveal_strlit("fuzz\n");
    }
    ascii_bytes("fuzz\n")
}

fn resolv_bytes() -> (v: Vec<u8>)
    ensures
        v@ == resolv_text(),
{
    proof {
        reveal_strlit("nameserver 8.8.8.8\n");
    }
    ascii_bytes("nameserver 8.8.8.8\n")
}

fn copy_bytes(b: &[u8]) -> (v: Vec<u8>)
    ensures
        v@ == b@,
{
    vstd::slice::slice_to_vec(b)
}

// ── Container rootfs at the root ────────────────────────────────────────────

/// The combined campaign's tree: the usual top-level directories plus `/usr`,
/// `/app` and `/home`; every binary a generated config can name holds
/// `bin_true` (when there is one), and `/etc` holds passwd, group, hosts,
/// hostname and resolv.conf.
pub open spec fn combined_baseline_spec(bin_true: Seq<u8>) -> Seq<OpView> {
    mkdirs(
        seq![
            "/bin"@,
            "/proc"@,
            "/dev"@,
            "/sys"@,
            "/tmp"@,
            "/etc"@,
            "/var"@,
            "/run"@,
            "/usr"@,
            "/usr/bin"@,
            "/app"@,
            "/home"@,
            "/home/user"@,
        ],
    ) + if bin_true.len() > 0 {
        seq![
            create_op("/bin/true"@, bin_true),
            create_op("/bin/sh"@, bin_true),
            create_op("/bin/bash"@, bin_true),
            create_op("/app/app"@, bin_true),
            create_op("/usr/bin/nginx"@, bin_true),
        ]
    } else {
        Seq::empty()
    } + seq![
        create_op("/etc/passwd"@, passwd_text()),
        create_op("/etc/group"@, group_text()),
        create_op("/etc/hosts"@, hosts_text()),
        create_op("/etc/hostname"@, hostname_text()),
        create_op("/etc/resolv.conf"@, resolv_text()),
    ]
}

pub fn combined_baseline(bin_true: &[u8]) -> (d: FsDelta)
    ensures
        d@ == combined_baseline_spec(bin_true@),
{
    let mut ops: Vec<FsOp> = Vec::new();
    let dirs = [
        "/bin",
        "/proc",
        "/dev",
        "/sys",
        "/tmp",
        "/etc",
        "/var",
        "/run",
        "/usr",
        "/usr/bin",
        "/app",
        "/home",
        "/home/user",
    ];
    push_mkdirs(&mut ops, &dirs);
    assert(crate::gen::strs_view(dirs@) =~= seq![
        "/bin"@,
        "/proc"@,
        "/dev"@,
        "/sys"@,
        "/tmp"@,
        "/etc"@,
        "/var"@,
        "/run"@,
        "/usr"@,
        "/usr/bin"@,
        "/app"@,
        "/home"@,
        "/home/user"@,
    ]);
    if bin_true.len() > 0 {
        ops.push(FsOp::create_file("/bin/true", copy_bytes(bin_true)));
        ops.push(FsOp::create_file("/bin/sh", copy_bytes(bin_true)));
        ops.push(FsOp::create_file("/bin/bash", copy_bytes(bin_true)));
        ops.push(FsOp::create_file("/app/app", copy_bytes(bin_true)));
        ops.push(FsOp::create_file("/usr/bin/nginx", copy_bytes(bin_true)));
    }
    ops.push(FsOp::create_file("/etc/passwd", passwd_bytes()));
    ops.push(FsOp::create_file("/etc/group", group_bytes()));
    ops.push(FsOp::create_file("/etc/hosts", hosts_bytes()));
    ops.push(FsOp::create_file("/etc/hostname", hostname_bytes()));
    ops.push(FsOp::create_file("/etc/resolv.conf", resolv_bytes()));
    let d = FsDelta::new(ops);
    assert(d@ =~= combined_baseline_spec(bin_true@));
    d
}

/// The rootfs-only campaign's tree: the usual top-level directories,
/// `/bin/true` (when there is one) and the `/etc` files.
pub open spec fn rootfs_baseline_spec(bin_true: Seq<u8>) -> Seq<OpView> {
    mkdirs(
        seq!["/bin"@, "/proc"@, "/dev"@, "/sys"@, "/tmp"@, "/etc"@, "/var"@, "/run"@],
    ) + if bin_true.len() > 0 {
        seq![create_op("/bin/true"@, bin_true)]
    } else {
        Seq::empty()
    } + seq![
        create_op("/etc/passwd"@, passwd_text()),
        create_op("/etc/group"@, group_text()),
        create_op("/etc/hosts"@, hosts_text()),
        create_op("/etc/hostname"@, hostname_text()),
        create_op("/etc/resolv.conf"@, resolv_text()),
    ]
}

pub fn rootfs_baseline(bin_true: &[u8]) -> (d: FsDelta)
    ensures
        d@ == rootfs_baseline_spec(bin_true@),
{
    let mut ops: Vec<FsOp> = Vec::new();
    let dirs = ["/bin", "/proc", "/dev", "/sys", "/tmp", "/etc", "/var", "/run"];
    push_mkdirs(&mut ops, &dirs);
    assert(crate::gen::strs_view(dirs@) =~= seq![
        "/bin"@,
        "/proc"@,
        "/dev"@,
        "/sys"@,
        "/tmp"@,
        "/etc"@,
        "/var"@,
        "/run"@,
    ]);
    if bin_true.len() > 0 {
        ops.push(FsOp::create_file("/bin/true", copy_bytes(bin_true)));
    }
    ops.push(FsOp::create_file("/etc/passwd", passwd_bytes()));
    ops.push(FsOp::create_file("/etc/group", group_bytes()));
    ops.push(FsOp::create_file("/etc/hosts", hosts_bytes()));
    ops.push(FsOp::create_file("/etc/hostname", hostname_bytes()));
    ops.push(FsOp::create_file("/etc/resolv.conf", resolv_bytes()));
    let d = FsDelta::new(ops);
    assert(d@ =~= rootfs_baseline_spec(bin_true@));
    d
}

// ── OCI bundle trees ────────────────────────────────────────────────────────

/// The runc / crun bundle: `/config.json` holding `config`, a rootfs under
/// `/rootfs` with the usual directories, `bin/true` (when there is one), and
/// passwd, hosts, hostname and resolv.conf.
pub open spec fn bundle_baseline_spec(config: Seq<u8>, bin_true: Seq<u8>) -> Seq<OpView> {
    seq![create_op("/config.json"@, config)] + mkdirs(
        seq![
            "/rootfs"@,
            "/rootfs/bin"@,
            "/rootfs/proc"@,
            "/rootfs/dev"@,
            "/rootfs/sys"@,
            "/rootfs/tmp"@,
            "/rootfs/etc"@,
            "/rootfs/var"@,
            "/rootfs/run"@,
        ],
    ) + if bin_true.len() > 0 {
        seq![create_op("/rootfs/bin/true"@, bin_true)]
    } else {
        Seq::empty()
    } + seq![
        create_op("/rootfs/etc/passwd"@, passwd_text()),
        create_op("/rootfs/etc/hosts"@, hosts_text()),
        create_op("/rootfs/etc/hostname"@, hostname_text()),
        create_op("/rootfs/etc/resolv.conf"@, resolv_text()),
    ]
}

pub fn bundle_baseline(config: &[u8], bin_true: &[u8]) -> (d: FsDelta)
    ensures
        d@ == bundle_baseline_spec(config@, bin_true@),
{
    let mut ops: Vec<FsOp> = Vec::new();
    ops.push(FsOp::create_file("/config.json", copy_bytes(config)));
    assert(crate::delta::ops_view(ops@) =~= seq![create_op("/config.json"@, config@)]);
    let dirs = [
        "/rootfs",
        "/rootfs/bin",
        "/rootfs/proc",
        "/rootfs/dev",
        "/rootfs/sys",
        "/rootfs/tmp",
        "/rootfs/etc",
        "/rootfs/var",
        "/rootfs/run",
    ];
    push_mkdirs(&mut ops, &dirs);
    assert(crate::gen::strs_view(dirs@) =~= seq![
        "/rootfs"@,
        "/rootfs/bin"@,
        "/rootfs/proc"@,
        "/rootfs/dev"@,
        "/rootfs/sys"@,
        "/rootfs/tmp"@,
        "/rootfs/etc"@,
        "/rootfs/var"@,
        "/rootfs/run"@,
    ]);
    let ghost head = crate::delta::ops_view(ops@);
    if bin_true.len() > 0 {
        ops.push(FsOp::create_file("/rootfs/bin/true", copy_bytes(bin_true)));
    }
    assert(crate::delta::ops_view(ops@) =~= head + if bin_true@.len() > 0 {
        seq![create_op("/rootfs/bin/true"@, bin_true@)]
    } else {
        Seq::empty()
    });
    ops.push(FsOp::create_file("/rootfs/etc/passwd", passwd_bytes()));
    ops.push(FsOp::create_file("/rootfs/etc/hosts", hosts_bytes()));
    ops.push(FsOp::create_file("/rootfs/etc/hostname", hostname_bytes()));
    ops.push(FsOp::create_file("/rootfs/etc/resolv.conf", resolv_bytes()));
    let d = FsDelta::new(ops);
    assert(d@ =~= bundle_baseline_spec(config@, bin_true@));
    d
}

/// The in-process runc campaign's rootfs under `/rootfs`: the usual
/// directories, `bin/true` (when there is one), a root-only passwd, and
/// hosts, hostname and resolv.conf.
pub open spec fn runc_baseline_spec(bin_true: Seq<u8>) -> Seq<OpView> {
    mkdirs(
        seq![
            "/rootfs"@,
            "/rootfs/bin"@,
            "/rootfs/proc"@,
            "/rootfs/dev"@,
            "/rootfs/sys"@,
            "/rootfs/tmp"@,
            "/rootfs/etc"@,
            "/rootfs/var"@,
        ],
    ) + if bin_true.len() > 0 {
        seq![create_op("/rootfs/bin/true"@, bin_true)]
    } else {
        Seq::empty()
    } + seq![
        create_op("/rootfs/etc/passwd"@, ascii("root:x:0:0:root:/root:/bin/sh\n"@)),
        create_op("/rootfs/etc/hosts"@, hosts_text()),
        create_op("/rootfs/etc/hostname"@, hostname_text()),
        create_op("/rootfs/etc/resolv.conf"@, resolv_text()),
    ]
}

pub fn runc_baseline(bin_true: &[u8]) -> (d: FsDelta)
    ensures
        d@ == runc_baseline_spec(bin_true@),
{
    proof {
        reveal_strlit("root:x:0:0:root:/root:/bin/sh\n");
    }
    let mut ops: Vec<FsOp> = Vec::new();
    let dirs = [
        "/rootfs",
        "/rootfs/bin",
        "/rootfs/proc",
        "/rootfs/dev",
        "/rootfs/sys",
        "/rootfs/tmp",
        "/rootfs/etc",
        "/rootfs/var",
    ];
    push_mkdirs(&mut ops, &dirs);
    assert(crate::gen::strs_view(dirs@) =~= seq![
        "/rootfs"@,
        "/rootfs/bin"@,
        "/rootfs/proc"@,
        "/rootfs/dev"@,
        "/rootfs/sys"@,
        "/rootfs/tmp"@,
        "/rootfs/etc"@,
        "/rootfs/var"@,
    ]);
    if bin_true.len() > 0 {
        ops.push(FsOp::create_file("/rootfs/bin/true", copy_bytes(bin_true)));
    }
    ops.push(FsOp::create_file("/rootfs/etc/passwd", ascii_bytes("root:x:0:0:root:/root:/bin/sh\n")));
    ops.push(FsOp::create_file("/rootfs/etc/hosts", hosts_bytes()));
    ops.push(FsOp::create_file("/rootfs/etc/hostname", hostname_bytes()));
    ops.push(FsOp::create_file("/rootfs/etc/resolv.conf", resolv_bytes()));
    let d = FsDelta::new(ops);
    assert(d@ =~= runc_baseline_spec(bin_true@));
    d
}

// ── Single-input targets ────────────────────────────────────────────────────

/// The tree of the single-input campaigns: `/input` holding "seed" and
/// `/etc/config` holding the first 20 bytes of a settings file, which stop
/// short of its final newline.
pub open spec fn input_baseline_spec() -> Seq<OpView> {
    seq![
        create_op("/input"@, ascii("seed"@)),
        mkdir_op("/etc"@),
        create_op("/etc/config"@, ascii("[settings]\nverbose=0"@)),
    ]
}

pub fn input_baseline() -> (d: FsDelta)
    ensures
        d@ == input_baseline_spec(),
{
    proof {
        reveal_strlit("seed");
        reveal_strlit("[settings]\nverbose=0");
    }
    let d = FsDelta::new(
        vec![
            FsOp::create_file("/input", ascii_bytes("seed")),
            FsOp::mkdir("/etc"),
            FsOp::create_file("/etc/config", ascii_bytes("[settings]\nverbose=0")),
        ],
    );
    assert(d@ =~= input_baseline_spec());
    d
}

/// The benchmark's tree: the single-input tree plus `/data/a.bin` holding
/// four magic bytes.
pub open spec fn bench_baseline_spec() -> Seq<OpView> {
    input_baseline_spec() + seq![
        mkdir_op("/data"@),
        create_op("/data/a.bin"@, seq![0xdeu8, 0xad, 0xbe, 0xef]),
    ]
}

pub fn bench_baseline() -> (d: FsDelta)
    ensures
        d@ == bench_baseline_spec(),
{
    let mut d = input_baseline();
    d.ops.push(FsOp::mkdir("/data"));
    d.ops.push(FsOp::create_file("/data/a.bin", vec![0xdeu8, 0xad, 0xbe, 0xef]));
    assert(d@ =~= bench_baseline_spec());
    d
}

} // verus!
