//! Seed corpora of the fuzzing campaigns: hand-picked deltas that break a
//! container rootfs, or an archive input, in structurally different ways.

use vstd::prelude::*;
use vstd::string::{StrSliceExecFns, StringExecFns};
use vstd::utf8::encode_utf8;

use crate::delta::{
    ascii, ascii_bytes, create_op, deltas_view, plain_op, times_op, update_op, FsDelta, FsOp,
    FsOpKind, OpView,
};
use crate::text::{decimal, decimal_string, owned};
use crate::symlink_utils::{
    delete_op, lemma_replace_ends_with_symlink, replace_spec, replace_with_symlink, rmdir_op,
    symlink_op, BaselineIndex, PathInfoView,
};

verus! {

pub open spec fn mkdir_op(p: Seq<char>) -> OpView {
    plain_op(FsOpKind::Mkdir, p, Seq::empty(), Seq::empty(), 0)
}

pub open spec fn truncate_op(p: Seq<char>, n: usize) -> OpView {
    plain_op(FsOpKind::Truncate, p, Seq::empty(), Seq::empty(), n)
}

/// `bytes` with the byte at `i` inverted.
pub open spec fn flip_byte(bytes: Seq<u8>, i: int) -> Seq<u8> {
    bytes.update(i, bytes[i] ^ 0xffu8)
}

/// The first `min(n, len)` bytes of `bytes`.
pub open spec fn head(bytes: Seq<u8>, n: int) -> Seq<u8> {
    if bytes.len() < n {
        bytes
    } else {
        bytes.subrange(0, n)
    }
}

fn one(op: FsOp) -> (d: FsDelta)
    ensures
        d@ == seq![op@],
{
    let d = FsDelta::new(vec![op]);
    assert(d@ =~= seq![op@]);
    d
}

fn flipped(bytes: &[u8], i: usize) -> (v: Vec<u8>)
    requires
        i < bytes@.len(),
    ensures
        v@ == flip_byte(bytes@, i as int),
{
    let mut v = vstd::slice::slice_to_vec(bytes);
    let b = v[i] ^ 0xff;
    v.set(i, b);
    v
}

fn head_bytes(bytes: &[u8], n: usize) -> (v: Vec<u8>)
    ensures
        v@ == head(bytes@, n as int),
{
    let k = if bytes.len() < n {
        bytes.len()
    } else {
        n
    };
    let mut v: Vec<u8> = Vec::new();
    for i in 0..k
        invariant
            k <= bytes@.len(),
            v@ == bytes@.subrange(0, i as int),
    {
        v.push(bytes[i]);
        assert(v@ =~= bytes@.subrange(0, i + 1));
    }
    assert(bytes@.subrange(0, bytes@.len() as int) =~= bytes@);
    v
}

// ── Archive inputs ──────────────────────────────────────────────────────────

/// An empty tar archive, and the smallest zip, gzip, xz and bzip2 streams.
pub open spec fn libarchive_seeds_spec() -> Seq<Seq<OpView>> {
    seq![
        seq![update_op("/input"@, Seq::new(1024, |_i: int| 0u8))],
        seq![
            update_op(
                "/input"@,
                seq![
                    0x50u8, 0x4b, 0x05, 0x06, 0x00, 0x00, 0x00, 0x00, 0x00, 0x00, 0x00, 0x00,
                    0x00, 0x00, 0x00, 0x00, 0x00, 0x00, 0x00, 0x00, 0x00, 0x00,
                ],
            ),
        ],
        seq![
            update_op(
                "/input"@,
                seq![
                    0x1fu8, 0x8b, 0x08, 0x00, 0x00, 0x00, 0x00, 0x00, 0x00, 0x03, 0x03, 0x00,
                    0x00, 0x00, 0x00, 0x00, 0x00, 0x00, 0x00, 0x00,
                ],
            ),
        ],
        seq![
            update_op(
                "/input"@,
                seq![0xfdu8, 0x37, 0x7a, 0x58, 0x5a, 0x00, 0x00, 0x04, 0xe6, 0xd6, 0xb4, 0x46],
            ),
        ],
        seq![
            update_op(
                "/input"@,
                seq![
                    0x42u8, 0x5a, 0x68, 0x39, 0x17, 0x72, 0x45, 0x38, 0x50, 0x90, 0x00, 0x00,
                    0x00, 0x00,
                ],
            ),
        ],
    ]
}

/// Archive-format seeds for the libarchive campaign, each replacing `/input`.
pub fn libarchive_seeds() -> (res: Vec<FsDelta>)
    ensures
        deltas_view(res@) == libarchive_seeds_spec(),
{
    let spec = Ghost(libarchive_seeds_spec());
    let tar_empty = vec![0u8; 1024];
    assert(tar_empty@ =~= Seq::new(1024, |_i: int| 0u8));
    let zip_empty: Vec<u8> = vec![
        0x50, 0x4b, 0x05, 0x06, 0x00, 0x00, 0x00, 0x00, 0x00, 0x00, 0x00, 0x00, 0x00, 0x00, 0x00,
        0x00, 0x00, 0x00, 0x00, 0x00, 0x00, 0x00,
    ];
    let gzip_empty: Vec<u8> = vec![
        0x1f, 0x8b, 0x08, 0x00, 0x00, 0x00, 0x00, 0x00, 0x00, 0x03, 0x03, 0x00, 0x00, 0x00, 0x00,
        0x00, 0x00, 0x00, 0x00, 0x00,
    ];
    let xz_header: Vec<u8> = vec![0xfd, 0x37, 0x7a, 0x58, 0x5a, 0x00, 0x00, 0x04, 0xe6, 0xd6, 0xb4, 0x46];
    let bzip2_magic: Vec<u8> = vec![
        0x42, 0x5a, 0x68, 0x39, 0x17, 0x72, 0x45, 0x38, 0x50, 0x90, 0x00, 0x00, 0x00, 0x00,
    ];
    let d0 = one(FsOp::update_file("/input", tar_empty));
    assert(d0@ =~= spec@[0]);
    let d1 = one(FsOp::update_file("/input", zip_empty));
    assert(d1@ =~= spec@[1]);
    let d2 = one(FsOp::update_file("/input", gzip_empty));
    assert(d2@ =~= spec@[2]);
    let d3 = one(FsOp::update_file("/input", xz_header));
    assert(d3@ =~= spec@[3]);
    let d4 = one(FsOp::update_file("/input", bzip2_magic));
    assert(d4@ =~= spec@[4]);
    let res = vec![d0, d1, d2, d3, d4];
    assert(deltas_view(res@) =~= libarchive_seeds_spec());
    res
}

// ── runc and crun rootfs under /rootfs ──────────────────────────────────────

/// The runc campaign's rootfs seeds: missing mount points and binary, a
/// corrupted or empty `/bin/true`, `/etc/passwd` variants, extra trees, and
/// timestamp edge cases. The seed that corrupts `bin_true` is present only
/// when `bin_true` is not empty.
pub open spec fn runc_rootfs_seeds_spec(bin_true: Seq<u8>) -> Seq<Seq<OpView>> {
    let corrupt = if bin_true.len() == 0 {
        Seq::empty()
    } else {
        seq![seq![update_op("/rootfs/bin/true"@, flip_byte(bin_true, 4))]]
    };
    runc_first_seeds() + corrupt + runc_rest_seeds()
}

pub open spec fn runc_first_seeds() -> Seq<Seq<OpView>> {
    seq![
        seq![rmdir_op("/rootfs/proc"@)],
        seq![rmdir_op("/rootfs/dev"@)],
        seq![rmdir_op("/rootfs/sys"@)],
        seq![delete_op("/rootfs/bin/true"@)],
        seq![update_op("/rootfs/bin/true"@, ascii("not an elf"@))],
        seq![update_op("/rootfs/bin/true"@, ascii("\x7fELF"@))],
    ]
}

pub open spec fn runc_rest_seeds() -> Seq<Seq<OpView>> {
    seq![
        seq![
            update_op(
                "/rootfs/etc/passwd"@,
                ascii(
                    "root:x:0:0:root:/root:/bin/sh\nnobody:x:65534:65534:nobody:/:/usr/sbin/nologin\n"@,
                ),
            ),
        ],
        seq![delete_op("/rootfs/etc/passwd"@)],
        seq![update_op("/rootfs/etc/passwd"@, Seq::empty())],
        seq![
            mkdir_op("/rootfs/usr"@),
            mkdir_op("/rootfs/usr/bin"@),
            create_op("/rootfs/usr/bin/env"@, ascii("#!/bin/sh\nexec \"$@\"\n"@)),
        ],
        seq![create_op("/rootfs/.dockerenv"@, Seq::empty())],
        seq![
            mkdir_op("/rootfs/run"@),
            create_op("/rootfs/run/secrets"@, ascii("password=hunter2\n"@)),
        ],
        seq![
            mkdir_op("/rootfs/a"@),
            mkdir_op("/rootfs/a/b"@),
            mkdir_op("/rootfs/a/b/c"@),
            create_op("/rootfs/a/b/c/d"@, ascii("deeply nested"@)),
        ],
        seq![
            mkdir_op("/rootfs/safe"@),
            create_op("/rootfs/safe/file.txt"@, ascii("../../../etc/passwd"@)),
        ],
        seq![truncate_op("/rootfs/bin/true"@, 0)],
        seq![times_op("/rootfs/bin/true"@, 0, 0)],
        seq![times_op("/rootfs/etc/passwd"@, 2147483647, 2147483647)],
    ]
}

/// Rootfs seeds of the runc campaign. `bin_true` is the host's `/bin/true`
/// (empty when it could not be read); flipping its byte 4 needs five bytes.
pub fn runc_rootfs_seeds(bin_true: &[u8]) -> (res: Vec<FsDelta>)
    requires
        bin_true@.len() == 0 || bin_true@.len() > 4,
    ensures
        deltas_view(res@) == runc_rootfs_seeds_spec(bin_true@),
{
    proof {
        reveal_strlit("not an elf");
        reveal_strlit("\x7fELF");
        reveal_strlit(
            "root:x:0:0:root:/root:/bin/sh\nnobody:x:65534:65534:nobody:/:/usr/sbin/nologin\n",
        );
        reveal_strlit("#!/bin/sh\nexec \"$@\"\n");
        reveal_strlit("password=hunter2\n");
        reveal_strlit("deeply nested");
        reveal_strlit("../../../etc/passwd");
    }
    let mut seeds = vec![
        one(FsOp::rmdir("/rootfs/proc")),
        one(FsOp::rmdir("/rootfs/dev")),
        one(FsOp::rmdir("/rootfs/sys")),
        one(FsOp::delete_file("/rootfs/bin/true")),
        one(FsOp::update_file("/rootfs/bin/true", ascii_bytes("not an elf"))),
        one(FsOp::update_file("/rootfs/bin/true", ascii_bytes("\x7fELF"))),
    ];
    let ghost n0 = seeds@.len();
    if !bin_true.is_empty() {
        let corrupt = flipped(bin_true, 4);
        seeds.push(one(FsOp::update_file("/rootfs/bin/true", corrupt)));
    }
    let d_passwd = one(
        FsOp::update_file(
            "/rootfs/etc/passwd",
            ascii_bytes(
                "root:x:0:0:root:/root:/bin/sh\nnobody:x:65534:65534:nobody:/:/usr/sbin/nologin\n",
            ),
        ),
    );
    let ghost r = runc_rest_seeds();
    assert(d_passwd@ =~= r[0]);
    let d_env = FsDelta::new(
        vec![
            FsOp::mkdir("/rootfs/usr"),
            FsOp::mkdir("/rootfs/usr/bin"),
            FsOp::create_file("/rootfs/usr/bin/env", ascii_bytes("#!/bin/sh\nexec \"$@\"\n")),
        ],
    );
    assert(d_env@ =~= r[3]);
    let d_secret = FsDelta::new(
        vec![
            FsOp::mkdir("/rootfs/run"),
            FsOp::create_file("/rootfs/run/secrets", ascii_bytes("password=hunter2\n")),
        ],
    );
    assert(d_secret@ =~= r[5]);
    let d_nested = FsDelta::new(
        vec![
            FsOp::mkdir("/rootfs/a"),
            FsOp::mkdir("/rootfs/a/b"),
            FsOp::mkdir("/rootfs/a/b/c"),
            FsOp::create_file("/rootfs/a/b/c/d", ascii_bytes("deeply nested")),
        ],
    );
    assert(d_nested@ =~= r[6]);
    let d_safe = FsDelta::new(
        vec![
            FsOp::mkdir("/rootfs/safe"),
            FsOp::create_file("/rootfs/safe/file.txt", ascii_bytes("../../../etc/passwd")),
        ],
    );
    assert(d_safe@ =~= r[7]);
    let mut rest = vec![
        d_passwd,
        one(FsOp::delete_file("/rootfs/etc/passwd")),
        one(FsOp::update_file("/rootfs/etc/passwd", Vec::new())),
        d_env,
        one(FsOp::create_file("/rootfs/.dockerenv", Vec::new())),
        d_secret,
        d_nested,
        d_safe,
        one(FsOp::truncate("/rootfs/bin/true", 0)),
        one(FsOp::set_times("/rootfs/bin/true", 0, 0, 0, 0)),
        one(FsOp::set_times("/rootfs/etc/passwd", 2147483647, 0, 2147483647, 0)),
    ];
    let ghost first_part = deltas_view(seeds@);
    assert(deltas_view(rest@) =~= runc_rest_seeds());
    seeds.append(&mut rest);
    proof {
        assert(deltas_view(seeds@) =~= first_part + runc_rest_seeds());
        assert(first_part =~= runc_first_seeds() + if bin_true@.len() == 0 {
            Seq::empty()
        } else {
            seq![seq![update_op("/rootfs/bin/true"@, flip_byte(bin_true@, 4))]]
        });
    }
    seeds
}

/// The crun campaign's rootfs seeds; the last one, which corrupts
/// `bin_true`, is present only when `bin_true` has more than four bytes.
pub open spec fn crun_rootfs_seeds_spec(bin_true: Seq<u8>) -> Seq<Seq<OpView>> {
    seq![
        seq![rmdir_op("/rootfs/proc"@)],
        seq![rmdir_op("/rootfs/dev"@)],
        seq![rmdir_op("/rootfs/sys"@)],
        seq![delete_op("/rootfs/bin/true"@)],
        seq![update_op("/rootfs/bin/true"@, ascii("not an elf"@))],
        seq![update_op("/rootfs/bin/true"@, ascii("\x7fELF"@))],
        seq![truncate_op("/rootfs/bin/true"@, 0)],
        seq![delete_op("/rootfs/etc/passwd"@)],
        seq![create_op("/rootfs/.dockerenv"@, Seq::empty())],
    ] + if bin_true.len() > 4 {
        seq![seq![update_op("/rootfs/bin/true"@, flip_byte(bin_true, 4))]]
    } else {
        Seq::empty()
    }
}

/// Rootfs seeds of the crun campaign.
pub fn crun_rootfs_seeds(bin_true: &[u8]) -> (res: Vec<FsDelta>)
    ensures
        deltas_view(res@) == crun_rootfs_seeds_spec(bin_true@),
{
    proof {
        reveal_strlit("not an elf");
        reveal_strlit("\x7fELF");
    }
    let mut seeds = vec![
        one(FsOp::rmdir("/rootfs/proc")),
        one(FsOp::rmdir("/rootfs/dev")),
        one(FsOp::rmdir("/rootfs/sys")),
        one(FsOp::delete_file("/rootfs/bin/true")),
        one(FsOp::update_file("/rootfs/bin/true", ascii_bytes("not an elf"))),
        one(FsOp::update_file("/rootfs/bin/true", ascii_bytes("\x7fELF"))),
        one(FsOp::truncate("/rootfs/bin/true", 0)),
        one(FsOp::delete_file("/rootfs/etc/passwd")),
        one(FsOp::create_file("/rootfs/.dockerenv", Vec::new())),
    ];
    if bin_true.len() > 4 {
        let corrupt = flipped(bin_true, 4);
        seeds.push(one(FsOp::update_file("/rootfs/bin/true", corrupt)));
    }
    assert(deltas_view(seeds@) =~= crun_rootfs_seeds_spec(bin_true@));
    seeds
}

// ── Rootfs of the combined and rootfs-only campaigns ────────────────────────

/// Missing mount points, alone and together, after an unchanged rootfs.
pub open spec fn mount_point_seeds_spec() -> Seq<Seq<OpView>> {
    seq![
        Seq::empty(),
        seq![rmdir_op("/proc"@)],
        seq![rmdir_op("/dev"@)],
        seq![rmdir_op("/sys"@)],
        seq![rmdir_op("/tmp"@)],
        seq![rmdir_op("/proc"@), rmdir_op("/sys"@)],
        seq![rmdir_op("/dev"@), rmdir_op("/tmp"@)],
        seq![rmdir_op("/proc"@), rmdir_op("/dev"@), rmdir_op("/sys"@), rmdir_op("/tmp"@)],
    ]
}

fn mount_point_seeds() -> (res: Vec<FsDelta>)
    ensures
        deltas_view(res@) == mount_point_seeds_spec(),
{
    let ghost spec = mount_point_seeds_spec();
    let d0 = FsDelta::new(Vec::new());
    assert(d0@ =~= spec[0]);
    let d5 = FsDelta::new(vec![FsOp::rmdir("/proc"), FsOp::rmdir("/sys")]);
    assert(d5@ =~= spec[5]);
    let d6 = FsDelta::new(vec![FsOp::rmdir("/dev"), FsOp::rmdir("/tmp")]);
    assert(d6@ =~= spec[6]);
    let d7 = FsDelta::new(
        vec![FsOp::rmdir("/proc"), FsOp::rmdir("/dev"), FsOp::rmdir("/sys"), FsOp::rmdir("/tmp")],
    );
    assert(d7@ =~= spec[7]);
    let res = vec![
        d0,
        one(FsOp::rmdir("/proc")),
        one(FsOp::rmdir("/dev")),
        one(FsOp::rmdir("/sys")),
        one(FsOp::rmdir("/tmp")),
        d5,
        d6,
        d7,
    ];
    assert(deltas_view(res@) =~= spec);
    res
}

/// A missing, empty, short, foreign or script `/bin/true`, and a missing `/bin`.
pub open spec fn binary_seeds_spec() -> Seq<Seq<OpView>> {
    seq![
        seq![delete_op("/bin/true"@)],
        seq![truncate_op("/bin/true"@, 0)],
        seq![truncate_op("/bin/true"@, 4)],
        seq![truncate_op("/bin/true"@, 16)],
        seq![truncate_op("/bin/true"@, 64)],
        seq![update_op("/bin/true"@, ascii("not an elf\n"@))],
        seq![update_op("/bin/true"@, ascii("\x7fELF\x01\x01\x01\x00"@))],
        seq![
            update_op(
                "/bin/true"@,
                ascii("\x7fELF\x02\x01\x01\x00\x00\x00\x00\x00\x00\x00\x00\x00"@),
            ),
        ],
        seq![update_op("/bin/true"@, ascii("#!/bin/sh\nexit 0\n"@))],
        seq![delete_op("/bin/true"@), rmdir_op("/bin"@)],
    ]
}

fn binary_seeds() -> (res: Vec<FsDelta>)
    ensures
        deltas_view(res@) == binary_seeds_spec(),
{
    proof {
        reveal_strlit("not an elf\n");
        reveal_strlit("\x7fELF\x01\x01\x01\x00");
        reveal_strlit("\x7fELF\x02\x01\x01\x00\x00\x00\x00\x00\x00\x00\x00\x00");
        reveal_strlit("#!/bin/sh\nexit 0\n");
    }
    let ghost spec = binary_seeds_spec();
    let d9 = FsDelta::new(vec![FsOp::delete_file("/bin/true"), FsOp::rmdir("/bin")]);
    assert(d9@ =~= spec[9]);
    let res = vec![
        one(FsOp::delete_file("/bin/true")),
        one(FsOp::truncate("/bin/true", 0)),
        one(FsOp::truncate("/bin/true", 4)),
        one(FsOp::truncate("/bin/true", 16)),
        one(FsOp::truncate("/bin/true", 64)),
        one(FsOp::update_file("/bin/true", ascii_bytes("not an elf\n"))),
        one(FsOp::update_file("/bin/true", ascii_bytes("\x7fELF\x01\x01\x01\x00"))),
        one(
            FsOp::update_file(
                "/bin/true",
                ascii_bytes("\x7fELF\x02\x01\x01\x00\x00\x00\x00\x00\x00\x00\x00\x00"),
            ),
        ),
        one(FsOp::update_file("/bin/true", ascii_bytes("#!/bin/sh\nexit 0\n"))),
        d9,
    ];
    assert(deltas_view(res@) =~= spec);
    res
}

/// A full standard directory tree, a populated `/dev`, the `/etc` files a
/// runtime reads, and extra binaries in `/bin`.
pub open spec fn rich_rootfs_seeds_spec() -> Seq<Seq<OpView>> {
    seq![
        seq![
            mkdir_op("/usr"@),
            mkdir_op("/usr/bin"@),
            mkdir_op("/usr/lib"@),
            mkdir_op("/usr/sbin"@),
            mkdir_op("/lib"@),
            mkdir_op("/lib64"@),
            mkdir_op("/sbin"@),
            mkdir_op("/opt"@),
            mkdir_op("/home"@),
            mkdir_op("/root"@),
            mkdir_op("/var/log"@),
            mkdir_op("/var/tmp"@),
            mkdir_op("/var/run"@),
            mkdir_op("/run/lock"@),
        ],
        seq![
            create_op("/dev/null"@, Seq::empty()),
            create_op("/dev/zero"@, Seq::empty()),
            create_op("/dev/full"@, Seq::empty()),
            create_op("/dev/random"@, Seq::empty()),
            create_op("/dev/urandom"@, Seq::empty()),
            create_op("/dev/tty"@, Seq::empty()),
            create_op("/dev/console"@, Seq::empty()),
            create_op("/dev/ptmx"@, Seq::empty()),
            mkdir_op("/dev/pts"@),
            mkdir_op("/dev/shm"@),
        ],
        seq![
            create_op("/etc/group"@, ascii("root:x:0:\ndaemon:x:1:\nbin:x:2:\nnobody:x:65534:\n"@)),
            create_op("/etc/shadow"@, ascii("root:!:19000:0:99999:7:::\nnobody:!:19000::::::\n"@)),
            create_op("/etc/subuid"@, ascii("root:100000:65536\n"@)),
            create_op("/etc/subgid"@, ascii("root:100000:65536\n"@)),
            create_op(
                "/etc/nsswitch.conf"@,
                ascii("passwd: files\ngroup: files\nhosts: files dns\n"@),
            ),
            create_op("/etc/ld.so.cache"@, ascii("\x00\x01\x02\x03"@)),
            create_op("/etc/ld.so.conf"@, ascii("/usr/lib\n/lib\n"@)),
            create_op("/.dockerenv"@, Seq::empty()),
        ],
        seq![
            create_op("/bin/sh"@, ascii("\x7fELF\x02\x01\x01\x00"@)),
            create_op("/bin/bash"@, ascii("\x7fELF\x02\x01\x01\x00"@)),
            create_op("/bin/ls"@, ascii("\x7fELF\x02\x01\x01\x00"@)),
        ],
    ]
}

fn rich_rootfs_seeds() -> (res: Vec<FsDelta>)
    ensures
        deltas_view(res@) == rich_rootfs_seeds_spec(),
{
    proof {
        reveal_strlit("root:x:0:\ndaemon:x:1:\nbin:x:2:\nnobody:x:65534:\n");
        reveal_strlit("root:!:19000:0:99999:7:::\nnobody:!:19000::::::\n");
        reveal_strlit("root:100000:65536\n");
        reveal_strlit("passwd: files\ngroup: files\nhosts: files dns\n");
        reveal_strlit("\x00\x01\x02\x03");
        reveal_strlit("/usr/lib\n/lib\n");
        reveal_strlit("\x7fELF\x02\x01\x01\x00");
    }
    let ghost spec = rich_rootfs_seeds_spec();
    let dirs = FsDelta::new(
        vec![
            FsOp::mkdir("/usr"),
            FsOp::mkdir("/usr/bin"),
            FsOp::mkdir("/usr/lib"),
            FsOp::mkdir("/usr/sbin"),
            FsOp::mkdir("/lib"),
            FsOp::mkdir("/lib64"),
            FsOp::mkdir("/sbin"),
            FsOp::mkdir("/opt"),
            FsOp::mkdir("/home"),
            FsOp::mkdir("/root"),
            FsOp::mkdir("/var/log"),
            FsOp::mkdir("/var/tmp"),
            FsOp::mkdir("/var/run"),
            FsOp::mkdir("/run/lock"),
        ],
    );
    assert(dirs@ =~= spec[0]);
    let devs = FsDelta::new(
        vec![
            FsOp::create_file("/dev/null", Vec::new()),
            FsOp::create_file("/dev/zero", Vec::new()),
            FsOp::create_file("/dev/full", Vec::new()),
            FsOp::create_file("/dev/random", Vec::new()),
            FsOp::create_file("/dev/urandom", Vec::new()),
            FsOp::create_file("/dev/tty", Vec::new()),
            FsOp::create_file("/dev/console", Vec::new()),
            FsOp::create_file("/dev/ptmx", Vec::new()),
            FsOp::mkdir("/dev/pts"),
            FsOp::mkdir("/dev/shm"),
        ],
    );
    assert(devs@ =~= spec[1]);
    let etc = FsDelta::new(
        vec![
            FsOp::create_file(
                "/etc/group",
                ascii_bytes("root:x:0:\ndaemon:x:1:\nbin:x:2:\nnobody:x:65534:\n"),
            ),
            FsOp::create_file(
                "/etc/shadow",
                ascii_bytes("root:!:19000:0:99999:7:::\nnobody:!:19000::::::\n"),
            ),
            FsOp::create_file("/etc/subuid", ascii_bytes("root:100000:65536\n")),
            FsOp::create_file("/etc/subgid", ascii_bytes("root:100000:65536\n")),
            FsOp::create_file(
                "/etc/nsswitch.conf",
                ascii_bytes("passwd: files\ngroup: files\nhosts: files dns\n"),
            ),
            FsOp::create_file("/etc/ld.so.cache", ascii_bytes("\x00\x01\x02\x03")),
            FsOp::create_file("/etc/ld.so.conf", ascii_bytes("/usr/lib\n/lib\n")),
            FsOp::create_file("/.dockerenv", Vec::new()),
        ],
    );
    assert(etc@ =~= spec[2]);
    let bins = FsDelta::new(
        vec![
            FsOp::create_file("/bin/sh", ascii_bytes("\x7fELF\x02\x01\x01\x00")),
            FsOp::create_file("/bin/bash", ascii_bytes("\x7fELF\x02\x01\x01\x00")),
            FsOp::create_file("/bin/ls", ascii_bytes("\x7fELF\x02\x01\x01\x00")),
        ],
    );
    assert(bins@ =~= spec[3]);
    let res = vec![dirs, devs, etc, bins];
    assert(deltas_view(res@) =~= spec);
    res
}

/// A rich rootfs with one broken thing (no `/proc`, a corrupted or missing
/// binary), `/etc` removals, and container-runtime specific files.
pub open spec fn broken_rootfs_seeds_spec() -> Seq<Seq<OpView>> {
    seq![
        seq![
            create_op("/etc/group"@, ascii("root:x:0:\n"@)),
            create_op("/.dockerenv"@, Seq::empty()),
            mkdir_op("/usr"@),
            mkdir_op("/lib"@),
            rmdir_op("/proc"@),
        ],
        seq![
            create_op("/etc/group"@, ascii("root:x:0:\n"@)),
            mkdir_op("/usr"@),
            mkdir_op("/lib"@),
            update_op("/bin/true"@, ascii("\x7fELF\x01\x01\x01"@)),
        ],
        seq![
            create_op("/etc/group"@, ascii("root:x:0:\n"@)),
            mkdir_op("/usr"@),
            mkdir_op("/lib"@),
            delete_op("/bin/true"@),
        ],
        seq![delete_op("/etc/passwd"@)],
        seq![delete_op("/etc/hosts"@)],
        seq![
            delete_op("/etc/passwd"@),
            delete_op("/etc/hosts"@),
            delete_op("/etc/hostname"@),
            delete_op("/etc/resolv.conf"@),
        ],
        seq![create_op("/.dockerenv"@, Seq::empty())],
        seq![create_op("/etc/ld.so.cache"@, ascii("\x00\x01"@))],
        seq![
            create_op("/proc/mounts"@, ascii("proc /proc proc rw 0 0\n"@)),
            create_op("/proc/self"@, Seq::empty()),
        ],
    ]
}

fn broken_rootfs_seeds() -> (res: Vec<FsDelta>)
    ensures
        deltas_view(res@) == broken_rootfs_seeds_spec(),
{
    proof {
        reveal_strlit("root:x:0:\n");
        reveal_strlit("\x7fELF\x01\x01\x01");
        reveal_strlit("\x00\x01");
        reveal_strlit("proc /proc proc rw 0 0\n");
    }
    let ghost spec = broken_rootfs_seeds_spec();
    let d0 = FsDelta::new(
        vec![
            FsOp::create_file("/etc/group", ascii_bytes("root:x:0:\n")),
            FsOp::create_file("/.dockerenv", Vec::new()),
            FsOp::mkdir("/usr"),
            FsOp::mkdir("/lib"),
            FsOp::rmdir("/proc"),
        ],
    );
    assert(d0@ =~= spec[0]);
    let d1 = FsDelta::new(
        vec![
            FsOp::create_file("/etc/group", ascii_bytes("root:x:0:\n")),
            FsOp::mkdir("/usr"),
            FsOp::mkdir("/lib"),
            FsOp::update_file("/bin/true", ascii_bytes("\x7fELF\x01\x01\x01")),
        ],
    );
    assert(d1@ =~= spec[1]);
    let d2 = FsDelta::new(
        vec![
            FsOp::create_file("/etc/group", ascii_bytes("root:x:0:\n")),
            FsOp::mkdir("/usr"),
            FsOp::mkdir("/lib"),
            FsOp::delete_file("/bin/true"),
        ],
    );
    assert(d2@ =~= spec[2]);
    let d5 = FsDelta::new(
        vec![
            FsOp::delete_file("/etc/passwd"),
            FsOp::delete_file("/etc/hosts"),
            FsOp::delete_file("/etc/hostname"),
            FsOp::delete_file("/etc/resolv.conf"),
        ],
    );
    assert(d5@ =~= spec[5]);
    let d8 = FsDelta::new(
        vec![
            FsOp::create_file("/proc/mounts", ascii_bytes("proc /proc proc rw 0 0\n")),
            FsOp::create_file("/proc/self", Vec::new()),
        ],
    );
    assert(d8@ =~= spec[8]);
    let res = vec![
        d0,
        d1,
        d2,
        one(FsOp::delete_file("/etc/passwd")),
        one(FsOp::delete_file("/etc/hosts")),
        d5,
        one(FsOp::create_file("/.dockerenv", Vec::new())),
        one(FsOp::create_file("/etc/ld.so.cache", ascii_bytes("\x00\x01"))),
        d8,
    ];
    assert(deltas_view(res@) =~= spec);
    res
}

/// Seeds derived from the host's `/bin/true`, when it has more than eight
/// bytes: its ELF class byte (4) and data byte (5) inverted, and its first
/// 128 and first 64 bytes alone.
pub open spec fn binary_variant_seeds_spec(bin_true: Seq<u8>) -> Seq<Seq<OpView>> {
    if bin_true.len() > 8 {
        seq![
            seq![update_op("/bin/true"@, flip_byte(bin_true, 4))],
            seq![update_op("/bin/true"@, flip_byte(bin_true, 5))],
            seq![update_op("/bin/true"@, head(bin_true, 128))],
            seq![update_op("/bin/true"@, head(bin_true, 64))],
        ]
    } else {
        Seq::empty()
    }
}

/// The rootfs seeds of the combined campaign and of the rootfs-only campaign.
pub open spec fn rootfs_seeds_spec(bin_true: Seq<u8>) -> Seq<Seq<OpView>> {
    mount_point_seeds_spec() + binary_seeds_spec() + rich_rootfs_seeds_spec()
        + broken_rootfs_seeds_spec() + binary_variant_seeds_spec(bin_true)
}

/// Rootfs seeds: missing mount points, a broken `/bin/true`, a rich valid
/// rootfs, a rich rootfs with one broken thing, `/etc` removals, runtime
/// specific files, and variants of the host's `bin_true`.
pub fn rootfs_seeds(bin_true: &[u8]) -> (res: Vec<FsDelta>)
    ensures
        deltas_view(res@) == rootfs_seeds_spec(bin_true@),
{
    let mut seeds = mount_point_seeds();
    let ghost a = deltas_view(seeds@);
    let mut more = binary_seeds();
    seeds.append(&mut more);
    assert(deltas_view(seeds@) =~= a + binary_seeds_spec());
    let ghost b = deltas_view(seeds@);
    let mut more = rich_rootfs_seeds();
    seeds.append(&mut more);
    assert(deltas_view(seeds@) =~= b + rich_rootfs_seeds_spec());
    let ghost c = deltas_view(seeds@);
    let mut more = broken_rootfs_seeds();
    seeds.append(&mut more);
    assert(deltas_view(seeds@) =~= c + broken_rootfs_seeds_spec());
    let ghost d = deltas_view(seeds@);
    if bin_true.len() > 8 {
        seeds.push(one(FsOp::update_file("/bin/true", flipped(bin_true, 4))));
        seeds.push(one(FsOp::update_file("/bin/true", flipped(bin_true, 5))));
        seeds.push(one(FsOp::update_file("/bin/true", head_bytes(bin_true, 128))));
        seeds.push(one(FsOp::update_file("/bin/true", head_bytes(bin_true, 64))));
    }
    assert(deltas_view(seeds@) =~= d + binary_variant_seeds_spec(bin_true@));
    seeds
}

// ── Symlink seeds ───────────────────────────────────────────────────────────

/// The symlink seeds over baseline `e`: mount points, binaries and `/etc`
/// files replaced by symlinks that escape the rootfs, point into `/proc`,
/// at a file where a directory is expected, or nowhere; plus symlink loops,
/// a chain, and targets with redundant separators.
pub open spec fn symlink_seeds_spec(e: Seq<PathInfoView>) -> Seq<Seq<OpView>> {
    seq![
        replace_spec(e, "/proc"@, "../../proc"@),
        replace_spec(e, "/dev"@, "../../dev"@),
        replace_spec(e, "/sys"@, "../../sys"@),
        replace_spec(e, "/tmp"@, "../../tmp"@),
        replace_spec(e, "/proc"@, "../../proc"@) + replace_spec(e, "/dev"@, "../../dev"@)
            + replace_spec(e, "/sys"@, "../../sys"@),
        replace_spec(e, "/proc"@, "/proc"@),
        replace_spec(e, "/dev"@, "/proc/self/fd"@),
        replace_spec(e, "/sys"@, "/sys"@),
        replace_spec(e, "/proc"@, "/proc/self/exe"@),
        replace_spec(e, "/proc"@, "/etc/passwd"@),
        replace_spec(e, "/dev"@, "/bin/true"@),
        replace_spec(e, "/proc"@, "/nonexistent"@),
        replace_spec(e, "/dev"@, "/missing"@),
        replace_spec(e, "/etc"@, "../../etc"@),
        replace_spec(e, "/bin"@, "../../bin"@),
        replace_spec(e, "/lib"@, "../../lib"@),
        replace_spec(e, "/usr"@, "../../usr"@),
        replace_spec(e, "/dev"@, "/proc/self/fd"@),
        replace_spec(e, "/bin/true"@, "/proc/self/exe"@),
        replace_spec(e, "/bin/true"@, "/proc/self/mem"@),
        replace_spec(e, "/bin/true"@, "/proc/self/fd/0"@),
        replace_spec(e, "/bin/true"@, "/dev/zero"@),
        replace_spec(e, "/bin/true"@, "/dev/null"@),
        replace_spec(e, "/bin/true"@, "../../usr/bin/python3"@),
        replace_spec(e, "/etc/passwd"@, "../../etc/passwd"@),
        replace_spec(e, "/etc/passwd"@, "/etc/passwd"@),
        replace_spec(e, "/etc/passwd"@, "../../../etc/shadow"@),
        replace_spec(e, "/etc/group"@, "../../etc/group"@),
        seq![symlink_op("/loop"@, "/loop"@)],
        seq![symlink_op("/a"@, "/b"@), symlink_op("/b"@, "/c"@), symlink_op("/c"@, "/a"@)],
        replace_spec(e, "/etc/passwd"@, "../../../etc/shadow"@),
        seq![symlink_op("/bin/sh"@, "../../../proc/sysrq-trigger"@)],
        seq![symlink_op("/bin/sh"@, "/nonexistent"@)],
        replace_spec(e, "/proc"@, "/nonexistent"@),
        seq![symlink_op("/bin/x"@, "////proc//self//exe"@)],
        seq![symlink_op("/bin/x"@, "../../../proc/./self/./exe"@)],
    ]
}

fn replaced(path: &str, target: &str, index: &BaselineIndex) -> (d: FsDelta)
    requires
        index.wf(),
    ensures
        d@ == replace_spec(index@, path@, target@),
{
    FsDelta::new(replace_with_symlink(path, target, index))
}

/// Symlink seeds of the rootfs-only campaign; none of them is empty.
pub fn rootfs_symlink_seeds(index: &BaselineIndex) -> (res: Vec<FsDelta>)
    requires
        index.wf(),
    ensures
        deltas_view(res@) == symlink_seeds_spec(index@),
        forall|i: int| 0 <= i < res@.len() ==> #[trigger] res@[i]@.len() > 0,
{
    let ghost e = index@;
    let mut combined = replace_with_symlink("/proc", "../../proc", index);
    let mut dev = replace_with_symlink("/dev", "../../dev", index);
    let mut sys = replace_with_symlink("/sys", "../../sys", index);
    combined.append(&mut dev);
    combined.append(&mut sys);
    let combined = FsDelta::new(combined);
    assert(combined@ =~= replace_spec(e, "/proc"@, "../../proc"@) + replace_spec(
        e,
        "/dev"@,
        "../../dev"@,
    ) + replace_spec(e, "/sys"@, "../../sys"@));
    let lp = one(FsOp::create_symlink("/loop", "/loop"));
    let chain = FsDelta::new(
        vec![
            FsOp::create_symlink("/a", "/b"),
            FsOp::create_symlink("/b", "/c"),
            FsOp::create_symlink("/c", "/a"),
        ],
    );
    assert(chain@ =~= seq![symlink_op("/a"@, "/b"@), symlink_op("/b"@, "/c"@), symlink_op("/c"@, "/a"@)]);
    let seeds = vec![
        replaced("/proc", "../../proc", index),
        replaced("/dev", "../../dev", index),
        replaced("/sys", "../../sys", index),
        replaced("/tmp", "../../tmp", index),
        combined,
        replaced("/proc", "/proc", index),
        replaced("/dev", "/proc/self/fd", index),
        replaced("/sys", "/sys", index),
        replaced("/proc", "/proc/self/exe", index),
        replaced("/proc", "/etc/passwd", index),
        replaced("/dev", "/bin/true", index),
        replaced("/proc", "/nonexistent", index),
        replaced("/dev", "/missing", index),
        replaced("/etc", "../../etc", index),
        replaced("/bin", "../../bin", index),
        replaced("/lib", "../../lib", index),
        replaced("/usr", "../../usr", index),
        replaced("/dev", "/proc/self/fd", index),
        replaced("/bin/true", "/proc/self/exe", index),
        replaced("/bin/true", "/proc/self/mem", index),
        replaced("/bin/true", "/proc/self/fd/0", index),
        replaced("/bin/true", "/dev/zero", index),
        replaced("/bin/true", "/dev/null", index),
        replaced("/bin/true", "../../usr/bin/python3", index),
        replaced("/etc/passwd", "../../etc/passwd", index),
        replaced("/etc/passwd", "/etc/passwd", index),
        replaced("/etc/passwd", "../../../etc/shadow", index),
        replaced("/etc/group", "../../etc/group", index),
        lp,
        chain,
        replaced("/etc/passwd", "../../../etc/shadow", index),
        one(FsOp::create_symlink("/bin/sh", "../../../proc/sysrq-trigger")),
        one(FsOp::create_symlink("/bin/sh", "/nonexistent")),
        replaced("/proc", "/nonexistent", index),
        one(FsOp::create_symlink("/bin/x", "////proc//self//exe")),
        one(FsOp::create_symlink("/bin/x", "../../../proc/./self/./exe")),
    ];
    assert(deltas_view(seeds@) =~= symlink_seeds_spec(e));
    assert forall|i: int| 0 <= i < seeds@.len() implies #[trigger] seeds@[i]@.len() > 0 by {
        assert(seeds@[i]@ == symlink_seeds_spec(e)[i]);
        assert forall|p: Seq<char>, t: Seq<char>| #[trigger] replace_spec(e, p, t).len() >= 1 by {
            lemma_replace_ends_with_symlink(e, p, t);
        }
    }
    seeds
}

/// Symlink seeds of the combined campaign: the same set as the rootfs-only
/// campaign's.
pub fn crun_symlink_seeds(index: &BaselineIndex) -> (res: Vec<FsDelta>)
    requires
        index.wf(),
    ensures
        deltas_view(res@) == symlink_seeds_spec(index@),
        forall|i: int| 0 <= i < res@.len() ==> #[trigger] res@[i]@.len() > 0,
{
    rootfs_symlink_seeds(index)
}

// ── VFS benchmark deltas ────────────────────────────────────────────────────

/// One content update of `/input`.
pub open spec fn delta_small_spec() -> Seq<OpView> {
    seq![update_op("/input"@, ascii("mutated_content_12345"@))]
}

/// A content update, a new 64-byte file and a new directory.
pub open spec fn delta_medium_spec() -> Seq<OpView> {
    seq![
        update_op("/input"@, ascii("mutated_content_12345"@)),
        create_op("/tmp/new.txt"@, Seq::new(64, |_j: int| 0u8)),
        mkdir_op("/tmp/subdir"@),
    ]
}

/// The new file `/data/file_<i>.bin` of 256 bytes of value `i`.
pub open spec fn bench_file_op(i: nat) -> OpView {
    create_op("/data/file_"@ + decimal(i) + ".bin"@, Seq::new(256, |_j: int| i as u8))
}

/// Eight new 256-byte files, a content update and a nested directory.
pub open spec fn delta_large_spec() -> Seq<OpView> {
    Seq::new(8, |i: int| bench_file_op(i as nat)) + seq![
        update_op("/input"@, ascii("overwritten"@)),
        mkdir_op("/tmp/deep/nested"@),
    ]
}

pub fn delta_small() -> (d: FsDelta)
    ensures
        d@ == delta_small_spec(),
{
    proof {
        reveal_strlit("mutated_content_12345");
    }
    one(FsOp::update_file("/input", ascii_bytes("mutated_content_12345")))
}

pub fn delta_medium() -> (d: FsDelta)
    ensures
        d@ == delta_medium_spec(),
{
    proof {
        reveal_strlit("mutated_content_12345");
    }
    let zeros = vec![0u8; 64];
    assert(zeros@ =~= Seq::new(64, |_j: int| 0u8));
    let d = FsDelta::new(
        vec![
            FsOp::update_file("/input", ascii_bytes("mutated_content_12345")),
            FsOp::create_file("/tmp/new.txt", zeros),
            FsOp::mkdir("/tmp/subdir"),
        ],
    );
    assert(d@ =~= delta_medium_spec());
    d
}

pub fn delta_large() -> (d: FsDelta)
    ensures
        d@ == delta_large_spec(),
{
    proof {
        reveal_strlit("overwritten");
    }
    let mut ops: Vec<FsOp> = Vec::new();
    for i in 0..8u8
        invariant
            crate::delta::ops_view(ops@) == Seq::new(i as nat, |k: int| bench_file_op(k as nat)),
    {
        let mut path = owned("/data/file_");
        path.append(decimal_string(i as usize).as_str());
        path.append(".bin");
        let content = vec![i; 256];
        assert(content@ =~= Seq::new(256, |_j: int| i));
        let ghost before = crate::delta::ops_view(ops@);
        ops.push(FsOp::create_file(path.as_str(), content));
        assert(crate::delta::ops_view(ops@) =~= before.push(bench_file_op(i as nat)));
        assert(crate::delta::ops_view(ops@) =~= Seq::new((i + 1) as nat, |k: int| bench_file_op(k as nat)));
    }
    ops.push(FsOp::update_file("/input", ascii_bytes("overwritten")));
    ops.push(FsOp::mkdir("/tmp/deep/nested"));
    let d = FsDelta::new(ops);
    assert(d@ =~= delta_large_spec());
    d
}

// ── Config seeds ────────────────────────────────────────────────────────────

/// `head`, the group id, `mid`, the user id, then `tail`: the shape of a
/// config seed whose id mappings name the fuzzing user's ids (the keys of a
/// compact JSON object come sorted, so `gidMappings` comes first).
pub open spec fn with_ids(
    head: Seq<char>,
    mid: Seq<char>,
    tail: Seq<char>,
    uid: u32,
    gid: u32,
) -> Seq<char> {
    head + decimal(gid as nat) + mid + decimal(uid as nat) + tail
}

/// A seed that replaces `/config.json` by the UTF-8 bytes of `text`.
pub open spec fn config_delta(text: Seq<char>) -> Seq<OpView> {
    seq![update_op("/config.json"@, encode_utf8(text))]
}

/// One seed per text of `texts`, in order.
pub open spec fn config_deltas(texts: Seq<Seq<char>>) -> Seq<Seq<OpView>> {
    texts.map_values(|t: Seq<char>| config_delta(t))
}

/// The runc campaign's config seeds, as compact JSON: a minimal spec, a
/// read-only root, the full mount set, a large and an empty capability set,
/// extra rlimits, `noNewPrivileges` off, annotations, no args, and a binary
/// that does not exist.
pub open spec fn runc_config_texts(uid: u32, gid: u32) -> Seq<Seq<char>> {
    seq![
        with_ids(
            "{\"hostname\":\"fuzz\",\"linux\":{\"gidMappings\":[{\"containerID\":0,\"hostID\":"@,
            ",\"size\":1}],\"namespaces\":[{\"type\":\"pid\"},{\"type\":\"mount\"},{\"type\":\"user\"}],\"uidMappings\":[{\"containerID\":0,\"hostID\":"@,
            ",\"size\":1}]},\"ociVersion\":\"1.0.0\",\"process\":{\"args\":[\"/bin/true\"],\"cwd\":\"/\",\"env\":[\"PATH=/bin\"],\"noNewPrivileges\":true,\"terminal\":false,\"user\":{\"gid\":0,\"uid\":0}},\"root\":{\"path\":\"PLACEHOLDER\",\"readonly\":false}}"@,
            uid,
            gid,
        ),
        with_ids(
            "{\"hostname\":\"fuzz\",\"linux\":{\"gidMappings\":[{\"containerID\":0,\"hostID\":"@,
            ",\"size\":1}],\"namespaces\":[{\"type\":\"pid\"},{\"type\":\"mount\"},{\"type\":\"user\"}],\"uidMappings\":[{\"containerID\":0,\"hostID\":"@,
            ",\"size\":1}]},\"ociVersion\":\"1.0.0\",\"process\":{\"args\":[\"/bin/true\"],\"cwd\":\"/\",\"env\":[\"PATH=/bin\"],\"noNewPrivileges\":true,\"terminal\":false,\"user\":{\"gid\":0,\"uid\":0}},\"root\":{\"path\":\"PLACEHOLDER\",\"readonly\":true}}"@,
            uid,
            gid,
        ),
        with_ids(
            "{\"hostname\":\"fuzz\",\"linux\":{\"gidMappings\":[{\"containerID\":0,\"hostID\":"@,
            ",\"size\":1}],\"namespaces\":[{\"type\":\"pid\"},{\"type\":\"mount\"},{\"type\":\"user\"}],\"uidMappings\":[{\"containerID\":0,\"hostID\":"@,
            ",\"size\":1}]},\"mounts\":[{\"destination\":\"/proc\",\"options\":[\"nosuid\",\"noexec\",\"nodev\"],\"source\":\"proc\",\"type\":\"proc\"},{\"destination\":\"/dev\",\"options\":[\"nosuid\",\"strictatime\",\"mode=755\",\"size=65536k\"],\"source\":\"tmpfs\",\"type\":\"tmpfs\"},{\"destination\":\"/sys\",\"options\":[\"nosuid\",\"noexec\",\"nodev\",\"ro\"],\"source\":\"sysfs\",\"type\":\"sysfs\"},{\"destination\":\"/dev/shm\",\"options\":[\"nosuid\",\"noexec\",\"nodev\",\"mode=1777\",\"size=67108864\"],\"source\":\"shm\",\"type\":\"tmpfs\"},{\"destination\":\"/dev/mqueue\",\"options\":[\"nosuid\",\"noexec\",\"nodev\"],\"source\":\"mqueue\",\"type\":\"mqueue\"}],\"ociVersion\":\"1.0.0\",\"process\":{\"args\":[\"/bin/true\"],\"cwd\":\"/\",\"env\":[\"PATH=/bin\"],\"noNewPrivileges\":true,\"terminal\":false,\"user\":{\"gid\":0,\"uid\":0}},\"root\":{\"path\":\"PLACEHOLDER\",\"readonly\":false}}"@,
            uid,
            gid,
        ),
        with_ids(
            "{\"hostname\":\"fuzz\",\"linux\":{\"gidMappings\":[{\"containerID\":0,\"hostID\":"@,
            ",\"size\":1}],\"namespaces\":[{\"type\":\"pid\"},{\"type\":\"mount\"},{\"type\":\"user\"}],\"uidMappings\":[{\"containerID\":0,\"hostID\":"@,
            ",\"size\":1}]},\"ociVersion\":\"1.0.0\",\"process\":{\"args\":[\"/bin/true\"],\"capabilities\":{\"bounding\":[\"CAP_CHOWN\",\"CAP_DAC_OVERRIDE\",\"CAP_FSETID\",\"CAP_FOWNER\",\"CAP_MKNOD\",\"CAP_NET_RAW\",\"CAP_SETGID\",\"CAP_SETUID\",\"CAP_SETFCAP\",\"CAP_SETPCAP\",\"CAP_NET_BIND_SERVICE\",\"CAP_SYS_CHROOT\",\"CAP_KILL\",\"CAP_AUDIT_WRITE\"],\"effective\":[\"CAP_KILL\",\"CAP_NET_BIND_SERVICE\",\"CAP_AUDIT_WRITE\"],\"permitted\":[\"CAP_KILL\",\"CAP_NET_BIND_SERVICE\",\"CAP_AUDIT_WRITE\"]},\"cwd\":\"/\",\"env\":[\"PATH=/bin\"],\"terminal\":false,\"user\":{\"gid\":0,\"uid\":0}},\"root\":{\"path\":\"PLACEHOLDER\",\"readonly\":false}}"@,
            uid,
            gid,
        ),
        with_ids(
            "{\"hostname\":\"fuzz\",\"linux\":{\"gidMappings\":[{\"containerID\":0,\"hostID\":"@,
            ",\"size\":1}],\"namespaces\":[{\"type\":\"pid\"},{\"type\":\"mount\"},{\"type\":\"user\"}],\"uidMappings\":[{\"containerID\":0,\"hostID\":"@,
            ",\"size\":1}]},\"ociVersion\":\"1.0.0\",\"process\":{\"args\":[\"/bin/true\"],\"capabilities\":{\"bounding\":[],\"effective\":[],\"permitted\":[]},\"cwd\":\"/\",\"env\":[\"PATH=/bin\"],\"terminal\":false,\"user\":{\"gid\":0,\"uid\":0}},\"root\":{\"path\":\"PLACEHOLDER\",\"readonly\":false}}"@,
            uid,
            gid,
        ),
        with_ids(
            "{\"hostname\":\"fuzz\",\"linux\":{\"gidMappings\":[{\"containerID\":0,\"hostID\":"@,
            ",\"size\":1}],\"namespaces\":[{\"type\":\"pid\"},{\"type\":\"mount\"},{\"type\":\"user\"}],\"uidMappings\":[{\"containerID\":0,\"hostID\":"@,
            ",\"size\":1}]},\"ociVersion\":\"1.0.0\",\"process\":{\"args\":[\"/bin/true\"],\"cwd\":\"/\",\"env\":[\"PATH=/bin\"],\"noNewPrivileges\":true,\"rlimits\":[{\"hard\":4096,\"soft\":1024,\"type\":\"RLIMIT_NOFILE\"},{\"hard\":64,\"soft\":32,\"type\":\"RLIMIT_NPROC\"},{\"hard\":536870912,\"soft\":536870912,\"type\":\"RLIMIT_AS\"}],\"terminal\":false,\"user\":{\"gid\":0,\"uid\":0}},\"root\":{\"path\":\"PLACEHOLDER\",\"readonly\":false}}"@,
            uid,
            gid,
        ),
        with_ids(
            "{\"hostname\":\"fuzz\",\"linux\":{\"gidMappings\":[{\"containerID\":0,\"hostID\":"@,
            ",\"size\":1}],\"namespaces\":[{\"type\":\"pid\"},{\"type\":\"mount\"},{\"type\":\"user\"}],\"uidMappings\":[{\"containerID\":0,\"hostID\":"@,
            ",\"size\":1}]},\"ociVersion\":\"1.0.0\",\"process\":{\"args\":[\"/bin/true\"],\"cwd\":\"/\",\"env\":[\"PATH=/bin\"],\"noNewPrivileges\":false,\"terminal\":false,\"user\":{\"gid\":0,\"uid\":0}},\"root\":{\"path\":\"PLACEHOLDER\",\"readonly\":false}}"@,
            uid,
            gid,
        ),
        with_ids(
            "{\"annotations\":{\"com.example.key\":\"value\",\"io.kubernetes.cri.sandbox-id\":\"abc123\"},\"hostname\":\"fuzz\",\"linux\":{\"gidMappings\":[{\"containerID\":0,\"hostID\":"@,
            ",\"size\":1}],\"namespaces\":[{\"type\":\"pid\"},{\"type\":\"mount\"},{\"type\":\"user\"}],\"uidMappings\":[{\"containerID\":0,\"hostID\":"@,
            ",\"size\":1}]},\"ociVersion\":\"1.0.0\",\"process\":{\"args\":[\"/bin/true\"],\"cwd\":\"/\",\"env\":[\"PATH=/bin\"],\"noNewPrivileges\":true,\"terminal\":false,\"user\":{\"gid\":0,\"uid\":0}},\"root\":{\"path\":\"PLACEHOLDER\",\"readonly\":false}}"@,
            uid,
            gid,
        ),
        with_ids(
            "{\"hostname\":\"fuzz\",\"linux\":{\"gidMappings\":[{\"containerID\":0,\"hostID\":"@,
            ",\"size\":1}],\"namespaces\":[{\"type\":\"pid\"},{\"type\":\"mount\"},{\"type\":\"user\"}],\"uidMappings\":[{\"containerID\":0,\"hostID\":"@,
            ",\"size\":1}]},\"ociVersion\":\"1.0.0\",\"process\":{\"args\":[],\"cwd\":\"/\",\"env\":[\"PATH=/bin\"],\"terminal\":false,\"user\":{\"gid\":0,\"uid\":0}},\"root\":{\"path\":\"PLACEHOLDER\",\"readonly\":false}}"@,
            uid,
            gid,
        ),
        with_ids(
            "{\"hostname\":\"fuzz\",\"linux\":{\"gidMappings\":[{\"containerID\":0,\"hostID\":"@,
            ",\"size\":1}],\"namespaces\":[{\"type\":\"pid\"},{\"type\":\"mount\"},{\"type\":\"user\"}],\"uidMappings\":[{\"containerID\":0,\"hostID\":"@,
            ",\"size\":1}]},\"ociVersion\":\"1.0.0\",\"process\":{\"args\":[\"/bin/nonexistent\",\"--flag\"],\"cwd\":\"/\",\"env\":[\"PATH=/bin\"],\"terminal\":false,\"user\":{\"gid\":0,\"uid\":0}},\"root\":{\"path\":\"PLACEHOLDER\",\"readonly\":false}}"@,
            uid,
            gid,
        ),
    ]
}

/// The crun campaign's config seeds, as compact JSON: a minimal spec, a
/// read-only root, a large and an empty capability set, extra rlimits,
/// `noNewPrivileges` off, annotations, no args, a binary that does not exist,
/// and a spec that holds nothing but its version.
pub open spec fn crun_config_texts(uid: u32, gid: u32) -> Seq<Seq<char>> {
    seq![
        with_ids(
            "{\"hostname\":\"fuzz\",\"linux\":{\"gidMappings\":[{\"containerID\":0,\"hostID\":"@,
            ",\"size\":1}],\"namespaces\":[{\"type\":\"pid\"},{\"type\":\"mount\"},{\"type\":\"user\"}],\"uidMappings\":[{\"containerID\":0,\"hostID\":"@,
            ",\"size\":1}]},\"ociVersion\":\"1.0.0\",\"process\":{\"args\":[\"/bin/true\"],\"cwd\":\"/\",\"env\":[\"PATH=/bin\"],\"noNewPrivileges\":true,\"terminal\":false,\"user\":{\"gid\":0,\"uid\":0}},\"root\":{\"path\":\"PLACEHOLDER\",\"readonly\":false}}"@,
            uid,
            gid,
        ),
        with_ids(
            "{\"hostname\":\"fuzz\",\"linux\":{\"gidMappings\":[{\"containerID\":0,\"hostID\":"@,
            ",\"size\":1}],\"namespaces\":[{\"type\":\"pid\"},{\"type\":\"mount\"},{\"type\":\"user\"}],\"uidMappings\":[{\"containerID\":0,\"hostID\":"@,
            ",\"size\":1}]},\"ociVersion\":\"1.0.0\",\"process\":{\"args\":[\"/bin/true\"],\"cwd\":\"/\",\"env\":[\"PATH=/bin\"],\"noNewPrivileges\":true,\"terminal\":false,\"user\":{\"gid\":0,\"uid\":0}},\"root\":{\"path\":\"PLACEHOLDER\",\"readonly\":true}}"@,
            uid,
            gid,
        ),
        with_ids(
            "{\"hostname\":\"fuzz\",\"linux\":{\"gidMappings\":[{\"containerID\":0,\"hostID\":"@,
            ",\"size\":1}],\"namespaces\":[{\"type\":\"pid\"},{\"type\":\"mount\"},{\"type\":\"user\"}],\"uidMappings\":[{\"containerID\":0,\"hostID\":"@,
            ",\"size\":1}]},\"ociVersion\":\"1.0.0\",\"process\":{\"args\":[\"/bin/true\"],\"capabilities\":{\"ambient\":[],\"bounding\":[\"CAP_CHOWN\",\"CAP_DAC_OVERRIDE\",\"CAP_DAC_READ_SEARCH\",\"CAP_FOWNER\",\"CAP_FSETID\",\"CAP_KILL\",\"CAP_NET_BIND_SERVICE\",\"CAP_NET_RAW\",\"CAP_SETGID\",\"CAP_SETUID\",\"CAP_SETPCAP\",\"CAP_SYS_CHROOT\",\"CAP_SYS_PTRACE\"],\"effective\":[\"CAP_KILL\",\"CAP_NET_BIND_SERVICE\"],\"inheritable\":[],\"permitted\":[\"CAP_KILL\",\"CAP_NET_BIND_SERVICE\"]},\"cwd\":\"/\",\"env\":[\"PATH=/bin\"],\"terminal\":false,\"user\":{\"gid\":0,\"uid\":0}},\"root\":{\"path\":\"PLACEHOLDER\",\"readonly\":false}}"@,
            uid,
            gid,
        ),
        with_ids(
            "{\"hostname\":\"fuzz\",\"linux\":{\"gidMappings\":[{\"containerID\":0,\"hostID\":"@,
            ",\"size\":1}],\"namespaces\":[{\"type\":\"pid\"},{\"type\":\"mount\"},{\"type\":\"user\"}],\"uidMappings\":[{\"containerID\":0,\"hostID\":"@,
            ",\"size\":1}]},\"ociVersion\":\"1.0.0\",\"process\":{\"args\":[\"/bin/true\"],\"capabilities\":{\"ambient\":[],\"bounding\":[],\"effective\":[],\"inheritable\":[],\"permitted\":[]},\"cwd\":\"/\",\"env\":[\"PATH=/bin\"],\"terminal\":false,\"user\":{\"gid\":0,\"uid\":0}},\"root\":{\"path\":\"PLACEHOLDER\",\"readonly\":false}}"@,
            uid,
            gid,
        ),
        with_ids(
            "{\"hostname\":\"fuzz\",\"linux\":{\"gidMappings\":[{\"containerID\":0,\"hostID\":"@,
            ",\"size\":1}],\"namespaces\":[{\"type\":\"pid\"},{\"type\":\"mount\"},{\"type\":\"user\"}],\"uidMappings\":[{\"containerID\":0,\"hostID\":"@,
            ",\"size\":1}]},\"ociVersion\":\"1.0.0\",\"process\":{\"args\":[\"/bin/true\"],\"cwd\":\"/\",\"env\":[\"PATH=/bin\"],\"rlimits\":[{\"hard\":1024,\"soft\":1024,\"type\":\"RLIMIT_NOFILE\"},{\"hard\":512,\"soft\":512,\"type\":\"RLIMIT_NPROC\"},{\"hard\":536870912,\"soft\":536870912,\"type\":\"RLIMIT_AS\"}],\"terminal\":false,\"user\":{\"gid\":0,\"uid\":0}},\"root\":{\"path\":\"PLACEHOLDER\",\"readonly\":false}}"@,
            uid,
            gid,
        ),
        with_ids(
            "{\"hostname\":\"fuzz\",\"linux\":{\"gidMappings\":[{\"containerID\":0,\"hostID\":"@,
            ",\"size\":1}],\"namespaces\":[{\"type\":\"pid\"},{\"type\":\"mount\"},{\"type\":\"user\"}],\"uidMappings\":[{\"containerID\":0,\"hostID\":"@,
            ",\"size\":1}]},\"ociVersion\":\"1.0.0\",\"process\":{\"args\":[\"/bin/true\"],\"cwd\":\"/\",\"env\":[\"PATH=/bin\"],\"noNewPrivileges\":false,\"terminal\":false,\"user\":{\"gid\":0,\"uid\":0}},\"root\":{\"path\":\"PLACEHOLDER\",\"readonly\":false}}"@,
            uid,
            gid,
        ),
        with_ids(
            "{\"annotations\":{\"com.example.key\":\"value\"},\"hostname\":\"fuzz\",\"linux\":{\"gidMappings\":[{\"containerID\":0,\"hostID\":"@,
            ",\"size\":1}],\"namespaces\":[{\"type\":\"pid\"},{\"type\":\"mount\"},{\"type\":\"user\"}],\"uidMappings\":[{\"containerID\":0,\"hostID\":"@,
            ",\"size\":1}]},\"ociVersion\":\"1.0.0\",\"process\":{\"args\":[\"/bin/true\"],\"cwd\":\"/\",\"env\":[\"PATH=/bin\"],\"noNewPrivileges\":true,\"terminal\":false,\"user\":{\"gid\":0,\"uid\":0}},\"root\":{\"path\":\"PLACEHOLDER\",\"readonly\":false}}"@,
            uid,
            gid,
        ),
        with_ids(
            "{\"hostname\":\"fuzz\",\"linux\":{\"gidMappings\":[{\"containerID\":0,\"hostID\":"@,
            ",\"size\":1}],\"namespaces\":[{\"type\":\"pid\"},{\"type\":\"mount\"},{\"type\":\"user\"}],\"uidMappings\":[{\"containerID\":0,\"hostID\":"@,
            ",\"size\":1}]},\"ociVersion\":\"1.0.0\",\"process\":{\"args\":[],\"cwd\":\"/\",\"env\":[\"PATH=/bin\"],\"terminal\":false,\"user\":{\"gid\":0,\"uid\":0}},\"root\":{\"path\":\"PLACEHOLDER\",\"readonly\":false}}"@,
            uid,
            gid,
        ),
        with_ids(
            "{\"hostname\":\"fuzz\",\"linux\":{\"gidMappings\":[{\"containerID\":0,\"hostID\":"@,
            ",\"size\":1}],\"namespaces\":[{\"type\":\"pid\"},{\"type\":\"mount\"},{\"type\":\"user\"}],\"uidMappings\":[{\"containerID\":0,\"hostID\":"@,
            ",\"size\":1}]},\"ociVersion\":\"1.0.0\",\"process\":{\"args\":[\"/bin/nonexistent\"],\"cwd\":\"/\",\"env\":[\"PATH=/bin\"],\"terminal\":false,\"user\":{\"gid\":0,\"uid\":0}},\"root\":{\"path\":\"PLACEHOLDER\",\"readonly\":false}}"@,
            uid,
            gid,
        ),
        "{\"ociVersion\":\"1.0.0\"}"@,
    ]
}

fn id_text(head: &str, mid: &str, tail: &str, uid: u32, gid: u32) -> (s: String)
    ensures
        s@ == with_ids(head@, mid@, tail@, uid, gid),
{
    let mut s = owned(head);
    let g = decimal_string(gid as usize);
    s.append(g.as_str());
    s.append(mid);
    let u = decimal_string(uid as usize);
    s.append(u.as_str());
    s.append(tail);
    s
}

fn id_config(head: &str, mid: &str, tail: &str, uid: u32, gid: u32) -> (d: FsDelta)
    ensures
        d@ == config_delta(with_ids(head@, mid@, tail@, uid, gid)),
{
    let s = id_text(head, mid, tail, uid, gid);
    text_config(s.as_str())
}

/// The runc campaign's baseline config, as compact JSON: `/bin/true` with a
/// small capability set and one rlimit, proc/dev/sys mounts, and the user's
/// ids mapped to root; the root path is a placeholder patched every run.
pub open spec fn baseline_config_text(uid: u32, gid: u32) -> Seq<char> {
    with_ids(
        "{\"hostname\":\"fuzz\",\"linux\":{\"gidMappings\":[{\"containerID\":0,\"hostID\":"@,
        ",\"size\":1}],\"namespaces\":[{\"type\":\"pid\"},{\"type\":\"mount\"},{\"type\":\"user\"}],\"uidMappings\":[{\"containerID\":0,\"hostID\":"@,
        ",\"size\":1}]},\"mounts\":[{\"destination\":\"/proc\",\"options\":[\"nosuid\",\"noexec\",\"nodev\"],\"source\":\"proc\",\"type\":\"proc\"},{\"destination\":\"/dev\",\"options\":[\"nosuid\",\"strictatime\",\"mode=755\",\"size=65536k\"],\"source\":\"tmpfs\",\"type\":\"tmpfs\"},{\"destination\":\"/sys\",\"options\":[\"nosuid\",\"noexec\",\"nodev\",\"ro\"],\"source\":\"sysfs\",\"type\":\"sysfs\"}],\"ociVersion\":\"1.0.0\",\"process\":{\"args\":[\"/bin/true\"],\"capabilities\":{\"bounding\":[\"CAP_AUDIT_WRITE\",\"CAP_KILL\",\"CAP_NET_BIND_SERVICE\"],\"effective\":[\"CAP_AUDIT_WRITE\",\"CAP_KILL\",\"CAP_NET_BIND_SERVICE\"],\"permitted\":[\"CAP_AUDIT_WRITE\",\"CAP_KILL\",\"CAP_NET_BIND_SERVICE\"]},\"cwd\":\"/\",\"env\":[\"PATH=/usr/local/sbin:/usr/local/bin:/usr/sbin:/usr/bin:/sbin:/bin\",\"TERM=xterm\"],\"noNewPrivileges\":true,\"rlimits\":[{\"hard\":1024,\"soft\":1024,\"type\":\"RLIMIT_NOFILE\"}],\"terminal\":false,\"user\":{\"gid\":0,\"uid\":0}},\"root\":{\"path\":\"PLACEHOLDER\",\"readonly\":false}}"@,
        uid,
        gid,
    )
}

/// The UTF-8 bytes of [`baseline_config_text`].
pub fn make_baseline_config(uid: u32, gid: u32) -> (v: Vec<u8>)
    ensures
        v@ == encode_utf8(baseline_config_text(uid, gid)),
{
    let s = id_text(
        "{\"hostname\":\"fuzz\",\"linux\":{\"gidMappings\":[{\"containerID\":0,\"hostID\":",
        ",\"size\":1}],\"namespaces\":[{\"type\":\"pid\"},{\"type\":\"mount\"},{\"type\":\"user\"}],\"uidMappings\":[{\"containerID\":0,\"hostID\":",
        ",\"size\":1}]},\"mounts\":[{\"destination\":\"/proc\",\"options\":[\"nosuid\",\"noexec\",\"nodev\"],\"source\":\"proc\",\"type\":\"proc\"},{\"destination\":\"/dev\",\"options\":[\"nosuid\",\"strictatime\",\"mode=755\",\"size=65536k\"],\"source\":\"tmpfs\",\"type\":\"tmpfs\"},{\"destination\":\"/sys\",\"options\":[\"nosuid\",\"noexec\",\"nodev\",\"ro\"],\"source\":\"sysfs\",\"type\":\"sysfs\"}],\"ociVersion\":\"1.0.0\",\"process\":{\"args\":[\"/bin/true\"],\"capabilities\":{\"bounding\":[\"CAP_AUDIT_WRITE\",\"CAP_KILL\",\"CAP_NET_BIND_SERVICE\"],\"effective\":[\"CAP_AUDIT_WRITE\",\"CAP_KILL\",\"CAP_NET_BIND_SERVICE\"],\"permitted\":[\"CAP_AUDIT_WRITE\",\"CAP_KILL\",\"CAP_NET_BIND_SERVICE\"]},\"cwd\":\"/\",\"env\":[\"PATH=/usr/local/sbin:/usr/local/bin:/usr/sbin:/usr/bin:/sbin:/bin\",\"TERM=xterm\"],\"noNewPrivileges\":true,\"rlimits\":[{\"hard\":1024,\"soft\":1024,\"type\":\"RLIMIT_NOFILE\"}],\"terminal\":false,\"user\":{\"gid\":0,\"uid\":0}},\"root\":{\"path\":\"PLACEHOLDER\",\"readonly\":false}}",
        uid,
        gid,
    );
    s.as_str().as_bytes_vec()
}

fn text_config(text: &str) -> (d: FsDelta)
    ensures
        d@ == config_delta(text@),
{
    let bytes = text.as_bytes_vec();
    one(FsOp::update_file("/config.json", bytes))
}

/// Structurally diverse config seeds of the runc campaign, each replacing
/// `/config.json` (see [`runc_config_texts`]).
pub fn config_seeds(uid: u32, gid: u32) -> (res: Vec<FsDelta>)
    ensures
        deltas_view(res@) == config_deltas(runc_config_texts(uid, gid)),
{
    let mut res: Vec<FsDelta> = Vec::new();
    res.push(
        id_config(
            "{\"hostname\":\"fuzz\",\"linux\":{\"gidMappings\":[{\"containerID\":0,\"hostID\":",
            ",\"size\":1}],\"namespaces\":[{\"type\":\"pid\"},{\"type\":\"mount\"},{\"type\":\"user\"}],\"uidMappings\":[{\"containerID\":0,\"hostID\":",
            ",\"size\":1}]},\"ociVersion\":\"1.0.0\",\"process\":{\"args\":[\"/bin/true\"],\"cwd\":\"/\",\"env\":[\"PATH=/bin\"],\"noNewPrivileges\":true,\"terminal\":false,\"user\":{\"gid\":0,\"uid\":0}},\"root\":{\"path\":\"PLACEHOLDER\",\"readonly\":false}}",
            uid,
            gid,
        ),
    );
    res.push(
        id_config(
            "{\"hostname\":\"fuzz\",\"linux\":{\"gidMappings\":[{\"containerID\":0,\"hostID\":",
            ",\"size\":1}],\"namespaces\":[{\"type\":\"pid\"},{\"type\":\"mount\"},{\"type\":\"user\"}],\"uidMappings\":[{\"containerID\":0,\"hostID\":",
            ",\"size\":1}]},\"ociVersion\":\"1.0.0\",\"process\":{\"args\":[\"/bin/true\"],\"cwd\":\"/\",\"env\":[\"PATH=/bin\"],\"noNewPrivileges\":true,\"terminal\":false,\"user\":{\"gid\":0,\"uid\":0}},\"root\":{\"path\":\"PLACEHOLDER\",\"readonly\":true}}",
            uid,
            gid,
        ),
    );
    res.push(
        id_config(
            "{\"hostname\":\"fuzz\",\"linux\":{\"gidMappings\":[{\"containerID\":0,\"hostID\":",
            ",\"size\":1}],\"namespaces\":[{\"type\":\"pid\"},{\"type\":\"mount\"},{\"type\":\"user\"}],\"uidMappings\":[{\"containerID\":0,\"hostID\":",
            ",\"size\":1}]},\"mounts\":[{\"destination\":\"/proc\",\"options\":[\"nosuid\",\"noexec\",\"nodev\"],\"source\":\"proc\",\"type\":\"proc\"},{\"destination\":\"/dev\",\"options\":[\"nosuid\",\"strictatime\",\"mode=755\",\"size=65536k\"],\"source\":\"tmpfs\",\"type\":\"tmpfs\"},{\"destination\":\"/sys\",\"options\":[\"nosuid\",\"noexec\",\"nodev\",\"ro\"],\"source\":\"sysfs\",\"type\":\"sysfs\"},{\"destination\":\"/dev/shm\",\"options\":[\"nosuid\",\"noexec\",\"nodev\",\"mode=1777\",\"size=67108864\"],\"source\":\"shm\",\"type\":\"tmpfs\"},{\"destination\":\"/dev/mqueue\",\"options\":[\"nosuid\",\"noexec\",\"nodev\"],\"source\":\"mqueue\",\"type\":\"mqueue\"}],\"ociVersion\":\"1.0.0\",\"process\":{\"args\":[\"/bin/true\"],\"cwd\":\"/\",\"env\":[\"PATH=/bin\"],\"noNewPrivileges\":true,\"terminal\":false,\"user\":{\"gid\":0,\"uid\":0}},\"root\":{\"path\":\"PLACEHOLDER\",\"readonly\":false}}",
            uid,
            gid,
        ),
    );
    res.push(
        id_config(
            "{\"hostname\":\"fuzz\",\"linux\":{\"gidMappings\":[{\"containerID\":0,\"hostID\":",
            ",\"size\":1}],\"namespaces\":[{\"type\":\"pid\"},{\"type\":\"mount\"},{\"type\":\"user\"}],\"uidMappings\":[{\"containerID\":0,\"hostID\":",
            ",\"size\":1}]},\"ociVersion\":\"1.0.0\",\"process\":{\"args\":[\"/bin/true\"],\"capabilities\":{\"bounding\":[\"CAP_CHOWN\",\"CAP_DAC_OVERRIDE\",\"CAP_FSETID\",\"CAP_FOWNER\",\"CAP_MKNOD\",\"CAP_NET_RAW\",\"CAP_SETGID\",\"CAP_SETUID\",\"CAP_SETFCAP\",\"CAP_SETPCAP\",\"CAP_NET_BIND_SERVICE\",\"CAP_SYS_CHROOT\",\"CAP_KILL\",\"CAP_AUDIT_WRITE\"],\"effective\":[\"CAP_KILL\",\"CAP_NET_BIND_SERVICE\",\"CAP_AUDIT_WRITE\"],\"permitted\":[\"CAP_KILL\",\"CAP_NET_BIND_SERVICE\",\"CAP_AUDIT_WRITE\"]},\"cwd\":\"/\",\"env\":[\"PATH=/bin\"],\"terminal\":false,\"user\":{\"gid\":0,\"uid\":0}},\"root\":{\"path\":\"PLACEHOLDER\",\"readonly\":false}}",
            uid,
            gid,
        ),
    );
    res.push(
        id_config(
            "{\"hostname\":\"fuzz\",\"linux\":{\"gidMappings\":[{\"containerID\":0,\"hostID\":",
            ",\"size\":1}],\"namespaces\":[{\"type\":\"pid\"},{\"type\":\"mount\"},{\"type\":\"user\"}],\"uidMappings\":[{\"containerID\":0,\"hostID\":",
            ",\"size\":1}]},\"ociVersion\":\"1.0.0\",\"process\":{\"args\":[\"/bin/true\"],\"capabilities\":{\"bounding\":[],\"effective\":[],\"permitted\":[]},\"cwd\":\"/\",\"env\":[\"PATH=/bin\"],\"terminal\":false,\"user\":{\"gid\":0,\"uid\":0}},\"root\":{\"path\":\"PLACEHOLDER\",\"readonly\":false}}",
            uid,
            gid,
        ),
    );
    res.push(
        id_config(
            "{\"hostname\":\"fuzz\",\"linux\":{\"gidMappings\":[{\"containerID\":0,\"hostID\":",
            ",\"size\":1}],\"namespaces\":[{\"type\":\"pid\"},{\"type\":\"mount\"},{\"type\":\"user\"}],\"uidMappings\":[{\"containerID\":0,\"hostID\":",
            ",\"size\":1}]},\"ociVersion\":\"1.0.0\",\"process\":{\"args\":[\"/bin/true\"],\"cwd\":\"/\",\"env\":[\"PATH=/bin\"],\"noNewPrivileges\":true,\"rlimits\":[{\"hard\":4096,\"soft\":1024,\"type\":\"RLIMIT_NOFILE\"},{\"hard\":64,\"soft\":32,\"type\":\"RLIMIT_NPROC\"},{\"hard\":536870912,\"soft\":536870912,\"type\":\"RLIMIT_AS\"}],\"terminal\":false,\"user\":{\"gid\":0,\"uid\":0}},\"root\":{\"path\":\"PLACEHOLDER\",\"readonly\":false}}",
            uid,
            gid,
        ),
    );
    res.push(
        id_config(
            "{\"hostname\":\"fuzz\",\"linux\":{\"gidMappings\":[{\"containerID\":0,\"hostID\":",
            ",\"size\":1}],\"namespaces\":[{\"type\":\"pid\"},{\"type\":\"mount\"},{\"type\":\"user\"}],\"uidMappings\":[{\"containerID\":0,\"hostID\":",
            ",\"size\":1}]},\"ociVersion\":\"1.0.0\",\"process\":{\"args\":[\"/bin/true\"],\"cwd\":\"/\",\"env\":[\"PATH=/bin\"],\"noNewPrivileges\":false,\"terminal\":false,\"user\":{\"gid\":0,\"uid\":0}},\"root\":{\"path\":\"PLACEHOLDER\",\"readonly\":false}}",
            uid,
            gid,
        ),
    );
    res.push(
        id_config(
            "{\"annotations\":{\"com.example.key\":\"value\",\"io.kubernetes.cri.sandbox-id\":\"abc123\"},\"hostname\":\"fuzz\",\"linux\":{\"gidMappings\":[{\"containerID\":0,\"hostID\":",
            ",\"size\":1}],\"namespaces\":[{\"type\":\"pid\"},{\"type\":\"mount\"},{\"type\":\"user\"}],\"uidMappings\":[{\"containerID\":0,\"hostID\":",
            ",\"size\":1}]},\"ociVersion\":\"1.0.0\",\"process\":{\"args\":[\"/bin/true\"],\"cwd\":\"/\",\"env\":[\"PATH=/bin\"],\"noNewPrivileges\":true,\"terminal\":false,\"user\":{\"gid\":0,\"uid\":0}},\"root\":{\"path\":\"PLACEHOLDER\",\"readonly\":false}}",
            uid,
            gid,
        ),
    );
    res.push(
        id_config(
            "{\"hostname\":\"fuzz\",\"linux\":{\"gidMappings\":[{\"containerID\":0,\"hostID\":",
            ",\"size\":1}],\"namespaces\":[{\"type\":\"pid\"},{\"type\":\"mount\"},{\"type\":\"user\"}],\"uidMappings\":[{\"containerID\":0,\"hostID\":",
            ",\"size\":1}]},\"ociVersion\":\"1.0.0\",\"process\":{\"args\":[],\"cwd\":\"/\",\"env\":[\"PATH=/bin\"],\"terminal\":false,\"user\":{\"gid\":0,\"uid\":0}},\"root\":{\"path\":\"PLACEHOLDER\",\"readonly\":false}}",
            uid,
            gid,
        ),
    );
    res.push(
        id_config(
            "{\"hostname\":\"fuzz\",\"linux\":{\"gidMappings\":[{\"containerID\":0,\"hostID\":",
            ",\"size\":1}],\"namespaces\":[{\"type\":\"pid\"},{\"type\":\"mount\"},{\"type\":\"user\"}],\"uidMappings\":[{\"containerID\":0,\"hostID\":",
            ",\"size\":1}]},\"ociVersion\":\"1.0.0\",\"process\":{\"args\":[\"/bin/nonexistent\",\"--flag\"],\"cwd\":\"/\",\"env\":[\"PATH=/bin\"],\"terminal\":false,\"user\":{\"gid\":0,\"uid\":0}},\"root\":{\"path\":\"PLACEHOLDER\",\"readonly\":false}}",
            uid,
            gid,
        ),
    );
    assert(deltas_view(res@) =~= config_deltas(runc_config_texts(uid, gid)));
    res
}

/// Structurally diverse config seeds of the crun campaign, each replacing
/// `/config.json` (see [`crun_config_texts`]).
pub fn crun_config_seeds(uid: u32, gid: u32) -> (res: Vec<FsDelta>)
    ensures
        deltas_view(res@) == config_deltas(crun_config_texts(uid, gid)),
{
    let mut res: Vec<FsDelta> = Vec::new();
    res.push(
        id_config(
            "{\"hostname\":\"fuzz\",\"linux\":{\"gidMappings\":[{\"containerID\":0,\"hostID\":",
            ",\"size\":1}],\"namespaces\":[{\"type\":\"pid\"},{\"type\":\"mount\"},{\"type\":\"user\"}],\"uidMappings\":[{\"containerID\":0,\"hostID\":",
            ",\"size\":1}]},\"ociVersion\":\"1.0.0\",\"process\":{\"args\":[\"/bin/true\"],\"cwd\":\"/\",\"env\":[\"PATH=/bin\"],\"noNewPrivileges\":true,\"terminal\":false,\"user\":{\"gid\":0,\"uid\":0}},\"root\":{\"path\":\"PLACEHOLDER\",\"readonly\":false}}",
            uid,
            gid,
        ),
    );
    res.push(
        id_config(
            "{\"hostname\":\"fuzz\",\"linux\":{\"gidMappings\":[{\"containerID\":0,\"hostID\":",
            ",\"size\":1}],\"namespaces\":[{\"type\":\"pid\"},{\"type\":\"mount\"},{\"type\":\"user\"}],\"uidMappings\":[{\"containerID\":0,\"hostID\":",
            ",\"size\":1}]},\"ociVersion\":\"1.0.0\",\"process\":{\"args\":[\"/bin/true\"],\"cwd\":\"/\",\"env\":[\"PATH=/bin\"],\"noNewPrivileges\":true,\"terminal\":false,\"user\":{\"gid\":0,\"uid\":0}},\"root\":{\"path\":\"PLACEHOLDER\",\"readonly\":true}}",
            uid,
            gid,
        ),
    );
    res.push(
        id_config(
            "{\"hostname\":\"fuzz\",\"linux\":{\"gidMappings\":[{\"containerID\":0,\"hostID\":",
            ",\"size\":1}],\"namespaces\":[{\"type\":\"pid\"},{\"type\":\"mount\"},{\"type\":\"user\"}],\"uidMappings\":[{\"containerID\":0,\"hostID\":",
            ",\"size\":1}]},\"ociVersion\":\"1.0.0\",\"process\":{\"args\":[\"/bin/true\"],\"capabilities\":{\"ambient\":[],\"bounding\":[\"CAP_CHOWN\",\"CAP_DAC_OVERRIDE\",\"CAP_DAC_READ_SEARCH\",\"CAP_FOWNER\",\"CAP_FSETID\",\"CAP_KILL\",\"CAP_NET_BIND_SERVICE\",\"CAP_NET_RAW\",\"CAP_SETGID\",\"CAP_SETUID\",\"CAP_SETPCAP\",\"CAP_SYS_CHROOT\",\"CAP_SYS_PTRACE\"],\"effective\":[\"CAP_KILL\",\"CAP_NET_BIND_SERVICE\"],\"inheritable\":[],\"permitted\":[\"CAP_KILL\",\"CAP_NET_BIND_SERVICE\"]},\"cwd\":\"/\",\"env\":[\"PATH=/bin\"],\"terminal\":false,\"user\":{\"gid\":0,\"uid\":0}},\"root\":{\"path\":\"PLACEHOLDER\",\"readonly\":false}}",
            uid,
            gid,
        ),
    );
    res.push(
        id_config(
            "{\"hostname\":\"fuzz\",\"linux\":{\"gidMappings\":[{\"containerID\":0,\"hostID\":",
            ",\"size\":1}],\"namespaces\":[{\"type\":\"pid\"},{\"type\":\"mount\"},{\"type\":\"user\"}],\"uidMappings\":[{\"containerID\":0,\"hostID\":",
            ",\"size\":1}]},\"ociVersion\":\"1.0.0\",\"process\":{\"args\":[\"/bin/true\"],\"capabilities\":{\"ambient\":[],\"bounding\":[],\"effective\":[],\"inheritable\":[],\"permitted\":[]},\"cwd\":\"/\",\"env\":[\"PATH=/bin\"],\"terminal\":false,\"user\":{\"gid\":0,\"uid\":0}},\"root\":{\"path\":\"PLACEHOLDER\",\"readonly\":false}}",
            uid,
            gid,
        ),
    );
    res.push(
        id_config(
            "{\"hostname\":\"fuzz\",\"linux\":{\"gidMappings\":[{\"containerID\":0,\"hostID\":",
            ",\"size\":1}],\"namespaces\":[{\"type\":\"pid\"},{\"type\":\"mount\"},{\"type\":\"user\"}],\"uidMappings\":[{\"containerID\":0,\"hostID\":",
            ",\"size\":1}]},\"ociVersion\":\"1.0.0\",\"process\":{\"args\":[\"/bin/true\"],\"cwd\":\"/\",\"env\":[\"PATH=/bin\"],\"rlimits\":[{\"hard\":1024,\"soft\":1024,\"type\":\"RLIMIT_NOFILE\"},{\"hard\":512,\"soft\":512,\"type\":\"RLIMIT_NPROC\"},{\"hard\":536870912,\"soft\":536870912,\"type\":\"RLIMIT_AS\"}],\"terminal\":false,\"user\":{\"gid\":0,\"uid\":0}},\"root\":{\"path\":\"PLACEHOLDER\",\"readonly\":false}}",
            uid,
            gid,
        ),
    );
    res.push(
        id_config(
            "{\"hostname\":\"fuzz\",\"linux\":{\"gidMappings\":[{\"containerID\":0,\"hostID\":",
            ",\"size\":1}],\"namespaces\":[{\"type\":\"pid\"},{\"type\":\"mount\"},{\"type\":\"user\"}],\"uidMappings\":[{\"containerID\":0,\"hostID\":",
            ",\"size\":1}]},\"ociVersion\":\"1.0.0\",\"process\":{\"args\":[\"/bin/true\"],\"cwd\":\"/\",\"env\":[\"PATH=/bin\"],\"noNewPrivileges\":false,\"terminal\":false,\"user\":{\"gid\":0,\"uid\":0}},\"root\":{\"path\":\"PLACEHOLDER\",\"readonly\":false}}",
            uid,
            gid,
        ),
    );
    res.push(
        id_config(
            "{\"annotations\":{\"com.example.key\":\"value\"},\"hostname\":\"fuzz\",\"linux\":{\"gidMappings\":[{\"containerID\":0,\"hostID\":",
            ",\"size\":1}],\"namespaces\":[{\"type\":\"pid\"},{\"type\":\"mount\"},{\"type\":\"user\"}],\"uidMappings\":[{\"containerID\":0,\"hostID\":",
            ",\"size\":1}]},\"ociVersion\":\"1.0.0\",\"process\":{\"args\":[\"/bin/true\"],\"cwd\":\"/\",\"env\":[\"PATH=/bin\"],\"noNewPrivileges\":true,\"terminal\":false,\"user\":{\"gid\":0,\"uid\":0}},\"root\":{\"path\":\"PLACEHOLDER\",\"readonly\":false}}",
            uid,
            gid,
        ),
    );
    res.push(
        id_config(
            "{\"hostname\":\"fuzz\",\"linux\":{\"gidMappings\":[{\"containerID\":0,\"hostID\":",
            ",\"size\":1}],\"namespaces\":[{\"type\":\"pid\"},{\"type\":\"mount\"},{\"type\":\"user\"}],\"uidMappings\":[{\"containerID\":0,\"hostID\":",
            ",\"size\":1}]},\"ociVersion\":\"1.0.0\",\"process\":{\"args\":[],\"cwd\":\"/\",\"env\":[\"PATH=/bin\"],\"terminal\":false,\"user\":{\"gid\":0,\"uid\":0}},\"root\":{\"path\":\"PLACEHOLDER\",\"readonly\":false}}",
            uid,
            gid,
        ),
    );
    res.push(
        id_config(
            "{\"hostname\":\"fuzz\",\"linux\":{\"gidMappings\":[{\"containerID\":0,\"hostID\":",
            ",\"size\":1}],\"namespaces\":[{\"type\":\"pid\"},{\"type\":\"mount\"},{\"type\":\"user\"}],\"uidMappings\":[{\"containerID\":0,\"hostID\":",
            ",\"size\":1}]},\"ociVersion\":\"1.0.0\",\"process\":{\"args\":[\"/bin/nonexistent\"],\"cwd\":\"/\",\"env\":[\"PATH=/bin\"],\"terminal\":false,\"user\":{\"gid\":0,\"uid\":0}},\"root\":{\"path\":\"PLACEHOLDER\",\"readonly\":false}}",
            uid,
            gid,
        ),
    );
    res.push(text_config("{\"ociVersion\":\"1.0.0\"}"));
    assert(deltas_view(res@) =~= config_deltas(crun_config_texts(uid, gid)));
    res
}

/// A seed that replaces `/config.json` by `config`: the campaign's baseline
/// config, kept in the corpus as a donor for splicing.
pub open spec fn donor_delta(config: Seq<u8>) -> Seq<OpView> {
    seq![update_op("/config.json"@, config)]
}

/// The runc campaign's starting corpus: its config seeds, its rootfs seeds,
/// then the baseline config as a donor.
pub fn runc_initial_corpus(uid: u32, gid: u32, bin_true: &[u8], baseline_config: Vec<u8>) -> (res:
    Vec<FsDelta>)
    requires
        bin_true@.len() == 0 || bin_true@.len() > 4,
    ensures
        deltas_view(res@) == config_deltas(runc_config_texts(uid, gid)) + runc_rootfs_seeds_spec(
            bin_true@,
        ) + seq![donor_delta(baseline_config@)],
{
    let mut res = config_seeds(uid, gid);
    let ghost first = res@;
    let mut more = runc_rootfs_seeds(bin_true);
    let ghost second = more@;
    res.append(&mut more);
    res.push(one(FsOp::update_file("/config.json", baseline_config)));
    assert(deltas_view(res@) =~= deltas_view(first) + deltas_view(second) + seq![
        donor_delta(baseline_config@),
    ]);
    res
}

/// The crun campaign's starting corpus: its config seeds, its rootfs seeds,
/// then the baseline config as a donor.
pub fn crun_initial_corpus(uid: u32, gid: u32, bin_true: &[u8], baseline_config: Vec<u8>) -> (res:
    Vec<FsDelta>)
    ensures
        deltas_view(res@) == config_deltas(crun_config_texts(uid, gid)) + crun_rootfs_seeds_spec(
            bin_true@,
        ) + seq![donor_delta(baseline_config@)],
{
    let mut res = crun_config_seeds(uid, gid);
    let ghost first = res@;
    let mut more = crun_rootfs_seeds(bin_true);
    let ghost second = more@;
    res.append(&mut more);
    res.push(one(FsOp::update_file("/config.json", baseline_config)));
    assert(deltas_view(res@) =~= deltas_view(first) + deltas_view(second) + seq![
        donor_delta(baseline_config@),
    ]);
    res
}

} // verus!
