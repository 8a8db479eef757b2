use fs_mutator::baseline::{
    bench_baseline, bundle_baseline, combined_baseline, input_baseline, rootfs_baseline,
    runc_baseline,
};
use fs_mutator::delta::{FsDelta, FsOpKind};

fn paths(d: &FsDelta) -> Vec<&str> {
    d.ops.iter().map(|o| o.path.as_str()).collect()
}

#[test]
fn combined_tree_gives_every_binary_the_same_bytes() {
    let bin = b"\x7fELFbinary".to_vec();
    let t = combined_baseline(&bin);
    assert_eq!(t.ops.len(), 13 + 5 + 5);
    assert!(t.ops[..13].iter().all(|o| o.kind == FsOpKind::Mkdir));
    assert_eq!(paths(&t)[13..18], ["/bin/true", "/bin/sh", "/bin/bash", "/app/app", "/usr/bin/nginx"]);
    assert!(t.ops[13..18].iter().all(|o| o.content == bin && o.size == bin.len()));
    assert_eq!(t.ops[18].path, "/etc/passwd");
    assert_eq!(t.ops[22].content, b"nameserver 8.8.8.8\n".to_vec());
    assert_eq!(combined_baseline(&[]).ops.len(), 13 + 5);
}

#[test]
fn rootfs_and_bundle_trees() {
    let r = rootfs_baseline(b"ELF");
    assert_eq!(r.ops.len(), 8 + 1 + 5);
    assert_eq!(r.ops[8].path, "/bin/true");
    assert_eq!(rootfs_baseline(&[]).ops.len(), 13);

    let b = bundle_baseline(b"{}", &[]);
    assert_eq!(b.ops[0].path, "/config.json");
    assert_eq!(b.ops[0].content, b"{}".to_vec());
    assert_eq!(b.ops.len(), 1 + 9 + 4);
    assert_eq!(b.ops[10].path, "/rootfs/etc/passwd");
    assert_eq!(bundle_baseline(b"{}", b"x").ops[10].path, "/rootfs/bin/true");

    let rc = runc_baseline(&[]);
    assert_eq!(rc.ops.len(), 8 + 4);
    assert_eq!(rc.ops[8].content, b"root:x:0:0:root:/root:/bin/sh\n".to_vec());
}

#[test]
fn single_input_trees() {
    let i = input_baseline();
    assert_eq!(paths(&i), vec!["/input", "/etc", "/etc/config"]);
    assert_eq!(i.ops[0].content, b"seed".to_vec());
    assert_eq!(i.ops[2].content.len(), 20);
    let b = bench_baseline();
    assert_eq!(paths(&b), vec!["/input", "/etc", "/etc/config", "/data", "/data/a.bin"]);
    assert_eq!(b.ops[4].content, vec![0xde, 0xad, 0xbe, 0xef]);
}
