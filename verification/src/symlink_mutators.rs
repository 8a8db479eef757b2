//! Mutators that plant symlinks where a container runtime resolves paths:
//! mount destinations, parent directories, executables, escapes and loops.

use std::sync::Arc;

use vstd::prelude::*;
use vstd::string::{StrSliceExecFns, StringExecFns};

use crate::delta::{ops_view, FsDelta, FsOp, OpView};
use crate::gen::strs_view;
use crate::mutators::{room, MutationResult, MAX_OPS};
use crate::rng::{below, StdRand};
use crate::symlink_utils::{replace_spec, replace_with_symlink, symlink_op, BaselineIndex};
use crate::text::{decimal, decimal_string, owned};

verus! {

/// Where container runtimes mount special filesystems.
pub open spec fn mount_destinations() -> Seq<Seq<char>> {
    seq!["/proc"@, "/dev"@, "/sys"@, "/tmp"@]
}

pub open spec fn relative_targets() -> Seq<Seq<char>> {
    seq![
        "etc/passwd"@,
        "etc/shadow"@,
        "proc/self/exe"@,
        "proc/self/mem"@,
        "proc/sysrq-trigger"@,
        "dev/sda"@,
        "dev/zero"@,
        "run/containerd"@,
        "var/run/docker.sock"@,
        "proc/self/fd"@,
    ]
}

pub open spec fn absolute_targets() -> Seq<Seq<char>> {
    seq![
        "/proc"@,
        "/proc/self"@,
        "/proc/self/exe"@,
        "/proc/self/fd"@,
        "/proc/self/fd/0"@,
        "/dev"@,
        "/dev/null"@,
        "/sys"@,
        "/etc/passwd"@,
        "/bin/sh"@,
    ]
}

pub open spec fn parent_components() -> Seq<Seq<char>> {
    seq!["/etc"@, "/bin"@, "/lib"@, "/usr"@, "/dev"@, "/var"@, "/run"@]
}

pub open spec fn exec_paths() -> Seq<Seq<char>> {
    seq!["/bin/target"@, "/usr/local/bin/target"@, "/bin/exploit"@, "/sbin/target"@]
}

pub open spec fn exec_symlink_targets() -> Seq<Seq<char>> {
    seq![
        "/proc/self/exe"@,
        "/proc/self/mem"@,
        "/proc/self/fd/0"@,
        "/dev/zero"@,
        "/dev/null"@,
        "../../usr/bin/python3"@,
        "../../bin/sh"@,
        "/nonexistent"@,
    ]
}

pub open spec fn mount_option_targets() -> Seq<Seq<char>> {
    seq!["/proc/self/fd"@, "/proc/self/exe"@, "/dev/null"@, "../../tmp"@, "/nonexistent"@]
}

pub open spec fn escape_bases() -> Seq<Seq<char>> {
    seq!["/bin"@, "/etc"@, "/lib"@, "/proc"@, "/dev"@]
}

/// `d` copies of "../".
pub open spec fn dotdots(d: nat) -> Seq<char>
    decreases d,
{
    if d == 0 {
        Seq::empty()
    } else {
        dotdots((d - 1) as nat) + seq!['.', '.', '/']
    }
}

/// "../" repeated `d` times, followed by `rest`.
pub fn up_path(d: usize, rest: &str) -> (s: String)
    ensures
        s@ == dotdots(d as nat) + rest@,
{
    let mut s = String::new();
    for k in 0..d
        invariant
            s@ == dotdots(k as nat),
    {
        s.append("../");
        proof {
            reveal_strlit("../");
            assert("../"@ =~= seq!['.', '.', '/']);
        }
    }
    s.append(rest);
    s
}

/// `p` without its first character (the leading '/').
pub fn without_root(p: &str) -> (r: &str)
    requires
        p@.len() > 0,
    ensures
        r@ == p@.drop_first(),
{
    let n = p.unicode_len();
    let r = p.substring_char(1, n);
    assert(r@ =~= p@.drop_first());
    r
}

/// Appends the ops of `new_ops` to `input` when there is room for all of them.
fn extend_if_room(input: &mut FsDelta, new_ops: Vec<FsOp>) -> (res: MutationResult)
    ensures
        (res == MutationResult::Skipped) <==> new_ops@.len() > room(old(input)@.len()),
        res == MutationResult::Skipped ==> final(input)@ == old(input)@,
        res == MutationResult::Mutated ==> final(input)@ == old(input)@ + ops_view(new_ops@),
{
    let available = MAX_OPS.saturating_sub(input.ops.len());
    if new_ops.len() > available {
        return MutationResult::Skipped;
    }
    let ghost start = input@;
    let ghost added = ops_view(new_ops@);
    let mut new_ops = new_ops;
    input.ops.append(&mut new_ops);
    assert(input@ =~= start + added);
    MutationResult::Mutated
}


/// Appends the ops that replace `path` by a symlink to `target` when they fit
/// in the room the delta leaves.
fn plant(index: &BaselineIndex, input: &mut FsDelta, path: &str, target: &str) -> (res: MutationResult)
    requires
        index.wf(),
    ensures
        appended_if_room(old(input)@, replace_spec(index@, path@, target@), final(input)@, res),
{
    let ops = replace_with_symlink(path, target, index);
    extend_if_room(input, ops)
}

// ── MountDestinationSymlinkMutator ──────────────────────────────────────────

/// A link to something that is not the expected special filesystem.
pub open spec fn wrong_target(p: Seq<char>) -> Seq<char> {
    if p == "/proc"@ {
        "/etc/passwd"@
    } else {
        "/bin/true"@
    }
}

/// The targets [`MountDestinationSymlinkMutator`] gives mount destination `p`:
/// a relative path climbing 2 to 5 levels back to `p`, an absolute special
/// path, a wrong file, a missing path, or /dev/null and /proc/self/fd.
pub open spec fn mount_dest_target(p: Seq<char>, t: Seq<char>) -> bool {
    ||| exists|d: nat| 2 <= d <= 5 && t == #[trigger] dotdots(d) + p.drop_first()
    ||| absolute_targets().contains(t)
    ||| t == wrong_target(p)
    ||| t == "/nonexistent"@
    ||| t == "/dev/null"@
    ||| t == "/proc/self/fd"@
}

/// `new` is `old` followed by the ops that replace `p` by a symlink to `t`,
/// for some `p`, `t` that satisfy `choice`.
pub open spec fn symlink_planted(
    index: Seq<crate::symlink_utils::PathInfoView>,
    old: Seq<OpView>,
    new: Seq<OpView>,
    choice: spec_fn(Seq<char>, Seq<char>) -> bool,
) -> bool {
    exists|p: Seq<char>, t: Seq<char>|
        #![trigger replace_spec(index, p, t)]
        choice(p, t) && new == old + replace_spec(index, p, t) && new.len() <= MAX_OPS
}

/// Every replacement that `choice` allows fits in the room that `old` leaves.
pub open spec fn every_choice_fits(
    index: Seq<crate::symlink_utils::PathInfoView>,
    old: Seq<OpView>,
    choice: spec_fn(Seq<char>, Seq<char>) -> bool,
) -> bool {
    forall|p: Seq<char>, t: Seq<char>|
        #![trigger replace_spec(index, p, t)]
        choice(p, t) ==> old.len() + replace_spec(index, p, t).len() <= MAX_OPS
}

/// The target [`MountDestinationSymlinkMutator`] gives destination `p` for the
/// draws `r` (of 100) and `x`: `x + 2` levels up and back to `p` (r < 35), the
/// `x`th absolute special path (r < 60), a wrong file (r < 80), a missing path
/// (r < 95), or /dev/null or /proc/self/fd by `x`.
pub open spec fn mount_dest_target_of(p: Seq<char>, r: int, x: int) -> Seq<char> {
    if r < 35 {
        dotdots((x + 2) as nat) + p.drop_first()
    } else if r < 60 {
        absolute_targets()[x]
    } else if r < 80 {
        wrong_target(p)
    } else if r < 95 {
        "/nonexistent"@
    } else {
        seq!["/dev/null"@, "/proc/self/fd"@][x]
    }
}

/// The draws [`MountDestinationSymlinkMutator`] can make: the destination
/// `d`, the kind `r` and the third draw `x`, whose range follows `r`.
pub open spec fn mount_dest_draws(d: int, r: int, x: int) -> bool {
    &&& 0 <= d < 4 && 0 <= r < 100 && 0 <= x
    &&& r < 35 ==> x < 4
    &&& 35 <= r < 60 ==> x < 10
    &&& 60 <= r < 95 ==> x == 0
    &&& 95 <= r ==> x < 2
}

/// Replaces a mount destination (/proc, /dev, /sys, /tmp) with a symlink.
#[derive(Debug)]
pub struct MountDestinationSymlinkMutator {
    pub index: Arc<BaselineIndex>,
}

impl MountDestinationSymlinkMutator {
    pub fn new(index: Arc<BaselineIndex>) -> (m: Self)
        ensures
            m.index == index,
    {
        MountDestinationSymlinkMutator { index }
    }

    /// Draws the destination, the kind and the kind's third draw, then
    /// applies [`MountDestinationSymlinkMutator::step`]; a full delta is
    /// skipped first.
    pub fn mutate(&self, rand: &mut StdRand, input: &mut FsDelta) -> (res: MutationResult)
        requires
            self.index.wf(),
        ensures
            old(input)@.len() <= MAX_OPS ==> final(input)@.len() <= MAX_OPS,
            old(input)@.len() >= MAX_OPS ==> res == MutationResult::Skipped,
            res == MutationResult::Skipped ==> final(input)@ == old(input)@,
            res == MutationResult::Mutated ==> symlink_planted(
                self.index@,
                old(input)@,
                final(input)@,
                |p: Seq<char>, t: Seq<char>| mount_destinations().contains(p) && mount_dest_target(p, t),
            ),
            old(input)@.len() < MAX_OPS && every_choice_fits(
                self.index@,
                old(input)@,
                |p: Seq<char>, t: Seq<char>| mount_destinations().contains(p) && mount_dest_target(p, t),
            ) ==> res == MutationResult::Mutated,
            old(input)@.len() < MAX_OPS ==> exists|d: int, r: int, x: int|
                mount_dest_draws(d, r, x) && appended_if_room(
                    old(input)@,
                    #[trigger] replace_spec(
                        self.index@,
                        mount_destinations()[d],
                        mount_dest_target_of(mount_destinations()[d], r, x),
                    ),
                    final(input)@,
                    res,
                ),
    {
        if input.ops.len() >= MAX_OPS {
            return MutationResult::Skipped;
        }
        let d = below(rand, 4);
        let r = below(rand, 100);
        let x = if r < 35 {
            below(rand, 4)
        } else if r < 60 {
            below(rand, 10)
        } else if r < 95 {
            0
        } else {
            below(rand, 2)
        };
        self.step(input, d, r, x)
    }

    /// Replaces destination `d` by a symlink to [`mount_dest_target_of`] for the
    /// draws `r`, `x`, when the ops fit.
    pub fn step(&self, input: &mut FsDelta, d: usize, r: usize, x: usize) -> (res: MutationResult)
        requires
            self.index.wf(),
            mount_dest_draws(d as int, r as int, x as int),
        ensures
            appended_if_room(
                old(input)@,
                replace_spec(
                    self.index@,
                    mount_destinations()[d as int],
                    mount_dest_target_of(mount_destinations()[d as int], r as int, x as int),
                ),
                final(input)@,
                res,
            ),
            mount_destinations().contains(mount_destinations()[d as int]),
            mount_dest_target(
                mount_destinations()[d as int],
                mount_dest_target_of(mount_destinations()[d as int], r as int, x as int),
            ),
    {
        let dests: [&'static str; 4] = ["/proc", "/dev", "/sys", "/tmp"];
        assert(strs_view(dests@) =~= mount_destinations());
        let path = dests[d];
        assert(path@ == mount_destinations()[d as int]);
        proof {
            reveal_strlit("/proc");
            reveal_strlit("/dev");
            reveal_strlit("/sys");
            reveal_strlit("/tmp");
        }
        assert(path@.len() > 0);
        let target: String = if r < 35 {
            up_path(x + 2, without_root(path))
        } else if r < 60 {
            let abs = absolute_target_choices();
            assert(abs@[x as int]@ == absolute_targets()[x as int]);
            owned(abs[x])
        } else if r < 80 {
            if crate::text::str_eq(path, "/proc") {
                owned("/etc/passwd")
            } else {
                owned("/bin/true")
            }
        } else if r < 95 {
            owned("/nonexistent")
        } else {
            let last: [&'static str; 2] = ["/dev/null", "/proc/self/fd"];
            assert(strs_view(last@) =~= seq!["/dev/null"@, "/proc/self/fd"@]);
            assert(last@[x as int]@ == seq!["/dev/null"@, "/proc/self/fd"@][x as int]);
            owned(last[x])
        };
        assert(target@ == mount_dest_target_of(path@, r as int, x as int));
        assert(mount_dest_target(path@, target@)) by {
            if r < 35 {
                assert(target@ == dotdots((x + 2) as nat) + path@.drop_first());
            } else if r < 60 {
                assert(absolute_targets().contains(target@));
            } else if r >= 95 {
                assert(target@ == "/dev/null"@ || target@ == "/proc/self/fd"@);
            }
        }
        assert(mount_destinations().contains(path@));
        plant(&self.index, input, path, target.as_str())
    }
}


fn absolute_target_choices() -> (a: [&'static str; 10])
    ensures
        strs_view(a@) == absolute_targets(),
{
    let abs: [&'static str; 10] = [
        "/proc",
        "/proc/self",
        "/proc/self/exe",
        "/proc/self/fd",
        "/proc/self/fd/0",
        "/dev",
        "/dev/null",
        "/sys",
        "/etc/passwd",
        "/bin/sh",
    ];
    assert(strs_view(abs@) =~= absolute_targets());
    abs
}

// ── MountOptionSymlinkMutator ───────────────────────────────────────────────

/// Replaces a mount destination with a symlink to a path that confuses mount options.
#[derive(Debug)]
pub struct MountOptionSymlinkMutator {
    pub index: Arc<BaselineIndex>,
}

impl MountOptionSymlinkMutator {
    pub fn new(index: Arc<BaselineIndex>) -> (m: Self)
        ensures
            m.index == index,
    {
        MountOptionSymlinkMutator { index }
    }

    /// Draws the destination and the target, then applies
    /// [`MountOptionSymlinkMutator::step`]; a full delta is skipped first.
    pub fn mutate(&self, rand: &mut StdRand, input: &mut FsDelta) -> (res: MutationResult)
        requires
            self.index.wf(),
        ensures
            old(input)@.len() <= MAX_OPS ==> final(input)@.len() <= MAX_OPS,
            old(input)@.len() >= MAX_OPS ==> res == MutationResult::Skipped,
            res == MutationResult::Skipped ==> final(input)@ == old(input)@,
            res == MutationResult::Mutated ==> symlink_planted(
                self.index@,
                old(input)@,
                final(input)@,
                |p: Seq<char>, t: Seq<char>|
                    mount_destinations().contains(p) && mount_option_targets().contains(t),
            ),
            old(input)@.len() < MAX_OPS && every_choice_fits(
                self.index@,
                old(input)@,
                |p: Seq<char>, t: Seq<char>|
                    mount_destinations().contains(p) && mount_option_targets().contains(t),
            ) ==> res == MutationResult::Mutated,
            old(input)@.len() < MAX_OPS ==> exists|d: int, t: int|
                0 <= d < 4 && 0 <= t < 5 && appended_if_room(
                    old(input)@,
                    #[trigger] replace_spec(self.index@, mount_destinations()[d], mount_option_targets()[t]),
                    final(input)@,
                    res,
                ),
    {
        if input.ops.len() >= MAX_OPS {
            return MutationResult::Skipped;
        }
        let d = below(rand, 4);
        let t = below(rand, 5);
        self.step(input, d, t)
    }

    /// Replaces destination `d` by a symlink to option target `t`, when the
    /// ops fit.
    pub fn step(&self, input: &mut FsDelta, d: usize, t: usize) -> (res: MutationResult)
        requires
            self.index.wf(),
            d < 4,
            t < 5,
        ensures
            appended_if_room(
                old(input)@,
                replace_spec(self.index@, mount_destinations()[d as int], mount_option_targets()[t as int]),
                final(input)@,
                res,
            ),
            mount_destinations().contains(mount_destinations()[d as int]),
            mount_option_targets().contains(mount_option_targets()[t as int]),
    {
        let dests: [&'static str; 4] = ["/proc", "/dev", "/sys", "/tmp"];
        assert(strs_view(dests@) =~= mount_destinations());
        let targets: [&'static str; 5] = [
            "/proc/self/fd",
            "/proc/self/exe",
            "/dev/null",
            "../../tmp",
            "/nonexistent",
        ];
        assert(strs_view(targets@) =~= mount_option_targets());
        assert(dests@[d as int]@ == mount_destinations()[d as int]);
        assert(targets@[t as int]@ == mount_option_targets()[t as int]);
        plant(&self.index, input, dests[d], targets[t])
    }
}

// ── ExecutableSymlinkMutator ────────────────────────────────────────────────

/// Replaces a likely container entry point with a symlink to something that is
/// not a plain executable.
#[derive(Debug)]
pub struct ExecutableSymlinkMutator {
    pub index: Arc<BaselineIndex>,
}

impl ExecutableSymlinkMutator {
    pub fn new(index: Arc<BaselineIndex>) -> (m: Self)
        ensures
            m.index == index,
    {
        ExecutableSymlinkMutator { index }
    }

    /// Draws the entry point and the target, then applies
    /// [`ExecutableSymlinkMutator::step`]; a full delta is skipped first.
    pub fn mutate(&self, rand: &mut StdRand, input: &mut FsDelta) -> (res: MutationResult)
        requires
            self.index.wf(),
        ensures
            old(input)@.len() <= MAX_OPS ==> final(input)@.len() <= MAX_OPS,
            old(input)@.len() >= MAX_OPS ==> res == MutationResult::Skipped,
            res == MutationResult::Skipped ==> final(input)@ == old(input)@,
            res == MutationResult::Mutated ==> symlink_planted(
                self.index@,
                old(input)@,
                final(input)@,
                |p: Seq<char>, t: Seq<char>| exec_paths().contains(p) && exec_symlink_targets().contains(t),
            ),
            old(input)@.len() < MAX_OPS && every_choice_fits(
                self.index@,
                old(input)@,
                |p: Seq<char>, t: Seq<char>| exec_paths().contains(p) && exec_symlink_targets().contains(t),
            ) ==> res == MutationResult::Mutated,
            old(input)@.len() < MAX_OPS ==> exists|p: int, t: int|
                0 <= p < 4 && 0 <= t < 8 && appended_if_room(
                    old(input)@,
                    #[trigger] replace_spec(self.index@, exec_paths()[p], exec_symlink_targets()[t]),
                    final(input)@,
                    res,
                ),
    {
        if input.ops.len() >= MAX_OPS {
            return MutationResult::Skipped;
        }
        let p = below(rand, 4);
        let t = below(rand, 8);
        self.step(input, p, t)
    }

    /// Replaces entry point `p` by a symlink to target `t`, when the ops fit.
    pub fn step(&self, input: &mut FsDelta, p: usize, t: usize) -> (res: MutationResult)
        requires
            self.index.wf(),
            p < 4,
            t < 8,
        ensures
            appended_if_room(
                old(input)@,
                replace_spec(self.index@, exec_paths()[p as int], exec_symlink_targets()[t as int]),
                final(input)@,
                res,
            ),
            exec_paths().contains(exec_paths()[p as int]),
            exec_symlink_targets().contains(exec_symlink_targets()[t as int]),
    {
        let paths: [&'static str; 4] = [
            "/bin/target",
            "/usr/local/bin/target",
            "/bin/exploit",
            "/sbin/target",
        ];
        assert(strs_view(paths@) =~= exec_paths());
        let targets: [&'static str; 8] = [
            "/proc/self/exe",
            "/proc/self/mem",
            "/proc/self/fd/0",
            "/dev/zero",
            "/dev/null",
            "../../usr/bin/python3",
            "../../bin/sh",
            "/nonexistent",
        ];
        assert(strs_view(targets@) =~= exec_symlink_targets());
        assert(paths@[p as int]@ == exec_paths()[p as int]);
        assert(targets@[t as int]@ == exec_symlink_targets()[t as int]);
        plant(&self.index, input, paths[p], targets[t])
    }
}

// ── ParentComponentSymlinkMutator ───────────────────────────────────────────

/// The targets [`ParentComponentSymlinkMutator`] gives directory `p`: a path
/// climbing 2 to 4 levels back to `p`, or an absolute special path.
pub open spec fn parent_component_target(p: Seq<char>, t: Seq<char>) -> bool {
    ||| exists|d: nat| 2 <= d <= 4 && t == #[trigger] dotdots(d) + p.drop_first()
    ||| absolute_targets().contains(t)
}

/// The target [`ParentComponentSymlinkMutator`] gives directory `p` for the
/// draws `dd` (depth), `coin` and `a`: `dd + 2` levels up and back to `p` when
/// `coin` is 0, else the `a`th absolute special path.
pub open spec fn parent_target_of(p: Seq<char>, dd: int, coin: int, a: int) -> Seq<char> {
    if coin == 0 {
        dotdots((dd + 2) as nat) + p.drop_first()
    } else {
        absolute_targets()[a]
    }
}

pub open spec fn parent_draws(c: int, dd: int, coin: int, a: int) -> bool {
    &&& 0 <= c < 7 && 0 <= dd < 3 && 0 <= coin < 2 && 0 <= a
    &&& coin == 0 ==> a == 0
    &&& coin == 1 ==> a < 10
}

/// Replaces a top-level system directory with a symlink.
#[derive(Debug)]
pub struct ParentComponentSymlinkMutator {
    pub index: Arc<BaselineIndex>,
}

impl ParentComponentSymlinkMutator {
    pub fn new(index: Arc<BaselineIndex>) -> (m: Self)
        ensures
            m.index == index,
    {
        ParentComponentSymlinkMutator { index }
    }

    /// Draws the directory, the depth, a coin and (on 1) an absolute target,
    /// then applies [`ParentComponentSymlinkMutator::step`]; a full delta is
    /// skipped first.
    pub fn mutate(&self, rand: &mut StdRand, input: &mut FsDelta) -> (res: MutationResult)
        requires
            self.index.wf(),
        ensures
            old(input)@.len() <= MAX_OPS ==> final(input)@.len() <= MAX_OPS,
            old(input)@.len() >= MAX_OPS ==> res == MutationResult::Skipped,
            res == MutationResult::Skipped ==> final(input)@ == old(input)@,
            res == MutationResult::Mutated ==> symlink_planted(
                self.index@,
                old(input)@,
                final(input)@,
                |p: Seq<char>, t: Seq<char>|
                    parent_components().contains(p) && parent_component_target(p, t),
            ),
            old(input)@.len() < MAX_OPS && every_choice_fits(
                self.index@,
                old(input)@,
                |p: Seq<char>, t: Seq<char>|
                    parent_components().contains(p) && parent_component_target(p, t),
            ) ==> res == MutationResult::Mutated,
            old(input)@.len() < MAX_OPS ==> exists|c: int, dd: int, coin: int, a: int|
                parent_draws(c, dd, coin, a) && appended_if_room(
                    old(input)@,
                    #[trigger] replace_spec(
                        self.index@,
                        parent_components()[c],
                        parent_target_of(parent_components()[c], dd, coin, a),
                    ),
                    final(input)@,
                    res,
                ),
    {
        if input.ops.len() >= MAX_OPS {
            return MutationResult::Skipped;
        }
        let c = below(rand, 7);
        let dd = below(rand, 3);
        let coin = below(rand, 2);
        let a = if coin == 0 {
            0
        } else {
            below(rand, 10)
        };
        self.step(input, c, dd, coin, a)
    }

    /// Replaces directory `c` by a symlink to [`parent_target_of`] for the
    /// draws, when the ops fit.
    pub fn step(&self, input: &mut FsDelta, c: usize, dd: usize, coin: usize, a: usize) -> (res:
        MutationResult)
        requires
            self.index.wf(),
            parent_draws(c as int, dd as int, coin as int, a as int),
        ensures
            appended_if_room(
                old(input)@,
                replace_spec(
                    self.index@,
                    parent_components()[c as int],
                    parent_target_of(parent_components()[c as int], dd as int, coin as int, a as int),
                ),
                final(input)@,
                res,
            ),
            parent_components().contains(parent_components()[c as int]),
            parent_component_target(
                parent_components()[c as int],
                parent_target_of(parent_components()[c as int], dd as int, coin as int, a as int),
            ),
    {
        let comps: [&'static str; 7] = ["/etc", "/bin", "/lib", "/usr", "/dev", "/var", "/run"];
        assert(strs_view(comps@) =~= parent_components());
        let component = comps[c];
        assert(component@ == parent_components()[c as int]);
        proof {
            reveal_strlit("/etc");
            reveal_strlit("/bin");
            reveal_strlit("/lib");
            reveal_strlit("/usr");
            reveal_strlit("/dev");
            reveal_strlit("/var");
            reveal_strlit("/run");
        }
        assert(component@.len() > 0);
        let target: String = if coin == 0 {
            up_path(dd + 2, without_root(component))
        } else {
            let abs = absolute_target_choices();
            assert(abs@[a as int]@ == absolute_targets()[a as int]);
            owned(abs[a])
        };
        assert(target@ == parent_target_of(component@, dd as int, coin as int, a as int));
        assert(parent_component_target(component@, target@)) by {
            if coin == 0 {
                assert(target@ == dotdots((dd + 2) as nat) + component@.drop_first());
            } else {
                assert(absolute_targets().contains(target@));
            }
        }
        assert(parent_components().contains(component@));
        plant(&self.index, input, component, target.as_str())
    }
}


// ── SymlinkEscapeMutator ────────────────────────────────────────────────────

/// Symlink targets that escape the root: an absolute special path, or a
/// relative path climbing 2 to 8 levels to a sensitive host path.
pub open spec fn escape_target(t: Seq<char>) -> bool {
    ||| absolute_targets().contains(t)
    ||| exists|d: nat, r: Seq<char>|
        #![trigger dotdots(d), relative_targets().contains(r)]
        2 <= d <= 8 && relative_targets().contains(r) && t == dotdots(d) + r
}

/// Where [`SymlinkEscapeMutator`] plants its link: `<base>/escape` under a
/// system directory, or a path of the baseline.
pub open spec fn escape_path(index: Seq<crate::symlink_utils::PathInfoView>, p: Seq<char>) -> bool {
    ||| exists|b: Seq<char>| #[trigger] escape_bases().contains(b) && p == b + "/escape"@
    ||| exists|k: int| 0 <= k < index.len() && #[trigger] index[k].path == p
}

/// The escape target for the draws `r1` (of 100), `x1` and `rel`: the `x1`th
/// absolute special path (r1 < 40), else `x1 + 2` levels up to the `rel`th
/// sensitive relative path.
pub open spec fn escape_target_of(r1: int, x1: int, rel: int) -> Seq<char> {
    if r1 < 40 {
        absolute_targets()[x1]
    } else {
        dotdots((x1 + 2) as nat) + relative_targets()[rel]
    }
}

/// The escape path for the draws `r2` (of 100) and `x2`: `<base x2>/escape`
/// (r2 < 60, or an empty index), else the `x2`th path of the index.
pub open spec fn escape_path_of(
    index: Seq<crate::symlink_utils::PathInfoView>,
    r2: int,
    x2: int,
) -> Seq<char> {
    if r2 < 60 || index.len() == 0 {
        escape_bases()[x2] + "/escape"@
    } else {
        index[x2].path
    }
}

pub open spec fn escape_draws(
    index: Seq<crate::symlink_utils::PathInfoView>,
    r1: int,
    x1: int,
    rel: int,
    r2: int,
    x2: int,
) -> bool {
    &&& 0 <= r1 < 100 && 0 <= x1 && 0 <= rel && 0 <= r2 < 100 && 0 <= x2
    &&& r1 < 40 ==> x1 < 10 && rel == 0
    &&& r1 >= 40 ==> x1 < 7 && rel < 10
    &&& (r2 < 60 || index.len() == 0) ==> x2 < 5
    &&& !(r2 < 60 || index.len() == 0) ==> x2 < index.len()
}

/// Plants a symlink that points outside the container root.
#[derive(Debug)]
pub struct SymlinkEscapeMutator {
    pub index: Arc<BaselineIndex>,
}

impl SymlinkEscapeMutator {
    pub fn new(index: Arc<BaselineIndex>) -> (m: Self)
        ensures
            m.index == index,
    {
        SymlinkEscapeMutator { index }
    }

    /// Draws the target (kind, then an absolute target or a depth and a
    /// relative target) and the path (kind, then a base or an index entry),
    /// then applies [`SymlinkEscapeMutator::step`]; a full delta is skipped
    /// first.
    pub fn mutate(&self, rand: &mut StdRand, input: &mut FsDelta) -> (res: MutationResult)
        requires
            self.index.wf(),
        ensures
            old(input)@.len() <= MAX_OPS ==> final(input)@.len() <= MAX_OPS,
            old(input)@.len() >= MAX_OPS ==> res == MutationResult::Skipped,
            res == MutationResult::Skipped ==> final(input)@ == old(input)@,
            res == MutationResult::Mutated ==> symlink_planted(
                self.index@,
                old(input)@,
                final(input)@,
                |p: Seq<char>, t: Seq<char>| escape_path(self.index@, p) && escape_target(t),
            ),
            old(input)@.len() < MAX_OPS && every_choice_fits(
                self.index@,
                old(input)@,
                |p: Seq<char>, t: Seq<char>| escape_path(self.index@, p) && escape_target(t),
            ) ==> res == MutationResult::Mutated,
            old(input)@.len() < MAX_OPS ==> exists|r1: int, x1: int, rel: int, r2: int, x2: int|
                escape_draws(self.index@, r1, x1, rel, r2, x2) && appended_if_room(
                    old(input)@,
                    #[trigger] replace_spec(
                        self.index@,
                        escape_path_of(self.index@, r2, x2),
                        escape_target_of(r1, x1, rel),
                    ),
                    final(input)@,
                    res,
                ),
    {
        if input.ops.len() >= MAX_OPS {
            return MutationResult::Skipped;
        }
        let r1 = below(rand, 100);
        let (x1, rel) = if r1 < 40 {
            (below(rand, 10), 0)
        } else {
            let x1 = below(rand, 7);
            let rel = below(rand, 10);
            (x1, rel)
        };
        let r2 = below(rand, 100);
        let x2 = if r2 < 60 || self.index.entries.len() == 0 {
            below(rand, 5)
        } else {
            below(rand, self.index.entries.len())
        };
        self.step(input, r1, x1, rel, r2, x2)
    }

    /// Replaces [`escape_path_of`] by a symlink to [`escape_target_of`] for the
    /// draws, when the ops fit.
    pub fn step(
        &self,
        input: &mut FsDelta,
        r1: usize,
        x1: usize,
        rel: usize,
        r2: usize,
        x2: usize,
    ) -> (res: MutationResult)
        requires
            self.index.wf(),
            escape_draws(self.index@, r1 as int, x1 as int, rel as int, r2 as int, x2 as int),
        ensures
            appended_if_room(
                old(input)@,
                replace_spec(
                    self.index@,
                    escape_path_of(self.index@, r2 as int, x2 as int),
                    escape_target_of(r1 as int, x1 as int, rel as int),
                ),
                final(input)@,
                res,
            ),
            escape_path(self.index@, escape_path_of(self.index@, r2 as int, x2 as int)),
            escape_target(escape_target_of(r1 as int, x1 as int, rel as int)),
    {
        let target: String = if r1 < 40 {
            let abs = absolute_target_choices();
            assert(abs@[x1 as int]@ == absolute_targets()[x1 as int]);
            owned(abs[x1])
        } else {
            let rels: [&'static str; 10] = [
                "etc/passwd",
                "etc/shadow",
                "proc/self/exe",
                "proc/self/mem",
                "proc/sysrq-trigger",
                "dev/sda",
                "dev/zero",
                "run/containerd",
                "var/run/docker.sock",
                "proc/self/fd",
            ];
            assert(strs_view(rels@) =~= relative_targets());
            assert(rels@[rel as int]@ == relative_targets()[rel as int]);
            up_path(x1 + 2, rels[rel])
        };
        assert(target@ == escape_target_of(r1 as int, x1 as int, rel as int));
        assert(escape_target(target@)) by {
            if r1 < 40 {
                assert(absolute_targets().contains(target@));
            } else {
                assert(relative_targets().contains(relative_targets()[rel as int]));
                assert(dotdots((x1 + 2) as nat) == dotdots((x1 + 2) as nat));
            }
        }
        let path: String = if r2 < 60 || self.index.entries.len() == 0 {
            let bases: [&'static str; 5] = ["/bin", "/etc", "/lib", "/proc", "/dev"];
            assert(strs_view(bases@) =~= escape_bases());
            let base = bases[x2];
            assert(base@ == escape_bases()[x2 as int]);
            let mut p = owned(base);
            p.append("/escape");
            assert(escape_bases().contains(base@));
            p
        } else {
            assert(self.index@[x2 as int] == self.index.entries@[x2 as int]@);
            let p = self.index.entries[x2].path.clone();
            p
        };
        assert(path@ == escape_path_of(self.index@, r2 as int, x2 as int));
        assert(escape_path(self.index@, path@));
        plant(&self.index, input, path.as_str(), target.as_str())
    }
}

// ── LoopAndDepthMutator ─────────────────────────────────────────────────────

/// "/s" followed by the decimal representation of `i`.
pub open spec fn chain_name(i: nat) -> Seq<char> {
    "/s"@ + decimal(i)
}

/// A chain of `n` symlinks that ends at `anchor`:
/// `/s0 -> /s1 -> ... -> /s{n-1} -> anchor`.
pub open spec fn chain_ops(n: nat, anchor: Seq<char>) -> Seq<OpView> {
    Seq::new(
        n,
        |k: int|
            symlink_op(
                chain_name(k as nat),
                if k + 1 < n {
                    chain_name((k + 1) as nat)
                } else {
                    anchor
                },
            ),
    )
}

pub open spec fn chain_lengths() -> Seq<nat> {
    seq![1nat, 5, 10, 39, 40, 41]
}

pub open spec fn chain_anchors() -> Seq<Seq<char>> {
    seq!["/proc"@, "/dev"@, "/bin/true"@]
}

/// The op sequences [`LoopAndDepthMutator`] appends: a self-loop, a two-cycle,
/// a chain of N links ending at an anchor, a target near PATH_MAX, or a target
/// with repeated slashes.
pub open spec fn loop_ops(ops: Seq<OpView>) -> bool {
    ||| ops == seq![symlink_op("/fuzz_loop"@, "/fuzz_loop"@)]
    ||| ops == seq![symlink_op("/fuzz_a"@, "/fuzz_b"@), symlink_op("/fuzz_b"@, "/fuzz_a"@)]
    ||| exists|n: nat, anchor: Seq<char>|
        #![trigger chain_ops(n, anchor)]
        chain_lengths().contains(n) && chain_anchors().contains(anchor) && ops == chain_ops(n, anchor)
    ||| ops == seq![symlink_op("/fuzz_long"@, dotdots(20) + "proc/self/exe"@)]
    ||| ops == seq![symlink_op("/fuzz_slash"@, "////proc//self//exe"@)]
}

/// The ops [`LoopAndDepthMutator`] appends for the draws `r` (the kind, of
/// 100), `j` (the chain length) and `a` (the chain anchor): a self-loop
/// (r < 20), a two-cycle (r < 40), a chain (r < 70), a target near PATH_MAX
/// (r < 85) or a target with repeated slashes.
pub open spec fn loop_choice(r: int, j: int, a: int) -> Seq<OpView> {
    if r < 20 {
        seq![symlink_op("/fuzz_loop"@, "/fuzz_loop"@)]
    } else if r < 40 {
        seq![symlink_op("/fuzz_a"@, "/fuzz_b"@), symlink_op("/fuzz_b"@, "/fuzz_a"@)]
    } else if r < 70 {
        chain_ops(chain_lengths()[j], chain_anchors()[a])
    } else if r < 85 {
        seq![symlink_op("/fuzz_long"@, dotdots(20) + "proc/self/exe"@)]
    } else {
        seq![symlink_op("/fuzz_slash"@, "////proc//self//exe"@)]
    }
}

/// `ops` appended to `old` when they fit in the room it leaves (then
/// `Mutated`), else `old` unchanged (then `Skipped`).
pub open spec fn appended_if_room(
    old: Seq<OpView>,
    ops: Seq<OpView>,
    new: Seq<OpView>,
    res: MutationResult,
) -> bool {
    if ops.len() <= room(old.len()) {
        res == MutationResult::Mutated && new == old + ops
    } else {
        res == MutationResult::Skipped && new == old
    }
}

/// Symlink loops, cycles, long chains and pathological targets.
#[derive(Debug)]
pub struct LoopAndDepthMutator;

impl LoopAndDepthMutator {
    pub fn new() -> Self {
        LoopAndDepthMutator
    }

    /// Draws the kind (of 100) and, for a chain, its length and anchor, then
    /// applies [`LoopAndDepthMutator::step`]; a full delta is skipped first.
    pub fn mutate(&self, rand: &mut StdRand, input: &mut FsDelta) -> (res: MutationResult)
        ensures
            old(input)@.len() <= MAX_OPS ==> final(input)@.len() <= MAX_OPS,
            old(input)@.len() >= MAX_OPS ==> res == MutationResult::Skipped,
            (forall|i: int|
                0 <= i < chain_lengths().len() ==> old(input)@.len() + #[trigger] chain_lengths()[i]
                    <= MAX_OPS) ==> res == MutationResult::Mutated,
            res == MutationResult::Skipped ==> final(input)@ == old(input)@,
            res == MutationResult::Mutated ==> final(input)@.len() <= MAX_OPS && exists|
                ops: Seq<OpView>,
            |
                loop_ops(ops) && #[trigger] (old(input)@ + ops) == final(input)@,
            old(input)@.len() < MAX_OPS ==> exists|r: int, j: int, a: int|
                0 <= r < 100 && 0 <= j < 6 && 0 <= a < 3 && appended_if_room(
                    old(input)@,
                    #[trigger] loop_choice(r, j, a),
                    final(input)@,
                    res,
                ),
    {
        if input.ops.len() >= MAX_OPS {
            assert(chain_lengths()[0] == 1);
            return MutationResult::Skipped;
        }
        let r = below(rand, 100);
        let (j, a) = if 40 <= r && r < 70 {
            let j = below(rand, 6);
            let a = below(rand, 3);
            (j, a)
        } else {
            (0, 0)
        };
        let ghost old_ops = input@;
        let res = self.step(input, r, j, a);
        assert(appended_if_room(old_ops, loop_choice(r as int, j as int, a as int), input@, res));
        res
    }

    /// Appends the ops of [`loop_choice`] for the draws `r`, `j`, `a` when they
    /// fit in the room the delta leaves.
    pub fn step(&self, input: &mut FsDelta, r: usize, j: usize, a: usize) -> (res: MutationResult)
        requires
            r < 100,
            j < 6,
            a < 3,
        ensures
            appended_if_room(old(input)@, loop_choice(r as int, j as int, a as int), final(input)@, res),
            old(input)@.len() <= MAX_OPS ==> final(input)@.len() <= MAX_OPS,
            res == MutationResult::Mutated ==> loop_ops(loop_choice(r as int, j as int, a as int)),
            old(input)@.len() < MAX_OPS && (forall|i: int|
                0 <= i < chain_lengths().len() ==> old(input)@.len() + #[trigger] chain_lengths()[i]
                    <= MAX_OPS) ==> res == MutationResult::Mutated,
    {
        let ghost choice = loop_choice(r as int, j as int, a as int);
        let mut ops: Vec<FsOp> = Vec::new();
        if r < 20 {
            ops.push(FsOp::create_symlink("/fuzz_loop", "/fuzz_loop"));
        } else if r < 40 {
            ops.push(FsOp::create_symlink("/fuzz_a", "/fuzz_b"));
            ops.push(FsOp::create_symlink("/fuzz_b", "/fuzz_a"));
        } else if r < 70 {
            let lengths: [usize; 6] = [1, 5, 10, 39, 40, 41];
            let n = lengths[j];
            assert(chain_lengths()[j as int] == n as nat);
            let anchors: [&'static str; 3] = ["/proc", "/dev", "/bin/true"];
            assert(strs_view(anchors@) =~= chain_anchors());
            let anchor = anchors[a];
            assert(anchor@ == chain_anchors()[a as int]);
            assert(chain_lengths().contains(n as nat));
            assert(chain_anchors().contains(anchor@));
            let ghost chain = chain_ops(n as nat, anchor@);
            let mut i: usize = 0;
            while i + 1 < n
                invariant
                    1 <= n <= 41,
                    i < n,
                    chain == chain_ops(n as nat, anchor@),
                    ops_view(ops@) == chain.subrange(0, i as int),
                decreases n - i,
            {
                let mut from = owned("/s");
                from.append(decimal_string(i).as_str());
                let mut to = owned("/s");
                to.append(decimal_string(i + 1).as_str());
                let ghost before = ops@;
                let op = FsOp::create_symlink(from.as_str(), to.as_str());
                let ghost ov = op@;
                ops.push(op);
                assert(ops_view(ops@) =~= ops_view(before).push(ov));
                assert(chain[i as int] == symlink_op(chain_name(i as nat), chain_name((i + 1) as nat)));
                assert(ops_view(ops@) =~= chain.subrange(0, i + 1));
                i += 1;
            }
            let mut last = owned("/s");
            last.append(decimal_string(n - 1).as_str());
            let ghost before = ops@;
            let op = FsOp::create_symlink(last.as_str(), anchor);
            let ghost ov = op@;
            ops.push(op);
            assert(ops_view(ops@) =~= ops_view(before).push(ov));
            assert(chain[(n - 1) as int] == symlink_op(chain_name((n - 1) as nat), anchor@));
            assert(chain.subrange(0, (n - 1) as int).push(chain[(n - 1) as int]) =~= chain);
            assert(ops_view(ops@) =~= chain);
        } else if r < 85 {
            let long_target = up_path(20, "proc/self/exe");
            ops.push(FsOp::create_symlink("/fuzz_long", long_target.as_str()));
        } else {
            ops.push(FsOp::create_symlink("/fuzz_slash", "////proc//self//exe"));
        }
        assert(ops_view(ops@) =~= choice);
        let ghost old_ops = input@;
        let res = extend_if_room(input, ops);
        proof {
            if choice.len() > room(old_ops.len()) {
                assert(res == MutationResult::Skipped);
            }
            if r >= 40 && r < 70 {
                assert(choice.len() == chain_lengths()[j as int]);
            }
        }
        res
    }
}

fn push_link(input: &mut FsDelta, path: &str, target: &str)
    ensures
        final(input)@ == old(input)@ + seq![symlink_op(path@, target@)],
{
    input.ops.push(FsOp::create_symlink(path, target));
    assert(input@ =~= old(input)@ + seq![symlink_op(path@, target@)]);
}


// ── Laws of the symlink mutators' draws ─────────────────────────────────────

/// Loops and depth: a draw below 20 plants a self-loop, below 40 a two-cycle,
/// below 70 one chain `/s0 -> /s1 -> ... -> anchor` of the drawn length, below
/// 85 a link whose target climbs twenty levels before `proc/self/exe`, and
/// otherwise a link whose target repeats slashes. The ops are appended whole
/// when they fit, and not at all otherwise.
pub proof fn lemma_loop_choice_law(r: int, j: int, a: int, old: Seq<OpView>, new: Seq<OpView>, res: MutationResult)
    requires
        0 <= r < 100,
        0 <= j < 6,
        0 <= a < 3,
    ensures
        ({
            let ops = loop_choice(r, j, a);
            &&& r < 20 ==> ops == seq![symlink_op("/fuzz_loop"@, "/fuzz_loop"@)]
            &&& 20 <= r < 40 ==> ops.len() == 2 && ops[0].path == ops[1].target && ops[1].path
                == ops[0].target && ops[0].path == "/fuzz_a"@ && ops[1].path == "/fuzz_b"@
            &&& 40 <= r < 70 ==> {
                &&& ops.len() == chain_lengths()[j]
                &&& forall|q: int| 0 <= q < ops.len() ==> #[trigger] ops[q] == symlink_op(
                    "/s"@ + decimal(q as nat),
                    ops[q].target,
                )
                &&& forall|q: int| 0 <= q < ops.len() - 1 ==> #[trigger] ops[q].target == ops[q + 1].path
                &&& ops.last().target == chain_anchors()[a]
            }
            &&& 70 <= r < 85 ==> ops == seq![
                symlink_op("/fuzz_long"@, dotdots(20) + "proc/self/exe"@),
            ]
            &&& 85 <= r ==> ops == seq![symlink_op("/fuzz_slash"@, "////proc//self//exe"@)]
            &&& appended_if_room(old, ops, new, res) ==> (res == MutationResult::Mutated <==> old.len()
                + ops.len() <= MAX_OPS)
        }),
{
    let ops = loop_choice(r, j, a);
    if 40 <= r < 70 {
        let n = chain_lengths()[j];
        assert(n >= 1);
        assert forall|q: int| 0 <= q < ops.len() - 1 implies #[trigger] ops[q].target == ops[q + 1].path by {
            assert(ops[q] == chain_ops(n, chain_anchors()[a])[q]);
        }
        assert(ops[ops.len() - 1] == chain_ops(n, chain_anchors()[a])[n - 1]);
    }
}

/// A mount destination's link: a draw below 35 climbs 2 to 5 levels and
/// comes back to the destination, below 60 names an absolute special path,
/// below 80 a wrong file (`/etc/passwd` for `/proc`, else `/bin/true`), below
/// 95 a missing path, else `/dev/null` or `/proc/self/fd`.
pub proof fn lemma_mount_dest_target_law(d: int, r: int, x: int)
    requires
        mount_dest_draws(d, r, x),
    ensures
        ({
            let p = mount_destinations()[d];
            let t = mount_dest_target_of(p, r, x);
            &&& r < 35 ==> exists|k: nat| 2 <= k <= 5 && t == dotdots(k) + p.drop_first()
            &&& 35 <= r < 60 ==> absolute_targets().contains(t)
            &&& 60 <= r < 80 ==> (p == "/proc"@ ==> t == "/etc/passwd"@) && (p != "/proc"@ ==> t
                == "/bin/true"@)
            &&& 80 <= r < 95 ==> t == "/nonexistent"@
            &&& 95 <= r ==> t == "/dev/null"@ || t == "/proc/self/fd"@
        }),
{
    let p = mount_destinations()[d];
    if r < 35 {
        assert(mount_dest_target_of(p, r, x) == dotdots((x + 2) as nat) + p.drop_first());
    } else if r < 60 {
        assert(absolute_targets().contains(absolute_targets()[x]));
    }
}

/// A parent directory's link: on coin 0 it climbs 2 to 4 levels and comes
/// back to the directory, else it names an absolute special path.
pub proof fn lemma_parent_target_law(c: int, dd: int, coin: int, a: int)
    requires
        parent_draws(c, dd, coin, a),
    ensures
        ({
            let p = parent_components()[c];
            let t = parent_target_of(p, dd, coin, a);
            &&& parent_components().contains(p)
            &&& coin == 0 ==> exists|k: nat| 2 <= k <= 4 && t == dotdots(k) + p.drop_first()
            &&& coin == 1 ==> absolute_targets().contains(t)
        }),
{
    let p = parent_components()[c];
    if coin == 0 {
        assert(parent_target_of(p, dd, coin, a) == dotdots((dd + 2) as nat) + p.drop_first());
    } else {
        assert(absolute_targets().contains(absolute_targets()[a]));
    }
}

/// An escape: a draw below 40 targets an absolute special path, any other a
/// sensitive relative path 2 to 8 levels up; the link is planted at
/// `<base>/escape` on a second draw below 60 (or with an empty index), else
/// at a path the index records.
pub proof fn lemma_escape_law(
    index: Seq<crate::symlink_utils::PathInfoView>,
    r1: int,
    x1: int,
    rel: int,
    r2: int,
    x2: int,
)
    requires
        escape_draws(index, r1, x1, rel, r2, x2),
    ensures
        ({
            let t = escape_target_of(r1, x1, rel);
            let p = escape_path_of(index, r2, x2);
            &&& r1 < 40 ==> absolute_targets().contains(t)
            &&& r1 >= 40 ==> exists|k: nat| 2 <= k <= 8 && t == dotdots(k) + relative_targets()[rel]
            &&& (r2 < 60 || index.len() == 0) ==> exists|b: Seq<char>|
                escape_bases().contains(b) && p == b + "/escape"@
            &&& !(r2 < 60 || index.len() == 0) ==> exists|k: int| 0 <= k < index.len() && index[k].path == p
        }),
{
    if r1 < 40 {
        assert(absolute_targets().contains(absolute_targets()[x1]));
    } else {
        assert(escape_target_of(r1, x1, rel) == dotdots((x1 + 2) as nat) + relative_targets()[rel]);
    }
    if r2 < 60 || index.len() == 0 {
        assert(escape_bases().contains(escape_bases()[x2]));
    } else {
        assert(index[x2].path == escape_path_of(index, r2, x2));
    }
}

} // verus!
