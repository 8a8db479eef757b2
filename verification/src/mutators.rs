//! Mutators over filesystem deltas.
//!
//! Each mutator draws from a [`StdRand`] and reads the latest FUSE guidance
//! passed in by the caller; it either changes the delta and answers
//! [`MutationResult::Mutated`], or leaves it as it was and answers
//! [`MutationResult::Skipped`].

use vstd::prelude::*;
use vstd::pervasive::VecAdditionalExecFns;

use crate::delta::{create_op, is_content_kind, ops_view, plain_op, times_op, update_op, FsDelta, FsOp, FsOpKind, OpView};
use crate::gen::{choose_listed_or, dictionary_entry, draw_listed_or, listed_or, listed_or_draws,
    dictionary, is_random_path, join_abs, join_segments, path_component, path_components,
    is_fuzz_timestamp, path_segments, pick_timestamp,
    random_content, random_path, split_segments, strs_view,
};
use crate::guidance::GuidanceView;
use crate::guidance::MutationGuidance;
use crate::rng::{below, StdRand};
use crate::text::strings_view;

verus! {

/// Mutators that add ops leave a delta with at most this many ops.
pub const MAX_OPS: usize = 48;

/// Size at which a live corpus evicts a random non-seed entry.
pub const MAX_LIVE_CORPUS: usize = 128;

/// What a mutator did to its input.
#[derive(Clone, Copy, Debug, PartialEq, Eq, Structural)]
pub enum MutationResult {
    Mutated,
    Skipped,
}

// ── Shared specifications ───────────────────────────────────────────────────

/// `new` is `old` with at most the op at `c` changed.
pub open spec fn only_changed_at(old: Seq<OpView>, new: Seq<OpView>, c: int) -> bool {
    &&& 0 <= c < old.len()
    &&& new.len() == old.len()
    &&& forall|i: int| 0 <= i < old.len() && i != c ==> new[i] == old[i]
}

/// Same kind, path, target and times.
pub open spec fn same_meta(a: OpView, b: OpView) -> bool {
    &&& a.kind == b.kind
    &&& a.path == b.path
    &&& a.target == b.target
    &&& a.mtime_sec == b.mtime_sec
    &&& a.mtime_nsec == b.mtime_nsec
    &&& a.atime_sec == b.atime_sec
    &&& a.atime_nsec == b.atime_nsec
}

/// `a` and `b` have the same length and differ only at the positions in `idx`.
pub open spec fn differs_only_at(a: Seq<u8>, b: Seq<u8>, idx: Seq<int>) -> bool {
    &&& a.len() == b.len()
    &&& forall|i: int| 0 <= i < a.len() && !idx.contains(i) ==> a[i] == b[i]
}

/// `a` and `b` have the same length and differ in at most `k` positions.
pub open spec fn differs_in_at_most(a: Seq<u8>, b: Seq<u8>, k: nat) -> bool {
    exists|idx: Seq<int>| idx.len() <= k && differs_only_at(a, b, idx)
}

/// A file op with content: the target of the byte-level mutators.
pub open spec fn is_flip_candidate(o: OpView) -> bool {
    is_content_kind(o.kind) && o.content.len() > 0
}

pub open spec fn has_flip_candidate(s: Seq<OpView>) -> bool {
    exists|i: int| 0 <= i < s.len() && is_flip_candidate(#[trigger] s[i])
}

pub open spec fn has_content_op(s: Seq<OpView>) -> bool {
    exists|i: int| 0 <= i < s.len() && is_content_kind(#[trigger] s[i].kind)
}

/// Content drawn by the content generators: a dictionary entry, or 1 to 64 random bytes.
pub open spec fn is_generated_content(c: Seq<u8>) -> bool {
    dictionary().contains(c) || 1 <= c.len() <= 64
}

/// The indices below `n` of the content ops of `s` (with content, when
/// `need_content`), in order.
pub open spec fn candidate_list(s: Seq<OpView>, need_content: bool, n: int) -> Seq<usize>
    decreases n,
{
    if n <= 0 {
        Seq::empty()
    } else {
        let c = candidate_list(s, need_content, n - 1);
        if is_content_kind(s[n - 1].kind) && (need_content ==> s[n - 1].content.len() > 0) {
            c.push((n - 1) as usize)
        } else {
            c
        }
    }
}

/// The indices `i < n` of ops in `s` that satisfy `flip` (when `flip`) or that
/// are content ops (otherwise), as a list of candidates.
fn candidates(input: &FsDelta, need_content: bool) -> (c: Vec<usize>)
    ensures
        c@ == candidate_list(input@, need_content, input@.len() as int),
        forall|k: int|
            0 <= k < c@.len() ==> #[trigger] c@[k] < input@.len() && is_content_kind(
                input@[c@[k] as int].kind,
            ) && (need_content ==> input@[c@[k] as int].content.len() > 0),
        (c@.len() == 0) <==> (if need_content {
            !has_flip_candidate(input@)
        } else {
            !has_content_op(input@)
        }),
{
    let mut c: Vec<usize> = Vec::new();
    let n = input.ops.len();
    for i in 0..n
        invariant
            n == input@.len(),
            c@ == candidate_list(input@, need_content, i as int),
            forall|k: int|
                0 <= k < c@.len() ==> #[trigger] c@[k] < i && is_content_kind(
                    input@[c@[k] as int].kind,
                ) && (need_content ==> input@[c@[k] as int].content.len() > 0),
            (c@.len() == 0) ==> forall|j: int|
                0 <= j < i ==> !(is_content_kind(#[trigger] input@[j].kind) && (need_content
                    ==> input@[j].content.len() > 0)),
    {
        let op = &input.ops[i];
        assert(input@[i as int] == op@);
        if (op.kind == FsOpKind::CreateFile || op.kind == FsOpKind::UpdateFile) && (!need_content
            || op.content.len() > 0) {
            c.push(i);
        }
    }
    proof {
        if c@.len() > 0 {
            let j = c@[0] as int;
            if need_content {
                assert(is_flip_candidate(input@[j]));
            } else {
                assert(is_content_kind(input@[j].kind));
            }
        }
    }
    c
}

/// Takes the op at `i` out of the delta, to be put back with [`put_back`].
fn take_op(input: &mut FsDelta, i: usize) -> (op: FsOp)
    requires
        i < old(input)@.len(),
    ensures
        op@ == old(input)@[i as int],
        final(input)@ == old(input)@.remove(i as int),
{
    let op = input.ops.remove(i);
    assert(input@ =~= old(input)@.remove(i as int));
    op
}

fn put_back(input: &mut FsDelta, i: usize, op: FsOp)
    requires
        i <= old(input)@.len(),
    ensures
        final(input)@ == old(input)@.insert(i as int, op@),
{
    input.ops.insert(i, op);
    assert(input@ =~= old(input)@.insert(i as int, op@));
}

fn push_op(input: &mut FsDelta, op: FsOp)
    ensures
        final(input)@ == old(input)@.push(op@),
{
    input.ops.push(op);
    assert(input@ =~= old(input)@.push(op@));
}

proof fn lemma_remove_insert(s: Seq<OpView>, i: int, x: OpView)
    requires
        0 <= i < s.len(),
    ensures
        s.remove(i).insert(i, x) == s.update(i, x),
        only_changed_at(s, s.update(i, x), i),
{
    assert(s.remove(i).insert(i, x) =~= s.update(i, x));
}

// ── ByteFlipFileContent ─────────────────────────────────────────────────────

/// The op at `c` got 1 to 8 bytes appended (size follows), or had at most 4
/// of its bytes overwritten (size unchanged).
pub open spec fn byte_flip_outcome(old: Seq<OpView>, new: Seq<OpView>) -> bool {
    exists|c: int|
        #![trigger old[c], new[c]]
        only_changed_at(old, new, c) && is_flip_candidate(old[c]) && same_meta(old[c], new[c]) && ({
            let (a, b) = (old[c].content, new[c].content);
            ||| (a.len() < b.len() <= a.len() + 8 && b.subrange(0, a.len() as int) == a && new[c].size
                == b.len())
            ||| (differs_in_at_most(a, b, 4) && new[c].size == old[c].size)
        })
}

/// Sets 1-4 bytes in a file op, or appends up to 8 (20%).
#[derive(Debug)]
pub struct ByteFlipFileContent {
    pub guidance: MutationGuidance,
}

impl ByteFlipFileContent {
    pub fn new() -> (m: Self)
        ensures
            m.guidance@.write.len() == 0 && m.guidance@.enoent.len() == 0
                && m.guidance@.recreate.len() == 0,
    {
        ByteFlipFileContent { guidance: MutationGuidance::none() }
    }

    /// Draws a candidate op (with content), a kind of 100, then either 1 to 8
    /// bytes to append (kind < 20) or 1 to 4 (position, byte) pairs to set,
    /// and applies [`ByteFlipFileContent::step`].
    pub fn mutate(&self, rand: &mut StdRand, input: &mut FsDelta) -> (res: MutationResult)
        ensures
            old(input)@.len() <= MAX_OPS ==> final(input)@.len() <= MAX_OPS,
            (res == MutationResult::Skipped) <==> !has_flip_candidate(old(input)@),
            res == MutationResult::Skipped ==> final(input)@ == old(input)@,
            res == MutationResult::Mutated ==> byte_flip_outcome(old(input)@, final(input)@),
            res == MutationResult::Mutated ==> exists|k: int, r: int, bytes: Seq<u8>, sets: Seq<(usize, u8)>|
                0 <= k < candidate_list(old(input)@, true, old(input)@.len() as int).len()
                    && byte_flip_draws(
                    old(input)@[candidate_list(old(input)@, true, old(input)@.len() as int)[k] as int],
                    r,
                    bytes,
                    sets,
                ) && final(input)@ == #[trigger] byte_flip_of(
                    old(input)@,
                    candidate_list(old(input)@, true, old(input)@.len() as int)[k] as int,
                    r,
                    bytes,
                    sets,
                ),
    {
        let cands = candidates(input, true);
        if cands.len() == 0 {
            return MutationResult::Skipped;
        }
        let k = below(rand, cands.len());
        let chosen = cands[k];
        let content_len = input.ops[chosen].content.len();
        assert(input@[chosen as int] == input.ops@[chosen as int]@);
        let r = below(rand, 100);
        let mut bytes: Vec<u8> = Vec::new();
        let mut sets: Vec<(usize, u8)> = Vec::new();
        if r < 20 {
            let n = 1 + below(rand, 8);
            for _j in 0..n
                invariant
                    bytes@.len() == _j,
            {
                bytes.push(below(rand, 256) as u8);
            }
        } else {
            let n = 1 + below(rand, 4);
            for _j in 0..n
                invariant
                    content_len > 0,
                    sets@.len() == _j,
                    forall|q: int| 0 <= q < sets@.len() ==> (#[trigger] sets@[q]).0 < content_len,
            {
                let i = below(rand, content_len);
                let v = below(rand, 256) as u8;
                sets.push((i, v));
            }
        }
        let ghost old_ops = input@;
        let res = self.step(input, chosen, r, &bytes, &sets);
        assert(input@ == byte_flip_of(old_ops, chosen as int, r as int, bytes@, sets@));
        res
    }

    /// Changes op `c` for the draws (see [`byte_flip_of`]).
    pub fn step(
        &self,
        input: &mut FsDelta,
        c: usize,
        r: usize,
        bytes: &Vec<u8>,
        sets: &Vec<(usize, u8)>,
    ) -> (res: MutationResult)
        requires
            c < old(input)@.len(),
            is_flip_candidate(old(input)@[c as int]),
            byte_flip_draws(old(input)@[c as int], r as int, bytes@, sets@),
        ensures
            res == MutationResult::Mutated,
            final(input)@ == byte_flip_of(old(input)@, c as int, r as int, bytes@, sets@),
            byte_flip_outcome(old(input)@, final(input)@),
    {
        let ghost old_ops = input@;
        let mut op = take_op(input, c);
        let ghost a = op.content@;
        let ghost o = op@;
        let content_len = op.content.len();
        if r < 20 {
            let n = bytes.len();
            for q in 0..n
                invariant
                    n == bytes@.len(),
                    op.content@ == a + bytes@.subrange(0, q as int),
                    same_meta(op@, o),
                    op.size == o.size,
            {
                op.content.push(bytes[q]);
                assert(op.content@ =~= a + bytes@.subrange(0, q + 1));
            }
            assert(bytes@.subrange(0, n as int) =~= bytes@);
            op.size = op.content.len();
            assert(op.content@.subrange(0, a.len() as int) =~= a);
        } else {
            let n = sets.len();
            let ghost mut idx: Seq<int> = Seq::empty();
            for q in 0..n
                invariant
                    n == sets@.len(),
                    content_len == a.len(),
                    byte_flip_draws(o, r as int, bytes@, sets@),
                    r >= 20,
                    o.content == a,
                    idx.len() == q,
                    op.content@ == set_bytes(a, sets@.subrange(0, q as int)),
                    differs_only_at(a, op.content@, idx),
                    same_meta(op@, o),
                    op.size == o.size,
            {
                let (byte_idx, v) = sets[q];
                assert(sets@[q as int].0 < a.len());
                let ghost before = op.content@;
                let ghost old_idx = idx;
                op.content.set(byte_idx, v);
                assert(sets@.subrange(0, q + 1).drop_last() =~= sets@.subrange(0, q as int));
                proof {
                    idx = idx.push(byte_idx as int);
                    assert forall|i: int|
                        0 <= i < a.len() && !idx.contains(i) implies a[i] == op.content@[i] by {
                        if old_idx.contains(i) {
                            let w = choose|w: int| 0 <= w < old_idx.len() && old_idx[w] == i;
                            assert(idx[w] == i);
                        }
                        assert(idx[idx.len() - 1] == byte_idx);
                        assert(i != byte_idx);
                        assert(op.content@[i] == before[i]);
                    }
                }
            }
            assert(sets@.subrange(0, n as int) =~= sets@);
            assert(differs_in_at_most(a, op.content@, 4));
        }
        let ghost newop = op@;
        put_back(input, c, op);
        proof {
            lemma_remove_insert(old_ops, c as int, newop);
            assert(input@[c as int] == newop);
            assert(newop == flipped_op(o, r as int, bytes@, sets@));
            assert(byte_flip_outcome(old_ops, input@)) by {
                assert(old_ops[c as int] == old_ops[c as int]);
            }
        }
        MutationResult::Mutated
    }
}

/// `a` with each (position, byte) of `sets` written in turn.
pub open spec fn set_bytes(a: Seq<u8>, sets: Seq<(usize, u8)>) -> Seq<u8>
    decreases sets.len(),
{
    if sets.len() == 0 {
        a
    } else {
        set_bytes(a, sets.drop_last()).update(sets.last().0 as int, sets.last().1)
    }
}

/// Op `o` after the byte-level draws: `bytes` appended with the size following
/// (`r < 20`), else the `sets` written with the size unchanged.
pub open spec fn flipped_op(o: OpView, r: int, bytes: Seq<u8>, sets: Seq<(usize, u8)>) -> OpView {
    if r < 20 {
        OpView { content: o.content + bytes, size: (o.content + bytes).len() as usize, ..o }
    } else {
        OpView { content: set_bytes(o.content, sets), ..o }
    }
}

pub open spec fn byte_flip_of(
    old: Seq<OpView>,
    c: int,
    r: int,
    bytes: Seq<u8>,
    sets: Seq<(usize, u8)>,
) -> Seq<OpView> {
    old.update(c, flipped_op(old[c], r, bytes, sets))
}

/// Valid byte-level draws for op `o`: a kind of 100, 1 to 8 bytes to append
/// (kind < 20) or 1 to 4 writes inside the content.
pub open spec fn byte_flip_draws(o: OpView, r: int, bytes: Seq<u8>, sets: Seq<(usize, u8)>) -> bool {
    &&& 0 <= r < 100
    &&& r < 20 ==> 1 <= bytes.len() <= 8
    &&& r >= 20 ==> 1 <= sets.len() <= 4 && forall|q: int|
        0 <= q < sets.len() ==> (#[trigger] sets[q]).0 < o.content.len()
}

// ── ReplaceFileContent ──────────────────────────────────────────────────────

/// The content of the file op at `c` was replaced by generated content (size follows).
pub open spec fn replace_content_outcome(old: Seq<OpView>, new: Seq<OpView>) -> bool {
    exists|c: int|
        #![trigger old[c], new[c]]
        only_changed_at(old, new, c) && is_content_kind(old[c].kind) && same_meta(old[c], new[c])
            && is_generated_content(new[c].content) && new[c].size == new[c].content.len()
}

/// Generated content for the draws: dictionary entry `d` when `r < pct`,
/// else the fresh random bytes.
pub open spec fn generated_of(pct: int, r: int, d: int, fresh: Seq<u8>) -> Seq<u8> {
    if r < pct {
        dictionary()[d]
    } else {
        fresh
    }
}

/// The op `o` with its content replaced by `c` (size follows).
pub open spec fn with_content(o: OpView, c: Seq<u8>) -> OpView {
    OpView { content: c, size: c.len() as usize, ..o }
}

/// Replaces the entire content of a random file op.
#[derive(Debug)]
pub struct ReplaceFileContent {
    pub guidance: MutationGuidance,
}

impl ReplaceFileContent {
    pub fn new() -> (m: Self)
        ensures
            m.guidance@.write.len() == 0 && m.guidance@.enoent.len() == 0
                && m.guidance@.recreate.len() == 0,
    {
        ReplaceFileContent { guidance: MutationGuidance::none() }
    }

    /// Draws a content op, a kind of 100, then a dictionary entry (kind < 40)
    /// or fresh random content, and applies [`ReplaceFileContent::step`].
    pub fn mutate(&self, rand: &mut StdRand, input: &mut FsDelta) -> (res: MutationResult)
        ensures
            old(input)@.len() <= MAX_OPS ==> final(input)@.len() <= MAX_OPS,
            (res == MutationResult::Skipped) <==> !has_content_op(old(input)@),
            res == MutationResult::Skipped ==> final(input)@ == old(input)@,
            res == MutationResult::Mutated ==> replace_content_outcome(old(input)@, final(input)@),
            res == MutationResult::Mutated ==> exists|k: int, r: int, d: int, fresh: Seq<u8>|
                0 <= k < candidate_list(old(input)@, false, old(input)@.len() as int).len() && 0 <= r
                    < 100 && 0 <= d < 18 && 1 <= fresh.len() <= 64 && final(input)@ == old(input)@.update(
                    candidate_list(old(input)@, false, old(input)@.len() as int)[k] as int,
                    #[trigger] with_content(
                        old(input)@[candidate_list(old(input)@, false, old(input)@.len() as int)[k] as int],
                        generated_of(40, r, d, fresh),
                    ),
                ),
    {
        let cands = candidates(input, false);
        if cands.len() == 0 {
            return MutationResult::Skipped;
        }
        let k = below(rand, cands.len());
        let chosen = cands[k];
        let r = below(rand, 100);
        let (d, fresh) = if r < 40 {
            (below(rand, 18), vec![0u8])
        } else {
            (0, random_content(rand))
        };
        let ghost old_ops = input@;
        let res = self.step(input, chosen, r, d, fresh);
        assert(input@ == old_ops.update(
            chosen as int,
            with_content(old_ops[chosen as int], generated_of(40, r as int, d as int, fresh@)),
        ));
        res
    }

    /// Replaces the content of op `c` by [`generated_of`] for the draws.
    pub fn step(&self, input: &mut FsDelta, c: usize, r: usize, d: usize, fresh: Vec<u8>) -> (res:
        MutationResult)
        requires
            c < old(input)@.len(),
            is_content_kind(old(input)@[c as int].kind),
            r < 100,
            d < 18,
            1 <= fresh@.len() <= 64,
        ensures
            res == MutationResult::Mutated,
            final(input)@ == old(input)@.update(
                c as int,
                with_content(old(input)@[c as int], generated_of(40, r as int, d as int, fresh@)),
            ),
            replace_content_outcome(old(input)@, final(input)@),
    {
        let new_content = if r < 40 {
            dictionary_entry(d)
        } else {
            fresh
        };
        assert(is_generated_content(new_content@)) by {
            if r < 40 {
                assert(dictionary().contains(dictionary()[d as int]));
            }
        }
        let ghost old_ops = input@;
        let mut op = take_op(input, c);
        op.size = new_content.len();
        op.content = new_content;
        let ghost newop = op@;
        put_back(input, c, op);
        proof {
            lemma_remove_insert(old_ops, c as int, newop);
            assert(input@[c as int] == newop);
        }
        MutationResult::Mutated
    }
}

// ── AddFileOp ───────────────────────────────────────────────────────────────

/// A new CreateFile with generated content or Mkdir, on a path the target
/// looked up in vain or on a random path.
pub open spec fn added_file_op(o: OpView, live: crate::guidance::GuidanceView) -> bool {
    &&& live.enoent.contains(o.path) || is_random_path(o.path)
    &&& o.target.len() == 0
    &&& o.mtime_sec == 0 && o.mtime_nsec == 0 && o.atime_sec == 0 && o.atime_nsec == 0
    &&& (o.kind == FsOpKind::CreateFile && 1 <= o.content.len() <= 64 && o.size == o.content.len())
        || (o.kind == FsOpKind::Mkdir && o.content.len() == 0 && o.size == 0)
}

/// Appends a CreateFile or Mkdir op.
#[derive(Debug)]
pub struct AddFileOp {
    pub guidance: MutationGuidance,
}

impl AddFileOp {
    pub fn new() -> (m: Self)
        ensures
            m.guidance@.write.len() == 0 && m.guidance@.enoent.len() == 0
                && m.guidance@.recreate.len() == 0,
    {
        AddFileOp { guidance: MutationGuidance::none() }
    }

    /// Draws a kind of 100 when the target looked up missing paths, then an
    /// index among them (kind < 70) or a random path, then a kind of 100 and,
    /// for a file, random content; applies [`AddFileOp::step`]. `live` is the
    /// latest guidance from the access log.
    pub fn mutate(&self, rand: &mut StdRand, input: &mut FsDelta, live: &MutationGuidance) -> (res:
        MutationResult)
        ensures
            old(input)@.len() <= MAX_OPS ==> final(input)@.len() <= MAX_OPS,
            (res == MutationResult::Skipped) <==> old(input)@.len() >= MAX_OPS,
            res == MutationResult::Skipped ==> final(input)@ == old(input)@,
            res == MutationResult::Mutated ==> final(input)@.len() == old(input)@.len() + 1
                && final(input)@.drop_last() == old(input)@ && added_file_op(
                final(input)@.last(),
                live@,
            ),
            res == MutationResult::Mutated ==> exists|r1: int, i: int, rp: Seq<char>, r2: int, c: Seq<u8>|
                add_draws(live@, r1, i, rp, r2, c) && final(input)@ == old(input)@.push(
                    #[trigger] added_op_of(live@, r1, i, rp, r2, c),
                ),
    {
        if input.ops.len() >= MAX_OPS {
            return MutationResult::Skipped;
        }
        let r1 = if live.has_enoent() {
            below(rand, 100)
        } else {
            100
        };
        let guided = live.has_enoent() && r1 < 70;
        let (i, rp) = if guided {
            (below(rand, live.enoent_paths.len()), String::new())
        } else {
            (0, random_path(rand))
        };
        let r2 = below(rand, 100);
        let bias: usize = if guided {
            90
        } else {
            70
        };
        let content = if r2 < bias {
            random_content(rand)
        } else {
            vec![0u8]
        };
        let ghost old_ops = input@;
        let ghost rpv = rp@;
        let ghost cv = content@;
        let res = self.step(input, live, r1, i, rp, r2, content);
        assert(res == MutationResult::Mutated ==> input@ == old_ops.push(
            added_op_of(live@, r1 as int, i as int, rpv, r2 as int, cv),
        ));
        res
    }

    /// Appends [`added_op_of`] for the draws when there is room.
    pub fn step(
        &self,
        input: &mut FsDelta,
        live: &MutationGuidance,
        r1: usize,
        i: usize,
        rp: String,
        r2: usize,
        content: Vec<u8>,
    ) -> (res: MutationResult)
        requires
            add_draws(live@, r1 as int, i as int, rp@, r2 as int, content@),
        ensures
            if old(input)@.len() < MAX_OPS {
                res == MutationResult::Mutated && final(input)@ == old(input)@.push(
                    added_op_of(live@, r1 as int, i as int, rp@, r2 as int, content@),
                )
            } else {
                res == MutationResult::Skipped && final(input)@ == old(input)@
            },
            res == MutationResult::Mutated ==> added_file_op(final(input)@.last(), live@),
    {
        if input.ops.len() >= MAX_OPS {
            return MutationResult::Skipped;
        }
        let guided = live.has_enoent() && r1 < 70;
        let path = if guided {
            assert(live@.enoent[i as int] == live.enoent_paths@[i as int]@);
            live.enoent_paths[i].clone()
        } else {
            rp
        };
        let bias: usize = if guided {
            90
        } else {
            70
        };
        let op = if r2 < bias {
            FsOp::create_file(path.as_str(), content)
        } else {
            FsOp::mkdir(path.as_str())
        };
        let ghost old_ops = input@;
        push_op(input, op);
        assert(input@.drop_last() =~= old_ops);
        MutationResult::Mutated
    }
}

/// Whether [`AddFileOp`] uses a path the target looked up in vain: there is
/// one and the kind `r1` (of 100) is below 70.
pub open spec fn add_guided(live: GuidanceView, r1: int) -> bool {
    live.enoent.len() > 0 && r1 < 70
}

/// The op [`AddFileOp`] appends for the draws: on the `i`th missing path when
/// guided, else on the random path `rp`; a CreateFile with `c` when `r2` (of
/// 100) is below the file bias (90 guided, 70 otherwise), else a Mkdir.
pub open spec fn added_op_of(live: GuidanceView, r1: int, i: int, rp: Seq<char>, r2: int, c: Seq<u8>) -> OpView {
    let p = if add_guided(live, r1) {
        live.enoent[i]
    } else {
        rp
    };
    let bias = if add_guided(live, r1) {
        90int
    } else {
        70int
    };
    if r2 < bias {
        plain_op(FsOpKind::CreateFile, p, Seq::empty(), c, c.len() as usize)
    } else {
        plain_op(FsOpKind::Mkdir, p, Seq::empty(), Seq::empty(), 0)
    }
}

pub open spec fn add_draws(live: GuidanceView, r1: int, i: int, rp: Seq<char>, r2: int, c: Seq<u8>) -> bool {
    &&& 0 <= r1 && 0 <= i && 0 <= r2 < 100
    &&& add_guided(live, r1) ==> i < live.enoent.len()
    &&& !add_guided(live, r1) ==> is_random_path(rp)
    &&& 1 <= c.len() <= 64
}

// ── RemoveOp ────────────────────────────────────────────────────────────────

/// Removes a random op; skips if only one remains.
#[derive(Debug)]
pub struct RemoveOp {
    pub guidance: MutationGuidance,
}

impl RemoveOp {
    pub fn new() -> (m: Self)
        ensures
            m.guidance@.write.len() == 0 && m.guidance@.enoent.len() == 0
                && m.guidance@.recreate.len() == 0,
    {
        RemoveOp { guidance: MutationGuidance::none() }
    }

    /// Draws an op index and applies [`RemoveOp::step`]; a delta of at most
    /// one op is skipped first.
    pub fn mutate(&self, rand: &mut StdRand, input: &mut FsDelta) -> (res: MutationResult)
        ensures
            old(input)@.len() <= MAX_OPS ==> final(input)@.len() <= MAX_OPS,
            (res == MutationResult::Skipped) <==> old(input)@.len() <= 1,
            res == MutationResult::Skipped ==> final(input)@ == old(input)@,
            res == MutationResult::Mutated ==> exists|i: int|
                0 <= i < old(input)@.len() && final(input)@ == old(input)@.remove(i),
    {
        if input.ops.len() <= 1 {
            return MutationResult::Skipped;
        }
        let idx = below(rand, input.ops.len());
        self.step(input, idx)
    }

    /// Removes op `idx`, unless at most one op is left.
    pub fn step(&self, input: &mut FsDelta, idx: usize) -> (res: MutationResult)
        requires
            old(input)@.len() > 1 ==> idx < old(input)@.len(),
        ensures
            if old(input)@.len() > 1 {
                res == MutationResult::Mutated && final(input)@ == old(input)@.remove(idx as int)
            } else {
                res == MutationResult::Skipped && final(input)@ == old(input)@
            },
    {
        if input.ops.len() <= 1 {
            return MutationResult::Skipped;
        }
        let _removed = take_op(input, idx);
        MutationResult::Mutated
    }
}


// ── Falling back without guidance ───────────────────────────────────────────

/// With empty guidance (no path the target wrote, missed or deleted) the
/// mutators fall back to random behaviour: an added file or directory gets a
/// random path, a deletion or removal targets a baseline path or a random
/// one, and a whole-path swap draws from the baseline paths.
pub proof fn lemma_unguided_mutators_fall_back(
    live: GuidanceView,
    o: OpView,
    files: Seq<Seq<char>>,
    dirs: Seq<Seq<char>>,
    all: Seq<Seq<char>>,
)
    requires
        live.write.len() == 0,
        live.enoent.len() == 0,
        live.recreate.len() == 0,
    ensures
        added_file_op(o, live) ==> is_random_path(o.path),
        destructive_op(o, files, dirs, all, live) && o.kind == FsOpKind::DeleteFile ==> files.contains(
            o.path,
        ) || is_random_path(o.path),
        destructive_op(o, files, dirs, all, live) && o.kind == FsOpKind::Rmdir ==> dirs.contains(
            o.path,
        ) || is_random_path(o.path),
        swap_pool(live, all) == all,
{
}

// ── MutatePath ──────────────────────────────────────────────────────────────

/// The paths a whole-path swap draws from: the first non-empty list among the
/// target's ENOENT, write and recreate paths, else the baseline paths.
pub open spec fn swap_pool(live: GuidanceView, all: Seq<Seq<char>>) -> Seq<Seq<char>> {
    if live.enoent.len() > 0 {
        live.enoent
    } else if live.write.len() > 0 {
        live.write
    } else if live.recreate.len() > 0 {
        live.recreate
    } else {
        all
    }
}

/// `p` is `old_path` with one of its segments replaced by a path component.
pub open spec fn is_component_swap(old_path: Seq<char>, p: Seq<char>) -> bool {
    exists|k: int, c: Seq<char>|
        0 <= k < path_segments(old_path).len() && path_components().contains(c) && p == join_abs(
            #[trigger] path_segments(old_path).update(k, c),
        )
}

/// Some op is an UpdateFile or Truncate, whose new path must be a baseline file.
pub open spec fn has_file_bound_op(s: Seq<OpView>) -> bool {
    exists|i: int|
        0 <= i < s.len() && (#[trigger] s[i].kind == FsOpKind::UpdateFile || s[i].kind
            == FsOpKind::Truncate)
}

/// The new path `p` that [`MutatePath`] may give op `o`, by the op's kind.
pub open spec fn path_choice(
    o: OpView,
    files: Seq<Seq<char>>,
    dirs: Seq<Seq<char>>,
    all: Seq<Seq<char>>,
    live: GuidanceView,
    p: Seq<char>,
) -> bool {
    if o.kind == FsOpKind::UpdateFile || o.kind == FsOpKind::Truncate {
        files.contains(p)
    } else if o.kind == FsOpKind::DeleteFile {
        files.contains(p) || is_random_path(p)
    } else if o.kind == FsOpKind::Rmdir {
        dirs.contains(p) || is_random_path(p)
    } else if o.kind == FsOpKind::SetTimes {
        all.contains(p) || is_random_path(p)
    } else {
        ||| swap_pool(live, all).contains(p)
        ||| is_component_swap(o.path, p)
        ||| (path_segments(o.path).len() == 0 && is_random_path(p))
    }
}

pub open spec fn with_path(o: OpView, p: Seq<char>) -> OpView {
    OpView { path: p, ..o }
}

/// Mutates an op's path, respecting op semantics: UpdateFile and Truncate
/// must hit a real baseline file; deletions mostly hit real paths; creations
/// favor paths the target asked for, else swap one path segment.
#[derive(Debug)]
pub struct MutatePath {
    pub guidance: MutationGuidance,
    pub baseline_file_paths: Vec<String>,
    pub baseline_dir_paths: Vec<String>,
    pub baseline_all_paths: Vec<String>,
}

impl MutatePath {
    pub fn new() -> (m: Self)
        ensures
            m.guidance@.write.len() == 0 && m.guidance@.enoent.len() == 0
                && m.guidance@.recreate.len() == 0,
            m.baseline_file_paths@.len() == 0,
            m.baseline_dir_paths@.len() == 0,
            m.baseline_all_paths@.len() == 0,
    {
        MutatePath {
            guidance: MutationGuidance::none(),
            baseline_file_paths: Vec::new(),
            baseline_dir_paths: Vec::new(),
            baseline_all_paths: Vec::new(),
        }
    }

    pub fn with_baseline(file_paths: Vec<String>, dir_paths: Vec<String>, all_paths: Vec<String>) -> (m:
        Self)
        ensures
            m.guidance@.write.len() == 0 && m.guidance@.enoent.len() == 0
                && m.guidance@.recreate.len() == 0,
            m.baseline_file_paths@ == file_paths@,
            m.baseline_dir_paths@ == dir_paths@,
            m.baseline_all_paths@ == all_paths@,
    {
        MutatePath {
            guidance: MutationGuidance::none(),
            baseline_file_paths: file_paths,
            baseline_dir_paths: dir_paths,
            baseline_all_paths: all_paths,
        }
    }

    pub fn with_guidance(self, g: MutationGuidance) -> (m: Self)
        ensures
            m.guidance@ == g@,
            m.baseline_file_paths@ == self.baseline_file_paths@,
            m.baseline_dir_paths@ == self.baseline_dir_paths@,
            m.baseline_all_paths@ == self.baseline_all_paths@,
    {
        MutatePath { guidance: g, ..self }
    }

    /// Draws an op index, then its new path's draws by the op's kind (see
    /// [`mutate_path_draws`]), and applies [`MutatePath::step`]. `live` is the
    /// latest guidance from the access log.
    pub fn mutate(&self, rand: &mut StdRand, input: &mut FsDelta, live: &MutationGuidance) -> (res:
        MutationResult)
        ensures
            old(input)@.len() <= MAX_OPS ==> final(input)@.len() <= MAX_OPS,
            res == MutationResult::Skipped ==> final(input)@ == old(input)@ && (old(input)@.len()
                == 0 || (self.baseline_file_paths@.len() == 0 && has_file_bound_op(old(input)@))),
            old(input)@.len() > 0 && (self.baseline_file_paths@.len() > 0 || !has_file_bound_op(
                old(input)@,
            )) ==> res == MutationResult::Mutated,
            res == MutationResult::Mutated ==> exists|i: int|
                #![trigger old(input)@[i]]
                only_changed_at(old(input)@, final(input)@, i) && final(input)@[i] == with_path(
                    old(input)@[i],
                    final(input)@[i].path,
                ) && path_choice(
                    old(input)@[i],
                    strings_view(self.baseline_file_paths@),
                    strings_view(self.baseline_dir_paths@),
                    strings_view(self.baseline_all_paths@),
                    live@,
                    final(input)@[i].path,
                ),
            old(input)@.len() > 0 ==> exists|
                x: int,
                r: int,
                i: int,
                seg: int,
                comp: int,
                rp: Seq<char>,
            |
                0 <= x < old(input)@.len() && mutate_path_draws(
                    old(input)@[x],
                    strings_view(self.baseline_file_paths@),
                    strings_view(self.baseline_dir_paths@),
                    strings_view(self.baseline_all_paths@),
                    live@,
                    r,
                    i,
                    seg,
                    comp,
                    rp,
                ) && #[trigger] mutate_path_of(
                    old(input)@,
                    x,
                    strings_view(self.baseline_file_paths@),
                    strings_view(self.baseline_dir_paths@),
                    strings_view(self.baseline_all_paths@),
                    live@,
                    r,
                    i,
                    seg,
                    comp,
                    rp,
                ) == (final(input)@, res),
    {
        if input.ops.len() == 0 {
            return MutationResult::Skipped;
        }
        let x = below(rand, input.ops.len());
        assert(input@[x as int] == input.ops@[x as int]@);
        let kind = input.ops[x].kind;
        let mut r: usize = 0;
        let mut i: usize = 0;
        let mut seg: usize = 0;
        let mut comp: usize = 0;
        let mut rp = String::new();
        match kind {
            FsOpKind::UpdateFile | FsOpKind::Truncate => {
                if self.baseline_file_paths.len() > 0 {
                    i = below(rand, self.baseline_file_paths.len());
                }
            },
            FsOpKind::DeleteFile => {
                let (r0, i0, rp0) = draw_listed_or(rand, &self.baseline_file_paths, 80);
                r = r0;
                i = i0;
                rp = rp0;
            },
            FsOpKind::Rmdir => {
                let (r0, i0, rp0) = draw_listed_or(rand, &self.baseline_dir_paths, 80);
                r = r0;
                i = i0;
                rp = rp0;
            },
            FsOpKind::SetTimes => {
                let (r0, i0, rp0) = draw_listed_or(rand, &self.baseline_all_paths, 80);
                r = r0;
                i = i0;
                rp = rp0;
            },
            _ => {
                let pool = swap_list(live, &self.baseline_all_paths);
                r = if pool.len() > 0 {
                    below(rand, 100)
                } else {
                    100
                };
                if pool.len() > 0 && r < 30 {
                    i = below(rand, pool.len());
                } else {
                    let parts = split_segments(input.ops[x].path.as_str());
                    if parts.len() == 0 {
                        rp = random_path(rand);
                    } else {
                        seg = below(rand, parts.len());
                        comp = below(rand, 15);
                    }
                }
            },
        }
        let ghost old_ops = input@;
        let ghost rpv = rp@;
        let res = self.step(input, live, x, r, i, seg, comp, rp);
        assert(mutate_path_of(
            old_ops,
            x as int,
            strings_view(self.baseline_file_paths@),
            strings_view(self.baseline_dir_paths@),
            strings_view(self.baseline_all_paths@),
            live@,
            r as int,
            i as int,
            seg as int,
            comp as int,
            rpv,
        ) == (input@, res));
        res
    }

    /// Gives op `x` the new path [`new_path_of`] for the draws (see
    /// [`mutate_path_of`]).
    pub fn step(
        &self,
        input: &mut FsDelta,
        live: &MutationGuidance,
        x: usize,
        r: usize,
        i: usize,
        seg: usize,
        comp: usize,
        rp: String,
    ) -> (res: MutationResult)
        requires
            x < old(input)@.len(),
            mutate_path_draws(
                old(input)@[x as int],
                strings_view(self.baseline_file_paths@),
                strings_view(self.baseline_dir_paths@),
                strings_view(self.baseline_all_paths@),
                live@,
                r as int,
                i as int,
                seg as int,
                comp as int,
                rp@,
            ),
        ensures
            mutate_path_of(
                old(input)@,
                x as int,
                strings_view(self.baseline_file_paths@),
                strings_view(self.baseline_dir_paths@),
                strings_view(self.baseline_all_paths@),
                live@,
                r as int,
                i as int,
                seg as int,
                comp as int,
                rp@,
            ) == (final(input)@, res),
            res == MutationResult::Mutated ==> path_choice(
                old(input)@[x as int],
                strings_view(self.baseline_file_paths@),
                strings_view(self.baseline_dir_paths@),
                strings_view(self.baseline_all_paths@),
                live@,
                final(input)@[x as int].path,
            ),
    {
        let ghost o = input@[x as int];
        assert(o == input.ops@[x as int]@);
        let ghost files = strings_view(self.baseline_file_paths@);
        let ghost all = strings_view(self.baseline_all_paths@);
        let kind = input.ops[x].kind;
        let new_path = match kind {
            FsOpKind::UpdateFile | FsOpKind::Truncate => {
                if self.baseline_file_paths.len() == 0 {
                    return MutationResult::Skipped;
                }
                assert(files[i as int] == self.baseline_file_paths@[i as int]@);
                self.baseline_file_paths[i].clone()
            },
            FsOpKind::DeleteFile => choose_listed_or(&self.baseline_file_paths, 80, r, i, rp),
            FsOpKind::Rmdir => choose_listed_or(&self.baseline_dir_paths, 80, r, i, rp),
            FsOpKind::SetTimes => choose_listed_or(&self.baseline_all_paths, 80, r, i, rp),
            _ => {
                let pool = swap_list(live, &self.baseline_all_paths);
                if pool.len() > 0 && r < 30 {
                    assert(strings_view(pool@)[i as int] == pool@[i as int]@);
                    pool[i].clone()
                } else {
                    let mut parts = split_segments(input.ops[x].path.as_str());
                    if parts.len() == 0 {
                        rp
                    } else {
                        let c = path_component(comp);
                        let ghost segs = strs_view(parts@);
                        parts.set(seg, c);
                        assert(strs_view(parts@) =~= segs.update(seg as int, c@));
                        let p = join_segments(&parts);
                        assert(path_components().contains(c@));
                        assert(is_component_swap(o.path, p@));
                        p
                    }
                }
            },
        };
        assert(new_path@ == new_path_of(
            o,
            files,
            strings_view(self.baseline_dir_paths@),
            all,
            live@,
            r as int,
            i as int,
            seg as int,
            comp as int,
            rp@,
        ));
        let ghost old_ops = input@;
        let mut op = take_op(input, x);
        op.path = new_path;
        let ghost newop = op@;
        put_back(input, x, op);
        proof {
            lemma_remove_insert(old_ops, x as int, newop);
            assert(input@[x as int] == newop);
            assert(newop == with_path(o, newop.path));
        }
        MutationResult::Mutated
    }
}

/// The baseline or log list a swap draws from (see [`swap_pool`]).
fn swap_list<'a>(live: &'a MutationGuidance, all: &'a Vec<String>) -> (v: &'a Vec<String>)
    ensures
        strings_view(v@) == swap_pool(live@, strings_view(all@)),
{
    if live.has_enoent() {
        &live.enoent_paths
    } else if live.has_write() {
        &live.write_paths
    } else if live.has_recreate() {
        &live.recreate_paths
    } else {
        all
    }
}

/// Whether the op kind takes a path on which an UpdateFile or Truncate acts.
pub open spec fn file_bound(k: FsOpKind) -> bool {
    k == FsOpKind::UpdateFile || k == FsOpKind::Truncate
}

/// The new path of op `o` for the draws: a baseline file (`i`) for a
/// file-bound op; [`listed_or`] with bias 80 over the files, directories or
/// all paths for a delete, rmdir or SetTimes; otherwise, when `r < 30` and
/// the swap pool is not empty, its `i`th path, else segment `seg` swapped for
/// component `comp`, or the random path `rp` when there is no segment.
pub open spec fn new_path_of(
    o: OpView,
    files: Seq<Seq<char>>,
    dirs: Seq<Seq<char>>,
    all: Seq<Seq<char>>,
    live: GuidanceView,
    r: int,
    i: int,
    seg: int,
    comp: int,
    rp: Seq<char>,
) -> Seq<char> {
    if file_bound(o.kind) {
        files[i]
    } else if o.kind == FsOpKind::DeleteFile {
        listed_or(files, 80, r, i, rp)
    } else if o.kind == FsOpKind::Rmdir {
        listed_or(dirs, 80, r, i, rp)
    } else if o.kind == FsOpKind::SetTimes {
        listed_or(all, 80, r, i, rp)
    } else if swap_pool(live, all).len() > 0 && r < 30 {
        swap_pool(live, all)[i]
    } else if path_segments(o.path).len() == 0 {
        rp
    } else {
        join_abs(path_segments(o.path).update(seg, path_components()[comp]))
    }
}

pub open spec fn mutate_path_draws(
    o: OpView,
    files: Seq<Seq<char>>,
    dirs: Seq<Seq<char>>,
    all: Seq<Seq<char>>,
    live: GuidanceView,
    r: int,
    i: int,
    seg: int,
    comp: int,
    rp: Seq<char>,
) -> bool {
    &&& 0 <= r && 0 <= i && 0 <= seg && 0 <= comp
    &&& if file_bound(o.kind) {
        files.len() > 0 ==> i < files.len()
    } else if o.kind == FsOpKind::DeleteFile {
        listed_or_draws(files, 80, r, i, rp)
    } else if o.kind == FsOpKind::Rmdir {
        listed_or_draws(dirs, 80, r, i, rp)
    } else if o.kind == FsOpKind::SetTimes {
        listed_or_draws(all, 80, r, i, rp)
    } else if swap_pool(live, all).len() > 0 && r < 30 {
        i < swap_pool(live, all).len()
    } else if path_segments(o.path).len() == 0 {
        is_random_path(rp)
    } else {
        seg < path_segments(o.path).len() && comp < 15
    }
}

/// What [`MutatePath`] does to op `x` for the draws: nothing (`Skipped`) for
/// a file-bound op without baseline files, else it gets [`new_path_of`].
pub open spec fn mutate_path_of(
    old: Seq<OpView>,
    x: int,
    files: Seq<Seq<char>>,
    dirs: Seq<Seq<char>>,
    all: Seq<Seq<char>>,
    live: GuidanceView,
    r: int,
    i: int,
    seg: int,
    comp: int,
    rp: Seq<char>,
) -> (Seq<OpView>, MutationResult) {
    if file_bound(old[x].kind) && files.len() == 0 {
        (old, MutationResult::Skipped)
    } else {
        (
            old.update(x, with_path(old[x], new_path_of(old[x], files, dirs, all, live, r, i, seg, comp, rp))),
            MutationResult::Mutated,
        )
    }
}


// ── SpliceDelta ─────────────────────────────────────────────────────────────

/// A corpus of deltas that the harness grows between mutator calls.
pub type LiveCorpus = Vec<FsDelta>;

/// `new` is `old` followed by a run of `n >= 1` consecutive ops of one donor
/// of the pool, without growing past [`MAX_OPS`].
pub open spec fn spliced(pool: Seq<FsDelta>, old: Seq<OpView>, new: Seq<OpView>) -> bool {
    exists|d: int, start: int, n: int|
        #![trigger pool[d]@.subrange(start, start + n)]
        0 <= d < pool.len() && 0 <= start && 1 <= n && start + n <= pool[d]@.len() && old.len() + n
            <= MAX_OPS && new == old + pool[d]@.subrange(start, start + n)
}

/// Appends a random run of ops, taken from a random donor of `pool`, to `input`.
pub fn splice_from_pool(pool: &Vec<FsDelta>, rand: &mut StdRand, input: &mut FsDelta) -> (res:
    MutationResult)
    ensures
        res == MutationResult::Skipped ==> final(input)@ == old(input)@ && (pool@.len() == 0 || (exists|
            d: int,
        |
            0 <= d < pool@.len() && #[trigger] pool@[d]@.len() == 0) || old(input)@.len()
            >= MAX_OPS),
        pool@.len() > 0 && (forall|d: int| 0 <= d < pool@.len() ==> #[trigger] pool@[d]@.len() > 0)
            && old(input)@.len() < MAX_OPS ==> res == MutationResult::Mutated,
        res == MutationResult::Mutated ==> spliced(pool@, old(input)@, final(input)@),
        pool@.len() > 0 ==> exists|d: int, start: int, t: int|
            splice_draws(pool@, old(input)@, d, start, t) && #[trigger] splice_of(
                pool@,
                old(input)@,
                d,
                start,
                t,
            ) == (final(input)@, res),
{
    if pool.len() == 0 {
        return MutationResult::Skipped;
    }
    let d = below(rand, pool.len());
    let dlen = pool[d].ops.len();
    let available = MAX_OPS.saturating_sub(input.ops.len());
    let (start, t) = if dlen == 0 || available == 0 {
        (0, 0)
    } else {
        let start = below(rand, dlen);
        let rest = dlen - start;
        let max_take = if rest < available {
            rest
        } else {
            available
        };
        (start, below(rand, max_take))
    };
    let res = splice_step(pool, input, d, start, t);
    assert(splice_of(pool@, old(input)@, d as int, start as int, t as int) == (input@, res));
    res
}

/// What splicing from donor `d` of `pool` does to `old` for the draws `start`
/// and `t`: nothing (`Skipped`) when the donor is empty or `old` is full, else
/// the donor's ops from `start`, `t + 1` of them, are appended.
pub open spec fn splice_of(pool: Seq<FsDelta>, old: Seq<OpView>, d: int, start: int, t: int) -> (
    Seq<OpView>,
    MutationResult,
) {
    if pool[d]@.len() == 0 || room(old.len()) == 0 {
        (old, MutationResult::Skipped)
    } else {
        (old + pool[d]@.subrange(start, start + t + 1), MutationResult::Mutated)
    }
}

/// How many ops can still be added to a delta of `len` ops.
pub open spec fn room(len: nat) -> nat {
    if len >= MAX_OPS {
        0
    } else {
        (MAX_OPS - len) as nat
    }
}

/// The draws splicing can make: a donor `d`, then, when it has ops and `old`
/// has room, a start among them and a count `t + 1` that fits both.
pub open spec fn splice_draws(pool: Seq<FsDelta>, old: Seq<OpView>, d: int, start: int, t: int) -> bool {
    &&& 0 <= d < pool.len() && 0 <= start && 0 <= t
    &&& pool[d]@.len() > 0 && room(old.len()) > 0 ==> start < pool[d]@.len() && t < pool[d]@.len()
        - start && t < room(old.len())
}

/// Appends the run of ops of donor `d` that the draws `start`, `t` pick (see
/// [`splice_of`]).
pub fn splice_step(pool: &Vec<FsDelta>, input: &mut FsDelta, d: usize, start: usize, t: usize) -> (res:
    MutationResult)
    requires
        splice_draws(pool@, old(input)@, d as int, start as int, t as int),
    ensures
        splice_of(pool@, old(input)@, d as int, start as int, t as int) == (final(input)@, res),
        res == MutationResult::Skipped ==> pool@[d as int]@.len() == 0 || old(input)@.len() >= MAX_OPS,
        res == MutationResult::Mutated ==> spliced(pool@, old(input)@, final(input)@),
{
    let donor = &pool[d];
    if donor.ops.len() == 0 {
        return MutationResult::Skipped;
    }
    let available = MAX_OPS.saturating_sub(input.ops.len());
    if available == 0 {
        return MutationResult::Skipped;
    }
    let take_n = 1 + t;
    let ghost old_ops = input@;
    let ghost dv = donor@;
    assert(dv.len() == donor.ops@.len());
    assert(start + take_n <= dv.len());
    let dlen = donor.ops.len();
    let mut k: usize = 0;
    while k < take_n
        invariant
            dlen == dv.len(),
            dv == donor@,
            dv.len() == donor.ops@.len(),
            start + take_n <= dv.len(),
            k <= take_n,
            input@ == old_ops + dv.subrange(start as int, start + k),
        decreases take_n - k,
    {
        let op = donor.ops[start + k].clone();
        assert(dv[start + k] == donor.ops@[start + k]@);
        push_op(input, op);
        assert(input@ =~= old_ops + dv.subrange(start as int, start + k + 1));
        k += 1;
    }
    assert(pool@[d as int]@ == dv);
    MutationResult::Mutated
}

/// Appends a random slice of ops from a donor delta in the pool.
///
/// A mutator made by [`SpliceDelta::new`] shares the harness's live corpus:
/// it holds no pool of its own and reads the corpus handed to each call, so
/// it sees every delta added since it was made. One made by
/// [`SpliceDelta::new_fixed`] keeps the pool it was given.
#[derive(Debug)]
pub struct SpliceDelta {
    pub guidance: MutationGuidance,
    /// The mutator's own pool; `None` when it reads the live corpus.
    pub corpus_pool: Option<LiveCorpus>,
}

impl SpliceDelta {
    /// The pool the mutator draws from when the live corpus is `live`.
    pub open spec fn pool_seen(&self, live: Seq<FsDelta>) -> Seq<FsDelta> {
        match self.corpus_pool {
            Some(p) => p@,
            None => live,
        }
    }

    /// A mutator that splices from the live corpus handed to each call.
    pub fn new() -> (m: Self)
        ensures
            m.corpus_pool is None,
            m.guidance@.write.len() == 0 && m.guidance@.enoent.len() == 0
                && m.guidance@.recreate.len() == 0,
    {
        SpliceDelta { guidance: MutationGuidance::none(), corpus_pool: None }
    }

    /// A mutator that splices from `pool` only.
    pub fn new_fixed(pool: Vec<FsDelta>) -> (m: Self)
        ensures
            m.corpus_pool matches Some(p) && p@ == pool@,
            m.guidance@.write.len() == 0 && m.guidance@.enoent.len() == 0
                && m.guidance@.recreate.len() == 0,
    {
        SpliceDelta { guidance: MutationGuidance::none(), corpus_pool: Some(pool) }
    }

    /// The size of the pool the mutator draws from, given the live corpus.
    pub fn pool_len(&self, live: &LiveCorpus) -> (n: usize)
        ensures
            n == self.pool_seen(live@).len(),
    {
        match &self.corpus_pool {
            Some(p) => p.len(),
            None => live.len(),
        }
    }

    /// `live` is the harness's corpus as it stands now.
    pub fn mutate(&self, rand: &mut StdRand, input: &mut FsDelta, live: &LiveCorpus) -> (res:
        MutationResult)
        ensures
            old(input)@.len() <= MAX_OPS ==> final(input)@.len() <= MAX_OPS,
            res == MutationResult::Skipped ==> final(input)@ == old(input)@ && (self.pool_seen(
                live@,
            ).len() == 0 || (exists|d: int|
                0 <= d < self.pool_seen(live@).len() && #[trigger] self.pool_seen(live@)[d]@.len()
                    == 0) || old(input)@.len() >= MAX_OPS),
            self.pool_seen(live@).len() > 0 && (forall|d: int|
                0 <= d < self.pool_seen(live@).len() ==> #[trigger] self.pool_seen(live@)[d]@.len()
                    > 0) && old(input)@.len() < MAX_OPS ==> res == MutationResult::Mutated,
            res == MutationResult::Mutated ==> spliced(self.pool_seen(live@), old(input)@, final(input)@),
    {
        match &self.corpus_pool {
            Some(p) => splice_from_pool(p, rand, input),
            None => splice_from_pool(live, rand, input),
        }
    }
}

// ── DestructiveMutator ──────────────────────────────────────────────────────

pub open spec fn zero_times(o: OpView) -> bool {
    o.mtime_sec == 0 && o.mtime_nsec == 0 && o.atime_sec == 0 && o.atime_nsec == 0
}

/// A DeleteFile, Rmdir, Truncate (below 1024) or SetTimes op, on a path the
/// target deleted, a baseline path of the right kind, or a random path.
pub open spec fn destructive_op(
    o: OpView,
    files: Seq<Seq<char>>,
    dirs: Seq<Seq<char>>,
    all: Seq<Seq<char>>,
    live: GuidanceView,
) -> bool {
    &&& o.target.len() == 0 && o.content.len() == 0
    &&& if o.kind == FsOpKind::DeleteFile {
        (live.recreate.contains(o.path) || files.contains(o.path) || is_random_path(o.path))
            && o.size == 0 && zero_times(o)
    } else if o.kind == FsOpKind::Rmdir {
        (live.recreate.contains(o.path) || dirs.contains(o.path) || is_random_path(o.path))
            && o.size == 0 && zero_times(o)
    } else if o.kind == FsOpKind::Truncate {
        (files.contains(o.path) || is_random_path(o.path)) && o.size < 1024 && zero_times(o)
    } else if o.kind == FsOpKind::SetTimes {
        &&& all.contains(o.path) || is_random_path(o.path)
        &&& o.size == 0 && o.mtime_nsec == 0 && o.atime_nsec == 0
        &&& is_fuzz_timestamp(o.mtime_sec) && is_fuzz_timestamp(o.atime_sec)
    } else {
        false
    }
}

/// Appends a DeleteFile/Rmdir/Truncate/SetTimes op.
#[derive(Debug)]
pub struct DestructiveMutator {
    pub guidance: MutationGuidance,
    pub baseline_file_paths: Vec<String>,
    pub baseline_dir_paths: Vec<String>,
    pub baseline_all_paths: Vec<String>,
}

impl DestructiveMutator {
    pub fn new() -> (m: Self)
        ensures
            m.guidance@.write.len() == 0 && m.guidance@.enoent.len() == 0
                && m.guidance@.recreate.len() == 0,
            m.baseline_file_paths@.len() == 0,
            m.baseline_dir_paths@.len() == 0,
            m.baseline_all_paths@.len() == 0,
    {
        DestructiveMutator {
            guidance: MutationGuidance::none(),
            baseline_file_paths: Vec::new(),
            baseline_dir_paths: Vec::new(),
            baseline_all_paths: Vec::new(),
        }
    }

    pub fn with_baseline(file_paths: Vec<String>, dir_paths: Vec<String>, all_paths: Vec<String>) -> (m:
        Self)
        ensures
            m.guidance@.write.len() == 0 && m.guidance@.enoent.len() == 0
                && m.guidance@.recreate.len() == 0,
            m.baseline_file_paths@ == file_paths@,
            m.baseline_dir_paths@ == dir_paths@,
            m.baseline_all_paths@ == all_paths@,
    {
        DestructiveMutator {
            guidance: MutationGuidance::none(),
            baseline_file_paths: file_paths,
            baseline_dir_paths: dir_paths,
            baseline_all_paths: all_paths,
        }
    }

    pub fn with_guidance(self, g: MutationGuidance) -> (m: Self)
        ensures
            m.guidance@ == g@,
            m.baseline_file_paths@ == self.baseline_file_paths@,
            m.baseline_dir_paths@ == self.baseline_dir_paths@,
            m.baseline_all_paths@ == self.baseline_all_paths@,
    {
        DestructiveMutator { guidance: g, ..self }
    }

    /// The path of a destructive op of kind `k` for the draws: a path the
    /// target deleted (kinds 0 and 1, `ra < 50`, index `i`), else
    /// [`listed_or`] over the baseline list of the kind with `rb`, `i`, `rp`.
    pub fn destructive_path(
        &self,
        live: &MutationGuidance,
        k: usize,
        ra: usize,
        rb: usize,
        i: usize,
        rp: String,
    ) -> (p: String)
        requires
            destructive_draws(
                strings_view(self.baseline_file_paths@),
                strings_view(self.baseline_dir_paths@),
                strings_view(self.baseline_all_paths@),
                live@,
                k as int,
                ra as int,
                rb as int,
                i as int,
                rp@,
            ),
        ensures
            p@ == destructive_path_of(
                strings_view(self.baseline_file_paths@),
                strings_view(self.baseline_dir_paths@),
                strings_view(self.baseline_all_paths@),
                live@,
                k as int,
                ra as int,
                rb as int,
                i as int,
                rp@,
            ),
    {
        if k < 2 && live.has_recreate() && ra < 50 {
            assert(live@.recreate[i as int] == live.recreate_paths@[i as int]@);
            live.recreate_paths[i].clone()
        } else if k == 0 || k == 2 {
            choose_listed_or(&self.baseline_file_paths, 70, rb, i, rp)
        } else if k == 1 {
            choose_listed_or(&self.baseline_dir_paths, 70, rb, i, rp)
        } else {
            choose_listed_or(&self.baseline_all_paths, 70, rb, i, rp)
        }
    }

    /// Draws the kind (of 4), its path (for kinds 0 and 1 first a kind of 100
    /// when the target deleted paths, then an index or the draws of
    /// [`listed_or`]), the new size (of 1024) for a truncation and two
    /// timestamps for a SetTimes, then applies [`DestructiveMutator::step`].
    pub fn mutate(&self, rand: &mut StdRand, input: &mut FsDelta, live: &MutationGuidance) -> (res:
        MutationResult)
        ensures
            old(input)@.len() <= MAX_OPS ==> final(input)@.len() <= MAX_OPS,
            (res == MutationResult::Skipped) <==> old(input)@.len() >= MAX_OPS,
            res == MutationResult::Skipped ==> final(input)@ == old(input)@,
            res == MutationResult::Mutated ==> final(input)@.len() == old(input)@.len() + 1
                && final(input)@.drop_last() == old(input)@ && destructive_op(
                final(input)@.last(),
                strings_view(self.baseline_file_paths@),
                strings_view(self.baseline_dir_paths@),
                strings_view(self.baseline_all_paths@),
                live@,
            ),
            res == MutationResult::Mutated ==> exists|
                k: int,
                ra: int,
                rb: int,
                i: int,
                rp: Seq<char>,
                size: usize,
                mt: i64,
                at: i64,
            |
                destructive_draws(
                    strings_view(self.baseline_file_paths@),
                    strings_view(self.baseline_dir_paths@),
                    strings_view(self.baseline_all_paths@),
                    live@,
                    k,
                    ra,
                    rb,
                    i,
                    rp,
                ) && size < 1024 && is_fuzz_timestamp(mt) && is_fuzz_timestamp(at) && final(input)@
                    == old(input)@.push(
                    #[trigger] destructive_op_of(
                        k,
                        destructive_path_of(
                            strings_view(self.baseline_file_paths@),
                            strings_view(self.baseline_dir_paths@),
                            strings_view(self.baseline_all_paths@),
                            live@,
                            k,
                            ra,
                            rb,
                            i,
                            rp,
                        ),
                        size,
                        mt,
                        at,
                    ),
                ),
    {
        if input.ops.len() >= MAX_OPS {
            return MutationResult::Skipped;
        }
        let k = below(rand, 4);
        let ra = if k < 2 && live.has_recreate() {
            below(rand, 100)
        } else {
            100
        };
        let (rb, i, rp) = if k < 2 && live.has_recreate() && ra < 50 {
            (0, below(rand, live.recreate_paths.len()), String::new())
        } else if k == 0 || k == 2 {
            draw_listed_or(rand, &self.baseline_file_paths, 70)
        } else if k == 1 {
            draw_listed_or(rand, &self.baseline_dir_paths, 70)
        } else {
            draw_listed_or(rand, &self.baseline_all_paths, 70)
        };
        let size = if k == 2 {
            below(rand, 1024)
        } else {
            0
        };
        let (mt, at) = if k == 3 {
            let mt = pick_timestamp(rand);
            let at = pick_timestamp(rand);
            (mt, at)
        } else {
            (0, 0)
        };
        let ghost rpv = rp@;
        let ghost old_ops = input@;
        let res = self.step(input, live, k, ra, rb, i, rp, size, mt, at);
        assert(res == MutationResult::Mutated ==> input@ == old_ops.push(
            destructive_op_of(
                k as int,
                destructive_path_of(
                    strings_view(self.baseline_file_paths@),
                    strings_view(self.baseline_dir_paths@),
                    strings_view(self.baseline_all_paths@),
                    live@,
                    k as int,
                    ra as int,
                    rb as int,
                    i as int,
                    rpv,
                ),
                size,
                mt,
                at,
            ),
        ));
        res
    }

    /// Appends the destructive op of kind `k` (delete, rmdir, truncate to
    /// `size`, or set times `mt`, `at`) on [`destructive_path_of`] for the
    /// draws, when there is room.
    pub fn step(
        &self,
        input: &mut FsDelta,
        live: &MutationGuidance,
        k: usize,
        ra: usize,
        rb: usize,
        i: usize,
        rp: String,
        size: usize,
        mt: i64,
        at: i64,
    ) -> (res: MutationResult)
        requires
            destructive_draws(
                strings_view(self.baseline_file_paths@),
                strings_view(self.baseline_dir_paths@),
                strings_view(self.baseline_all_paths@),
                live@,
                k as int,
                ra as int,
                rb as int,
                i as int,
                rp@,
            ),
            size < 1024,
            is_fuzz_timestamp(mt),
            is_fuzz_timestamp(at),
        ensures
            if old(input)@.len() < MAX_OPS {
                res == MutationResult::Mutated && final(input)@ == old(input)@.push(
                    destructive_op_of(
                        k as int,
                        destructive_path_of(
                            strings_view(self.baseline_file_paths@),
                            strings_view(self.baseline_dir_paths@),
                            strings_view(self.baseline_all_paths@),
                            live@,
                            k as int,
                            ra as int,
                            rb as int,
                            i as int,
                            rp@,
                        ),
                        size,
                        mt,
                        at,
                    ),
                )
            } else {
                res == MutationResult::Skipped && final(input)@ == old(input)@
            },
            res == MutationResult::Mutated ==> destructive_op(
                final(input)@.last(),
                strings_view(self.baseline_file_paths@),
                strings_view(self.baseline_dir_paths@),
                strings_view(self.baseline_all_paths@),
                live@,
            ),
    {
        if input.ops.len() >= MAX_OPS {
            return MutationResult::Skipped;
        }
        let path = self.destructive_path(live, k, ra, rb, i, rp);
        let op = if k == 0 {
            FsOp::delete_file(path.as_str())
        } else if k == 1 {
            FsOp::rmdir(path.as_str())
        } else if k == 2 {
            FsOp::truncate(path.as_str(), size)
        } else {
            FsOp::set_times(path.as_str(), mt, 0, at, 0)
        };
        let ghost old_ops = input@;
        push_op(input, op);
        assert(input@.drop_last() =~= old_ops);
        MutationResult::Mutated
    }
}

/// The path for the draws of [`DestructiveMutator`] (see
/// [`DestructiveMutator::destructive_path`]).
pub open spec fn destructive_path_of(
    files: Seq<Seq<char>>,
    dirs: Seq<Seq<char>>,
    all: Seq<Seq<char>>,
    live: GuidanceView,
    k: int,
    ra: int,
    rb: int,
    i: int,
    rp: Seq<char>,
) -> Seq<char> {
    if k < 2 && live.recreate.len() > 0 && ra < 50 {
        live.recreate[i]
    } else if k == 0 || k == 2 {
        listed_or(files, 70, rb, i, rp)
    } else if k == 1 {
        listed_or(dirs, 70, rb, i, rp)
    } else {
        listed_or(all, 70, rb, i, rp)
    }
}

pub open spec fn destructive_draws(
    files: Seq<Seq<char>>,
    dirs: Seq<Seq<char>>,
    all: Seq<Seq<char>>,
    live: GuidanceView,
    k: int,
    ra: int,
    rb: int,
    i: int,
    rp: Seq<char>,
) -> bool {
    &&& 0 <= k < 4 && 0 <= ra && 0 <= i
    &&& if k < 2 && live.recreate.len() > 0 && ra < 50 {
        i < live.recreate.len()
    } else if k == 0 || k == 2 {
        listed_or_draws(files, 70, rb, i, rp)
    } else if k == 1 {
        listed_or_draws(dirs, 70, rb, i, rp)
    } else {
        listed_or_draws(all, 70, rb, i, rp)
    }
}

/// Where a destructive op lands: a delete or an rmdir (kinds 0 and 1) goes
/// to the `i`th path the target deleted when it deleted any and `ra < 50`;
/// otherwise a delete or truncate goes to a baseline file, an rmdir to a
/// baseline directory, a SetTimes to any baseline path, or else to the random
/// path `rp`. The op has the kind's kind and that path.
pub proof fn lemma_destructive_targets(
    files: Seq<Seq<char>>,
    dirs: Seq<Seq<char>>,
    all: Seq<Seq<char>>,
    live: GuidanceView,
    k: int,
    ra: int,
    rb: int,
    i: int,
    rp: Seq<char>,
    size: usize,
    mt: i64,
    at: i64,
)
    requires
        destructive_draws(files, dirs, all, live, k, ra, rb, i, rp),
    ensures
        ({
            let p = destructive_path_of(files, dirs, all, live, k, ra, rb, i, rp);
            let o = destructive_op_of(k, p, size, mt, at);
            &&& (k == 0 || k == 1) && live.recreate.len() > 0 && ra < 50 ==> p == live.recreate[i]
            &&& !((k == 0 || k == 1) && live.recreate.len() > 0 && ra < 50) ==> {
                &&& (k == 0 || k == 2) ==> files.contains(p) || p == rp
                &&& k == 1 ==> dirs.contains(p) || p == rp
                &&& k == 3 ==> all.contains(p) || p == rp
            }
            &&& o.path == p
            &&& k == 0 ==> o.kind == FsOpKind::DeleteFile
            &&& k == 1 ==> o.kind == FsOpKind::Rmdir
            &&& k == 2 ==> o.kind == FsOpKind::Truncate && o.size == size
            &&& k == 3 ==> o.kind == FsOpKind::SetTimes && o.mtime_sec == mt && o.atime_sec == at
        }),
{
    let p = destructive_path_of(files, dirs, all, live, k, ra, rb, i, rp);
    if !((k == 0 || k == 1) && live.recreate.len() > 0 && ra < 50) {
        if (k == 0 || k == 2) && files.len() > 0 && rb < 70 {
            assert(files.contains(files[i]));
        } else if k == 1 && dirs.len() > 0 && rb < 70 {
            assert(dirs.contains(dirs[i]));
        } else if k == 3 && all.len() > 0 && rb < 70 {
            assert(all.contains(all[i]));
        }
    }
}

/// The op of kind `k` on `p`: delete, rmdir, truncate to `size`, or set the
/// times `mt`, `at`.
pub open spec fn destructive_op_of(k: int, p: Seq<char>, size: usize, mt: i64, at: i64) -> OpView {
    if k == 0 {
        plain_op(FsOpKind::DeleteFile, p, Seq::empty(), Seq::empty(), 0)
    } else if k == 1 {
        plain_op(FsOpKind::Rmdir, p, Seq::empty(), Seq::empty(), 0)
    } else if k == 2 {
        plain_op(FsOpKind::Truncate, p, Seq::empty(), Seq::empty(), size)
    } else {
        times_op(p, mt, at)
    }
}


// ── UpdateExistingFile ──────────────────────────────────────────────────────

/// `base` with `entry` inserted at `off`.
pub fn insert_bytes(base: &Vec<u8>, off: usize, entry: &Vec<u8>) -> (v: Vec<u8>)
    requires
        off <= base@.len(),
    ensures
        v@ == base@.subrange(0, off as int) + entry@ + base@.subrange(off as int, base@.len() as int),
{
    let mut v: Vec<u8> = Vec::new();
    for i in 0..off
        invariant
            off <= base@.len(),
            v@ == base@.subrange(0, i as int),
    {
        v.push(base[i]);
        assert(v@ =~= base@.subrange(0, i + 1));
    }
    for i in 0..entry.len()
        invariant
            v@ == base@.subrange(0, off as int) + entry@.subrange(0, i as int),
    {
        v.push(entry[i]);
        assert(v@ =~= base@.subrange(0, off as int) + entry@.subrange(0, i + 1));
    }
    let n = base.len();
    let ghost mid = v@;
    assert(entry@.subrange(0, entry@.len() as int) =~= entry@);
    for i in off..n
        invariant
            n == base@.len(),
            off <= n,
            mid == base@.subrange(0, off as int) + entry@,
            v@ == mid + base@.subrange(off as int, i as int),
    {
        v.push(base[i]);
        assert(v@ =~= mid + base@.subrange(off as int, i + 1));
    }
    v
}

/// A byte with exactly one bit set.
pub open spec fn single_bit(m: u8) -> bool {
    m == 1 || m == 2 || m == 4 || m == 8 || m == 16 || m == 32 || m == 64 || m == 128
}

/// `a` with the bits of each (position, mask) of `flips` toggled in turn.
pub open spec fn apply_flips(a: Seq<u8>, flips: Seq<(int, u8)>) -> Seq<u8>
    decreases flips.len(),
{
    if flips.len() == 0 {
        a
    } else {
        let s = apply_flips(a, flips.drop_last());
        let f = flips.last();
        s.update(f.0, s[f.0] ^ f.1)
    }
}

/// `b` is `a` with at most `k` single bits toggled, one after the other.
pub open spec fn bit_flips_at_most(a: Seq<u8>, b: Seq<u8>, k: nat) -> bool {
    exists|flips: Seq<(int, u8)>|
        #![trigger apply_flips(a, flips)]
        flips.len() <= k && (forall|j: int|
            0 <= j < flips.len() ==> 0 <= (#[trigger] flips[j]).0 < a.len() && single_bit(
                flips[j].1,
            )) && b == apply_flips(a, flips)
}

/// The ways [`perturb_bytes`] changes `base`: at most 4 single-bit flips, 1
/// to 32 bytes appended, a cut to a shorter prefix of content longer than one
/// byte, or a dictionary entry inserted somewhere.
pub open spec fn perturbed(base: Seq<u8>, out: Seq<u8>) -> bool {
    ||| bit_flips_at_most(base, out, 4)
    ||| (base.len() < out.len() <= base.len() + 32 && out.subrange(0, base.len() as int) == base)
    ||| (1 < base.len() && out.len() < base.len() && out == base.subrange(0, out.len() as int))
    ||| exists|off: int, d: int|
        #![trigger base.subrange(0, off), dictionary()[d]]
        0 <= off <= base.len() && 0 <= d < dictionary().len() && out == base.subrange(0, off)
            + dictionary()[d] + base.subrange(off, base.len() as int)
}

/// A perturbation of real baseline content: flips, appends, truncation or a
/// dictionary insertion, chosen uniformly.
pub fn perturb_bytes(rand: &mut StdRand, base: &[u8]) -> (out: Vec<u8>)
    requires
        base@.len() < usize::MAX,
    ensures
        perturbed(base@, out@),
        exists|k: int, flips: Seq<(usize, usize)>, bytes: Seq<u8>, e: int, x: int|
            perturb_draws(base@, k, flips, bytes, e, x) && out@ == #[trigger] perturb_of(
                base@,
                k,
                flips,
                bytes,
                e,
                x,
            ),
{
    let k = below(rand, 4);
    let mut flips: Vec<(usize, usize)> = Vec::new();
    let mut bytes: Vec<u8> = Vec::new();
    let mut e: usize = 0;
    let mut x: usize = 0;
    if k == 0 {
        if base.len() > 0 {
            let n_flips = 1 + below(rand, 4);
            for _j in 0..n_flips
                invariant
                    base@.len() > 0,
                    flips@.len() == _j,
                    forall|q: int|
                        0 <= q < flips@.len() ==> (#[trigger] flips@[q]).0 < base@.len() && flips@[q].1 < 8,
            {
                let i = below(rand, base.len());
                let sh = below(rand, 8);
                flips.push((i, sh));
            }
        }
    } else if k == 1 {
        let n = 1 + below(rand, 32);
        for _j in 0..n
            invariant
                bytes@.len() == _j,
        {
            bytes.push(below(rand, 256) as u8);
        }
    } else if k == 2 {
        if base.len() > 1 {
            x = below(rand, base.len());
        }
    } else {
        e = below(rand, 18);
        x = if base.len() == 0 {
            0
        } else {
            below(rand, base.len() + 1)
        };
    }
    let out = perturb_step(base, k, &flips, &bytes, e, x);
    assert(perturb_of(base@, k as int, flips@, bytes@, e as int, x as int) == out@);
    out
}

/// The flips of [`perturb_step`] as (position, mask) pairs: bit `sh` of the
/// byte at `i` for each draw `(i, sh)`.
pub open spec fn flip_masks(flips: Seq<(usize, usize)>) -> Seq<(int, u8)> {
    flips.map_values(|f: (usize, usize)| (f.0 as int, (1u8 << (f.1 as u8)) as u8))
}

/// What [`perturb_step`] makes of `base` for the draws: `k` picks the kind
/// (of 4); the bit flips `flips` (kind 0), the appended `bytes` (kind 1), a
/// cut to `x` bytes of content longer than one byte (kind 2), or dictionary
/// entry `e` inserted at `x` (kind 3).
pub open spec fn perturb_of(
    base: Seq<u8>,
    k: int,
    flips: Seq<(usize, usize)>,
    bytes: Seq<u8>,
    e: int,
    x: int,
) -> Seq<u8> {
    if k == 0 {
        apply_flips(base, flip_masks(flips))
    } else if k == 1 {
        base + bytes
    } else if k == 2 {
        if base.len() > 1 {
            base.subrange(0, x)
        } else {
            base
        }
    } else {
        base.subrange(0, x) + dictionary()[e] + base.subrange(x, base.len() as int)
    }
}

/// The draws [`perturb_bytes`] can make for `base`.
pub open spec fn perturb_draws(
    base: Seq<u8>,
    k: int,
    flips: Seq<(usize, usize)>,
    bytes: Seq<u8>,
    e: int,
    x: int,
) -> bool {
    &&& 0 <= k < 4 && 0 <= e < 18 && 0 <= x
    &&& forall|q: int| 0 <= q < flips.len() ==> (#[trigger] flips[q]).0 < base.len() && flips[q].1 < 8
    &&& k == 0 ==> flips.len() <= 4 && (base.len() > 0 <==> flips.len() >= 1)
    &&& k == 1 ==> 1 <= bytes.len() <= 32
    &&& k == 2 && base.len() > 1 ==> x < base.len()
    &&& k == 3 ==> x <= base.len()
}

/// The perturbation of `base` for the given draws (see [`perturb_of`]).
pub fn perturb_step(
    base: &[u8],
    k: usize,
    flips: &Vec<(usize, usize)>,
    bytes: &Vec<u8>,
    e: usize,
    x: usize,
) -> (out: Vec<u8>)
    requires
        base@.len() < usize::MAX,
        perturb_draws(base@, k as int, flips@, bytes@, e as int, x as int),
    ensures
        out@ == perturb_of(base@, k as int, flips@, bytes@, e as int, x as int),
        perturbed(base@, out@),
{
    let mut out = vstd::slice::slice_to_vec(base);
    let ghost b = base@;
    if k == 0 {
        let n = flips.len();
        let mut q: usize = 0;
        while q < n
            invariant
                n == flips@.len(),
                q <= n,
                out@.len() == b.len(),
                perturb_draws(b, k as int, flips@, bytes@, e as int, x as int),
                k == 0,
                out@ == apply_flips(b, flip_masks(flips@.subrange(0, q as int))),
            decreases n - q,
        {
            let (i, sh) = flips[q];
            assert(flips@[q as int].0 < b.len() && flips@[q as int].1 < 8);
            let sh8 = sh as u8;
            let mask: u8 = 1u8 << sh8;
            let v = out[i] ^ mask;
            out.set(i, v);
            assert(flip_masks(flips@.subrange(0, q + 1)).drop_last() =~= flip_masks(
                flips@.subrange(0, q as int),
            ));
            assert(flip_masks(flips@.subrange(0, q + 1)).last() == (i as int, mask));
            q += 1;
        }
        assert(flips@.subrange(0, n as int) =~= flips@);
        assert(bit_flips_at_most(b, out@, 4)) by {
            let fm = flip_masks(flips@);
            assert forall|j: int| 0 <= j < fm.len() implies 0 <= (#[trigger] fm[j]).0 < b.len()
                && single_bit(fm[j].1) by {
                let sh8 = flips@[j].1 as u8;
                assert(sh8 < 8);
                assert(sh8 < 8 ==> ((1u8 << sh8) == 1u8 || (1u8 << sh8) == 2u8 || (1u8 << sh8)
                    == 4u8 || (1u8 << sh8) == 8u8 || (1u8 << sh8) == 16u8 || (1u8 << sh8) == 32u8
                    || (1u8 << sh8) == 64u8 || (1u8 << sh8) == 128u8)) by (bit_vector);
            }
            assert(out@ == apply_flips(b, fm));
        }
    } else if k == 1 {
        let n = bytes.len();
        for q in 0..n
            invariant
                n == bytes@.len(),
                out@ == b + bytes@.subrange(0, q as int),
        {
            out.push(bytes[q]);
            assert(out@ =~= b + bytes@.subrange(0, q + 1));
        }
        assert(bytes@.subrange(0, n as int) =~= bytes@);
        assert(out@.subrange(0, b.len() as int) =~= b);
    } else if k == 2 {
        if out.len() > 1 {
            out.truncate(x);
            assert(out@ =~= b.subrange(0, x as int));
        } else {
            assert(bit_flips_at_most(b, out@, 4)) by {
                assert(out@ == apply_flips(b, Seq::<(int, u8)>::empty()));
            }
        }
    } else {
        let entry = dictionary_entry(e);
        out = insert_bytes(&out, x, &entry);
        assert(dictionary()[e as int] == entry@);
    }
    out
}

/// The content of the first baseline entry recorded for path `p`.
pub open spec fn baseline_content(contents: Seq<(String, Vec<u8>)>, p: Seq<char>) -> Option<Seq<u8>>
    decreases contents.len(),
{
    if contents.len() == 0 {
        None
    } else if contents[0].0@ == p {
        Some(contents[0].1@)
    } else {
        baseline_content(contents.drop_first(), p)
    }
}

/// Content [`UpdateExistingFile`] may write: a perturbation of the real
/// baseline content when it is known, else a dictionary entry or random bytes.
pub open spec fn update_content_choice(base: Option<Seq<u8>>, c: Seq<u8>) -> bool {
    ||| is_generated_content(c)
    ||| (base matches Some(b) && perturbed(b, c))
}

/// Index of the last UpdateFile op on path `p` among the first `n` ops.
pub open spec fn last_update_upto(s: Seq<OpView>, p: Seq<char>, n: int) -> Option<int>
    decreases n,
{
    if n <= 0 {
        None
    } else if s[n - 1].kind == FsOpKind::UpdateFile && s[n - 1].path == p {
        Some(n - 1)
    } else {
        last_update_upto(s, p, n - 1)
    }
}

pub open spec fn last_update(s: Seq<OpView>, p: Seq<char>) -> Option<int> {
    last_update_upto(s, p, s.len() as int)
}

proof fn lemma_last_update_upto(s: Seq<OpView>, p: Seq<char>, n: int)
    requires
        n <= s.len(),
    ensures
        last_update_upto(s, p, n) matches Some(j) ==> 0 <= j < n && s[j].kind == FsOpKind::UpdateFile
            && s[j].path == p,
    decreases n,
{
    if n > 0 {
        lemma_last_update_upto(s, p, n - 1);
    }
}

/// The outcome of [`UpdateExistingFile`] writing content `c` to baseline file
/// `p`: the last UpdateFile on `p` gets the content (last write wins), or a new
/// UpdateFile is appended when there is none.
pub open spec fn update_outcome(old: Seq<OpView>, new: Seq<OpView>, p: Seq<char>, c: Seq<u8>) -> bool {
    match last_update(old, p) {
        Some(j) => only_changed_at(old, new, j) && new[j] == (OpView {
            content: c,
            size: c.len() as usize,
            ..old[j]
        }),
        None => old.len() < MAX_OPS && new == old.push(update_op(p, c)),
    }
}

/// Appends an UpdateFile op on a baseline file; perturbs the real content half
/// of the time when `baseline_contents` knows it.
#[derive(Debug)]
pub struct UpdateExistingFile {
    pub guidance: MutationGuidance,
    pub baseline_file_paths: Vec<String>,
    pub baseline_contents: Vec<(String, Vec<u8>)>,
}

impl UpdateExistingFile {
    pub fn new(file_paths: Vec<String>) -> (m: Self)
        ensures
            m.baseline_file_paths@ == file_paths@,
            m.baseline_contents@.len() == 0,
    {
        UpdateExistingFile {
            guidance: MutationGuidance::none(),
            baseline_file_paths: file_paths,
            baseline_contents: Vec::new(),
        }
    }

    pub fn with_baseline_contents(self, contents: Vec<(String, Vec<u8>)>) -> (m: Self)
        ensures
            m.baseline_file_paths@ == self.baseline_file_paths@,
            m.baseline_contents@ == contents@,
    {
        UpdateExistingFile { baseline_contents: contents, ..self }
    }

    pub fn has_baseline(&self) -> (b: bool)
        ensures
            b == (self.baseline_file_paths@.len() > 0),
    {
        self.baseline_file_paths.len() > 0
    }

    /// The recorded baseline content of `path`, if any.
    pub fn lookup_baseline(&self, path: &String) -> (r: Option<&[u8]>)
        ensures
            r matches Some(c) ==> baseline_content(self.baseline_contents@, path@) == Some(c@)
                && exists|k: int|
                0 <= k < self.baseline_contents@.len() && #[trigger] self.baseline_contents@[k].1@
                    == c@,
            r is None ==> baseline_content(self.baseline_contents@, path@) is None,
    {
        let n = self.baseline_contents.len();
        let mut i: usize = 0;
        assert(self.baseline_contents@.subrange(0, n as int) =~= self.baseline_contents@);
        while i < n
            invariant
                n == self.baseline_contents@.len(),
                i <= n,
                baseline_content(self.baseline_contents@, path@) == baseline_content(
                    self.baseline_contents@.subrange(i as int, n as int),
                    path@,
                ),
            decreases n - i,
        {
            let ghost rest = self.baseline_contents@.subrange(i as int, n as int);
            assert(rest[0] == self.baseline_contents@[i as int]);
            if self.baseline_contents[i].0 == *path {
                let c = self.baseline_contents[i].1.as_slice();
                assert(self.baseline_contents@[i as int].1@ == c@);
                return Some(c);
            }
            assert(rest.drop_first() =~= self.baseline_contents@.subrange(i + 1, n as int));
            i += 1;
        }
        None
    }

    /// The written paths of `live` that are baseline files, in log order.
    pub fn baseline_writes(&self, live: &MutationGuidance) -> (w: Vec<String>)
        ensures
            strings_view(w@) == baseline_writes_of(strings_view(self.baseline_file_paths@), live@.write),
    {
        let ghost files = strings_view(self.baseline_file_paths@);
        let mut w: Vec<String> = Vec::new();
        let n = live.write_paths.len();
        for i in 0..n
            invariant
                n == live@.write.len(),
                files == strings_view(self.baseline_file_paths@),
                strings_view(w@) == baseline_writes_of(files, live@.write.subrange(0, i as int)),
        {
            let ghost before = w@;
            assert(live@.write.subrange(0, i + 1).drop_last() =~= live@.write.subrange(0, i as int));
            assert(live@.write[i as int] == live.write_paths@[i as int]@);
            if crate::text::contains_str(&self.baseline_file_paths, live.write_paths[i].as_str()) {
                w.push(live.write_paths[i].clone());
                assert(strings_view(w@) =~= strings_view(before).push(live@.write[i as int]));
            }
        }
        assert(live@.write.subrange(0, n as int) =~= live@.write);
        w
    }

    /// The baseline file [`UpdateExistingFile`] writes for the draws `r` and `i`
    /// (see [`update_path_of`]).
    pub fn update_path(&self, live: &MutationGuidance, r: usize, i: usize) -> (p: String)
        requires
            update_path_draws(
                strings_view(self.baseline_file_paths@),
                live@.write,
                r as int,
                i as int,
            ),
        ensures
            p@ == update_path_of(strings_view(self.baseline_file_paths@), live@.write, r as int, i as int),
            strings_view(self.baseline_file_paths@).contains(p@),
    {
        let ghost files = strings_view(self.baseline_file_paths@);
        proof {
            lemma_baseline_writes_in(files, live@.write);
        }
        let bw = self.baseline_writes(live);
        if live.has_write() && r < 70 && bw.len() > 0 {
            assert(strings_view(bw@)[i as int] == bw@[i as int]@);
            bw[i].clone()
        } else {
            assert(files[i as int] == self.baseline_file_paths@[i as int]@);
            self.baseline_file_paths[i].clone()
        }
    }

    /// Draws the path (a kind of 100 when the target wrote something, then an
    /// index), then for known baseline content a kind of 100 and on < 50 a
    /// perturbation, else a kind of 100, a dictionary entry and fresh random
    /// content as needed, and applies [`UpdateExistingFile::step`].
    pub fn mutate(&self, rand: &mut StdRand, input: &mut FsDelta, live: &MutationGuidance) -> (res:
        MutationResult)
        requires
            forall|k: int|
                0 <= k < self.baseline_contents@.len() ==> #[trigger] self.baseline_contents@[k].1@.len()
                    < usize::MAX,
        ensures
            old(input)@.len() <= MAX_OPS ==> final(input)@.len() <= MAX_OPS,
            res == MutationResult::Skipped ==> final(input)@ == old(input)@ && (
            self.baseline_file_paths@.len() == 0 || old(input)@.len() >= MAX_OPS),
            self.baseline_file_paths@.len() > 0 && old(input)@.len() < MAX_OPS ==> res
                == MutationResult::Mutated,
            res == MutationResult::Mutated ==> exists|p: Seq<char>, c: Seq<u8>|
                #![trigger update_outcome(old(input)@, final(input)@, p, c)]
                strings_view(self.baseline_file_paths@).contains(p) && update_content_choice(
                    baseline_content(self.baseline_contents@, p),
                    c,
                ) && update_outcome(old(input)@, final(input)@, p, c),
            self.baseline_file_paths@.len() > 0 ==> exists|
                r: int,
                i: int,
                r1: int,
                pert: Seq<u8>,
                r2: int,
                d: int,
                fresh: Seq<u8>,
            |
                update_path_draws(strings_view(self.baseline_file_paths@), live@.write, r, i) && 0 <= r1
                    < 100 && 0 <= r2 < 100 && 0 <= d < 18 && 1 <= fresh.len() <= 64 && update_written(
                    old(input)@,
                    final(input)@,
                    res,
                    update_path_of(strings_view(self.baseline_file_paths@), live@.write, r, i),
                    #[trigger] update_content_of(
                        baseline_content(
                            self.baseline_contents@,
                            update_path_of(strings_view(self.baseline_file_paths@), live@.write, r, i),
                        ),
                        r1,
                        pert,
                        r2,
                        d,
                        fresh,
                    ),
                ),
    {
        if self.baseline_file_paths.len() == 0 {
            return MutationResult::Skipped;
        }
        let ghost files = strings_view(self.baseline_file_paths@);
        let r = if live.has_write() {
            below(rand, 100)
        } else {
            0
        };
        let bw = self.baseline_writes(live);
        let i = if live.has_write() && r < 70 && bw.len() > 0 {
            below(rand, bw.len())
        } else {
            below(rand, self.baseline_file_paths.len())
        };
        let path = self.update_path(live, r, i);
        let base = self.lookup_baseline(&path);
        let r1 = match base {
            Some(_) => below(rand, 100),
            None => 0,
        };
        let mut pert: Vec<u8> = Vec::new();
        let mut r2: usize = 0;
        let mut d: usize = 0;
        let mut fresh: Vec<u8> = vec![0u8];
        match base {
            Some(b) if r1 < 50 => {
                pert = perturb_bytes(rand, b);
            },
            _ => {
                r2 = below(rand, 100);
                if r2 < 30 {
                    d = below(rand, 18);
                } else {
                    fresh = random_content(rand);
                }
            },
        }
        let ghost pv = pert@;
        let ghost fv = fresh@;
        let res = self.step(input, live, r, i, r1, pert, r2, d, fresh);
        assert(update_written(
            old(input)@,
            input@,
            res,
            update_path_of(files, live@.write, r as int, i as int),
            update_content_of(
                baseline_content(self.baseline_contents@, update_path_of(files, live@.write, r as int, i as int)),
                r1 as int,
                pv,
                r2 as int,
                d as int,
                fv,
            ),
        ));
        res
    }

    /// Writes [`update_content_of`] for the draws to the path of the draws
    /// `r`, `i` (see [`update_written`]): `r1` (of 100) picks a perturbation
    /// `pert` of known content (< 50), else `r2` (of 100) picks dictionary
    /// entry `d` (< 30) or the fresh random bytes `fresh`.
    pub fn step(
        &self,
        input: &mut FsDelta,
        live: &MutationGuidance,
        r: usize,
        i: usize,
        r1: usize,
        pert: Vec<u8>,
        r2: usize,
        d: usize,
        fresh: Vec<u8>,
    ) -> (res: MutationResult)
        requires
            update_path_draws(strings_view(self.baseline_file_paths@), live@.write, r as int, i as int),
            r1 < 100,
            r2 < 100,
            d < 18,
            1 <= fresh@.len() <= 64,
            perturbation_fits(
                baseline_content(
                    self.baseline_contents@,
                    update_path_of(strings_view(self.baseline_file_paths@), live@.write, r as int, i as int),
                ),
                r1 as int,
                pert@,
            ),
        ensures
            update_written(
                old(input)@,
                final(input)@,
                res,
                update_path_of(strings_view(self.baseline_file_paths@), live@.write, r as int, i as int),
                update_content_of(
                    baseline_content(
                        self.baseline_contents@,
                        update_path_of(
                            strings_view(self.baseline_file_paths@),
                            live@.write,
                            r as int,
                            i as int,
                        ),
                    ),
                    r1 as int,
                    pert@,
                    r2 as int,
                    d as int,
                    fresh@,
                ),
            ),
            old(input)@.len() <= MAX_OPS ==> final(input)@.len() <= MAX_OPS,
            res == MutationResult::Skipped ==> final(input)@ == old(input)@ && old(input)@.len() >= MAX_OPS,
            old(input)@.len() < MAX_OPS ==> res == MutationResult::Mutated,
            res == MutationResult::Mutated ==> exists|p: Seq<char>, c: Seq<u8>|
                #![trigger update_outcome(old(input)@, final(input)@, p, c)]
                strings_view(self.baseline_file_paths@).contains(p) && update_content_choice(
                    baseline_content(self.baseline_contents@, p),
                    c,
                ) && update_outcome(old(input)@, final(input)@, p, c),
    {
        let path = self.update_path(live, r, i);
        let base = self.lookup_baseline(&path);
        let content = match base {
            Some(_) if r1 < 50 => pert,
            _ => {
                if r2 < 30 {
                    dictionary_entry(d)
                } else {
                    fresh
                }
            },
        };
        let ghost old_ops = input@;
        let ghost p = path@;
        let ghost c = content@;
        assert(c == update_content_of(
            baseline_content(self.baseline_contents@, p),
            r1 as int,
            pert@,
            r2 as int,
            d as int,
            fresh@,
        ));
        assert(update_content_choice(baseline_content(self.baseline_contents@, p), c)) by {
            if !(baseline_content(self.baseline_contents@, p) is Some && r1 < 50) {
                if r2 < 30 {
                    assert(dictionary().contains(dictionary()[d as int]));
                }
            }
        }
        // update in place to avoid dead ops (last write wins)
        let n = input.ops.len();
        let mut j = n;
        while j > 0
            invariant
                old_ops == input@,
                old_ops == old(input)@,
                p == path@,
                c == content@,
                p == update_path_of(
                    strings_view(self.baseline_file_paths@),
                    live@.write,
                    r as int,
                    i as int,
                ),
                c == update_content_of(
                    baseline_content(self.baseline_contents@, p),
                    r1 as int,
                    pert@,
                    r2 as int,
                    d as int,
                    fresh@,
                ),
                strings_view(self.baseline_file_paths@).contains(p),
                update_content_choice(baseline_content(self.baseline_contents@, p), c),
                n == old_ops.len(),
                j <= n,
                last_update(old_ops, p) == last_update_upto(old_ops, p, j as int),
            decreases j,
        {
            let o = &input.ops[j - 1];
            assert(old_ops[j - 1] == o@);
            let is_update = o.kind == FsOpKind::UpdateFile;
            let same_path = o.path == path;
            if is_update && same_path {
                assert(last_update_upto(old_ops, p, j as int) == Some(j - 1));
                let mut op = take_op(input, j - 1);
                op.size = content.len();
                op.content = content;
                let ghost newop = op@;
                put_back(input, j - 1, op);
                proof {
                    lemma_remove_insert(old_ops, j - 1, newop);
                    assert(update_outcome(old_ops, input@, p, c));
                }
                return MutationResult::Mutated;
            }
            assert(last_update_upto(old_ops, p, j as int) == last_update_upto(old_ops, p, j - 1));
            j -= 1;
        }
        if input.ops.len() >= MAX_OPS {
            return MutationResult::Skipped;
        }
        push_op(input, FsOp::update_file(path.as_str(), content));
        assert(update_outcome(old_ops, input@, p, c));
        MutationResult::Mutated
    }
}

/// The written paths of `writes` that are among `files`, in order.
pub open spec fn baseline_writes_of(files: Seq<Seq<char>>, writes: Seq<Seq<char>>) -> Seq<Seq<char>>
    decreases writes.len(),
{
    if writes.len() == 0 {
        Seq::empty()
    } else {
        let s = baseline_writes_of(files, writes.drop_last());
        if files.contains(writes.last()) {
            s.push(writes.last())
        } else {
            s
        }
    }
}

proof fn lemma_baseline_writes_in(files: Seq<Seq<char>>, writes: Seq<Seq<char>>)
    ensures
        forall|k: int|
            0 <= k < baseline_writes_of(files, writes).len() ==> files.contains(
                #[trigger] baseline_writes_of(files, writes)[k],
            ),
    decreases writes.len(),
{
    if writes.len() > 0 {
        lemma_baseline_writes_in(files, writes.drop_last());
        let s = baseline_writes_of(files, writes.drop_last());
        let bw = baseline_writes_of(files, writes);
        assert forall|k: int| 0 <= k < bw.len() implies files.contains(#[trigger] bw[k]) by {
            if k < s.len() {
                assert(bw[k] == s[k]);
            }
        }
    }
}

/// Whether [`UpdateExistingFile`] writes to one of the baseline files the
/// target wrote: it did write some (`r` is drawn of 100 then) and `r < 70`.
pub open spec fn update_uses_writes(files: Seq<Seq<char>>, writes: Seq<Seq<char>>, r: int) -> bool {
    writes.len() > 0 && r < 70 && baseline_writes_of(files, writes).len() > 0
}

/// The path for the draws `r`, `i`: the `i`th baseline file the target
/// wrote when [`update_uses_writes`], else the `i`th baseline file.
pub open spec fn update_path_of(files: Seq<Seq<char>>, writes: Seq<Seq<char>>, r: int, i: int) -> Seq<char> {
    if update_uses_writes(files, writes, r) {
        baseline_writes_of(files, writes)[i]
    } else {
        files[i]
    }
}

pub open spec fn update_path_draws(files: Seq<Seq<char>>, writes: Seq<Seq<char>>, r: int, i: int) -> bool {
    &&& files.len() > 0 && 0 <= r < 100 && 0 <= i
    &&& update_uses_writes(files, writes, r) ==> i < baseline_writes_of(files, writes).len()
    &&& !update_uses_writes(files, writes, r) ==> i < files.len()
}

/// `pert` is a perturbation of the known content whenever it is used.
pub open spec fn perturbation_fits(base: Option<Seq<u8>>, r1: int, pert: Seq<u8>) -> bool {
    match base {
        Some(b) => r1 < 50 ==> perturbed(b, pert),
        None => true,
    }
}

/// The content for the draws: the perturbation `pert` of known content when
/// `r1 < 50`, else dictionary entry `d` when `r2 < 30`, else `fresh`.
pub open spec fn update_content_of(
    base: Option<Seq<u8>>,
    r1: int,
    pert: Seq<u8>,
    r2: int,
    d: int,
    fresh: Seq<u8>,
) -> Seq<u8> {
    if base is Some && r1 < 50 {
        pert
    } else if r2 < 30 {
        dictionary()[d]
    } else {
        fresh
    }
}

/// Writing content `c` to baseline file `p`: the last UpdateFile on `p` gets
/// it (last write wins); with none, an UpdateFile is appended when there is
/// room, else nothing changes and the result is `Skipped`.
pub open spec fn update_written(
    old: Seq<OpView>,
    new: Seq<OpView>,
    res: MutationResult,
    p: Seq<char>,
    c: Seq<u8>,
) -> bool {
    match last_update(old, p) {
        Some(j) => res == MutationResult::Mutated && only_changed_at(old, new, j) && new[j] == (OpView {
            content: c,
            size: c.len() as usize,
            ..old[j]
        }),
        None => if old.len() < MAX_OPS {
            res == MutationResult::Mutated && new == old.push(update_op(p, c))
        } else {
            res == MutationResult::Skipped && new == old
        },
    }
}

// ── ReplayWriteFile ─────────────────────────────────────────────────────────

/// Creates files the target wrote that are not in the baseline.
#[derive(Debug)]
pub struct ReplayWriteFile {
    pub guidance: MutationGuidance,
    pub baseline_file_paths: Vec<String>,
}

impl ReplayWriteFile {
    pub fn new(baseline_file_paths: Vec<String>) -> (m: Self)
        ensures
            m.baseline_file_paths@ == baseline_file_paths@,
    {
        ReplayWriteFile { guidance: MutationGuidance::none(), baseline_file_paths }
    }

    /// The paths the target wrote that are not baseline files, in log order.
    pub fn new_writes(&self, live: &MutationGuidance) -> (w: Vec<String>)
        ensures
            strings_view(w@) == new_writes_of(strings_view(self.baseline_file_paths@), live@.write),
            forall|k: int|
                0 <= k < w@.len() ==> live@.write.contains(#[trigger] w@[k]@)
                    && !strings_view(self.baseline_file_paths@).contains(w@[k]@),
            w@.len() == 0 <==> forall|k: int|
                0 <= k < live@.write.len() ==> strings_view(self.baseline_file_paths@).contains(
                    #[trigger] live@.write[k],
                ),
    {
        let ghost files = strings_view(self.baseline_file_paths@);
        let mut new_paths: Vec<String> = Vec::new();
        let nw = live.write_paths.len();
        for i in 0..nw
            invariant
                nw == live@.write.len(),
                files == strings_view(self.baseline_file_paths@),
                strings_view(new_paths@) == new_writes_of(files, live@.write.subrange(0, i as int)),
                forall|k: int|
                    0 <= k < new_paths@.len() ==> live@.write.contains(#[trigger] new_paths@[k]@)
                        && !files.contains(new_paths@[k]@),
                new_paths@.len() == 0 <==> forall|k: int|
                    0 <= k < i ==> files.contains(#[trigger] live@.write[k]),
        {
            assert(live@.write[i as int] == live.write_paths@[i as int]@);
            assert(live@.write.subrange(0, i + 1).drop_last() =~= live@.write.subrange(0, i as int));
            let ghost before = new_paths@;
            if !crate::text::contains_str(&self.baseline_file_paths, live.write_paths[i].as_str()) {
                new_paths.push(live.write_paths[i].clone());
                assert(strings_view(new_paths@) =~= strings_view(before).push(live@.write[i as int]));
                assert(new_paths@[new_paths@.len() - 1]@ == live@.write[i as int]);
            } else {
                assert(forall|k: int| 0 <= k < i + 1 && new_paths@.len() == 0 ==> files.contains(
                    #[trigger] live@.write[k],
                ));
            }
        }
        assert(live@.write.subrange(0, nw as int) =~= live@.write);
        new_paths
    }

    /// Draws an index among [`ReplayWriteFile::new_writes`], a kind of 100,
    /// then a dictionary entry (kind < 30) or fresh random content, and
    /// applies [`ReplayWriteFile::step`]. `live` is the latest guidance.
    pub fn mutate(&self, rand: &mut StdRand, input: &mut FsDelta, live: &MutationGuidance) -> (res:
        MutationResult)
        ensures
            old(input)@.len() <= MAX_OPS ==> final(input)@.len() <= MAX_OPS,
            (res == MutationResult::Skipped) <==> (old(input)@.len() >= MAX_OPS || forall|k: int|
                0 <= k < live@.write.len() ==> strings_view(self.baseline_file_paths@).contains(
                    #[trigger] live@.write[k],
                )),
            res == MutationResult::Skipped ==> final(input)@ == old(input)@,
            res == MutationResult::Mutated ==> final(input)@.len() == old(input)@.len() + 1
                && final(input)@.drop_last() == old(input)@ && ({
                let o = final(input)@.last();
                &&& live@.write.contains(o.path)
                &&& !strings_view(self.baseline_file_paths@).contains(o.path)
                &&& is_generated_content(o.content)
                &&& o == create_op(o.path, o.content)
            }),
            res == MutationResult::Mutated ==> exists|i: int, r: int, d: int, fresh: Seq<u8>|
                0 <= i < new_writes_of(strings_view(self.baseline_file_paths@), live@.write).len() && 0
                    <= r < 100 && 0 <= d < 18 && 1 <= fresh.len() <= 64 && final(input)@ == old(
                    input,
                )@.push(
                    #[trigger] create_op(
                        new_writes_of(strings_view(self.baseline_file_paths@), live@.write)[i],
                        generated_of(30, r, d, fresh),
                    ),
                ),
    {
        if input.ops.len() >= MAX_OPS {
            return MutationResult::Skipped;
        }
        let nw = self.new_writes(live);
        if nw.len() == 0 {
            return MutationResult::Skipped;
        }
        let i = below(rand, nw.len());
        let r = below(rand, 100);
        let (d, fresh) = if r < 30 {
            (below(rand, 18), vec![0u8])
        } else {
            (0, random_content(rand))
        };
        let ghost old_ops = input@;
        let ghost fv = fresh@;
        let res = self.step(input, live, i, r, d, fresh);
        assert(input@ == old_ops.push(
            create_op(
                new_writes_of(strings_view(self.baseline_file_paths@), live@.write)[i as int],
                generated_of(30, r as int, d as int, fv),
            ),
        ));
        res
    }

    /// Appends a CreateFile of [`generated_of`] for the draws on the `i`th new
    /// written path, unless the delta is full or there is none.
    pub fn step(
        &self,
        input: &mut FsDelta,
        live: &MutationGuidance,
        i: usize,
        r: usize,
        d: usize,
        fresh: Vec<u8>,
    ) -> (res: MutationResult)
        requires
            new_writes_of(strings_view(self.baseline_file_paths@), live@.write).len() > 0 ==> i
                < new_writes_of(strings_view(self.baseline_file_paths@), live@.write).len(),
            r < 100,
            d < 18,
            1 <= fresh@.len() <= 64,
        ensures
            if old(input)@.len() >= MAX_OPS || new_writes_of(
                strings_view(self.baseline_file_paths@),
                live@.write,
            ).len() == 0 {
                res == MutationResult::Skipped && final(input)@ == old(input)@
            } else {
                res == MutationResult::Mutated && final(input)@ == old(input)@.push(
                    create_op(
                        new_writes_of(strings_view(self.baseline_file_paths@), live@.write)[i as int],
                        generated_of(30, r as int, d as int, fresh@),
                    ),
                )
            },
    {
        if input.ops.len() >= MAX_OPS {
            return MutationResult::Skipped;
        }
        let nw = self.new_writes(live);
        if nw.len() == 0 {
            return MutationResult::Skipped;
        }
        let path = nw[i].clone();
        assert(path@ == strings_view(nw@)[i as int]);
        let content = if r < 30 {
            dictionary_entry(d)
        } else {
            fresh
        };
        let ghost old_ops = input@;
        push_op(input, FsOp::create_file(path.as_str(), content));
        assert(input@.drop_last() =~= old_ops);
        MutationResult::Mutated
    }
}

/// The written paths of `writes` that are not among `files`, in order.
pub open spec fn new_writes_of(files: Seq<Seq<char>>, writes: Seq<Seq<char>>) -> Seq<Seq<char>>
    decreases writes.len(),
{
    if writes.len() == 0 {
        Seq::empty()
    } else {
        let s = new_writes_of(files, writes.drop_last());
        if files.contains(writes.last()) {
            s
        } else {
            s.push(writes.last())
        }
    }
}


// ── FsDeltaI2SMutator ───────────────────────────────────────────────────────

/// The operands of one comparison recorded by comparison-log.
#[derive(Clone, Copy, Debug, PartialEq, Eq, Structural)]
pub enum CompareOperands {
    U8(u8, u8),
    U16(u16, u16),
    U32(u32, u32),
    U64(u64, u64),
    /// comparisons of other shapes, which the mutator ignores
    Other,
}

/// The `n` low bytes of `x`, least significant first.
pub open spec fn le_bytes(x: nat, n: nat) -> Seq<u8>
    decreases n,
{
    if n == 0 {
        Seq::empty()
    } else {
        seq![(x % 256) as u8] + le_bytes(x / 256, (n - 1) as nat)
    }
}

/// The little-endian bytes of `x`, `n` of them.
pub fn le_bytes_of(x: u64, n: usize) -> (v: Vec<u8>)
    ensures
        v@ == le_bytes(x as nat, n as nat),
{
    let mut v: Vec<u8> = Vec::new();
    let mut cur = x;
    let mut k: usize = 0;
    while k < n
        invariant
            k <= n,
            v@ + le_bytes(cur as nat, (n - k) as nat) == le_bytes(x as nat, n as nat),
        decreases n - k,
    {
        let ghost before = v@;
        v.push((cur % 256) as u8);
        assert(v@ + le_bytes((cur / 256) as nat, (n - k - 1) as nat) =~= before + le_bytes(
            cur as nat,
            (n - k) as nat,
        ));
        cur = cur / 256;
        k += 1;
    }
    assert(v@ =~= v@ + le_bytes(cur as nat, 0));
    v
}

/// Both directions of a comparison of distinct operands, as byte strings.
pub open spec fn operand_pairs(v: CompareOperands) -> Seq<(Seq<u8>, Seq<u8>)> {
    match v {
        CompareOperands::U8(a, b) => if a != b {
            seq![(le_bytes(a as nat, 1), le_bytes(b as nat, 1)), (le_bytes(b as nat, 1), le_bytes(a as nat, 1))]
        } else {
            Seq::empty()
        },
        CompareOperands::U16(a, b) => if a != b {
            seq![(le_bytes(a as nat, 2), le_bytes(b as nat, 2)), (le_bytes(b as nat, 2), le_bytes(a as nat, 2))]
        } else {
            Seq::empty()
        },
        CompareOperands::U32(a, b) => if a != b {
            seq![(le_bytes(a as nat, 4), le_bytes(b as nat, 4)), (le_bytes(b as nat, 4), le_bytes(a as nat, 4))]
        } else {
            Seq::empty()
        },
        CompareOperands::U64(a, b) => if a != b {
            seq![(le_bytes(a as nat, 8), le_bytes(b as nat, 8)), (le_bytes(b as nat, 8), le_bytes(a as nat, 8))]
        } else {
            Seq::empty()
        },
        CompareOperands::Other => Seq::empty(),
    }
}

/// The substitution pairs of the first `n` comparisons.
pub open spec fn comparison_pairs_upto(vals: Seq<CompareOperands>, n: int) -> Seq<(Seq<u8>, Seq<u8>)>
    decreases n,
{
    if n <= 0 {
        Seq::empty()
    } else {
        comparison_pairs_upto(vals, n - 1) + operand_pairs(vals[n - 1])
    }
}

pub open spec fn comparison_pairs(vals: Seq<CompareOperands>) -> Seq<(Seq<u8>, Seq<u8>)> {
    comparison_pairs_upto(vals, vals.len() as int)
}

pub open spec fn pairs_view(v: Seq<(Vec<u8>, Vec<u8>)>) -> Seq<(Seq<u8>, Seq<u8>)> {
    v.map_values(|p: (Vec<u8>, Vec<u8>)| (p.0@, p.1@))
}

/// `pat` occurs in `s` at `i`.
pub open spec fn occurs_at(s: Seq<u8>, pat: Seq<u8>, i: int) -> bool {
    0 <= i && i + pat.len() <= s.len() && s.subrange(i, i + pat.len()) == pat
}

/// One occurrence of the left side of a pair, in the content of one file op,
/// was replaced by the right side (size follows).
pub open spec fn i2s_outcome(old: Seq<OpView>, new: Seq<OpView>, pairs: Seq<(Seq<u8>, Seq<u8>)>) -> bool {
    exists|c: int, k: int, pos: int|
        #![trigger old[c], pairs[k], occurs_at(old[c].content, pairs[k].0, pos)]
        0 <= k < pairs.len() && only_changed_at(old, new, c) && is_flip_candidate(old[c])
            && same_meta(old[c], new[c]) && occurs_at(old[c].content, pairs[k].0, pos)
            && new[c].content == old[c].content.subrange(0, pos) + pairs[k].1 + old[c].content.subrange(
            pos + pairs[k].0.len(),
            old[c].content.len() as int,
        ) && new[c].size == new[c].content.len()
}

/// Every substitution pair could apply to every op the mutator may pick: the
/// pair's left side is non-empty and occurs in the op's content.
pub open spec fn i2s_always_applies(old: Seq<OpView>, pairs: Seq<(Seq<u8>, Seq<u8>)>) -> bool {
    forall|c: int, k: int|
        #![trigger old[c], pairs[k]]
        0 <= c < old.len() && 0 <= k < pairs.len() && is_flip_candidate(old[c]) ==> pairs[k].0.len()
            > 0 && exists|pos: int| occurs_at(old[c].content, pairs[k].0, pos)
}

fn push_pair(pairs: &mut Vec<(Vec<u8>, Vec<u8>)>, a: u64, b: u64, n: usize)
    ensures
        pairs_view(final(pairs)@) == pairs_view(old(pairs)@) + seq![
            (le_bytes(a as nat, n as nat), le_bytes(b as nat, n as nat)),
            (le_bytes(b as nat, n as nat), le_bytes(a as nat, n as nat)),
        ],
{
    pairs.push((le_bytes_of(a, n), le_bytes_of(b, n)));
    pairs.push((le_bytes_of(b, n), le_bytes_of(a, n)));
    assert(pairs_view(pairs@) =~= pairs_view(old(pairs)@) + seq![
        (le_bytes(a as nat, n as nat), le_bytes(b as nat, n as nat)),
        (le_bytes(b as nat, n as nat), le_bytes(a as nat, n as nat)),
    ]);
}

/// The substitution pairs of a comparison-log record, both directions of each
/// comparison of distinct operands.
pub fn substitution_pairs(vals: &Vec<CompareOperands>) -> (pairs: Vec<(Vec<u8>, Vec<u8>)>)
    ensures
        pairs_view(pairs@) == comparison_pairs(vals@),
{
    let mut pairs: Vec<(Vec<u8>, Vec<u8>)> = Vec::new();
    for i in 0..vals.len()
        invariant
            pairs_view(pairs@) == comparison_pairs_upto(vals@, i as int),
    {
        let ghost before = pairs_view(pairs@);
        match vals[i] {
            CompareOperands::U8(a, b) => if a != b {
                push_pair(&mut pairs, a as u64, b as u64, 1);
            },
            CompareOperands::U16(a, b) => if a != b {
                push_pair(&mut pairs, a as u64, b as u64, 2);
            },
            CompareOperands::U32(a, b) => if a != b {
                push_pair(&mut pairs, a as u64, b as u64, 4);
            },
            CompareOperands::U64(a, b) => if a != b {
                push_pair(&mut pairs, a, b, 8);
            },
            CompareOperands::Other => {},
        }
        assert(pairs_view(pairs@) =~= before + operand_pairs(vals@[i as int]));
    }
    pairs
}

/// Whether `pat` occurs in `s` at `i`.
fn matches_at(s: &Vec<u8>, pat: &Vec<u8>, i: usize) -> (b: bool)
    requires
        i + pat@.len() <= s@.len(),
    ensures
        b == occurs_at(s@, pat@, i as int),
{
    let n = pat.len();
    let sl = s.len();
    for k in 0..n
        invariant
            n == pat@.len(),
            sl == s@.len(),
            i + n <= sl,
            forall|j: int| 0 <= j < k ==> s@[i + j] == pat@[j],
    {
        if s[i + k] != pat[k] {
            assert(s@.subrange(i as int, i + n)[k as int] != pat@[k as int]);
            return false;
        }
    }
    assert(s@.subrange(i as int, i + n) =~= pat@);
    true
}

/// The first position in `lo..hi` where `pat` occurs in `s`, if any.
pub open spec fn first_occurrence(s: Seq<u8>, pat: Seq<u8>, lo: int, hi: int) -> Option<int>
    decreases hi - lo,
{
    if lo >= hi {
        None
    } else if occurs_at(s, pat, lo) {
        Some(lo)
    } else {
        first_occurrence(s, pat, lo + 1, hi)
    }
}

proof fn lemma_first_occurrence(s: Seq<u8>, pat: Seq<u8>, lo: int, hi: int, p: int)
    requires
        lo <= p < hi,
        occurs_at(s, pat, p),
        forall|q: int| lo <= q < p ==> !occurs_at(s, pat, q),
    ensures
        first_occurrence(s, pat, lo, hi) == Some(p),
    decreases p - lo,
{
    if lo < p {
        lemma_first_occurrence(s, pat, lo + 1, hi, p);
    }
}

proof fn lemma_no_occurrence(s: Seq<u8>, pat: Seq<u8>, lo: int, hi: int)
    requires
        forall|q: int| lo <= q < hi ==> !occurs_at(s, pat, q),
    ensures
        first_occurrence(s, pat, lo, hi) is None,
    decreases hi - lo,
{
    if lo < hi {
        lemma_no_occurrence(s, pat, lo + 1, hi);
    }
}

/// Where the substitution goes: the first occurrence of `lhs` in `a` from the
/// drawn `start` on, else the first one before it.
pub open spec fn i2s_pos(a: Seq<u8>, lhs: Seq<u8>, start: int) -> Option<int> {
    match first_occurrence(a, lhs, start, a.len() - lhs.len() + 1) {
        Some(p) => Some(p),
        None => first_occurrence(a, lhs, 0, start),
    }
}

/// `a` with `lhs` at `p` replaced by `rhs`.
pub open spec fn substituted(a: Seq<u8>, lhs: Seq<u8>, rhs: Seq<u8>, p: int) -> Seq<u8> {
    a.subrange(0, p) + rhs + a.subrange(p + lhs.len(), a.len() as int)
}

/// What substituting pair `k` into the content of op `c` does for the drawn
/// `start`: nothing (`Skipped`) when the left side is empty, longer than the
/// content, or absent; else its occurrence at [`i2s_pos`] is replaced.
pub open spec fn i2s_of(
    old: Seq<OpView>,
    pairs: Seq<(Seq<u8>, Seq<u8>)>,
    c: int,
    k: int,
    start: int,
) -> (Seq<OpView>, MutationResult) {
    let lhs = pairs[k].0;
    let a = old[c].content;
    if lhs.len() == 0 || lhs.len() > a.len() {
        (old, MutationResult::Skipped)
    } else {
        match i2s_pos(a, lhs, start) {
            Some(p) => (
                old.update(c, with_content(old[c], substituted(a, lhs, pairs[k].1, p))),
                MutationResult::Mutated,
            ),
            None => (old, MutationResult::Skipped),
        }
    }
}

/// Valid draws for substituting pair `k` into op `c`: a start below the
/// number of positions the left side can take, when it fits.
pub open spec fn i2s_draws(
    old: Seq<OpView>,
    pairs: Seq<(Seq<u8>, Seq<u8>)>,
    c: int,
    k: int,
    start: int,
) -> bool {
    &&& 0 <= c < old.len() && is_flip_candidate(old[c])
    &&& 0 <= k < pairs.len() && 0 <= start
    &&& 0 < pairs[k].0.len() <= old[c].content.len() ==> start < old[c].content.len()
        - pairs[k].0.len() + 1
}

/// comparison-log input-to-state: substitutes known comparison operands into file content.
#[derive(Debug)]
pub struct FsDeltaI2SMutator;

impl FsDeltaI2SMutator {
    pub fn new() -> Self {
        FsDeltaI2SMutator
    }

    /// Draws a candidate op (with content), a substitution pair and a start
    /// position for the search, and applies [`FsDeltaI2SMutator::step`].
    /// `comparisons` is the comparison-log record of the last run, when there
    /// is one.
    pub fn mutate(
        &self,
        rand: &mut StdRand,
        input: &mut FsDelta,
        comparisons: Option<&Vec<CompareOperands>>,
    ) -> (res: MutationResult)
        ensures
            old(input)@.len() <= MAX_OPS ==> final(input)@.len() <= MAX_OPS,
            res == MutationResult::Skipped ==> final(input)@ == old(input)@,
            comparisons is None ==> res == MutationResult::Skipped,
            !has_flip_candidate(old(input)@) ==> res == MutationResult::Skipped,
            (comparisons matches Some(vals) && comparison_pairs(vals@).len() == 0) ==> res
                == MutationResult::Skipped,
            (comparisons matches Some(vals) && comparison_pairs(vals@).len() > 0 && has_flip_candidate(
                old(input)@,
            ) && i2s_always_applies(old(input)@, comparison_pairs(vals@))) ==> res
                == MutationResult::Mutated,
            res == MutationResult::Mutated ==> (comparisons matches Some(vals) && i2s_outcome(
                old(input)@,
                final(input)@,
                comparison_pairs(vals@),
            )),
            comparisons matches Some(vals) ==> (comparison_pairs(vals@).len() > 0 && has_flip_candidate(
                old(input)@,
            ) ==> exists|j: int, k: int, start: int|
                0 <= j < candidate_list(old(input)@, true, old(input)@.len() as int).len() && i2s_draws(
                    old(input)@,
                    comparison_pairs(vals@),
                    candidate_list(old(input)@, true, old(input)@.len() as int)[j] as int,
                    k,
                    start,
                ) && #[trigger] i2s_of(
                    old(input)@,
                    comparison_pairs(vals@),
                    candidate_list(old(input)@, true, old(input)@.len() as int)[j] as int,
                    k,
                    start,
                ) == (final(input)@, res)),
    {
        let vals = match comparisons {
            Some(v) => v,
            None => {
                return MutationResult::Skipped;
            },
        };
        let pairs = substitution_pairs(vals);
        if pairs.len() == 0 {
            return MutationResult::Skipped;
        }
        let cands = candidates(input, true);
        if cands.len() == 0 {
            return MutationResult::Skipped;
        }
        let j = below(rand, cands.len());
        let c = cands[j];
        let k = below(rand, pairs.len());
        assert(input@[c as int] == input.ops@[c as int]@);
        let content_len = input.ops[c].content.len();
        let lhs_len = pairs[k].0.len();
        assert(pairs_view(pairs@)[k as int].0.len() == lhs_len);
        let start = if lhs_len == 0 || lhs_len > content_len {
            0
        } else if content_len - lhs_len + 1 > 1 {
            below(rand, content_len - lhs_len + 1)
        } else {
            0
        };
        let ghost old_ops = input@;
        let res = self.step(input, &pairs, c, k, start);
        assert(i2s_of(old_ops, comparison_pairs(vals@), c as int, k as int, start as int) == (input@, res));
        res
    }

    /// Substitutes pair `k` into the content of op `c` for the drawn `start`
    /// (see [`i2s_of`]).
    pub fn step(
        &self,
        input: &mut FsDelta,
        pairs: &Vec<(Vec<u8>, Vec<u8>)>,
        c: usize,
        k: usize,
        start: usize,
    ) -> (res: MutationResult)
        requires
            i2s_draws(old(input)@, pairs_view(pairs@), c as int, k as int, start as int),
        ensures
            i2s_of(old(input)@, pairs_view(pairs@), c as int, k as int, start as int) == (
                final(input)@,
                res,
            ),
            res == MutationResult::Mutated ==> i2s_outcome(old(input)@, final(input)@, pairs_view(pairs@)),
            i2s_always_applies(old(input)@, pairs_view(pairs@)) ==> res == MutationResult::Mutated,
    {
        let op_idx = c;
        let lhs = &pairs[k].0;
        let rhs = &pairs[k].1;
        assert(pairs_view(pairs@)[k as int] == (lhs@, rhs@));
        let ghost old_ops = input@;
        assert(old_ops[op_idx as int] == input.ops@[op_idx as int]@);
        let content_len = input.ops[op_idx].content.len();
        let ghost a = old_ops[op_idx as int].content;
        let ghost applies = i2s_always_applies(old_ops, pairs_view(pairs@));
        proof {
            if applies {
                assert(lhs@.len() > 0);
                let p = choose|pos: int| occurs_at(old_ops[op_idx as int].content, lhs@, pos);
                assert(occurs_at(old_ops[op_idx as int].content, lhs@, p));
                assert(lhs@.len() <= content_len);
            }
        }
        if lhs.len() == 0 || lhs.len() > content_len {
            return MutationResult::Skipped;
        }
        let search_end = content_len - lhs.len() + 1;
        let mut found: Option<usize> = None;
        let mut i = start;
        while i < search_end
            invariant_except_break
                found is None,
            invariant
                old_ops == input@,
                op_idx < old_ops.len(),
                a == old_ops[op_idx as int].content,
                content_len == a.len(),
                search_end == content_len - lhs@.len() + 1,
                start <= i <= search_end,
                forall|q: int| start <= q < i ==> !occurs_at(a, lhs@, q),
            ensures
                found matches Some(p) ==> occurs_at(a, lhs@, p as int) && start <= p < search_end
                    && forall|q: int| start <= q < p ==> !occurs_at(a, lhs@, q),
                found is None ==> forall|q: int| start <= q < search_end ==> !occurs_at(a, lhs@, q),
            decreases search_end - i,
        {
            assert(old_ops[op_idx as int] == input.ops@[op_idx as int]@);
            if matches_at(&input.ops[op_idx].content, lhs, i) {
                found = Some(i);
                break;
            }
            i += 1;
        }
        let ghost in_first = found is Some;
        if found.is_none() {
            let mut i: usize = 0;
            while i < start
                invariant_except_break
                    found is None,
                invariant
                    old_ops == input@,
                    op_idx < old_ops.len(),
                    a == old_ops[op_idx as int].content,
                    content_len == a.len(),
                    search_end == content_len - lhs@.len() + 1,
                    start < search_end,
                    i <= start,
                    forall|q: int| start <= q < search_end ==> !occurs_at(a, lhs@, q),
                    forall|q: int| 0 <= q < i ==> !occurs_at(a, lhs@, q),
                ensures
                    found matches Some(p) ==> occurs_at(a, lhs@, p as int) && p < start && forall|
                        q: int,
                    | 0 <= q < p ==> !occurs_at(a, lhs@, q),
                    found is None ==> forall|q: int| 0 <= q < start ==> !occurs_at(a, lhs@, q),
                decreases start - i,
            {
                assert(old_ops[op_idx as int] == input.ops@[op_idx as int]@);
                if matches_at(&input.ops[op_idx].content, lhs, i) {
                    found = Some(i);
                    break;
                }
                i += 1;
            }
            proof {
                lemma_no_occurrence(a, lhs@, start as int, search_end as int);
            }
        }
        let pos = match found {
            Some(p) => p,
            None => {
                proof {
                    lemma_no_occurrence(a, lhs@, 0, start as int);
                    if applies {
                        let p = choose|pos: int| occurs_at(a, lhs@, pos);
                        assert(0 <= p < search_end);
                        assert(!occurs_at(a, lhs@, p));
                    }
                }
                return MutationResult::Skipped;
            },
        };
        proof {
            if in_first {
                lemma_first_occurrence(a, lhs@, start as int, search_end as int, pos as int);
            } else {
                lemma_first_occurrence(a, lhs@, 0, start as int, pos as int);
            }
            assert(i2s_pos(a, lhs@, start as int) == Some(pos as int));
        }
        let mut op = take_op(input, op_idx);
        let end = pos + lhs.len();
        let mut new_content: Vec<u8> = Vec::new();
        for j in 0..pos
            invariant
                a == op.content@,
                pos <= a.len(),
                new_content@ == a.subrange(0, j as int),
        {
            new_content.push(op.content[j]);
            assert(new_content@ =~= a.subrange(0, j + 1));
        }
        for j in 0..rhs.len()
            invariant
                pos <= a.len(),
                new_content@ == a.subrange(0, pos as int) + rhs@.subrange(0, j as int),
        {
            new_content.push(rhs[j]);
            assert(new_content@ =~= a.subrange(0, pos as int) + rhs@.subrange(0, j + 1));
        }
        assert(rhs@.subrange(0, rhs@.len() as int) =~= rhs@);
        let ghost mid = new_content@;
        for j in end..content_len
            invariant
                a == op.content@,
                content_len == a.len(),
                pos <= end <= content_len,
                mid == a.subrange(0, pos as int) + rhs@,
                new_content@ == mid + a.subrange(end as int, j as int),
        {
            new_content.push(op.content[j]);
            assert(new_content@ =~= mid + a.subrange(end as int, j + 1));
        }
        op.content = new_content;
        op.size = op.content.len();
        let ghost newop = op@;
        put_back(input, op_idx, op);
        proof {
            lemma_remove_insert(old_ops, op_idx as int, newop);
            assert(input@[op_idx as int] == newop);
            assert(newop == with_content(old_ops[op_idx as int], substituted(a, lhs@, rhs@, pos as int)));
            assert(occurs_at(old_ops[op_idx as int].content, pairs_view(pairs@)[k as int].0, pos as int));
        }
        MutationResult::Mutated
    }
}


// ── Laws of the mutators' draws ─────────────────────────────────────────────

proof fn lemma_set_bytes(a: Seq<u8>, sets: Seq<(usize, u8)>)
    requires
        forall|q: int| 0 <= q < sets.len() ==> (#[trigger] sets[q]).0 < a.len(),
    ensures
        set_bytes(a, sets).len() == a.len(),
        forall|x: int|
            0 <= x < a.len() && (forall|q: int| 0 <= q < sets.len() ==> (#[trigger] sets[q]).0 != x)
                ==> set_bytes(a, sets)[x] == a[x],
        sets.len() > 0 ==> set_bytes(a, sets)[sets.last().0 as int] == sets.last().1,
    decreases sets.len(),
{
    if sets.len() > 0 {
        let init = sets.drop_last();
        assert forall|q: int| 0 <= q < init.len() implies (#[trigger] init[q]).0 < a.len() by {
            assert(init[q] == sets[q]);
        }
        lemma_set_bytes(a, init);
        assert forall|x: int|
            0 <= x < a.len() && (forall|q: int| 0 <= q < sets.len() ==> (#[trigger] sets[q]).0 != x)
                implies set_bytes(a, sets)[x] == a[x] by {
            assert(sets[sets.len() - 1].0 != x);
            assert forall|q: int| 0 <= q < init.len() implies (#[trigger] init[q]).0 != x by {
                assert(init[q] == sets[q]);
            }
        }
    }
}

/// Byte-level mutation touches one op: on a draw below 20 the drawn bytes
/// (one to eight) are appended to its content and its size follows the new
/// length; otherwise its length and size stay, each byte no write names keeps
/// its value, and the last write's byte holds its value. Kind, path, target
/// and times never change.
pub proof fn lemma_byte_flip_law(
    old: Seq<OpView>,
    c: int,
    r: int,
    bytes: Seq<u8>,
    sets: Seq<(usize, u8)>,
)
    requires
        0 <= c < old.len(),
        byte_flip_draws(old[c], r, bytes, sets),
    ensures
        ({
            let new = byte_flip_of(old, c, r, bytes, sets);
            let a = old[c].content;
            let b = new[c].content;
            &&& new.len() == old.len()
            &&& forall|j: int| 0 <= j < old.len() && j != c ==> new[j] == old[j]
            &&& same_meta(old[c], new[c])
            &&& r < 20 ==> b.len() == a.len() + bytes.len() && 1 <= bytes.len() <= 8
                && b.subrange(0, a.len() as int) == a && b.subrange(a.len() as int, b.len() as int)
                == bytes && new[c].size == b.len() as usize
            &&& r >= 20 ==> b.len() == a.len() && new[c].size == old[c].size && 1 <= sets.len() <= 4
                && b[sets.last().0 as int] == sets.last().1 && forall|x: int|
                0 <= x < a.len() && (forall|q: int| 0 <= q < sets.len() ==> (#[trigger] sets[q]).0 != x)
                    ==> b[x] == a[x]
        }),
{
    let new = byte_flip_of(old, c, r, bytes, sets);
    let a = old[c].content;
    if r < 20 {
        let b = a + bytes;
        assert(new[c].content == b);
        assert(b.subrange(0, a.len() as int) =~= a);
        assert(b.subrange(a.len() as int, b.len() as int) =~= bytes);
    } else {
        lemma_set_bytes(a, sets);
    }
}

/// Replacing content: a draw below 40 writes dictionary entry `d`, any
/// other the fresh random bytes; the size follows the new content, the rest
/// of the op stays.
pub proof fn lemma_replace_content_law(o: OpView, r: int, d: int, fresh: Seq<u8>)
    ensures
        ({
            let n = with_content(o, generated_of(40, r, d, fresh));
            &&& r < 40 ==> n.content == dictionary()[d]
            &&& r >= 40 ==> n.content == fresh
            &&& n.size == n.content.len() as usize
            &&& same_meta(o, n)
        }),
{
}

/// The op [`AddFileOp`] appends: guided by the missing paths when there are
/// some and the first draw is below 70, it lands on the `i`th of them, else
/// on the random path; it is a CreateFile of the drawn content when the second
/// draw is below 90 (guided) or 70 (not), else a Mkdir; it has no target and
/// zero times.
pub proof fn lemma_added_op_law(
    live: GuidanceView,
    r1: int,
    i: int,
    rp: Seq<char>,
    r2: int,
    c: Seq<u8>,
)
    ensures
        ({
            let o = added_op_of(live, r1, i, rp, r2, c);
            let guided = live.enoent.len() > 0 && r1 < 70;
            &&& guided ==> o.path == live.enoent[i]
            &&& !guided ==> o.path == rp
            &&& (guided && r2 < 90) || (!guided && r2 < 70) ==> o.kind == FsOpKind::CreateFile
                && o.content == c && o.size == c.len() as usize
            &&& !((guided && r2 < 90) || (!guided && r2 < 70)) ==> o.kind == FsOpKind::Mkdir
                && o.content.len() == 0 && o.size == 0
            &&& o.target.len() == 0 && zero_times(o)
        }),
{
}

/// Splicing appends, after the input, exactly `t + 1` ops of donor `d` taken
/// in order from `start`; it changes nothing when the donor is empty or the
/// input is full.
pub proof fn lemma_splice_law(pool: Seq<FsDelta>, old: Seq<OpView>, d: int, start: int, t: int)
    requires
        splice_draws(pool, old, d, start, t),
    ensures
        ({
            let (new, res) = splice_of(pool, old, d, start, t);
            let donor = pool[d]@;
            &&& (donor.len() == 0 || old.len() >= MAX_OPS) <==> res == MutationResult::Skipped
            &&& res == MutationResult::Skipped ==> new == old
            &&& res == MutationResult::Mutated ==> new.len() == old.len() + t + 1 && new.len()
                <= MAX_OPS && new.subrange(0, old.len() as int) == old && forall|q: int|
                0 <= q <= t ==> #[trigger] new[old.len() + q] == donor[start + q]
        }),
{
    let (new, res) = splice_of(pool, old, d, start, t);
    if res == MutationResult::Mutated {
        let donor = pool[d]@;
        let run = donor.subrange(start, start + t + 1);
        assert(new == old + run);
        assert(new.subrange(0, old.len() as int) =~= old);
        assert forall|q: int| 0 <= q <= t implies #[trigger] new[old.len() + q] == donor[start + q] by {
            assert(new[old.len() + q] == run[q]);
        }
    }
}

/// Replaying a write creates a file on a path the target wrote that is not
/// a baseline file, with dictionary entry `d` on a draw below 30, else the
/// fresh random bytes.
pub proof fn lemma_replay_law(files: Seq<Seq<char>>, writes: Seq<Seq<char>>, i: int, r: int, d: int, fresh: Seq<u8>)
    requires
        0 <= i < new_writes_of(files, writes).len(),
    ensures
        ({
            let p = new_writes_of(files, writes)[i];
            let o = create_op(p, generated_of(30, r, d, fresh));
            &&& writes.contains(p) && !files.contains(p)
            &&& o.kind == FsOpKind::CreateFile && o.path == p
            &&& r < 30 ==> o.content == dictionary()[d]
            &&& r >= 30 ==> o.content == fresh
        }),
{
    lemma_new_writes_in(files, writes);
}

proof fn lemma_new_writes_in(files: Seq<Seq<char>>, writes: Seq<Seq<char>>)
    ensures
        forall|k: int|
            0 <= k < new_writes_of(files, writes).len() ==> writes.contains(
                #[trigger] new_writes_of(files, writes)[k],
            ) && !files.contains(new_writes_of(files, writes)[k]),
    decreases writes.len(),
{
    if writes.len() > 0 {
        let init = writes.drop_last();
        lemma_new_writes_in(files, init);
        let s = new_writes_of(files, init);
        let w = new_writes_of(files, writes);
        assert forall|k: int| 0 <= k < w.len() implies writes.contains(#[trigger] w[k]) && !files.contains(
            w[k],
        ) by {
            if k < s.len() {
                assert(w[k] == s[k]);
                let j = choose|j: int| 0 <= j < init.len() && init[j] == s[k];
                assert(writes[j] == init[j]);
            } else {
                assert(w[k] == writes.last());
                assert(writes[writes.len() - 1] == writes.last());
            }
        }
    }
}

/// [`UpdateExistingFile`] writes to a baseline file: one the target wrote
/// when it wrote any that are baseline files and the path draw is below 70,
/// else any baseline file. The content is the perturbation of the known
/// content on a draw below 50, else dictionary entry `d` on a second draw
/// below 30, else the fresh bytes. The last UpdateFile of that path gets the
/// content; with none, an UpdateFile of it is appended when there is room.
pub proof fn lemma_update_existing_law(
    files: Seq<Seq<char>>,
    writes: Seq<Seq<char>>,
    r: int,
    i: int,
    base: Option<Seq<u8>>,
    r1: int,
    pert: Seq<u8>,
    r2: int,
    d: int,
    fresh: Seq<u8>,
    old: Seq<OpView>,
    new: Seq<OpView>,
    res: MutationResult,
)
    requires
        update_path_draws(files, writes, r, i),
    ensures
        ({
            let p = update_path_of(files, writes, r, i);
            let c = update_content_of(base, r1, pert, r2, d, fresh);
            &&& files.contains(p)
            &&& (r < 70 && exists|w: int| 0 <= w < writes.len() && files.contains(#[trigger] writes[w]))
                ==> writes.contains(p)
            &&& base is Some && r1 < 50 ==> c == pert
            &&& !(base is Some && r1 < 50) && r2 < 30 ==> c == dictionary()[d]
            &&& !(base is Some && r1 < 50) && r2 >= 30 ==> c == fresh
            &&& update_written(old, new, res, p, c) ==> match last_update(old, p) {
                Some(j) => new[j].content == c && new[j].kind == FsOpKind::UpdateFile && new[j].path
                    == p && new.len() == old.len(),
                None => old.len() < MAX_OPS ==> new == old.push(update_op(p, c)),
            }
        }),
{
    lemma_baseline_writes_in(files, writes);
    lemma_baseline_writes_cover(files, writes);
    let bw = baseline_writes_of(files, writes);
    if update_uses_writes(files, writes, r) {
        assert(files.contains(bw[i]));
        lemma_baseline_writes_from(files, writes);
    }
    let p = update_path_of(files, writes, r, i);
    lemma_last_update_upto(old, p, old.len() as int);
}

proof fn lemma_baseline_writes_cover(files: Seq<Seq<char>>, writes: Seq<Seq<char>>)
    ensures
        (exists|w: int| 0 <= w < writes.len() && files.contains(#[trigger] writes[w]))
            ==> baseline_writes_of(files, writes).len() > 0,
    decreases writes.len(),
{
    if writes.len() > 0 {
        let init = writes.drop_last();
        lemma_baseline_writes_cover(files, init);
        if exists|w: int| 0 <= w < writes.len() && files.contains(#[trigger] writes[w]) {
            let w = choose|w: int| 0 <= w < writes.len() && files.contains(#[trigger] writes[w]);
            if w < writes.len() - 1 {
                assert(init[w] == writes[w]);
            }
        }
    }
}

proof fn lemma_baseline_writes_from(files: Seq<Seq<char>>, writes: Seq<Seq<char>>)
    ensures
        forall|k: int|
            0 <= k < baseline_writes_of(files, writes).len() ==> writes.contains(
                #[trigger] baseline_writes_of(files, writes)[k],
            ),
    decreases writes.len(),
{
    if writes.len() > 0 {
        let init = writes.drop_last();
        lemma_baseline_writes_from(files, init);
        let s = baseline_writes_of(files, init);
        let w = baseline_writes_of(files, writes);
        assert forall|k: int| 0 <= k < w.len() implies writes.contains(#[trigger] w[k]) by {
            if k < s.len() {
                assert(w[k] == s[k]);
                let j = choose|j: int| 0 <= j < init.len() && init[j] == s[k];
                assert(writes[j] == init[j]);
            } else {
                assert(writes[writes.len() - 1] == writes.last());
            }
        }
    }
}

/// Perturbing content: kind 0 toggles exactly the drawn bits in turn, kind 1
/// appends the drawn bytes, kind 2 keeps the first `x` bytes of content longer
/// than one byte (and keeps shorter content whole), kind 3 inserts dictionary
/// entry `e` at `x`.
pub proof fn lemma_perturb_law(
    base: Seq<u8>,
    k: int,
    flips: Seq<(usize, usize)>,
    bytes: Seq<u8>,
    e: int,
    x: int,
)
    requires
        perturb_draws(base, k, flips, bytes, e, x),
    ensures
        ({
            let out = perturb_of(base, k, flips, bytes, e, x);
            &&& k == 0 ==> out.len() == base.len() && (flips.len() == 1 ==> out == base.update(
                flips[0].0 as int,
                base[flips[0].0 as int] ^ (1u8 << (flips[0].1 as u8)),
            ))
            &&& k == 1 ==> out.len() == base.len() + bytes.len() && out.subrange(0, base.len() as int)
                == base && out.subrange(base.len() as int, out.len() as int) == bytes
            &&& k == 2 && base.len() > 1 ==> out.len() == x && x < base.len() && out == base.subrange(0, x)
            &&& k == 2 && base.len() <= 1 ==> out == base
            &&& k == 3 ==> out.len() == base.len() + dictionary()[e].len() && out.subrange(0, x)
                == base.subrange(0, x) && out.subrange(x, x + dictionary()[e].len()) == dictionary()[e]
                && out.subrange(x + dictionary()[e].len(), out.len() as int) == base.subrange(
                x,
                base.len() as int,
            )
        }),
{
    let out = perturb_of(base, k, flips, bytes, e, x);
    if k == 0 {
        lemma_apply_flips_len(base, flip_masks(flips));
        if flips.len() == 1 {
            let fm = flip_masks(flips);
            assert(fm.drop_last() =~= Seq::<(int, u8)>::empty());
            assert(apply_flips(base, fm.drop_last()) == base);
        }
    } else if k == 1 {
        assert(out.subrange(0, base.len() as int) =~= base);
        assert(out.subrange(base.len() as int, out.len() as int) =~= bytes);
    } else if k == 3 {
        let de = dictionary()[e];
        assert(out.subrange(0, x) =~= base.subrange(0, x));
        assert(out.subrange(x, x + de.len()) =~= de);
        assert(out.subrange(x + de.len(), out.len() as int) =~= base.subrange(x, base.len() as int));
    }
}

proof fn lemma_apply_flips_len(a: Seq<u8>, flips: Seq<(int, u8)>)
    requires
        forall|q: int| 0 <= q < flips.len() ==> 0 <= (#[trigger] flips[q]).0 < a.len(),
    ensures
        apply_flips(a, flips).len() == a.len(),
    decreases flips.len(),
{
    if flips.len() > 0 {
        let init = flips.drop_last();
        assert forall|q: int| 0 <= q < init.len() implies 0 <= (#[trigger] init[q]).0 < a.len() by {
            assert(init[q] == flips[q]);
        }
        lemma_apply_flips_len(a, init);
    }
}

/// [`MutatePath`] changes only op `x`'s path: an UpdateFile or Truncate gets
/// a baseline file (and is left alone when there is none); a delete gets a
/// baseline file on a draw below 80 when there are any, an rmdir a baseline
/// directory, a SetTimes any baseline path, else the random path; any other
/// op gets a path of the swap pool on a draw below 30 when it is not empty,
/// else one of its segments swapped for a component, or the random path when
/// it has no segment.
pub proof fn lemma_mutate_path_law(
    old: Seq<OpView>,
    x: int,
    files: Seq<Seq<char>>,
    dirs: Seq<Seq<char>>,
    all: Seq<Seq<char>>,
    live: GuidanceView,
    r: int,
    i: int,
    seg: int,
    comp: int,
    rp: Seq<char>,
)
    requires
        0 <= x < old.len(),
        mutate_path_draws(old[x], files, dirs, all, live, r, i, seg, comp, rp),
    ensures
        ({
            let (new, res) = mutate_path_of(old, x, files, dirs, all, live, r, i, seg, comp, rp);
            let o = old[x];
            let k = o.kind;
            let p = new[x].path;
            &&& (k == FsOpKind::UpdateFile || k == FsOpKind::Truncate) && files.len() == 0 <==> res
                == MutationResult::Skipped
            &&& res == MutationResult::Skipped ==> new == old
            &&& res == MutationResult::Mutated ==> {
                &&& new.len() == old.len()
                &&& forall|j: int| 0 <= j < old.len() && j != x ==> new[j] == old[j]
                &&& new[x] == with_path(o, p)
                &&& (k == FsOpKind::UpdateFile || k == FsOpKind::Truncate) ==> p == files[i]
                &&& k == FsOpKind::DeleteFile ==> (files.len() > 0 && r < 80 ==> p == files[i]) && (
                !(files.len() > 0 && r < 80) ==> p == rp)
                &&& k == FsOpKind::Rmdir ==> (dirs.len() > 0 && r < 80 ==> p == dirs[i]) && (!(
                dirs.len() > 0 && r < 80) ==> p == rp)
                &&& k == FsOpKind::SetTimes ==> (all.len() > 0 && r < 80 ==> p == all[i]) && (!(
                all.len() > 0 && r < 80) ==> p == rp)
                &&& (k == FsOpKind::CreateFile || k == FsOpKind::Mkdir || k
                    == FsOpKind::CreateSymlink) ==> {
                    &&& swap_pool(live, all).len() > 0 && r < 30 ==> p == swap_pool(live, all)[i]
                    &&& !(swap_pool(live, all).len() > 0 && r < 30) && path_segments(o.path).len() == 0
                        ==> p == rp
                    &&& !(swap_pool(live, all).len() > 0 && r < 30) && path_segments(o.path).len() > 0
                        ==> is_component_swap(o.path, p)
                }
            }
        }),
{
    let (new, res) = mutate_path_of(old, x, files, dirs, all, live, r, i, seg, comp, rp);
    let o = old[x];
    if res == MutationResult::Mutated {
        let p = new_path_of(o, files, dirs, all, live, r, i, seg, comp, rp);
        assert(new[x] == with_path(o, p));
        if (o.kind == FsOpKind::CreateFile || o.kind == FsOpKind::Mkdir || o.kind
            == FsOpKind::CreateSymlink) && !(swap_pool(live, all).len() > 0 && r < 30)
            && path_segments(o.path).len() > 0 {
            assert(path_components().contains(path_components()[comp]));
        }
    }
}

/// Input-to-state substitution replaces the first occurrence of the pair's
/// left side at or after the drawn start (wrapping to the first one before
/// it) by the right side, and skips when the left side is empty, longer than
/// the content or absent.
pub proof fn lemma_i2s_law(
    old: Seq<OpView>,
    pairs: Seq<(Seq<u8>, Seq<u8>)>,
    c: int,
    k: int,
    start: int,
)
    requires
        i2s_draws(old, pairs, c, k, start),
    ensures
        ({
            let (new, res) = i2s_of(old, pairs, c, k, start);
            let (lhs, rhs) = pairs[k];
            let a = old[c].content;
            &&& res == MutationResult::Skipped ==> new == old
            &&& res == MutationResult::Skipped && 0 < lhs.len() <= a.len() ==> forall|q: int|
                0 <= q ==> !occurs_at(a, lhs, q)
            &&& res == MutationResult::Mutated ==> exists|pos: int|
                occurs_at(a, lhs, pos) && (pos >= start ==> forall|q: int|
                    start <= q < pos ==> !occurs_at(a, lhs, q)) && (pos < start ==> forall|q: int|
                    (0 <= q < pos || start <= q) ==> !occurs_at(a, lhs, q)) && new == old.update(
                    c,
                    with_content(
                        old[c],
                        a.subrange(0, pos) + rhs + a.subrange(pos + lhs.len(), a.len() as int),
                    ),
                )
        }),
{
    let (new, res) = i2s_of(old, pairs, c, k, start);
    let lhs = pairs[k].0;
    let a = old[c].content;
    let end = a.len() - lhs.len() + 1;
    if 0 < lhs.len() <= a.len() {
        lemma_first_occurrence_is_first(a, lhs, start, end);
        lemma_first_occurrence_is_first(a, lhs, 0, start);
        assert forall|q: int| end <= q implies !occurs_at(a, lhs, q) by {}
        if res == MutationResult::Mutated {
            let pos = i2s_pos(a, lhs, start)->0;
            assert(occurs_at(a, lhs, pos));
        }
    }
}

proof fn lemma_first_occurrence_is_first(s: Seq<u8>, pat: Seq<u8>, lo: int, hi: int)
    ensures
        first_occurrence(s, pat, lo, hi) matches Some(p) ==> lo <= p < hi && occurs_at(s, pat, p)
            && forall|q: int| lo <= q < p ==> !occurs_at(s, pat, q),
        first_occurrence(s, pat, lo, hi) is None ==> forall|q: int| lo <= q < hi ==> !occurs_at(s, pat, q),
    decreases hi - lo,
{
    if lo < hi && !occurs_at(s, pat, lo) {
        lemma_first_occurrence_is_first(s, pat, lo + 1, hi);
    }
}


/// A splice mutator made without a pool draws from the live corpus as it
/// stands at each call; one made with a pool draws from that pool whatever
/// the live corpus holds.
pub proof fn lemma_splice_pool_law(m: SpliceDelta, live: Seq<FsDelta>, other: Seq<FsDelta>)
    ensures
        m.corpus_pool is None ==> m.pool_seen(live) == live,
        m.corpus_pool matches Some(p) ==> m.pool_seen(live) == p@ && m.pool_seen(other) == m.pool_seen(
            live,
        ),
{
}

} // verus!
