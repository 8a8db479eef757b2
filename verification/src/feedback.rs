//! Feedback that promotes inputs reaching filesystem paths never reached
//! before, and the observer state of the per-iteration access log.

use vstd::prelude::*;
use vstd::arithmetic::power2::{lemma_pow2_unfold, pow2};

use std::collections::hash_map::DefaultHasher;
use std::hash::Hasher;
use vstd::std_specs::hash::DefaultHasherAdditionalSpecFns;

use crate::guidance::{GuidanceView, MutationGuidance};
use crate::text::{owned, strings_view};

verus! {

// ── Path hashing ────────────────────────────────────────────────────────────

/// The state, as vstd models a `DefaultHasher` (the byte strings written to
/// it), after `Hash::hash` of a string with the contents `path` is fed to a
/// hasher in state `before`.
pub uninterp spec fn str_hashed(before: Seq<Seq<u8>>, path: Seq<char>) -> Seq<Seq<u8>>;

/// The value a fresh `DefaultHasher` gives a path: `new`, `Hash::hash` of the
/// path, then `finish`.
pub open spec fn path_hash(path: Seq<char>) -> u64 {
    DefaultHasher::spec_finish(str_hashed(Seq::empty(), path))
}

/// Feeds `path` to `hasher` with std's `Hash::hash` for `str`.
///
/// Trusted: the new state is named [`str_hashed`] of the old state and the
/// path. What is written depends on the string alone; std documents which
/// bytes only through an unstable API, so nothing is said of them.
#[verifier::external_body]
fn hash_str(path: &str, hasher: &mut DefaultHasher)
    ensures
        final(hasher)@ == str_hashed(old(hasher)@, path@),
{
    std::hash::Hash::hash(path, hasher)
}

/// Hashes `path` with a fresh `DefaultHasher`, as [`path_hash`] says.
pub(crate) fn hash_path(path: &str) -> (h: u64)
    ensures
        h == path_hash(path@),
{
    let mut hasher = DefaultHasher::new();
    hash_str(path, &mut hasher);
    hasher.finish()
}

// ── Powers of two ───────────────────────────────────────────────────────────

/// The smallest power of two that is at least `n`.
pub fn next_power_of_two(n: usize) -> (p: usize)
    requires
        n <= usize::MAX / 2 + 1,
    ensures
        exists|k: nat| p == #[trigger] pow2(k) && (k == 0 || pow2((k - 1) as nat) < n),
        p >= n,
        p >= 1,
{
    let mut p: usize = 1;
    let ghost mut k: nat = 0;
    assert(pow2(0) == 1) by {
        vstd::arithmetic::power2::lemma2_to64();
    }
    while p < n
        invariant
            n <= usize::MAX / 2 + 1,
            p == pow2(k),
            1 <= p,
            k == 0 || pow2((k - 1) as nat) < n,
        decreases usize::MAX - p,
    {
        proof {
            lemma_pow2_unfold(k + 1);
        }
        p = p * 2;
        proof {
            k = k + 1;
        }
    }
    p
}

// ── BoundedFsAccessFeedback ─────────────────────────────────────────────────

/// The bucket of a hash in a map of `mask + 1` buckets.
pub open spec fn bucket(h: u64, mask: usize) -> int {
    ((h as usize) & mask) as int
}

/// Marks the bucket of hash `h` as seen; true when it was unseen.
pub open spec fn note_spec(seen: Seq<u8>, mask: usize, h: u64) -> (Seq<u8>, bool) {
    let i = bucket(h, mask);
    if seen[i] == 0 {
        (seen.update(i, 1), true)
    } else {
        (seen, false)
    }
}

/// Notes every path of `paths` in order; true when some bucket was new.
pub open spec fn notes_spec(seen: Seq<u8>, mask: usize, paths: Seq<Seq<char>>) -> (Seq<u8>, bool)
    decreases paths.len(),
{
    if paths.len() == 0 {
        (seen, false)
    } else {
        let (s1, b1) = notes_spec(seen, mask, paths.drop_last());
        let (s2, b2) = note_spec(s1, mask, path_hash(paths.last()));
        (s2, b1 || b2)
    }
}

/// The number of buckets already seen.
pub open spec fn seen_count(seen: Seq<u8>) -> nat
    decreases seen.len(),
{
    if seen.len() == 0 {
        0
    } else {
        seen_count(seen.drop_last()) + if seen.last() != 0 {
            1nat
        } else {
            0nat
        }
    }
}

/// Like [`FsAccessFeedback`], this promotes an input when the target reaches a
/// filesystem path it has never reached before (new ENOENT or new write path),
/// but it keys novelty on a bounded hashed bitmap, as AFL does for edges: a path
/// is new only if its bucket (`hash(path) % map size`) was never set. At most
/// map-size buckets can ever be new, so the corpus contribution from
/// filesystem novelty plateaus instead of growing without bound.
#[derive(Debug)]
pub struct BoundedFsAccessFeedback {
    pub name: String,
    /// One byte per bucket, 0 = unseen, 1 = seen, for the whole campaign.
    pub seen: Vec<u8>,
    /// `seen.len() - 1`; `seen.len()` is a power of two so this masks the hash.
    pub mask: usize,
}

impl BoundedFsAccessFeedback {
    /// A power-of-two map with `mask` = size - 1.
    pub open spec fn wf(&self) -> bool {
        &&& self.seen@.len() == self.mask + 1
        &&& exists|k: nat| self.seen@.len() == #[trigger] pow2(k)
    }

    /// `map_size` is rounded up to the next power of two; it caps how many
    /// distinct path buckets can ever be admitted.
    pub fn new(map_size: usize) -> (fb: Self)
        requires
            map_size <= usize::MAX / 2 + 1,
        ensures
            fb.wf(),
            fb.seen@ == Seq::new(fb.seen@.len(), |_i: int| 0u8),
            fb.seen@.len() >= map_size,
            exists|k: nat|
                fb.seen@.len() == #[trigger] pow2(k) && (k == 0 || pow2((k - 1) as nat) < map_size),
            fb.name@ == "bounded_fs_access"@,
    {
        let n = if map_size > 1 {
            map_size
        } else {
            1
        };
        let size = next_power_of_two(n);
        proof {
            let k = choose|k: nat| size == #[trigger] pow2(k) && (k == 0 || pow2((k - 1) as nat) < n);
            if k > 0 {
                vstd::arithmetic::power2::lemma_pow2_pos((k - 1) as nat);
            }
            assert(size == pow2(k) && (k == 0 || pow2((k - 1) as nat) < map_size));
        }
        let seen = vec![0u8; size];
        assert(seen@ =~= Seq::new(size as nat, |_i: int| 0u8));
        BoundedFsAccessFeedback { name: owned("bounded_fs_access"), seen, mask: size - 1 }
    }

    /// Marks `path`'s bucket as seen; true only the first time that bucket
    /// goes from 0 to 1.
    pub fn note(&mut self, path: &str) -> (novel: bool)
        requires
            old(self).wf(),
        ensures
            final(self).wf(),
            final(self).mask == old(self).mask,
            final(self).name == old(self).name,
            (final(self).seen@, novel) == note_spec(old(self).seen@, old(self).mask, path_hash(path@)),
    {
        let h = hash_path(path);
        let m = self.mask;
        let idx = (h as usize) & m;
        assert((h as usize) & m <= m) by (bit_vector);
        if self.seen[idx] == 0 {
            self.seen.set(idx, 1);
            true
        } else {
            false
        }
    }

    /// Notes every ENOENT path, then every write path, of the latest guidance;
    /// true when some bucket was new.
    pub fn is_interesting(&mut self, guidance: &MutationGuidance) -> (novel: bool)
        requires
            old(self).wf(),
        ensures
            final(self).wf(),
            final(self).mask == old(self).mask,
            ({
                let (s1, b1) = notes_spec(old(self).seen@, old(self).mask, guidance@.enoent);
                let (s2, b2) = notes_spec(s1, old(self).mask, guidance@.write);
                final(self).seen@ == s2 && novel == (b1 || b2)
            }),
    {
        let ghost mask = self.mask;
        let ghost s0 = self.seen@;
        let b1 = self.note_all(&guidance.enoent_paths);
        let ghost s1 = self.seen@;
        let b2 = self.note_all(&guidance.write_paths);
        b1 || b2
    }

    fn note_all(&mut self, paths: &Vec<String>) -> (novel: bool)
        requires
            old(self).wf(),
        ensures
            final(self).wf(),
            final(self).mask == old(self).mask,
            final(self).name == old(self).name,
            (final(self).seen@, novel) == notes_spec(old(self).seen@, old(self).mask, strings_view(
                paths@,
            )),
    {
        let ghost ps = strings_view(paths@);
        let mut novel = false;
        let n = paths.len();
        assert(ps.take(0) =~= Seq::<Seq<char>>::empty());
        for i in 0..n
            invariant
                n == paths@.len(),
                ps == strings_view(paths@),
                self.wf(),
                self.mask == old(self).mask,
                self.name == old(self).name,
                (self.seen@, novel) == notes_spec(old(self).seen@, self.mask, ps.take(i as int)),
        {
            let b = self.note(paths[i].as_str());
            proof {
                assert(ps.take(i + 1).drop_last() =~= ps.take(i as int));
                assert(ps.take(i + 1).last() == paths@[i as int]@);
            }
            novel = novel || b;
        }
        assert(ps.take(n as int) =~= ps);
        novel
    }
}

// ── Laws of the two feedbacks ───────────────────────────────────────────────

proof fn lemma_bucket_in_range(h: u64, mask: usize)
    ensures
        0 <= bucket(h, mask) <= mask,
{
    assert((h as usize) & mask <= mask) by (bit_vector);
}

proof fn lemma_seen_count_le(seen: Seq<u8>)
    ensures
        seen_count(seen) <= seen.len(),
    decreases seen.len(),
{
    if seen.len() > 0 {
        lemma_seen_count_le(seen.drop_last());
    }
}

proof fn lemma_seen_count_mark(seen: Seq<u8>, i: int)
    requires
        0 <= i < seen.len(),
        seen[i] == 0,
    ensures
        seen_count(seen.update(i, 1)) == seen_count(seen) + 1,
    decreases seen.len(),
{
    let t = seen.update(i, 1);
    if i < seen.len() - 1 {
        assert(t.drop_last() =~= seen.drop_last().update(i, 1));
        lemma_seen_count_mark(seen.drop_last(), i);
    } else {
        assert(t.drop_last() =~= seen.drop_last());
    }
}

/// Noting a path whose bucket is already seen is never novel and changes
/// nothing: in particular, noting the same path twice in a row, the second
/// note is not novel.
pub proof fn lemma_note_twice(seen: Seq<u8>, mask: usize, h: u64)
    requires
        seen.len() == mask + 1,
    ensures
        ({
            let (s1, b1) = note_spec(seen, mask, h);
            let (s2, b2) = note_spec(s1, mask, h);
            !b2 && s2 == s1 && s1.len() == seen.len()
        }),
{
    lemma_bucket_in_range(h, mask);
}

/// A novel note marks exactly one more bucket as seen and any other note
/// marks none, while the number of seen buckets never exceeds the map size:
/// over a whole campaign at most map-size notes are novel.
pub proof fn lemma_note_count(seen: Seq<u8>, mask: usize, h: u64)
    requires
        seen.len() == mask + 1,
    ensures
        ({
            let (s1, novel) = note_spec(seen, mask, h);
            &&& s1.len() == seen.len()
            &&& seen_count(s1) == seen_count(seen) + if novel {
                1int
            } else {
                0int
            }
            &&& seen_count(s1) <= s1.len()
        }),
{
    lemma_bucket_in_range(h, mask);
    let i = bucket(h, mask);
    if seen[i] == 0 {
        lemma_seen_count_mark(seen, i);
    }
    lemma_seen_count_le(note_spec(seen, mask, h).0);
}

/// Every path of `paths` has its bucket marked in `seen`.
pub open spec fn all_marked(seen: Seq<u8>, mask: usize, paths: Seq<Seq<char>>) -> bool {
    forall|i: int| 0 <= i < paths.len() ==> seen[bucket(path_hash(#[trigger] paths[i]), mask)] != 0
}

proof fn lemma_notes_mark(seen: Seq<u8>, mask: usize, paths: Seq<Seq<char>>)
    requires
        seen.len() == mask + 1,
    ensures
        notes_spec(seen, mask, paths).0.len() == seen.len(),
        all_marked(notes_spec(seen, mask, paths).0, mask, paths),
        forall|j: int|
            0 <= j < seen.len() && seen[j] != 0 ==> #[trigger] notes_spec(seen, mask, paths).0[j]
                != 0,
    decreases paths.len(),
{
    if paths.len() > 0 {
        let init = paths.drop_last();
        lemma_notes_mark(seen, mask, init);
        let s1 = notes_spec(seen, mask, init).0;
        let h = path_hash(paths.last());
        lemma_bucket_in_range(h, mask);
        let s2 = note_spec(s1, mask, h).0;
        assert(s2 == notes_spec(seen, mask, paths).0);
        assert forall|i: int| 0 <= i < paths.len() implies s2[bucket(
            path_hash(#[trigger] paths[i]),
            mask,
        )] != 0 by {
            if i < paths.len() - 1 {
                assert(paths[i] == init[i]);
                lemma_bucket_in_range(path_hash(paths[i]), mask);
            }
        }
    }
}

proof fn lemma_notes_when_marked(seen: Seq<u8>, mask: usize, paths: Seq<Seq<char>>)
    requires
        seen.len() == mask + 1,
        all_marked(seen, mask, paths),
    ensures
        notes_spec(seen, mask, paths) == (seen, false),
    decreases paths.len(),
{
    if paths.len() > 0 {
        let init = paths.drop_last();
        assert forall|i: int| 0 <= i < init.len() implies seen[bucket(
            path_hash(#[trigger] init[i]),
            mask,
        )] != 0 by {
            assert(init[i] == paths[i]);
        }
        lemma_notes_when_marked(seen, mask, init);
        assert(seen[bucket(path_hash(paths[paths.len() - 1]), mask)] != 0);
    }
}

proof fn lemma_notes_unhit(seen: Seq<u8>, mask: usize, paths: Seq<Seq<char>>, j: int)
    requires
        seen.len() == mask + 1,
        0 <= j < seen.len(),
        forall|i: int| 0 <= i < paths.len() ==> bucket(path_hash(#[trigger] paths[i]), mask) != j,
    ensures
        notes_spec(seen, mask, paths).0[j] == seen[j],
    decreases paths.len(),
{
    if paths.len() > 0 {
        let init = paths.drop_last();
        assert forall|i: int| 0 <= i < init.len() implies bucket(path_hash(#[trigger] init[i]), mask)
            != j by {
            assert(init[i] == paths[i]);
        }
        lemma_notes_unhit(seen, mask, init, j);
        lemma_notes_mark(seen, mask, init);
        let h = path_hash(paths.last());
        assert(bucket(path_hash(paths[paths.len() - 1]), mask) != j);
        lemma_bucket_in_range(h, mask);
        let s1 = notes_spec(seen, mask, init).0;
        assert(notes_spec(seen, mask, paths).0 == note_spec(s1, mask, h).0);
        assert(note_spec(s1, mask, h).0[j] == s1[j]);
    }
}

/// Noting a run of paths is novel exactly when one of them falls in a bucket
/// the map had not seen before the run; buckets no path of the run falls in
/// keep their state.
pub proof fn lemma_notes_novel_law(seen: Seq<u8>, mask: usize, paths: Seq<Seq<char>>)
    requires
        seen.len() == mask + 1,
    ensures
        notes_spec(seen, mask, paths).1 <==> exists|i: int|
            0 <= i < paths.len() && seen[bucket(path_hash(#[trigger] paths[i]), mask)] == 0,
        forall|j: int|
            0 <= j < seen.len() && (forall|i: int|
                0 <= i < paths.len() ==> bucket(path_hash(#[trigger] paths[i]), mask) != j)
                ==> notes_spec(seen, mask, paths).0[j] == seen[j],
    decreases paths.len(),
{
    assert forall|j: int|
        0 <= j < seen.len() && (forall|i: int|
            0 <= i < paths.len() ==> bucket(path_hash(#[trigger] paths[i]), mask) != j)
            implies notes_spec(seen, mask, paths).0[j] == seen[j] by {
        lemma_notes_unhit(seen, mask, paths, j);
    }
    if paths.len() > 0 {
        let init = paths.drop_last();
        lemma_notes_novel_law(seen, mask, init);
        lemma_notes_mark(seen, mask, init);
        let (s1, b1) = notes_spec(seen, mask, init);
        let last = paths.last();
        let bl = bucket(path_hash(last), mask);
        lemma_bucket_in_range(path_hash(last), mask);
        let b2 = note_spec(s1, mask, path_hash(last)).1;
        assert(b2 == (s1[bl] == 0));
        if b1 {
            let i = choose|i: int| 0 <= i < init.len() && seen[bucket(path_hash(#[trigger] init[i]), mask)] == 0;
            assert(paths[i] == init[i]);
        }
        if b2 {
            assert(seen[bl] == 0);
            assert(paths[paths.len() - 1] == last);
        }
        if exists|i: int| 0 <= i < paths.len() && seen[bucket(path_hash(#[trigger] paths[i]), mask)] == 0 {
            let i = choose|i: int| 0 <= i < paths.len() && seen[bucket(path_hash(#[trigger] paths[i]), mask)] == 0;
            if i < paths.len() - 1 {
                assert(init[i] == paths[i]);
            } else if !b1 {
                assert forall|q: int| 0 <= q < init.len() implies bucket(path_hash(#[trigger] init[q]), mask)
                    != bl by {
                    if bucket(path_hash(init[q]), mask) == bl {
                        assert(paths[q] == init[q]);
                    }
                }
                lemma_notes_unhit(seen, mask, init, bl);
            }
        }
    }
}

/// Asking the bounded feedback twice about the same guidance: the second
/// answer is "not interesting" and the map stays as the first call left it.
pub proof fn lemma_bounded_interesting_twice(
    seen: Seq<u8>,
    mask: usize,
    enoent: Seq<Seq<char>>,
    write: Seq<Seq<char>>,
)
    requires
        seen.len() == mask + 1,
    ensures
        ({
            let (s1, b1) = notes_spec(seen, mask, enoent);
            let (s2, b2) = notes_spec(s1, mask, write);
            let (t1, c1) = notes_spec(s2, mask, enoent);
            let (t2, c2) = notes_spec(t1, mask, write);
            !(c1 || c2) && t2 == s2
        }),
{
    lemma_notes_mark(seen, mask, enoent);
    let s1 = notes_spec(seen, mask, enoent).0;
    lemma_notes_mark(s1, mask, write);
    let s2 = notes_spec(s1, mask, write).0;
    assert forall|i: int| 0 <= i < enoent.len() implies s2[bucket(
        path_hash(#[trigger] enoent[i]),
        mask,
    )] != 0 by {
        lemma_bucket_in_range(path_hash(enoent[i]), mask);
    }
    lemma_notes_when_marked(s2, mask, enoent);
    lemma_notes_when_marked(s2, mask, write);
}

/// Asking the exact-path feedback twice about the same paths: once the paths
/// are recorded, none of them is new.
pub proof fn lemma_access_interesting_twice(
    before: Seq<Seq<char>>,
    after: Seq<Seq<char>>,
    paths: Seq<Seq<char>>,
)
    requires
        after.to_set() == before.to_set() + paths.to_set(),
    ensures
        !has_new_path(after, paths),
{
    assert forall|i: int| 0 <= i < paths.len() implies after.contains(#[trigger] paths[i]) by {
        assert(paths.to_set().contains(paths[i]));
        assert(after.to_set().contains(paths[i]));
    }
}

/// Notes the paths of `ps` in order, starting from `seen`: the final map and
/// the answer of each note.
pub open spec fn note_run(seen: Seq<u8>, mask: usize, ps: Seq<Seq<char>>) -> (Seq<u8>, Seq<bool>)
    decreases ps.len(),
{
    if ps.len() == 0 {
        (seen, Seq::empty())
    } else {
        let (s1, bs) = note_run(seen, mask, ps.drop_last());
        let (s2, b) = note_spec(s1, mask, path_hash(ps.last()));
        (s2, bs.push(b))
    }
}

/// Some path of `ps` before index `i` falls in bucket `b`.
pub open spec fn bucket_hit_before(ps: Seq<Seq<char>>, mask: usize, i: int, b: int) -> bool {
    exists|j: int| 0 <= j < i && #[trigger] bucket(path_hash(ps[j]), mask) == b
}

/// How many answers are true.
pub open spec fn count_true(bs: Seq<bool>) -> nat
    decreases bs.len(),
{
    if bs.len() == 0 {
        0
    } else {
        count_true(bs.drop_last()) + if bs.last() {
            1nat
        } else {
            0nat
        }
    }
}

proof fn lemma_note_run(mask: usize, ps: Seq<Seq<char>>)
    requires
        mask < usize::MAX,
    ensures
        ({
            let (s, bs) = note_run(Seq::new((mask + 1) as nat, |_i: int| 0u8), mask, ps);
            &&& s.len() == mask + 1
            &&& bs.len() == ps.len()
            &&& forall|b: int|
                0 <= b <= mask ==> (#[trigger] s[b] != 0 <==> bucket_hit_before(
                    ps,
                    mask,
                    ps.len() as int,
                    b,
                ))
            &&& forall|i: int|
                0 <= i < ps.len() ==> #[trigger] bs[i] == !bucket_hit_before(
                    ps,
                    mask,
                    i,
                    bucket(path_hash(ps[i]), mask),
                )
            &&& count_true(bs) == seen_count(s)
        }),
    decreases ps.len(),
{
    let zero = Seq::new((mask + 1) as nat, |_i: int| 0u8);
    if ps.len() == 0 {
        assert(seen_count(zero) == 0) by {
            lemma_seen_count_zero(zero);
        }
    } else {
        let init = ps.drop_last();
        lemma_note_run(mask, init);
        let (s1, bs1) = note_run(zero, mask, init);
        let last = ps.last();
        let h = path_hash(last);
        lemma_bucket_in_range(h, mask);
        let k = bucket(h, mask);
        let (s2, b) = note_spec(s1, mask, h);
        let bs2 = bs1.push(b);
        assert(note_run(zero, mask, ps) == (s2, bs2));
        let n = ps.len() - 1;
        assert forall|j: int| 0 <= j < n implies #[trigger] ps[j] == init[j] by {}
        assert forall|i: int, c: int| 0 <= i <= n implies bucket_hit_before(ps, mask, i, c)
            == bucket_hit_before(init, mask, i, c) by {
            if bucket_hit_before(ps, mask, i, c) {
                let j = choose|j: int| 0 <= j < i && #[trigger] bucket(path_hash(ps[j]), mask) == c;
                assert(init[j] == ps[j]);
            }
            if bucket_hit_before(init, mask, i, c) {
                let j = choose|j: int| 0 <= j < i && #[trigger] bucket(path_hash(init[j]), mask) == c;
                assert(init[j] == ps[j]);
            }
        }
        // the new map holds every bucket hit so far
        assert forall|c: int| 0 <= c <= mask implies (#[trigger] s2[c] != 0 <==> bucket_hit_before(
            ps,
            mask,
            ps.len() as int,
            c,
        )) by {
            assert(s1[c] != 0 <==> bucket_hit_before(init, mask, n, c));
            if bucket_hit_before(ps, mask, ps.len() as int, c) {
                let j = choose|j: int|
                    0 <= j < ps.len() && #[trigger] bucket(path_hash(ps[j]), mask) == c;
                if j < n {
                    assert(bucket_hit_before(ps, mask, n, c));
                } else {
                    assert(ps[j] == last);
                }
            }
            if c == k {
                assert(bucket_hit_before(ps, mask, ps.len() as int, c)) by {
                    assert(bucket(path_hash(ps[n]), mask) == c);
                }
            } else if s2[c] != 0 {
                assert(bucket_hit_before(ps, mask, n, c));
                let j = choose|j: int| 0 <= j < n && #[trigger] bucket(path_hash(ps[j]), mask) == c;
                assert(bucket(path_hash(ps[j]), mask) == c);
            }
        }
        assert forall|i: int| 0 <= i < ps.len() implies #[trigger] bs2[i] == !bucket_hit_before(
            ps,
            mask,
            i,
            bucket(path_hash(ps[i]), mask),
        ) by {
            if i < n {
                assert(bs2[i] == bs1[i]);
                assert(ps[i] == init[i]);
            } else {
                assert(ps[i] == last);
                assert(s1[k] != 0 <==> bucket_hit_before(init, mask, n, k));
            }
        }
        assert(bs2.drop_last() =~= bs1);
        if s1[k] == 0 {
            lemma_seen_count_mark(s1, k);
        }
    }
}

proof fn lemma_seen_count_zero(s: Seq<u8>)
    requires
        forall|i: int| 0 <= i < s.len() ==> s[i] == 0,
    ensures
        seen_count(s) == 0,
    decreases s.len(),
{
    if s.len() > 0 {
        lemma_seen_count_zero(s.drop_last());
    }
}

/// From a fresh map, a run of notes answers "new" for a path exactly when no
/// earlier path of the run fell in the same bucket, so noting a path again is
/// never new; and however many distinct paths arrive, at most map-size
/// answers are "new".
pub proof fn lemma_note_run_novelty(mask: usize, ps: Seq<Seq<char>>)
    requires
        mask < usize::MAX,
    ensures
        ({
            let (s, bs) = note_run(Seq::new((mask + 1) as nat, |_i: int| 0u8), mask, ps);
            &&& bs.len() == ps.len()
            &&& forall|i: int|
                0 <= i < ps.len() ==> #[trigger] bs[i] == !bucket_hit_before(
                    ps,
                    mask,
                    i,
                    bucket(path_hash(ps[i]), mask),
                )
            &&& forall|i: int| 0 < i < ps.len() && ps[i] == ps[i - 1] ==> !#[trigger] bs[i]
            &&& count_true(bs) <= mask + 1
        }),
{
    lemma_note_run(mask, ps);
    let (s, bs) = note_run(Seq::new((mask + 1) as nat, |_i: int| 0u8), mask, ps);
    lemma_seen_count_le(s);
    assert forall|i: int| 0 < i < ps.len() && ps[i] == ps[i - 1] implies !#[trigger] bs[i] by {
        assert(bucket(path_hash(ps[i - 1]), mask) == bucket(path_hash(ps[i]), mask));
    }
}

// ── FsAccessFeedback ────────────────────────────────────────────────────────

/// A set of paths, in insertion order, without duplicates.
#[derive(Debug)]
pub struct PathSet {
    pub items: Vec<String>,
}

impl View for PathSet {
    type V = Seq<Seq<char>>;

    open spec fn view(&self) -> Seq<Seq<char>> {
        strings_view(self.items@)
    }
}

impl PathSet {
    pub fn new() -> (s: Self)
        ensures
            s@.len() == 0,
    {
        let s = PathSet { items: Vec::new() };
        assert(s@ =~= Seq::<Seq<char>>::empty());
        s
    }

    pub fn len(&self) -> (n: usize)
        ensures
            n == self@.len(),
    {
        self.items.len()
    }

    pub fn is_empty(&self) -> (b: bool)
        ensures
            b == (self@.len() == 0),
    {
        self.items.len() == 0
    }

    pub fn contains(&self, path: &str) -> (b: bool)
        ensures
            b == self@.contains(path@),
    {
        crate::text::contains_str(&self.items, path)
    }

    /// Adds `path`; true when it was not there yet.
    pub fn insert(&mut self, path: String) -> (added: bool)
        requires
            old(self)@.no_duplicates(),
        ensures
            final(self)@.no_duplicates(),
            added == !old(self)@.contains(path@),
            final(self)@ == if added {
                old(self)@.push(path@)
            } else {
                old(self)@
            },
    {
        if self.contains(path.as_str()) {
            false
        } else {
            let ghost before = self@;
            self.items.push(path);
            assert(self@ =~= before.push(path@));
            true
        }
    }

    pub fn clear(&mut self)
        ensures
            final(self)@.len() == 0,
    {
        self.items.clear();
    }
}

/// Feedback that promotes an input when the target accesses a path it has
/// never accessed before (new ENOENT or new write path), even if the input
/// covers no new edges.
#[derive(Debug)]
pub struct FsAccessFeedback {
    pub name: String,
    pub seen_enoent: PathSet,
    pub seen_write: PathSet,
}

/// Whether some path of `paths` is missing from `seen`.
pub open spec fn has_new_path(seen: Seq<Seq<char>>, paths: Seq<Seq<char>>) -> bool {
    exists|i: int| 0 <= i < paths.len() && !seen.contains(#[trigger] paths[i])
}

impl FsAccessFeedback {
    pub open spec fn wf(&self) -> bool {
        self.seen_enoent@.no_duplicates() && self.seen_write@.no_duplicates()
    }

    pub fn new() -> (fb: Self)
        ensures
            fb.wf(),
            fb.seen_enoent@.len() == 0,
            fb.seen_write@.len() == 0,
            fb.name@ == "fs_access"@,
    {
        FsAccessFeedback { name: owned("fs_access"), seen_enoent: PathSet::new(), seen_write: PathSet::new() }
    }

    fn insert_all(set: &mut PathSet, paths: &Vec<String>) -> (novel: bool)
        requires
            old(set)@.no_duplicates(),
        ensures
            final(set)@.no_duplicates(),
            novel == has_new_path(old(set)@, strings_view(paths@)),
            final(set)@.to_set() == old(set)@.to_set() + strings_view(paths@).to_set(),
    {
        let ghost ps = strings_view(paths@);
        let ghost start = set@;
        let mut novel = false;
        let n = paths.len();
        for i in 0..n
            invariant
                n == paths@.len(),
                ps == strings_view(paths@),
                set@.no_duplicates(),
                novel == has_new_path(start, ps.take(i as int)),
                set@.to_set() == start.to_set() + ps.take(i as int).to_set(),
                forall|x: Seq<char>| start.contains(x) ==> #[trigger] set@.contains(x),
        {
            let ghost before = set@;
            let ghost p = ps[i as int];
            let ghost pre = ps.take(i as int);
            assert(p == paths@[i as int]@);
            let added = set.insert(paths[i].clone());
            proof {
                let t = ps.take(i + 1);
                assert(t =~= pre.push(p));
                pre.lemma_push_to_set_commute(p);
                if added {
                    before.lemma_push_to_set_commute(p);
                } else {
                    assert(before.to_set().contains(p));
                    assert(before.to_set().insert(p) =~= before.to_set());
                }
                assert(set@.to_set() =~= start.to_set() + t.to_set());
                assert forall|x: Seq<char>| start.contains(x) implies set@.contains(x) by {
                    assert(before.contains(x));
                    if added {
                        assert(set@.to_set().contains(x));
                    }
                }
                if !novel {
                    assert forall|x: Seq<char>| before.contains(x) implies start.contains(x) by {
                        assert(before.to_set().contains(x));
                        if pre.to_set().contains(x) {
                            let k = choose|k: int| 0 <= k < pre.len() && pre[k] == x;
                            assert(!has_new_path(start, pre));
                            assert(start.contains(pre[k]));
                        }
                    }
                    assert(added == !start.contains(p));
                    if added {
                        assert(t[i as int] == p);
                    } else {
                        assert forall|w: int| 0 <= w < t.len() implies start.contains(#[trigger] t[w]) by {
                            if w < i {
                                assert(t[w] == pre[w]);
                            }
                        }
                    }
                } else {
                    let w = choose|w: int| 0 <= w < pre.len() && !start.contains(#[trigger] pre[w]);
                    assert(t[w] == pre[w]);
                }
            }
            novel = novel || added;
        }
        assert(ps.take(n as int) =~= ps);
        novel
    }

    /// Records the latest guidance's ENOENT and write paths; true when one of
    /// them had not been seen before.
    pub fn is_interesting(&mut self, guidance: &MutationGuidance) -> (novel: bool)
        requires
            old(self).wf(),
        ensures
            final(self).wf(),
            novel == (has_new_path(old(self).seen_enoent@, guidance@.enoent) || has_new_path(
                old(self).seen_write@,
                guidance@.write,
            )),
            final(self).seen_enoent@.to_set() == old(self).seen_enoent@.to_set()
                + guidance@.enoent.to_set(),
            final(self).seen_write@.to_set() == old(self).seen_write@.to_set()
                + guidance@.write.to_set(),
    {
        let b1 = Self::insert_all(&mut self.seen_enoent, &guidance.enoent_paths);
        let b2 = Self::insert_all(&mut self.seen_write, &guidance.write_paths);
        b1 || b2
    }
}

// ── FuseLogObserver ─────────────────────────────────────────────────────────

/// Observer state that gates per-iteration FUSE access logging: the harness
/// clears the log and turns it on before each run, and after the run turns it
/// off and publishes the guidance decoded from it.
#[derive(Debug)]
pub struct FuseLogObserver {
    pub name: String,
}

impl FuseLogObserver {
    pub fn new() -> (o: Self)
        ensures
            o.name@ == "fuse_log"@,
    {
        FuseLogObserver { name: owned("fuse_log") }
    }
}

} // verus!
