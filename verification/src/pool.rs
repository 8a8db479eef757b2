//! A closed pool of the delta mutators, for a simple driver that picks one
//! at random and applies it when it can do something.

use vstd::prelude::*;

use crate::delta::{FsDelta, OpView};
use crate::guidance::{GuidanceView, MutationGuidance};
use crate::mutators::{
    added_file_op, byte_flip_outcome, has_file_bound_op, destructive_op, has_content_op, has_flip_candidate,
    only_changed_at, path_choice, replace_content_outcome, spliced, update_content_choice,
    update_outcome, with_path, baseline_content, AddFileOp, ByteFlipFileContent,
    DestructiveMutator, LiveCorpus, MutatePath, MutationResult, RemoveOp, ReplaceFileContent,
    SpliceDelta, UpdateExistingFile, MAX_OPS,
};
use crate::rng::StdRand;
use crate::text::strings_view;

verus! {

/// One of the delta mutators.
#[derive(Debug)]
pub enum AnyMutator {
    ByteFlip(ByteFlipFileContent),
    Replace(ReplaceFileContent),
    AddFile(AddFileOp),
    Remove(RemoveOp),
    MutatePath(MutatePath),
    Splice(SpliceDelta),
    Destructive(DestructiveMutator),
    UpdateExisting(UpdateExistingFile),
}

/// What a mutated input is, for each kind of mutator, given the input before
/// and the latest guidance (see each mutator's own contract).
pub open spec fn mutated_by(
    m: AnyMutator,
    old: Seq<OpView>,
    new: Seq<OpView>,
    live: GuidanceView,
    corpus: Seq<FsDelta>,
) -> bool {
    match m {
        AnyMutator::ByteFlip(_) => byte_flip_outcome(old, new),
        AnyMutator::Replace(_) => replace_content_outcome(old, new),
        AnyMutator::AddFile(_) => new.len() == old.len() + 1 && new.drop_last() == old
            && added_file_op(new.last(), live),
        AnyMutator::Remove(_) => exists|i: int| 0 <= i < old.len() && new == old.remove(i),
        AnyMutator::MutatePath(p) => exists|i: int|
            #![trigger old[i]]
            only_changed_at(old, new, i) && new[i] == with_path(old[i], new[i].path) && path_choice(
                old[i],
                strings_view(p.baseline_file_paths@),
                strings_view(p.baseline_dir_paths@),
                strings_view(p.baseline_all_paths@),
                live,
                new[i].path,
            ),
        AnyMutator::Splice(s) => spliced(s.pool_seen(corpus), old, new),
        AnyMutator::Destructive(d) => new.len() == old.len() + 1 && new.drop_last() == old
            && destructive_op(
            new.last(),
            strings_view(d.baseline_file_paths@),
            strings_view(d.baseline_dir_paths@),
            strings_view(d.baseline_all_paths@),
            live,
        ),
        AnyMutator::UpdateExisting(u) => exists|p: Seq<char>, c: Seq<u8>|
            #![trigger update_outcome(old, new, p, c)]
            strings_view(u.baseline_file_paths@).contains(p) && update_content_choice(
                baseline_content(u.baseline_contents@, p),
                c,
            ) && update_outcome(old, new, p, c),
    }
}

/// The inputs on which the mutator always mutates, whatever it draws (see
/// each mutator's own contract); `corpus` is the live corpus.
pub open spec fn mutation_owed(m: AnyMutator, d: Seq<OpView>, corpus: Seq<FsDelta>) -> bool {
    match m {
        AnyMutator::ByteFlip(_) => has_flip_candidate(d),
        AnyMutator::Replace(_) => has_content_op(d),
        AnyMutator::AddFile(_) => d.len() < MAX_OPS,
        AnyMutator::Remove(_) => d.len() > 1,
        AnyMutator::MutatePath(p) => d.len() > 0 && (p.baseline_file_paths@.len() > 0
            || !has_file_bound_op(d)),
        AnyMutator::Splice(s) => d.len() < MAX_OPS && s.pool_seen(corpus).len() > 0 && forall|k: int|
            0 <= k < s.pool_seen(corpus).len() ==> #[trigger] s.pool_seen(corpus)[k]@.len() > 0,
        AnyMutator::Destructive(_) => d.len() < MAX_OPS,
        AnyMutator::UpdateExisting(u) => d.len() < MAX_OPS && u.baseline_file_paths@.len() > 0,
    }
}

impl AnyMutator {
    pub open spec fn name_of(&self) -> Seq<char> {
        match self {
            AnyMutator::ByteFlip(_) => "ByteFlipFileContent"@,
            AnyMutator::Replace(_) => "ReplaceFileContent"@,
            AnyMutator::AddFile(_) => "AddFileOp"@,
            AnyMutator::Remove(_) => "RemoveOp"@,
            AnyMutator::MutatePath(_) => "MutatePath"@,
            AnyMutator::Splice(_) => "SpliceDelta"@,
            AnyMutator::Destructive(_) => "DestructiveMutator"@,
            AnyMutator::UpdateExisting(_) => "UpdateExistingFile"@,
        }
    }

    /// Whether the mutator has something to work on in a delta `d`, given the
    /// live corpus.
    pub open spec fn applies_to(&self, d: Seq<OpView>, corpus: Seq<FsDelta>) -> bool {
        match self {
            AnyMutator::ByteFlip(_) => has_flip_candidate(d),
            AnyMutator::Replace(_) => has_content_op(d),
            AnyMutator::AddFile(_) => d.len() < MAX_OPS,
            AnyMutator::Remove(_) => d.len() > 1,
            AnyMutator::MutatePath(_) => d.len() > 0,
            AnyMutator::Splice(s) => d.len() < MAX_OPS && s.pool_seen(corpus).len() > 0,
            AnyMutator::Destructive(_) => d.len() < MAX_OPS,
            AnyMutator::UpdateExisting(u) => d.len() < MAX_OPS && u.baseline_file_paths@.len() > 0,
        }
    }

    pub fn name(&self) -> (n: &'static str)
        ensures
            n@ == self.name_of(),
    {
        match self {
            AnyMutator::ByteFlip(_) => "ByteFlipFileContent",
            AnyMutator::Replace(_) => "ReplaceFileContent",
            AnyMutator::AddFile(_) => "AddFileOp",
            AnyMutator::Remove(_) => "RemoveOp",
            AnyMutator::MutatePath(_) => "MutatePath",
            AnyMutator::Splice(_) => "SpliceDelta",
            AnyMutator::Destructive(_) => "DestructiveMutator",
            AnyMutator::UpdateExisting(_) => "UpdateExistingFile",
        }
    }

    pub fn can_apply(&self, d: &FsDelta, corpus: &LiveCorpus) -> (b: bool)
        ensures
            b == self.applies_to(d@, corpus@),
    {
        match self {
            AnyMutator::ByteFlip(_) => {
                let n = d.ops.len();
                let mut i: usize = 0;
                while i < n
                    invariant
                        n == d@.len(),
                        i <= n,
                        *self is ByteFlip,
                        forall|k: int| 0 <= k < i ==> !crate::mutators::is_flip_candidate(#[trigger] d@[k]),
                    decreases n - i,
                {
                    let o = &d.ops[i];
                    assert(d@[i as int] == o@);
                    if (o.kind == crate::delta::FsOpKind::CreateFile || o.kind
                        == crate::delta::FsOpKind::UpdateFile) && o.content.len() > 0 {
                        assert(crate::mutators::is_flip_candidate(d@[i as int]));
                        return true;
                    }
                    i += 1;
                }
                false
            },
            AnyMutator::Replace(_) => {
                let n = d.ops.len();
                let mut i: usize = 0;
                while i < n
                    invariant
                        n == d@.len(),
                        i <= n,
                        *self is Replace,
                        forall|k: int| 0 <= k < i ==> !crate::delta::is_content_kind(#[trigger] d@[k].kind),
                    decreases n - i,
                {
                    let o = &d.ops[i];
                    assert(d@[i as int] == o@);
                    if o.kind == crate::delta::FsOpKind::CreateFile || o.kind
                        == crate::delta::FsOpKind::UpdateFile {
                        assert(crate::delta::is_content_kind(d@[i as int].kind));
                        return true;
                    }
                    i += 1;
                }
                false
            },
            AnyMutator::AddFile(_) => d.ops.len() < MAX_OPS,
            AnyMutator::Remove(_) => d.ops.len() > 1,
            AnyMutator::MutatePath(_) => d.ops.len() > 0,
            AnyMutator::Splice(s) => d.ops.len() < MAX_OPS && s.pool_len(corpus) > 0,
            AnyMutator::Destructive(_) => d.ops.len() < MAX_OPS,
            AnyMutator::UpdateExisting(u) => d.ops.len() < MAX_OPS && u.has_baseline(),
        }
    }

    /// Applies the mutator; `live` is the latest guidance from the access log
    /// and `corpus` the live corpus. It draws nothing itself: each mutator's
    /// `mutate` draws its values and applies its own exact `step`.
    pub fn mutate(
        &self,
        rand: &mut StdRand,
        input: &mut FsDelta,
        live: &MutationGuidance,
        corpus: &LiveCorpus,
    ) -> (res: MutationResult)
        requires
            self matches AnyMutator::UpdateExisting(u) ==> forall|k: int|
                0 <= k < u.baseline_contents@.len() ==> #[trigger] u.baseline_contents@[k].1@.len()
                    < usize::MAX,
        ensures
            old(input)@.len() <= MAX_OPS ==> final(input)@.len() <= MAX_OPS,
            res == MutationResult::Skipped ==> final(input)@ == old(input)@,
            mutation_owed(*self, old(input)@, corpus@) ==> res == MutationResult::Mutated,
            res == MutationResult::Mutated ==> mutated_by(
                *self,
                old(input)@,
                final(input)@,
                live@,
                corpus@,
            ),
    {
        match self {
            AnyMutator::ByteFlip(m) => m.mutate(rand, input),
            AnyMutator::Replace(m) => m.mutate(rand, input),
            AnyMutator::AddFile(m) => m.mutate(rand, input, live),
            AnyMutator::Remove(m) => m.mutate(rand, input),
            AnyMutator::MutatePath(m) => m.mutate(rand, input, live),
            AnyMutator::Splice(m) => m.mutate(rand, input, corpus),
            AnyMutator::Destructive(m) => m.mutate(rand, input, live),
            AnyMutator::UpdateExisting(m) => m.mutate(rand, input, live),
        }
    }
}

/// The pool of the simple driver: one mutator of each kind, the baseline-aware
/// ones given the baseline's file, directory and path lists and contents; the
/// splice mutator reads the live corpus handed to each call.
pub fn build_mutator_pool(
    file_paths: Vec<String>,
    dir_paths: Vec<String>,
    all_paths: Vec<String>,
    baseline_contents: Vec<(String, Vec<u8>)>,
) -> (pool: Vec<AnyMutator>)
    ensures
        pool@.len() == 8,
        pool@[0] is ByteFlip,
        pool@[1] is Replace,
        pool@[2] is AddFile,
        pool@[3] is Remove,
        pool@[4] matches AnyMutator::MutatePath(m) && m.baseline_file_paths@ == file_paths@
            && m.baseline_dir_paths@ == dir_paths@ && m.baseline_all_paths@ == all_paths@,
        pool@[5] matches AnyMutator::Splice(m) && m.corpus_pool is None,
        pool@[6] matches AnyMutator::Destructive(m) && strings_view(m.baseline_file_paths@)
            == strings_view(file_paths@) && strings_view(m.baseline_dir_paths@) == strings_view(
            dir_paths@,
        ) && strings_view(m.baseline_all_paths@) == strings_view(all_paths@),
        pool@[7] matches AnyMutator::UpdateExisting(m) && strings_view(m.baseline_file_paths@)
            == strings_view(file_paths@) && m.baseline_contents@ == baseline_contents@,
{
    let files2 = crate::text::clone_strings(&file_paths);
    let files3 = crate::text::clone_strings(&file_paths);
    let dirs2 = crate::text::clone_strings(&dir_paths);
    let all2 = crate::text::clone_strings(&all_paths);
    vec![
        AnyMutator::ByteFlip(ByteFlipFileContent::new()),
        AnyMutator::Replace(ReplaceFileContent::new()),
        AnyMutator::AddFile(AddFileOp::new()),
        AnyMutator::Remove(RemoveOp::new()),
        AnyMutator::MutatePath(MutatePath::with_baseline(file_paths, dir_paths, all_paths)),
        AnyMutator::Splice(SpliceDelta::new()),
        AnyMutator::Destructive(DestructiveMutator::with_baseline(files2, dirs2, all2)),
        AnyMutator::UpdateExisting(
            UpdateExistingFile::new(files3).with_baseline_contents(baseline_contents),
        ),
    ]
}

} // verus!
