//! Filesystem deltas: ordered lists of operations applied on top of a baseline tree.

use vstd::prelude::*;
use vstd::string::StringExecFns;

use crate::text::{decimal, decimal_string, owned};

verus! {

/// The kind of one filesystem operation.
#[derive(Clone, Copy, Debug, PartialEq, Eq, Hash, Structural)]
pub enum FsOpKind {
    CreateFile,
    UpdateFile,
    DeleteFile,
    Mkdir,
    Rmdir,
    SetTimes,
    Truncate,
    CreateSymlink,
}

/// One operation of a delta.
#[derive(Debug, Hash)]
pub struct FsOp {
    pub kind: FsOpKind,
    /// Absolute path: must start with '/'.
    pub path: String,
    /// Link target, for CreateSymlink ops; empty otherwise.
    pub target: String,
    /// Content bytes for CreateFile / UpdateFile ops.
    pub content: Vec<u8>,
    /// Semantic size: content length for file ops, new size for Truncate, 0 otherwise.
    pub size: usize,
    pub mtime_sec: i64,
    pub mtime_nsec: i64,
    pub atime_sec: i64,
    pub atime_nsec: i64,
}

/// The mathematical value of an [`FsOp`].
pub struct OpView {
    pub kind: FsOpKind,
    pub path: Seq<char>,
    pub target: Seq<char>,
    pub content: Seq<u8>,
    pub size: usize,
    pub mtime_sec: i64,
    pub mtime_nsec: i64,
    pub atime_sec: i64,
    pub atime_nsec: i64,
}

impl View for FsOp {
    type V = OpView;

    open spec fn view(&self) -> OpView {
        OpView {
            kind: self.kind,
            path: self.path@,
            target: self.target@,
            content: self.content@,
            size: self.size,
            mtime_sec: self.mtime_sec,
            mtime_nsec: self.mtime_nsec,
            atime_sec: self.atime_sec,
            atime_nsec: self.atime_nsec,
        }
    }
}

/// An operation with the given kind, path, target, content and size, and zero times.
pub open spec fn plain_op(
    kind: FsOpKind,
    path: Seq<char>,
    target: Seq<char>,
    content: Seq<u8>,
    size: usize,
) -> OpView {
    OpView {
        kind,
        path,
        target,
        content,
        size,
        mtime_sec: 0,
        mtime_nsec: 0,
        atime_sec: 0,
        atime_nsec: 0,
    }
}

pub open spec fn is_content_kind(k: FsOpKind) -> bool {
    k == FsOpKind::CreateFile || k == FsOpKind::UpdateFile
}

fn empty_string() -> (s: String)
    ensures
        s@ == Seq::<char>::empty(),
{
    String::new()
}

impl FsOp {
    fn plain(kind: FsOpKind, path: &str, content: Vec<u8>, size: usize) -> (op: FsOp)
        ensures
            op@ == plain_op(kind, path@, Seq::empty(), content@, size),
    {
        FsOp {
            kind,
            path: owned(path),
            target: empty_string(),
            content,
            size,
            mtime_sec: 0,
            mtime_nsec: 0,
            atime_sec: 0,
            atime_nsec: 0,
        }
    }

    pub fn create_file(path: &str, content: Vec<u8>) -> (op: FsOp)
        ensures
            op@ == plain_op(FsOpKind::CreateFile, path@, Seq::empty(), content@, content.len()),
    {
        let size = content.len();
        Self::plain(FsOpKind::CreateFile, path, content, size)
    }

    pub fn update_file(path: &str, content: Vec<u8>) -> (op: FsOp)
        ensures
            op@ == plain_op(FsOpKind::UpdateFile, path@, Seq::empty(), content@, content.len()),
    {
        let size = content.len();
        Self::plain(FsOpKind::UpdateFile, path, content, size)
    }

    pub fn delete_file(path: &str) -> (op: FsOp)
        ensures
            op@ == plain_op(FsOpKind::DeleteFile, path@, Seq::empty(), Seq::empty(), 0),
    {
        Self::plain(FsOpKind::DeleteFile, path, Vec::new(), 0)
    }

    pub fn mkdir(path: &str) -> (op: FsOp)
        ensures
            op@ == plain_op(FsOpKind::Mkdir, path@, Seq::empty(), Seq::empty(), 0),
    {
        Self::plain(FsOpKind::Mkdir, path, Vec::new(), 0)
    }

    pub fn rmdir(path: &str) -> (op: FsOp)
        ensures
            op@ == plain_op(FsOpKind::Rmdir, path@, Seq::empty(), Seq::empty(), 0),
    {
        Self::plain(FsOpKind::Rmdir, path, Vec::new(), 0)
    }

    pub fn truncate(path: &str, new_size: usize) -> (op: FsOp)
        ensures
            op@ == plain_op(FsOpKind::Truncate, path@, Seq::empty(), Seq::empty(), new_size),
    {
        Self::plain(FsOpKind::Truncate, path, Vec::new(), new_size)
    }

    pub fn set_times(
        path: &str,
        mtime_sec: i64,
        mtime_nsec: i64,
        atime_sec: i64,
        atime_nsec: i64,
    ) -> (op: FsOp)
        ensures
            op@ == (OpView {
                kind: FsOpKind::SetTimes,
                path: path@,
                target: Seq::empty(),
                content: Seq::empty(),
                size: 0,
                mtime_sec,
                mtime_nsec,
                atime_sec,
                atime_nsec,
            }),
    {
        FsOp {
            kind: FsOpKind::SetTimes,
            path: owned(path),
            target: empty_string(),
            content: Vec::new(),
            size: 0,
            mtime_sec,
            mtime_nsec,
            atime_sec,
            atime_nsec,
        }
    }

    pub fn create_symlink(path: &str, target: &str) -> (op: FsOp)
        ensures
            op@ == plain_op(FsOpKind::CreateSymlink, path@, target@, Seq::empty(), 0),
    {
        FsOp {
            kind: FsOpKind::CreateSymlink,
            path: owned(path),
            target: owned(target),
            content: Vec::new(),
            size: 0,
            mtime_sec: 0,
            mtime_nsec: 0,
            atime_sec: 0,
            atime_nsec: 0,
        }
    }
}

impl Clone for FsOp {
    fn clone(&self) -> (res: Self)
        ensures
            res@ == self@,
    {
        FsOp {
            kind: self.kind,
            path: self.path.clone(),
            target: self.target.clone(),
            content: self.content.clone(),
            size: self.size,
            mtime_sec: self.mtime_sec,
            mtime_nsec: self.mtime_nsec,
            atime_sec: self.atime_sec,
            atime_nsec: self.atime_nsec,
        }
    }
}


/// The bytes of an ASCII string, one per character.
pub open spec fn ascii(s: Seq<char>) -> Seq<u8> {
    s.map_values(|c: char| c as u8)
}

/// The bytes of an ASCII string literal.
pub fn ascii_bytes(s: &str) -> (v: Vec<u8>)
    requires
        vstd::string::is_ascii(s),
    ensures
        v@ == ascii(s@),
{
    proof {
        vstd::string::is_ascii_spec_bytes(s);
    }
    let v = vstd::slice::slice_to_vec(s.as_bytes());
    assert(v@ =~= ascii(s@));
    v
}

/// An ordered list of filesystem operations.
#[derive(Debug, Hash)]
pub struct FsDelta {
    pub ops: Vec<FsOp>,
}

pub open spec fn ops_view(ops: Seq<FsOp>) -> Seq<OpView> {
    ops.map_values(|o: FsOp| o@)
}

impl View for FsDelta {
    type V = Seq<OpView>;

    open spec fn view(&self) -> Seq<OpView> {
        ops_view(self.ops@)
    }
}

impl Clone for FsDelta {
    fn clone(&self) -> (res: Self)
        ensures
            res@ == self@,
    {
        let mut ops: Vec<FsOp> = Vec::new();
        for i in 0..self.ops.len()
            invariant
                ops@.len() == i,
                forall|k: int| 0 <= k < i ==> #[trigger] ops@[k]@ == self.ops@[k]@,
        {
            ops.push(self.ops[i].clone());
        }
        let res = FsDelta { ops };
        assert(res@ =~= self@);
        res
    }
}

/// Whether the op at `i` is a content op with a later content op on the same path.
pub open spec fn overwritten_later(s: Seq<OpView>, i: int) -> bool {
    &&& is_content_kind(s[i].kind)
    &&& exists|j: int| i < j < s.len() && #[trigger] is_content_kind(s[j].kind) && s[j].path == s[i].path
}

/// The ops from index `i` on, without the content ops that a later content op
/// on the same path overrides.
pub open spec fn dedup_from(s: Seq<OpView>, i: int) -> Seq<OpView>
    decreases s.len() - i,
{
    if i < 0 || i >= s.len() {
        Seq::empty()
    } else if overwritten_later(s, i) {
        dedup_from(s, i + 1)
    } else {
        seq![s[i]] + dedup_from(s, i + 1)
    }
}

pub open spec fn dedup_spec(s: Seq<OpView>) -> Seq<OpView> {
    dedup_from(s, 0)
}

impl FsDelta {
    pub fn new(ops: Vec<FsOp>) -> (d: FsDelta)
        ensures
            d.ops@ == ops@,
    {
        FsDelta { ops }
    }

    pub fn is_empty(&self) -> (b: bool)
        ensures
            b == (self.ops@.len() == 0),
    {
        self.ops.len() == 0
    }

    pub fn len(&self) -> (n: usize)
        ensures
            n == self.ops@.len(),
    {
        self.ops.len()
    }

    /// Strip redundant content ops: for any path with several CreateFile /
    /// UpdateFile ops, only the last one is kept; every other op stays, in order.
    pub fn dedup_content_ops(&self) -> (res: FsDelta)
        ensures
            res@ == dedup_spec(self@),
    {
        let n = self.ops.len();
        let ghost s = self@;
        let mut out: Vec<FsOp> = Vec::new();
        let mut i: usize = 0;
        while i < n
            invariant
                n == self.ops@.len(),
                s == self@,
                i <= n,
                ops_view(out@) + dedup_from(s, i as int) == dedup_spec(s),
            decreases n - i,
        {
            let op = &self.ops[i];
            let mut later = false;
            if op.kind == FsOpKind::CreateFile || op.kind == FsOpKind::UpdateFile {
                let mut j = i + 1;
                while j < n
                    invariant
                        n == self.ops@.len(),
                        s == self@,
                        i < j <= n,
                        op@ == s[i as int],
                        later == exists|k: int| i < k < j && #[trigger] is_content_kind(s[k].kind)
                            && s[k].path == s[i as int].path,
                    decreases n - j,
                {
                    let other = &self.ops[j];
                    proof {
                        assert(s[j as int] == other@);
                    }
                    let is_content = other.kind == FsOpKind::CreateFile || other.kind
                        == FsOpKind::UpdateFile;
                    let same = other.path == op.path;
                    if is_content && same {
                        later = true;
                        assert(is_content_kind(s[j as int].kind));
                    }
                    j += 1;
                }
            }
            proof {
                assert(s[i as int] == op@);
            }
            let ghost old_out = ops_view(out@);
            if !later {
                out.push(op.clone());
                assert(ops_view(out@) =~= old_out + seq![s[i as int]]);
            }
            assert(old_out + dedup_from(s, i as int) == dedup_spec(s));
            assert(ops_view(out@) + dedup_from(s, i + 1) =~= old_out + dedup_from(s, i as int));
            i += 1;
        }
        FsDelta { ops: out }
    }
}


/// The corpus file name of a delta of `n` ops: `delta_<id>_ops<n>.json`, or
/// `delta_ops<n>.json` without a corpus id.
pub open spec fn corpus_name(id: Option<usize>, n: nat) -> Seq<char> {
    match id {
        Some(i) => "delta_"@ + decimal(i as nat) + "_ops"@ + decimal(n) + ".json"@,
        None => "delta_ops"@ + decimal(n) + ".json"@,
    }
}

impl FsDelta {
    /// The name under which the corpus stores this delta.
    pub fn generate_name(&self, id: Option<usize>) -> (s: String)
        ensures
            s@ == corpus_name(id, self@.len()),
    {
        let n = decimal_string(self.ops.len());
        match id {
            Some(i) => {
                let mut s = owned("delta_");
                s.append(decimal_string(i).as_str());
                s.append("_ops");
                s.append(n.as_str());
                s.append(".json");
                s
            },
            None => {
                let mut s = owned("delta_ops");
                s.append(n.as_str());
                s.append(".json");
                s
            },
        }
    }
}

// ── Laws of dedup ───────────────────────────────────────────────────────────

proof fn lemma_dedup_from_origin(s: Seq<OpView>, i: int)
    requires
        0 <= i,
    ensures
        forall|b: int|
            #![trigger dedup_from(s, i)[b]]
            0 <= b < dedup_from(s, i).len() ==> exists|k: int|
                #![trigger s[k]]
                i <= k < s.len() && !overwritten_later(s, k) && dedup_from(s, i)[b] == s[k],
    decreases s.len() - i,
{
    if i < s.len() {
        lemma_dedup_from_origin(s, i + 1);
        let d = dedup_from(s, i + 1);
        let r = dedup_from(s, i);
        if !overwritten_later(s, i) {
            assert forall|b: int| #![trigger r[b]] 0 <= b < r.len() implies exists|k: int|
                #![trigger s[k]]
                i <= k < s.len() && !overwritten_later(s, k) && r[b] == s[k] by {
                if b == 0 {
                    assert(r[0] == s[i]);
                } else {
                    assert(r[b] == d[b - 1]);
                    let k = choose|k: int|
                        #![trigger s[k]]
                        i + 1 <= k < s.len() && !overwritten_later(s, k) && d[b - 1] == s[k];
                    assert(r[b] == s[k]);
                }
            }
        } else {
            assert forall|b: int| #![trigger r[b]] 0 <= b < r.len() implies exists|k: int|
                #![trigger s[k]]
                i <= k < s.len() && !overwritten_later(s, k) && r[b] == s[k] by {
                let k = choose|k: int|
                    #![trigger s[k]]
                    i + 1 <= k < s.len() && !overwritten_later(s, k) && d[b] == s[k];
                assert(r[b] == s[k]);
            }
        }
    }
}

proof fn lemma_dedup_from_kept(s: Seq<OpView>, i: int)
    requires
        0 <= i,
    ensures
        forall|a: int| 0 <= a < dedup_from(s, i).len() ==> !overwritten_later(dedup_from(s, i), a),
    decreases s.len() - i,
{
    if i < s.len() {
        lemma_dedup_from_kept(s, i + 1);
        lemma_dedup_from_origin(s, i + 1);
        let d = dedup_from(s, i + 1);
        let r = dedup_from(s, i);
        if !overwritten_later(s, i) {
            assert(r == seq![s[i]] + d);
            assert forall|a: int| 0 <= a < r.len() implies !overwritten_later(r, a) by {
                if overwritten_later(r, a) {
                    let j = choose|j: int|
                        a < j < r.len() && #[trigger] is_content_kind(r[j].kind) && r[j].path
                            == r[a].path;
                    assert(r[j] == d[j - 1]);
                    if a == 0 {
                        let k = choose|k: int|
                            #![trigger s[k]]
                            i + 1 <= k < s.len() && !overwritten_later(s, k) && d[j - 1] == s[k];
                        assert(is_content_kind(s[k].kind));
                        assert(overwritten_later(s, i));
                    } else {
                        assert(r[a] == d[a - 1]);
                        assert(is_content_kind(d[j - 1].kind));
                        assert(overwritten_later(d, a - 1));
                    }
                }
            }
        }
    }
}

proof fn lemma_dedup_from_complete(s: Seq<OpView>, i: int, k: int)
    requires
        0 <= i <= k < s.len(),
        !overwritten_later(s, k),
    ensures
        dedup_from(s, i).contains(s[k]),
    decreases s.len() - i,
{
    let r = dedup_from(s, i);
    if k == i {
        assert(r[0] == s[k]);
    } else {
        lemma_dedup_from_complete(s, i + 1, k);
        let d = dedup_from(s, i + 1);
        let b = choose|b: int| 0 <= b < d.len() && d[b] == s[k];
        if !overwritten_later(s, i) {
            assert(r[b + 1] == d[b]);
        } else {
            assert(r[b] == d[b]);
        }
    }
}

proof fn lemma_dedup_from_identity(t: Seq<OpView>, i: int)
    requires
        0 <= i <= t.len(),
        forall|a: int| 0 <= a < t.len() ==> !overwritten_later(t, a),
    ensures
        dedup_from(t, i) == t.subrange(i, t.len() as int),
    decreases t.len() - i,
{
    if i < t.len() {
        lemma_dedup_from_identity(t, i + 1);
        assert(seq![t[i]] + t.subrange(i + 1, t.len() as int) =~= t.subrange(i, t.len() as int));
    } else {
        assert(t.subrange(i, t.len() as int) =~= Seq::<OpView>::empty());
    }
}

/// `x` is an op of `s` that no later content op of `s` overrides.
pub open spec fn kept_op(s: Seq<OpView>, x: OpView) -> bool {
    exists|k: int| #![trigger s[k]] 0 <= k < s.len() && !overwritten_later(s, k) && x == s[k]
}

/// Every op of `r` is an op of `s` that no later content op of `s` overrides.
pub open spec fn drawn_from_kept(s: Seq<OpView>, r: Seq<OpView>) -> bool {
    forall|b: int| 0 <= b < r.len() ==> kept_op(s, #[trigger] r[b])
}

/// Deduplicating content ops keeps, for every path, only the last
/// CreateFile / UpdateFile op: no content op of the result is followed by
/// another content op on the same path. Every op of the result is an op of
/// the input that no later content op overrides, and every such op of the
/// input is kept.
pub proof fn lemma_dedup_keeps_last_content_only(s: Seq<OpView>)
    ensures
        forall|a: int| 0 <= a < dedup_spec(s).len() ==> !overwritten_later(dedup_spec(s), a),
        drawn_from_kept(s, dedup_spec(s)),
        forall|k: int|
            0 <= k < s.len() && !overwritten_later(s, k) ==> dedup_spec(s).contains(#[trigger] s[k]),
{
    let r = dedup_from(s, 0);
    assert(r == dedup_spec(s));
    assert forall|a: int| 0 <= a < r.len() implies !overwritten_later(r, a) by {
        lemma_dedup_from_kept(s, 0);
    }
    assert(drawn_from_kept(s, r)) by {
        lemma_dedup_from_origin(s, 0);
        assert forall|b: int| 0 <= b < r.len() implies kept_op(s, #[trigger] r[b]) by {
            assert(dedup_from(s, 0)[b] == r[b]);
        }
    }
    assert forall|k: int| 0 <= k < s.len() && !overwritten_later(s, k) implies dedup_spec(
        s,
    ).contains(#[trigger] s[k]) by {
        lemma_dedup_from_complete(s, 0, k);
    }
}

/// Deduplicating twice gives what deduplicating once gives.
pub proof fn lemma_dedup_idempotent(s: Seq<OpView>)
    ensures
        dedup_spec(dedup_spec(s)) == dedup_spec(s),
{
    let t = dedup_spec(s);
    lemma_dedup_from_kept(s, 0);
    lemma_dedup_from_identity(t, 0);
    assert(t.subrange(0, t.len() as int) =~= t);
}

pub open spec fn update_op(path: Seq<char>, content: Seq<u8>) -> OpView {
    plain_op(FsOpKind::UpdateFile, path, Seq::empty(), content, content.len() as usize)
}

pub open spec fn create_op(path: Seq<char>, content: Seq<u8>) -> OpView {
    plain_op(FsOpKind::CreateFile, path, Seq::empty(), content, content.len() as usize)
}

pub open spec fn times_op(path: Seq<char>, mtime_sec: i64, atime_sec: i64) -> OpView {
    OpView {
        kind: FsOpKind::SetTimes,
        path,
        target: Seq::empty(),
        content: Seq::empty(),
        size: 0,
        mtime_sec,
        mtime_nsec: 0,
        atime_sec,
        atime_nsec: 0,
    }
}

/// A minimal valid starting delta: an UpdateFile of the existing `/input`
/// baseline file, so that it does not fail with EEXIST.
pub fn generate_seed() -> (d: FsDelta)
    ensures
        d@ == seq![update_op("/input"@, ascii("seed"@))],
{
    proof {
        reveal_strlit("seed");
    }
    let d = FsDelta::new(vec![FsOp::update_file("/input", ascii_bytes("seed"))]);
    assert(d@ =~= seq![update_op("/input"@, ascii("seed"@))]);
    d
}

/// The first baseline file, or `/input` when there is none.
pub open spec fn primary_seed_path(files: Seq<String>) -> Seq<char> {
    if files.len() > 0 {
        files[0]@
    } else {
        "/input"@
    }
}

/// The second baseline file, or `/etc/config` when there is none.
pub open spec fn secondary_seed_path(files: Seq<String>) -> Seq<char> {
    if files.len() > 1 {
        files[1]@
    } else {
        "/etc/config"@
    }
}

/// The seven seed families of [`generate_seed_corpus`], over the given primary
/// and secondary paths.
pub open spec fn seed_corpus_spec(primary: Seq<char>, secondary: Seq<char>) -> Seq<Seq<OpView>> {
    seq![
        seq![update_op(primary, ascii("seed"@))],
        seq![update_op(secondary, ascii("[settings]\nverbose=1\n"@))],
        seq![plain_op(FsOpKind::Truncate, primary, Seq::empty(), Seq::empty(), 2)],
        seq![times_op(primary, 1_700_000_000, 1_700_000_000)],
        seq![
            update_op(primary, ascii("fuzzed content"@)),
            times_op(primary, 1_000_000_000, 1_000_000_000),
        ],
        seq![create_op("/fuzz_input"@, ascii("new"@))],
        seq![
            plain_op(FsOpKind::Mkdir, "/fuzz_dir"@, Seq::empty(), Seq::empty(), 0),
            create_op("/fuzz_dir/file"@, ascii("hello"@)),
        ],
    ]
}

/// An absolute path: it starts with '/'.
pub open spec fn is_absolute(p: Seq<char>) -> bool {
    p.len() > 0 && p[0] == '/'
}

/// Every seed family is non-empty and, when the baseline's file paths are
/// absolute, every op of every family names an absolute path.
pub proof fn lemma_seed_corpus_well_formed(files: Seq<String>)
    ensures
        ({
            let fams = seed_corpus_spec(primary_seed_path(files), secondary_seed_path(files));
            &&& fams.len() == 7
            &&& forall|d: int| 0 <= d < fams.len() ==> #[trigger] fams[d].len() > 0
            &&& (forall|i: int| 0 <= i < files.len() ==> is_absolute(#[trigger] files[i]@))
                ==> forall|d: int, k: int|
                0 <= d < fams.len() && 0 <= k < fams[d].len() ==> is_absolute(
                    #[trigger] fams[d][k].path,
                )
        }),
{
    reveal_strlit("/input");
    reveal_strlit("/etc/config");
    reveal_strlit("/fuzz_input");
    reveal_strlit("/fuzz_dir");
    reveal_strlit("/fuzz_dir/file");
    let fams = seed_corpus_spec(primary_seed_path(files), secondary_seed_path(files));
    if forall|i: int| 0 <= i < files.len() ==> is_absolute(#[trigger] files[i]@) {
        if files.len() > 0 {
            assert(is_absolute(files[0]@));
        }
        if files.len() > 1 {
            assert(is_absolute(files[1]@));
        }
        assert(is_absolute(primary_seed_path(files)));
        assert(is_absolute(secondary_seed_path(files)));
    }
}

pub open spec fn deltas_view(ds: Seq<FsDelta>) -> Seq<Seq<OpView>> {
    ds.map_values(|d: FsDelta| d@)
}

/// A set of structurally diverse seed deltas against known baseline paths.
pub fn generate_seed_corpus(baseline_files: &[String]) -> (res: Vec<FsDelta>)
    ensures
        deltas_view(res@) == seed_corpus_spec(
            primary_seed_path(baseline_files@),
            secondary_seed_path(baseline_files@),
        ),
{
    let primary: &str = if baseline_files.len() > 0 {
        baseline_files[0].as_str()
    } else {
        "/input"
    };
    let secondary: &str = if baseline_files.len() > 1 {
        baseline_files[1].as_str()
    } else {
        "/etc/config"
    };
    proof {
        reveal_strlit("seed");
        reveal_strlit("[settings]\nverbose=1\n");
        reveal_strlit("fuzzed content");
        reveal_strlit("new");
        reveal_strlit("hello");
    }
    let ghost spec = seed_corpus_spec(
        primary_seed_path(baseline_files@),
        secondary_seed_path(baseline_files@),
    );
    let d0 = FsDelta::new(vec![FsOp::update_file(primary, ascii_bytes("seed"))]);
    assert(d0@ =~= spec[0]);
    let d1 = FsDelta::new(vec![FsOp::update_file(secondary, ascii_bytes("[settings]\nverbose=1\n"))]);
    assert(d1@ =~= spec[1]);
    let d2 = FsDelta::new(vec![FsOp::truncate(primary, 2)]);
    assert(d2@ =~= spec[2]);
    let d3 = FsDelta::new(vec![FsOp::set_times(primary, 1_700_000_000, 0, 1_700_000_000, 0)]);
    assert(d3@ =~= spec[3]);
    let d4 = FsDelta::new(
        vec![
            FsOp::update_file(primary, ascii_bytes("fuzzed content")),
            FsOp::set_times(primary, 1_000_000_000, 0, 1_000_000_000, 0),
        ],
    );
    assert(d4@ =~= spec[4]);
    let d5 = FsDelta::new(vec![FsOp::create_file("/fuzz_input", ascii_bytes("new"))]);
    assert(d5@ =~= spec[5]);
    let d6 = FsDelta::new(
        vec![FsOp::mkdir("/fuzz_dir"), FsOp::create_file("/fuzz_dir/file", ascii_bytes("hello"))],
    );
    assert(d6@ =~= spec[6]);
    let res = vec![d0, d1, d2, d3, d4, d5, d6];
    assert(deltas_view(res@) =~= seed_corpus_spec(
        primary_seed_path(baseline_files@),
        secondary_seed_path(baseline_files@),
    ));
    res
}

/// The fixed donor pool of [`initial_corpus_pool`].
pub open spec fn initial_pool_spec() -> Seq<Seq<OpView>> {
    seq![
        seq![update_op("/etc/config"@, ascii("[settings]\nverbose=1\n"@))],
        seq![
            plain_op(FsOpKind::Mkdir, "/data"@, Seq::empty(), Seq::empty(), 0),
            create_op("/data/a.bin"@, seq![0xdeu8, 0xad, 0xbe, 0xef]),
            create_op("/data/b.txt"@, ascii("hello\n"@)),
        ],
        seq![update_op("/input"@, ascii("AAAAAAAAAAAAAAAA"@))],
        seq![
            times_op("/input"@, 1_700_000_000, 1_700_000_000),
            plain_op(FsOpKind::Truncate, "/input"@, Seq::empty(), Seq::empty(), 2),
        ],
    ]
}

/// Fixed donor pool for splicing before a real corpus has accumulated.
pub fn initial_corpus_pool() -> (res: Vec<FsDelta>)
    ensures
        deltas_view(res@) == initial_pool_spec(),
{
    proof {
        reveal_strlit("[settings]\nverbose=1\n");
        reveal_strlit("hello\n");
        reveal_strlit("AAAAAAAAAAAAAAAA");
    }
    let ghost spec = initial_pool_spec();
    let d0 = FsDelta::new(vec![FsOp::update_file("/etc/config", ascii_bytes("[settings]\nverbose=1\n"))]);
    assert(d0@ =~= spec[0]);
    let d1 = FsDelta::new(
        vec![
            FsOp::mkdir("/data"),
            FsOp::create_file("/data/a.bin", vec![0xdeu8, 0xad, 0xbe, 0xef]),
            FsOp::create_file("/data/b.txt", ascii_bytes("hello\n")),
        ],
    );
    assert(d1@ =~= spec[1]);
    let d2 = FsDelta::new(vec![FsOp::update_file("/input", ascii_bytes("AAAAAAAAAAAAAAAA"))]);
    assert(d2@ =~= spec[2]);
    let d3 = FsDelta::new(
        vec![
            FsOp::set_times("/input", 1_700_000_000, 0, 1_700_000_000, 0),
            FsOp::truncate("/input", 2),
        ],
    );
    assert(d3@ =~= spec[3]);
    let res = vec![d0, d1, d2, d3];
    assert(deltas_view(res@) =~= initial_pool_spec());
    res
}

} // verus!
