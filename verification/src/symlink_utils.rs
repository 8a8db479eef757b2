//! A pre-computed index of the baseline tree, and the expansion of
//! "replace this path with a symlink" into the ops that make it succeed.

use vstd::prelude::*;
use vstd::string::StrSliceExecFns;

use crate::delta::{ops_view, plain_op, FsOp, FsOpKind, OpView};
use crate::text::{clone_strings, contains_str, owned, strings_view};

verus! {

/// Kind of a path in the baseline snapshot.
#[derive(Clone, Copy, Debug, PartialEq, Eq, Structural)]
pub enum PathKind {
    File,
    Dir,
    Symlink,
}

/// Metadata for a single path in the baseline tree.
#[derive(Debug)]
pub struct PathInfo {
    pub path: String,
    pub kind: PathKind,
    /// Direct children (non-recursive). Empty for File/Symlink.
    pub children: Vec<String>,
}

pub struct PathInfoView {
    pub path: Seq<char>,
    pub kind: PathKind,
    pub children: Seq<Seq<char>>,
}

impl View for PathInfo {
    type V = PathInfoView;

    open spec fn view(&self) -> PathInfoView {
        PathInfoView { path: self.path@, kind: self.kind, children: strings_view(self.children@) }
    }
}

impl Clone for PathInfo {
    fn clone(&self) -> (res: Self)
        ensures
            res@ == self@,
    {
        PathInfo { path: self.path.clone(), kind: self.kind, children: clone_strings(&self.children) }
    }
}

/// Pre-computed index of the baseline tree.
#[derive(Debug, Default)]
pub struct BaselineIndex {
    pub entries: Vec<PathInfo>,
}

pub open spec fn entries_view(e: Seq<PathInfo>) -> Seq<PathInfoView> {
    e.map_values(|i: PathInfo| i@)
}

impl View for BaselineIndex {
    type V = Seq<PathInfoView>;

    open spec fn view(&self) -> Seq<PathInfoView> {
        entries_view(self.entries@)
    }
}

impl Clone for BaselineIndex {
    fn clone(&self) -> (res: Self)
        ensures
            res@ == self@,
    {
        let mut entries: Vec<PathInfo> = Vec::new();
        for i in 0..self.entries.len()
            invariant
                entries@.len() == i,
                forall|k: int| 0 <= k < i ==> #[trigger] entries@[k]@ == self.entries@[k]@,
        {
            entries.push(self.entries[i].clone());
        }
        let res = BaselineIndex { entries };
        assert(res@ =~= self@);
        res
    }
}

// ── Lookup ──────────────────────────────────────────────────────────────────

/// Index of the first entry at or after `i` whose path is `p`.
pub open spec fn lookup_from(e: Seq<PathInfoView>, p: Seq<char>, i: int) -> Option<int>
    decreases e.len() - i,
{
    if i < 0 || i >= e.len() {
        None
    } else if e[i].path == p {
        Some(i)
    } else {
        lookup_from(e, p, i + 1)
    }
}

/// Index of the first entry whose path is `p`.
pub open spec fn lookup(e: Seq<PathInfoView>, p: Seq<char>) -> Option<int> {
    lookup_from(e, p, 0)
}

/// `lookup_from` finds the first entry at or after `i` with the path, if any.
pub proof fn lemma_lookup_from(e: Seq<PathInfoView>, p: Seq<char>, i: int)
    requires
        0 <= i,
    ensures
        lookup_from(e, p, i) matches Some(k) ==> i <= k < e.len() && e[k].path == p && forall|
            m: int,
        |
            i <= m < k ==> e[m].path != p,
        lookup_from(e, p, i) is None ==> forall|m: int| i <= m < e.len() ==> e[m].path != p,
    decreases e.len() - i,
{
    if i < e.len() && e[i].path != p {
        lemma_lookup_from(e, p, i + 1);
    }
}

/// `lookup` finds the first entry with the path, if any.
pub proof fn lemma_lookup(e: Seq<PathInfoView>, p: Seq<char>)
    ensures
        lookup(e, p) matches Some(k) ==> 0 <= k < e.len() && e[k].path == p && forall|m: int|
            0 <= m < k ==> e[m].path != p,
        lookup(e, p) is None ==> forall|m: int| 0 <= m < e.len() ==> e[m].path != p,
{
    lemma_lookup_from(e, p, 0);
}

/// The entry of `p`, if any.
pub open spec fn entry_of(e: Seq<PathInfoView>, p: Seq<char>) -> Option<PathInfoView> {
    match lookup(e, p) {
        Some(k) => Some(e[k]),
        None => None,
    }
}

/// The children recorded for `p`; empty when `p` is unknown.
pub open spec fn children_spec(e: Seq<PathInfoView>, p: Seq<char>) -> Seq<Seq<char>> {
    match entry_of(e, p) {
        Some(info) => info.children,
        None => Seq::empty(),
    }
}

/// The longest path length among the entries.
pub open spec fn max_path_len(e: Seq<PathInfoView>) -> nat
    decreases e.len(),
{
    if e.len() == 0 {
        0
    } else {
        let rest = max_path_len(e.drop_last());
        if e.last().path.len() > rest {
            e.last().path.len()
        } else {
            rest
        }
    }
}

/// No entry's path is longer than [`max_path_len`].
pub proof fn lemma_max_path_len(e: Seq<PathInfoView>, i: int)
    requires
        0 <= i < e.len(),
    ensures
        e[i].path.len() <= max_path_len(e),
    decreases e.len(),
{
    if i < e.len() - 1 {
        lemma_max_path_len(e.drop_last(), i);
    }
}

/// Every recorded child is longer than its parent: the tree has no cycles.
pub open spec fn index_wf(e: Seq<PathInfoView>) -> bool {
    forall|i: int, j: int|
        0 <= i < e.len() && 0 <= j < e[i].children.len() ==> #[trigger] e[i].children[j].len()
            > e[i].path.len()
}

impl BaselineIndex {
    pub open spec fn wf(&self) -> bool {
        index_wf(self@)
    }

    fn position(&self, path: &str) -> (r: Option<usize>)
        ensures
            r matches Some(k) ==> lookup(self@, path@) == Some(k as int),
            r is None ==> lookup(self@, path@) is None,
    {
        let key = owned(path);
        let n = self.entries.len();
        let mut i: usize = 0;
        while i < n
            invariant
                n == self.entries@.len(),
                key@ == path@,
                i <= n,
                lookup(self@, path@) == lookup_from(self@, path@, i as int),
            decreases n - i,
        {
            assert(self@[i as int] == self.entries@[i as int]@);
            if self.entries[i].path == key {
                return Some(i);
            }
            i += 1;
        }
        None
    }

    pub fn get(&self, path: &str) -> (r: Option<&PathInfo>)
        ensures
            r is Some <==> lookup(self@, path@) is Some,
            r matches Some(info) ==> entry_of(self@, path@) == Some(info@),
    {
        proof {
            lemma_lookup(self@, path@);
        }
        match self.position(path) {
            Some(k) => {
                assert(self@[k as int] == self.entries@[k as int]@);
                Some(&self.entries[k])
            },
            None => None,
        }
    }

    pub fn is_dir(&self, path: &str) -> (b: bool)
        ensures
            b == (entry_of(self@, path@) matches Some(info) && info.kind == PathKind::Dir),
    {
        match self.get(path) {
            Some(info) => info.kind == PathKind::Dir,
            None => false,
        }
    }

    pub fn is_file(&self, path: &str) -> (b: bool)
        ensures
            b == (entry_of(self@, path@) matches Some(info) && info.kind == PathKind::File),
    {
        match self.get(path) {
            Some(info) => info.kind == PathKind::File,
            None => false,
        }
    }

    pub fn children_of(&self, path: &str) -> (res: Vec<String>)
        ensures
            strings_view(res@) == children_spec(self@, path@),
    {
        match self.get(path) {
            Some(info) => clone_strings(&info.children),
            None => {
                let v: Vec<String> = Vec::new();
                assert(strings_view(v@) =~= Seq::<Seq<char>>::empty());
                v
            },
        }
    }
}


// ── Parent paths ────────────────────────────────────────────────────────────

/// `s` without its trailing '/' characters.
pub open spec fn trim_trailing_slashes(s: Seq<char>) -> Seq<char>
    decreases s.len(),
{
    if s.len() > 0 && s.last() == '/' {
        trim_trailing_slashes(s.drop_last())
    } else {
        s
    }
}

/// Index of the last '/' of `s`.
pub open spec fn last_slash(s: Seq<char>) -> Option<int>
    decreases s.len(),
{
    if s.len() == 0 {
        None
    } else if s.last() == '/' {
        Some(s.len() - 1)
    } else {
        last_slash(s.drop_last())
    }
}

/// The parent directory of a path: `None` for the root and for paths with no '/'.
pub open spec fn parent_spec(p: Seq<char>) -> Option<Seq<char>> {
    if p == seq!['/'] {
        None
    } else {
        let t = trim_trailing_slashes(p);
        match last_slash(t) {
            None => None,
            Some(k) => if k == 0 {
                Some(seq!['/'])
            } else {
                Some(t.subrange(0, k))
            },
        }
    }
}

proof fn lemma_trim(s: Seq<char>)
    ensures
        trim_trailing_slashes(s).len() <= s.len(),
        trim_trailing_slashes(s) == s.subrange(0, trim_trailing_slashes(s).len() as int),
        trim_trailing_slashes(s).len() > 0 ==> trim_trailing_slashes(s).last() != '/',
    decreases s.len(),
{
    if s.len() > 0 && s.last() == '/' {
        lemma_trim(s.drop_last());
        assert(s.drop_last().subrange(0, trim_trailing_slashes(s).len() as int) =~= s.subrange(
            0,
            trim_trailing_slashes(s).len() as int,
        ));
    } else {
        assert(s.subrange(0, s.len() as int) =~= s);
    }
}

proof fn lemma_last_slash(s: Seq<char>)
    ensures
        last_slash(s) matches Some(k) ==> 0 <= k < s.len() && s[k] == '/',
    decreases s.len(),
{
    if s.len() > 0 && s.last() != '/' {
        lemma_last_slash(s.drop_last());
    }
}

/// A parent path is strictly shorter than its child.
pub proof fn lemma_parent_shorter(p: Seq<char>)
    ensures
        parent_spec(p) matches Some(q) ==> q.len() < p.len(),
{
    let t = trim_trailing_slashes(p);
    lemma_trim(p);
    lemma_last_slash(t);
    if p != seq!['/'] {
        if let Some(k) = last_slash(t) {
            if k == 0 {
                assert(t.len() >= 2);
            }
        }
    }
}

/// The parent directory of `path`.
pub fn parent_path(path: &str) -> (r: Option<String>)
    ensures
        r matches Some(q) ==> parent_spec(path@) == Some(q@),
        r is None ==> parent_spec(path@) is None,
{
    let n = path.unicode_len();
    if n == 1 && path.get_char(0) == '/' {
        assert(path@ =~= seq!['/']);
        return None;
    }
    let ghost p = path@;
    let mut end = n;
    assert(p.subrange(0, n as int) =~= p);
    while end > 0 && path.get_char(end - 1) == '/'
        invariant
            n == p.len(),
            p == path@,
            end <= n,
            trim_trailing_slashes(p) == trim_trailing_slashes(p.subrange(0, end as int)),
        decreases end,
    {
        assert(p.subrange(0, end as int).drop_last() =~= p.subrange(0, end - 1));
        end -= 1;
    }
    let ghost t = p.subrange(0, end as int);
    assert(trim_trailing_slashes(t) == t);
    let mut k = end;
    assert(t.subrange(0, end as int) =~= t);
    while k > 0 && path.get_char(k - 1) != '/'
        invariant
            n == p.len(),
            p == path@,
            k <= end <= n,
            t == p.subrange(0, end as int),
            last_slash(t) == last_slash(t.subrange(0, k as int)),
        decreases k,
    {
        assert(t.subrange(0, k as int).drop_last() =~= t.subrange(0, k - 1));
        k -= 1;
    }
    if k == 0 {
        assert(t.subrange(0, 0) =~= Seq::<char>::empty());
        None
    } else if k == 1 {
        proof {
            reveal_strlit("/");
        }
        let r = owned("/");
        assert(r@ =~= seq!['/']);
        Some(r)
    } else {
        assert(t.subrange(0, k - 1) =~= p.subrange(0, k - 1));
        Some(owned(path.substring_char(0, k - 1)))
    }
}


// ── Building the index ──────────────────────────────────────────────────────

/// Index of the first string at or after `i` equal to `p`.
pub open spec fn first_of_from(s: Seq<Seq<char>>, p: Seq<char>, i: int) -> Option<int>
    decreases s.len() - i,
{
    if i < 0 || i >= s.len() {
        None
    } else if s[i] == p {
        Some(i)
    } else {
        first_of_from(s, p, i + 1)
    }
}

pub open spec fn first_of(s: Seq<Seq<char>>, p: Seq<char>) -> Option<int> {
    first_of_from(s, p, 0)
}

proof fn lemma_first_of_from(s: Seq<Seq<char>>, p: Seq<char>, i: int)
    requires
        0 <= i,
    ensures
        first_of_from(s, p, i) matches Some(k) ==> i <= k < s.len() && s[k] == p,
    decreases s.len() - i,
{
    if i < s.len() && s[i] != p {
        lemma_first_of_from(s, p, i + 1);
    }
}

/// The kind of `p`: symlinks first, then directories, everything else a file.
pub open spec fn kind_spec(p: Seq<char>, dirs: Seq<Seq<char>>, syms: Seq<Seq<char>>) -> PathKind {
    if syms.contains(p) {
        PathKind::Symlink
    } else if dirs.contains(p) {
        PathKind::Dir
    } else {
        PathKind::File
    }
}

/// `all[m]` is a direct child of the entry at `k`: its parent's first
/// occurrence in `all` is at `k`.
pub open spec fn is_child_at(all: Seq<Seq<char>>, k: int, m: int) -> bool {
    owner_of(all, m) == Some(k)
}

/// Index of the entry that records `all[m]` as a child, if any.
pub open spec fn owner_of(all: Seq<Seq<char>>, m: int) -> Option<int> {
    match parent_spec(all[m]) {
        Some(q) => first_of(all, q),
        None => None,
    }
}

pub open spec fn opt_int(o: Option<usize>) -> Option<int> {
    match o {
        Some(k) => Some(k as int),
        None => None,
    }
}

/// The children of the entry at `k` among `all[0..m]`, in order.
pub open spec fn children_upto(all: Seq<Seq<char>>, k: int, m: int) -> Seq<Seq<char>>
    decreases m,
{
    if m <= 0 {
        Seq::empty()
    } else {
        children_upto(all, k, m - 1) + if is_child_at(all, k, m - 1) {
            seq![all[m - 1]]
        } else {
            Seq::empty()
        }
    }
}

/// The index built from the baseline's paths, directories and symlinks.
pub open spec fn build_spec(
    all: Seq<Seq<char>>,
    dirs: Seq<Seq<char>>,
    syms: Seq<Seq<char>>,
) -> Seq<PathInfoView> {
    Seq::new(
        all.len(),
        |k: int|
            PathInfoView {
                path: all[k],
                kind: kind_spec(all[k], dirs, syms),
                children: children_upto(all, k, all.len() as int),
            },
    )
}

/// The index built from path lists records every path of `all` in order: a
/// symlink as a symlink (even if also listed as a directory), a listed
/// directory as a directory, anything else as a file. Its children are
/// exactly the paths of `all` whose parent it is (at the parent's first
/// occurrence), in order.
pub proof fn lemma_build_records_paths(
    all: Seq<Seq<char>>,
    dirs: Seq<Seq<char>>,
    syms: Seq<Seq<char>>,
    k: int,
)
    requires
        0 <= k < all.len(),
    ensures
        ({
            let e = build_spec(all, dirs, syms);
            &&& e.len() == all.len()
            &&& e[k].path == all[k]
            &&& syms.contains(all[k]) ==> e[k].kind == PathKind::Symlink
            &&& !syms.contains(all[k]) && dirs.contains(all[k]) ==> e[k].kind == PathKind::Dir
            &&& !syms.contains(all[k]) && !dirs.contains(all[k]) ==> e[k].kind == PathKind::File
            &&& forall|j: int|
                0 <= j < e[k].children.len() ==> parent_spec(#[trigger] e[k].children[j]) == Some(all[k])
            &&& forall|m: int|
                0 <= m < all.len() && parent_spec(all[m]) == Some(all[k]) && first_of(all, all[k])
                    == Some(k) ==> #[trigger] e[k].children.contains(all[m])
        }),
{
    lemma_children_upto_law(all, k, all.len() as int);
}

proof fn lemma_children_upto_law(all: Seq<Seq<char>>, k: int, m: int)
    requires
        0 <= k < all.len(),
        0 <= m <= all.len(),
    ensures
        forall|j: int|
            0 <= j < children_upto(all, k, m).len() ==> parent_spec(#[trigger] children_upto(all, k, m)[j])
                == Some(all[k]),
        forall|q: int|
            0 <= q < m && parent_spec(all[q]) == Some(all[k]) && first_of(all, all[k]) == Some(k)
                ==> #[trigger] children_upto(all, k, m).contains(all[q]),
    decreases m,
{
    if m > 0 {
        lemma_children_upto_law(all, k, m - 1);
        let prev = children_upto(all, k, m - 1);
        let cur = children_upto(all, k, m);
        if is_child_at(all, k, m - 1) {
            let q = parent_spec(all[m - 1])->0;
            lemma_first_of_from(all, q, 0);
            assert(cur == prev + seq![all[m - 1]]);
            assert forall|j: int| 0 <= j < cur.len() implies parent_spec(#[trigger] cur[j]) == Some(all[k]) by {
                if j < prev.len() {
                    assert(cur[j] == prev[j]);
                }
            }
            assert forall|q2: int|
                0 <= q2 < m && parent_spec(all[q2]) == Some(all[k]) && first_of(all, all[k]) == Some(k)
                    implies #[trigger] cur.contains(all[q2]) by {
                if q2 < m - 1 {
                    assert(prev.contains(all[q2]));
                    let w = choose|w: int| 0 <= w < prev.len() && prev[w] == all[q2];
                    assert(cur[w] == prev[w]);
                } else {
                    assert(cur[prev.len() as int] == all[m - 1]);
                }
            }
        } else {
            assert(cur =~= prev);
            assert forall|q2: int|
                0 <= q2 < m && parent_spec(all[q2]) == Some(all[k]) && first_of(all, all[k]) == Some(k)
                    implies #[trigger] cur.contains(all[q2]) by {
                if q2 == m - 1 {
                    lemma_first_of_from(all, all[k], 0);
                    assert(is_child_at(all, k, m - 1));
                } else {
                    assert(prev.contains(all[q2]));
                }
            }
        }
    }
}

proof fn lemma_children_longer(all: Seq<Seq<char>>, k: int, m: int)
    requires
        0 <= k < all.len(),
        m <= all.len(),
    ensures
        forall|j: int|
            0 <= j < children_upto(all, k, m).len() ==> #[trigger] children_upto(all, k, m)[j].len()
                > all[k].len(),
    decreases m,
{
    if m > 0 {
        lemma_children_longer(all, k, m - 1);
        let prev = children_upto(all, k, m - 1);
        let cur = children_upto(all, k, m);
        if is_child_at(all, k, m - 1) {
            let q = parent_spec(all[m - 1])->0;
            lemma_first_of_from(all, q, 0);
            assert(all[k] == q);
            lemma_parent_shorter(all[m - 1]);
            assert(cur == prev + seq![all[m - 1]]);
            assert forall|j: int| 0 <= j < cur.len() implies #[trigger] cur[j].len() > all[k].len() by {
                if j < prev.len() {
                    assert(cur[j] == prev[j]);
                }
            }
        } else {
            assert(cur =~= prev);
        }
    }
}

/// An index built from path lists has no cycles.
pub proof fn lemma_build_wf(all: Seq<Seq<char>>, dirs: Seq<Seq<char>>, syms: Seq<Seq<char>>)
    ensures
        index_wf(build_spec(all, dirs, syms)),
{
    let e = build_spec(all, dirs, syms);
    assert forall|i: int, j: int|
        0 <= i < e.len() && 0 <= j < e[i].children.len() implies #[trigger] e[i].children[j].len()
        > e[i].path.len() by {
        lemma_children_longer(all, i, all.len() as int);
    }
}

fn first_index(all: &Vec<String>, q: &String) -> (r: Option<usize>)
    ensures
        r matches Some(k) ==> first_of(strings_view(all@), q@) == Some(k as int),
        r is None ==> first_of(strings_view(all@), q@) is None,
{
    let n = all.len();
    let mut i: usize = 0;
    while i < n
        invariant
            n == all@.len(),
            i <= n,
            first_of(strings_view(all@), q@) == first_of_from(strings_view(all@), q@, i as int),
        decreases n - i,
    {
        if all[i] == *q {
            return Some(i);
        }
        i += 1;
    }
    None
}

impl BaselineIndex {
    /// Builds the index from the baseline's paths (`all`), and the subsets of
    /// them that are directories and symlinks. Call once at startup.
    pub fn build(all: &Vec<String>, dirs: &Vec<String>, symlinks: &Vec<String>) -> (idx: Self)
        ensures
            idx@ == build_spec(strings_view(all@), strings_view(dirs@), strings_view(symlinks@)),
            idx.wf(),
    {
        let ghost a = strings_view(all@);
        let n = all.len();
        let mut owner: Vec<Option<usize>> = Vec::new();
        for m in 0..n
            invariant
                n == all@.len(),
                a == strings_view(all@),
                owner@.len() == m,
                forall|j: int| 0 <= j < m ==> #[trigger] opt_int(owner@[j]) == owner_of(a, j),
        {
            let o = match parent_path(all[m].as_str()) {
                Some(q) => first_index(all, &q),
                None => None,
            };
            proof {
                if let Some(q) = parent_spec(a[m as int]) {
                    lemma_first_of_from(a, q, 0);
                }
            }
            owner.push(o);
        }
        let mut entries: Vec<PathInfo> = Vec::new();
        for k in 0..n
            invariant
                n == all@.len(),
                n == owner@.len(),
                a == strings_view(all@),
                forall|j: int| 0 <= j < n ==> #[trigger] opt_int(owner@[j]) == owner_of(a, j),
                entries@.len() == k,
                forall|i: int|
                    0 <= i < k ==> #[trigger] entries@[i]@ == build_spec(
                        a,
                        strings_view(dirs@),
                        strings_view(symlinks@),
                    )[i],
        {
            let kind = if contains_str(symlinks, all[k].as_str()) {
                PathKind::Symlink
            } else if contains_str(dirs, all[k].as_str()) {
                PathKind::Dir
            } else {
                PathKind::File
            };
            let mut children: Vec<String> = Vec::new();
            for m in 0..n
                invariant
                    n == all@.len(),
                    n == owner@.len(),
                    a == strings_view(all@),
                    0 <= k < n,
                    forall|j: int| 0 <= j < n ==> #[trigger] opt_int(owner@[j]) == owner_of(a, j),
                    strings_view(children@) == children_upto(a, k as int, m as int),
            {
                let ghost before = strings_view(children@);
                let is_child = match owner[m] {
                    Some(o) => o == k,
                    None => false,
                };
                assert(opt_int(owner@[m as int]) == owner_of(a, m as int));
                if is_child {
                    children.push(all[m].clone());
                }
                assert(strings_view(children@) =~= children_upto(a, k as int, m + 1));
            }
            entries.push(PathInfo { path: all[k].clone(), kind, children });
        }
        let idx = BaselineIndex { entries };
        assert(idx@ =~= build_spec(a, strings_view(dirs@), strings_view(symlinks@)));
        proof {
            lemma_build_wf(a, strings_view(dirs@), strings_view(symlinks@));
        }
        idx
    }
}


// ── Replacing a path with a symlink ─────────────────────────────────────────

pub open spec fn delete_op(p: Seq<char>) -> OpView {
    plain_op(FsOpKind::DeleteFile, p, Seq::empty(), Seq::empty(), 0)
}

pub open spec fn rmdir_op(p: Seq<char>) -> OpView {
    plain_op(FsOpKind::Rmdir, p, Seq::empty(), Seq::empty(), 0)
}

pub open spec fn symlink_op(p: Seq<char>, t: Seq<char>) -> OpView {
    plain_op(FsOpKind::CreateSymlink, p, t, Seq::empty(), 0)
}

/// The ops that delete directory `dir` and everything below it: children in
/// order, subdirectories depth-first, then the directory itself.
pub open spec fn tree_ops(e: Seq<PathInfoView>, dir: Seq<char>) -> Seq<OpView>
    decreases max_path_len(e) - dir.len(), 1int, 0int,
{
    children_ops(e, dir, children_spec(e, dir).len() as int) + seq![rmdir_op(dir)]
}

/// The ops that delete the first `j` children of `dir`.
pub open spec fn children_ops(e: Seq<PathInfoView>, dir: Seq<char>, j: int) -> Seq<OpView>
    decreases max_path_len(e) - dir.len(), 0int, j,
{
    if j <= 0 {
        Seq::empty()
    } else {
        let kid = children_spec(e, dir)[j - 1];
        children_ops(e, dir, j - 1) + match entry_of(e, kid) {
            None => Seq::empty(),
            Some(info) => if info.kind == PathKind::Dir {
                if dir.len() < kid.len() <= max_path_len(e) {
                    tree_ops(e, kid)
                } else {
                    Seq::empty()
                }
            } else {
                seq![delete_op(kid)]
            },
        }
    }
}

/// The ops that replace `path` by a symlink to `target`, given what the index
/// says `path` is.
pub open spec fn replace_spec(e: Seq<PathInfoView>, path: Seq<char>, target: Seq<char>) -> Seq<
    OpView,
> {
    match entry_of(e, path) {
        None => seq![symlink_op(path, target)],
        Some(info) => if info.kind == PathKind::Dir {
            tree_ops(e, path) + seq![symlink_op(path, target)]
        } else {
            seq![delete_op(path), symlink_op(path, target)]
        },
    }
}

// ── Laws of symlink replacement ─────────────────────────────────────────────

proof fn lemma_children_ops_below(e: Seq<PathInfoView>, dir: Seq<char>, j: int)
    requires
        index_wf(e),
        j <= children_spec(e, dir).len(),
    ensures
        forall|i: int|
            0 <= i < children_ops(e, dir, j).len() ==> #[trigger] children_ops(e, dir, j)[i].path.len()
                > dir.len(),
    decreases max_path_len(e) - dir.len(), 0int, j,
{
    if j > 0 {
        lemma_children_ops_below(e, dir, j - 1);
        let kid = children_spec(e, dir)[j - 1];
        lemma_lookup(e, dir);
        let d = lookup(e, dir)->0;
        assert(e[d].children[j - 1] == kid);
        assert(kid.len() > dir.len());
        let prev = children_ops(e, dir, j - 1);
        let all = children_ops(e, dir, j);
        match entry_of(e, kid) {
            None => {
                assert(all =~= prev);
            },
            Some(info) => {
                if info.kind == PathKind::Dir {
                    if dir.len() < kid.len() <= max_path_len(e) {
                        lemma_tree_ops_postorder(e, kid);
                        let sub = tree_ops(e, kid);
                        assert(all =~= prev + sub);
                        assert forall|i: int| 0 <= i < all.len() implies #[trigger] all[i].path.len()
                            > dir.len() by {
                            if i >= prev.len() {
                                assert(all[i] == sub[i - prev.len()]);
                            }
                        }
                    } else {
                        assert(all =~= prev);
                    }
                } else {
                    assert(all =~= prev + seq![delete_op(kid)]);
                    assert forall|i: int| 0 <= i < all.len() implies #[trigger] all[i].path.len()
                        > dir.len() by {
                        if i >= prev.len() {
                            assert(all[i] == delete_op(kid));
                        }
                    }
                }
            },
        }
    }
}

/// Deleting a directory tree removes the directory itself last: the final op
/// is its `rmdir`, and every op before it names a path longer than the
/// directory, one of its recorded descendants. Applied at every level, the
/// children are removed depth-first before their parent.
pub proof fn lemma_tree_ops_postorder(e: Seq<PathInfoView>, dir: Seq<char>)
    requires
        index_wf(e),
    ensures
        tree_ops(e, dir).len() >= 1,
        tree_ops(e, dir).last() == rmdir_op(dir),
        forall|i: int|
            0 <= i < tree_ops(e, dir).len() - 1 ==> #[trigger] tree_ops(e, dir)[i].path.len()
                > dir.len(),
    decreases max_path_len(e) - dir.len(), 1int, 0int,
{
    let n = children_spec(e, dir).len() as int;
    lemma_children_ops_below(e, dir, n);
    let c = children_ops(e, dir, n);
    let t = tree_ops(e, dir);
    assert(t == c + seq![rmdir_op(dir)]);
    assert forall|i: int| 0 <= i < t.len() - 1 implies #[trigger] t[i].path.len() > dir.len() by {
        assert(t[i] == c[i]);
    }
}

/// Replacing a path by a symlink always ends with the `create_symlink` of
/// that path to that target. Before it come the ops that clear the path: none
/// for an unknown path, one `delete_file` for a file or symlink, and for a
/// directory the deletion of its tree ending with its own `rmdir`.
pub proof fn lemma_replace_ends_with_symlink(
    e: Seq<PathInfoView>,
    path: Seq<char>,
    target: Seq<char>,
)
    requires
        index_wf(e),
    ensures
        replace_spec(e, path, target).len() >= 1,
        replace_spec(e, path, target).last() == symlink_op(path, target),
        entry_of(e, path) is None ==> replace_spec(e, path, target).len() == 1,
        entry_of(e, path) matches Some(info) && info.kind != PathKind::Dir ==> replace_spec(
            e,
            path,
            target,
        ) == seq![delete_op(path), symlink_op(path, target)],
        entry_of(e, path) matches Some(info) && info.kind == PathKind::Dir ==> {
            let r = replace_spec(e, path, target);
            &&& r.len() >= 2
            &&& r[r.len() - 2] == rmdir_op(path)
            &&& forall|i: int| 0 <= i < r.len() - 2 ==> #[trigger] r[i].path.len() > path.len()
        },
{
    lemma_tree_ops_postorder(e, path);
    let r = replace_spec(e, path, target);
    if let Some(info) = entry_of(e, path) {
        if info.kind == PathKind::Dir {
            let t = tree_ops(e, path);
            assert(r == t + seq![symlink_op(path, target)]);
            assert(r[r.len() - 2] == t.last());
            assert forall|i: int| 0 <= i < r.len() - 2 implies #[trigger] r[i].path.len()
                > path.len() by {
                assert(r[i] == t[i]);
            }
        }
    }
}

/// The ops removing the first `j` children of `dir` remove each of them that
/// the index records: a `delete_file` for a file or a symlink, an `rmdir` for
/// a directory.
proof fn lemma_children_ops_remove_each(e: Seq<PathInfoView>, dir: Seq<char>, j: int, m: int)
    requires
        index_wf(e),
        0 <= m < j <= children_spec(e, dir).len(),
        entry_of(e, children_spec(e, dir)[m]) is Some,
    ensures
        ({
            let kid = children_spec(e, dir)[m];
            let c = children_ops(e, dir, j);
            &&& entry_of(e, kid)->0.kind != PathKind::Dir ==> exists|p: int|
                0 <= p < c.len() && c[p] == delete_op(kid)
            &&& entry_of(e, kid)->0.kind == PathKind::Dir ==> exists|p: int|
                0 <= p < c.len() && c[p] == rmdir_op(kid)
        }),
    decreases j,
{
    let kid = children_spec(e, dir)[m];
    let prev = children_ops(e, dir, j - 1);
    let c = children_ops(e, dir, j);
    if m < j - 1 {
        lemma_children_ops_remove_each(e, dir, j - 1, m);
        let kj = children_spec(e, dir)[j - 1];
        assert(c.subrange(0, prev.len() as int) =~= prev) by {
            let tail = match entry_of(e, kj) {
                None => Seq::empty(),
                Some(info) => if info.kind == PathKind::Dir {
                    if dir.len() < kj.len() <= max_path_len(e) {
                        tree_ops(e, kj)
                    } else {
                        Seq::empty()
                    }
                } else {
                    seq![delete_op(kj)]
                },
            };
            assert(c == prev + tail);
        }
        if entry_of(e, kid)->0.kind != PathKind::Dir {
            let p = choose|p: int| 0 <= p < prev.len() && prev[p] == delete_op(kid);
            assert(c[p] == prev[p]);
        } else {
            let p = choose|p: int| 0 <= p < prev.len() && prev[p] == rmdir_op(kid);
            assert(c[p] == prev[p]);
        }
    } else {
        let info = entry_of(e, kid)->0;
        if info.kind != PathKind::Dir {
            assert(c == prev + seq![delete_op(kid)]);
            assert(c[prev.len() as int] == delete_op(kid));
        } else {
            lemma_lookup(e, dir);
            let d = lookup(e, dir)->0;
            assert(e[d].children[m] == kid);
            assert(kid.len() > dir.len());
            lemma_lookup(e, kid);
            lemma_max_path_len(e, lookup(e, kid)->0);
            lemma_tree_ops_postorder(e, kid);
            let t = tree_ops(e, kid);
            assert(c == prev + t);
            assert(c[prev.len() + t.len() - 1] == t.last());
        }
    }
}

/// Deleting a directory tree removes every child the index records for it,
/// before the directory's own `rmdir`: a `delete_file` for each child file or
/// symlink, and an `rmdir` for each child directory. Replacing a directory by
/// a symlink does so before the `create_symlink`.
pub proof fn lemma_tree_ops_remove_children(
    e: Seq<PathInfoView>,
    dir: Seq<char>,
    target: Seq<char>,
    m: int,
)
    requires
        index_wf(e),
        0 <= m < children_spec(e, dir).len(),
        entry_of(e, children_spec(e, dir)[m]) is Some,
    ensures
        ({
            let kid = children_spec(e, dir)[m];
            let t = tree_ops(e, dir);
            &&& entry_of(e, kid)->0.kind != PathKind::Dir ==> exists|p: int|
                0 <= p < t.len() - 1 && t[p] == delete_op(kid)
            &&& entry_of(e, kid)->0.kind == PathKind::Dir ==> exists|p: int|
                0 <= p < t.len() - 1 && t[p] == rmdir_op(kid)
        }),
        entry_of(e, dir) matches Some(info) && info.kind == PathKind::Dir ==> ({
            let kid = children_spec(e, dir)[m];
            let r = replace_spec(e, dir, target);
            &&& entry_of(e, kid)->0.kind != PathKind::Dir ==> exists|p: int|
                0 <= p < r.len() - 2 && r[p] == delete_op(kid)
            &&& entry_of(e, kid)->0.kind == PathKind::Dir ==> exists|p: int|
                0 <= p < r.len() - 2 && r[p] == rmdir_op(kid)
        }),
{
    let n = children_spec(e, dir).len() as int;
    lemma_children_ops_remove_each(e, dir, n, m);
    let kid = children_spec(e, dir)[m];
    let c = children_ops(e, dir, n);
    let t = tree_ops(e, dir);
    assert(t == c + seq![rmdir_op(dir)]);
    if entry_of(e, kid)->0.kind != PathKind::Dir {
        let p = choose|p: int| 0 <= p < c.len() && c[p] == delete_op(kid);
        assert(t[p] == c[p]);
    } else {
        let p = choose|p: int| 0 <= p < c.len() && c[p] == rmdir_op(kid);
        assert(t[p] == c[p]);
    }
    if let Some(info) = entry_of(e, dir) {
        if info.kind == PathKind::Dir {
            let r = replace_spec(e, dir, target);
            assert(r == t + seq![symlink_op(dir, target)]);
            if entry_of(e, kid)->0.kind != PathKind::Dir {
                let p = choose|p: int| 0 <= p < t.len() - 1 && t[p] == delete_op(kid);
                assert(r[p] == t[p]);
            } else {
                let p = choose|p: int| 0 <= p < t.len() - 1 && t[p] == rmdir_op(kid);
                assert(r[p] == t[p]);
            }
        }
    }
}

/// Replacing an empty directory by a symlink removes it and plants the link:
/// exactly an `rmdir` of it, then the `create_symlink`.
pub proof fn lemma_replace_empty_dir(e: Seq<PathInfoView>, path: Seq<char>, target: Seq<char>)
    requires
        entry_of(e, path) matches Some(info) && info.kind == PathKind::Dir,
        children_spec(e, path).len() == 0,
    ensures
        replace_spec(e, path, target) == seq![rmdir_op(path), symlink_op(path, target)],
{
    assert(children_ops(e, path, 0) =~= Seq::<OpView>::empty());
    assert(tree_ops(e, path) =~= seq![rmdir_op(path)]);
    assert(replace_spec(e, path, target) =~= seq![rmdir_op(path), symlink_op(path, target)]);
}

/// Recursively collects the ops that delete all contents of a directory, then rmdir it.
/// Children are removed depth-first (deepest first) so parents can be rmdir'd.
fn delete_tree_ops(dir: &str, index: &BaselineIndex, ops: &mut Vec<FsOp>)
    requires
        index.wf(),
    ensures
        ops_view(final(ops)@) == ops_view(old(ops)@) + tree_ops(index@, dir@),
    decreases max_path_len(index@) - dir@.len(),
{
    let ghost e = index@;
    let ghost start = ops_view(ops@);
    let children = index.children_of(dir);
    let n = children.len();
    let mut i: usize = 0;
    while i < n
        invariant
            e == index@,
            index.wf(),
            n == children@.len(),
            strings_view(children@) == children_spec(e, dir@),
            i <= n,
            ops_view(ops@) == start + children_ops(e, dir@, i as int),
        decreases n - i,
    {
        let child = children[i].as_str();
        let ghost before = ops_view(ops@);
        assert(child@ == children_spec(e, dir@)[i as int]);
        proof {
            lemma_lookup(e, dir@);
            lemma_lookup(e, child@);
        }
        match index.get(child) {
            Some(info) => {
                if info.kind == PathKind::Dir {
                    proof {
                        let k = lookup(e, child@)->0;
                        lemma_max_path_len(e, k);
                        assert(strings_view(children@).len() == n);
                        assert(lookup(e, dir@) is Some);
                        let d = lookup(e, dir@)->0;
                        assert(children_spec(e, dir@) == e[d].children);
                        assert(e[d].children[i as int] == child@);
                        assert(e[d].children[i as int].len() > e[d].path.len());
                    }
                    delete_tree_ops(child, index, ops);
                } else {
                    ops.push(FsOp::delete_file(child));
                    assert(ops_view(ops@) =~= before + seq![delete_op(child@)]);
                }
            },
            None => {},
        }
        assert(ops_view(ops@) =~= start + children_ops(e, dir@, i + 1));
        i += 1;
    }
    let ghost before = ops_view(ops@);
    ops.push(FsOp::rmdir(dir));
    assert(ops_view(ops@) =~= before + seq![rmdir_op(dir@)]);
    assert(ops_view(ops@) =~= start + tree_ops(e, dir@));
}

/// Expands "replace `path` with a symlink to `target`" into the ops that make
/// it succeed, based on what the baseline index says `path` currently is:
///
/// - file or symlink: `delete_file(path)` then `create_symlink(path, target)`
/// - directory: delete all its contents depth-first, `rmdir(path)`, then
///   `create_symlink(path, target)`
/// - unknown path: just `create_symlink(path, target)`
pub fn replace_with_symlink(path: &str, target: &str, index: &BaselineIndex) -> (ops: Vec<FsOp>)
    requires
        index.wf(),
    ensures
        ops_view(ops@) == replace_spec(index@, path@, target@),
{
    let mut ops: Vec<FsOp> = Vec::new();
    match index.get(path) {
        None => {
            ops.push(FsOp::create_symlink(path, target));
        },
        Some(info) => {
            if info.kind == PathKind::Dir {
                delete_tree_ops(path, index, &mut ops);
                ops.push(FsOp::create_symlink(path, target));
            } else {
                ops.push(FsOp::delete_file(path));
                ops.push(FsOp::create_symlink(path, target));
            }
        },
    }
    assert(ops_view(ops@) =~= replace_spec(index@, path@, target@));
    ops
}

pub fn replace_file_with_symlink(path: &str, target: &str) -> (ops: Vec<FsOp>)
    ensures
        ops_view(ops@) == seq![delete_op(path@), symlink_op(path@, target@)],
{
    let ops = vec![FsOp::delete_file(path), FsOp::create_symlink(path, target)];
    assert(ops_view(ops@) =~= seq![delete_op(path@), symlink_op(path@, target@)]);
    ops
}

pub fn replace_empty_dir_with_symlink(path: &str, target: &str) -> (ops: Vec<FsOp>)
    ensures
        ops_view(ops@) == seq![rmdir_op(path@), symlink_op(path@, target@)],
{
    let ops = vec![FsOp::rmdir(path), FsOp::create_symlink(path, target)];
    assert(ops_view(ops@) =~= seq![rmdir_op(path@), symlink_op(path@, target@)]);
    ops
}

} // verus!
