//! Feedback signals extracted from the per-iteration FUSE access log.

use vstd::prelude::*;

use crate::text::{clone_strings, strings_view};
use vstd::utf8::{decode_utf8, valid_utf8};

verus! {

/// Feedback signals extracted from the per-iteration FUSE write log.
/// When all fields are empty the mutators fall back to fully random behavior.
#[derive(Debug, Default)]
pub struct MutationGuidance {
    /// paths the target wrote to, created, or renamed into
    pub write_paths: Vec<String>,
    /// paths the target requested but which didn't exist (ENOENT from getattr)
    pub enoent_paths: Vec<String>,
    /// paths the target deleted or renamed away
    pub recreate_paths: Vec<String>,
}

pub struct GuidanceView {
    pub write: Seq<Seq<char>>,
    pub enoent: Seq<Seq<char>>,
    pub recreate: Seq<Seq<char>>,
}

impl View for MutationGuidance {
    type V = GuidanceView;

    open spec fn view(&self) -> GuidanceView {
        GuidanceView {
            write: strings_view(self.write_paths@),
            enoent: strings_view(self.enoent_paths@),
            recreate: strings_view(self.recreate_paths@),
        }
    }
}

impl Clone for MutationGuidance {
    fn clone(&self) -> (res: Self)
        ensures
            res@ == self@,
    {
        MutationGuidance {
            write_paths: clone_strings(&self.write_paths),
            enoent_paths: clone_strings(&self.enoent_paths),
            recreate_paths: clone_strings(&self.recreate_paths),
        }
    }
}

impl MutationGuidance {
    pub fn none() -> (g: Self)
        ensures
            g@.write.len() == 0,
            g@.enoent.len() == 0,
            g@.recreate.len() == 0,
    {
        MutationGuidance { write_paths: Vec::new(), enoent_paths: Vec::new(), recreate_paths: Vec::new() }
    }

    pub fn has_write(&self) -> (b: bool)
        ensures
            b == (self@.write.len() > 0),
    {
        self.write_paths.len() > 0
    }

    pub fn has_enoent(&self) -> (b: bool)
        ensures
            b == (self@.enoent.len() > 0),
    {
        self.enoent_paths.len() > 0
    }

    pub fn has_recreate(&self) -> (b: bool)
        ensures
            b == (self@.recreate.len() > 0),
    {
        self.recreate_paths.len() > 0
    }
}

/// Publishes fresh guidance into the live slot that the mutators read.
pub fn update_live(live: &mut MutationGuidance, g: MutationGuidance)
    ensures
        final(live)@ == g@,
{
    *live = g;
}

/// A copy of the latest guidance, so that mutators do not hold the slot while mutating.
pub fn peek_live(live: &MutationGuidance) -> (g: MutationGuidance)
    ensures
        g@ == live@,
{
    live.clone()
}

// ── Decoding the FUSE access log ────────────────────────────────────────────

/// What a FUSE access-log entry records.
#[derive(Clone, Copy, Debug, PartialEq, Eq, Structural)]
pub enum FuseLogKind {
    /// getattr on a missing path
    Enoent,
    Write,
    Create,
    RenameTo,
    Mkdir,
    Symlink,
    Unlink,
    Rmdir,
    RenameFrom,
    /// any other record
    Other,
}

pub open spec fn is_write_kind(k: FuseLogKind) -> bool {
    k == FuseLogKind::Write || k == FuseLogKind::Create || k == FuseLogKind::RenameTo || k
        == FuseLogKind::Mkdir || k == FuseLogKind::Symlink
}

pub open spec fn is_recreate_kind(k: FuseLogKind) -> bool {
    k == FuseLogKind::Unlink || k == FuseLogKind::Rmdir || k == FuseLogKind::RenameFrom
}

/// The guidance after recording one log entry.
pub open spec fn record_spec(g: GuidanceView, kind: FuseLogKind, path: Seq<char>) -> GuidanceView {
    if kind == FuseLogKind::Enoent {
        GuidanceView { enoent: g.enoent.push(path), ..g }
    } else if is_write_kind(kind) {
        GuidanceView { write: g.write.push(path), ..g }
    } else if is_recreate_kind(kind) {
        GuidanceView { recreate: g.recreate.push(path), ..g }
    } else {
        g
    }
}

impl MutationGuidance {
    /// Files one log entry under the list its kind belongs to.
    pub fn record(&mut self, kind: FuseLogKind, path: String)
        ensures
            final(self)@ == record_spec(old(self)@, kind, path@),
    {
        match kind {
            FuseLogKind::Enoent => self.enoent_paths.push(path),
            FuseLogKind::Write | FuseLogKind::Create | FuseLogKind::RenameTo | FuseLogKind::Mkdir
            | FuseLogKind::Symlink => self.write_paths.push(path),
            FuseLogKind::Unlink | FuseLogKind::Rmdir | FuseLogKind::RenameFrom => {
                self.recreate_paths.push(path)
            },
            FuseLogKind::Other => {},
        }
        proof {
            let g = old(self)@;
            assert(self@.enoent =~= record_spec(g, kind, path@).enoent);
            assert(self@.write =~= record_spec(g, kind, path@).write);
            assert(self@.recreate =~= record_spec(g, kind, path@).recreate);
        }
    }
}


/// A fixed-size path field holds its path up to the first NUL: the bytes
/// taken are a prefix of the field, within its first `max` bytes, none of
/// them NUL, and they stop at a NUL or at `max`.
pub proof fn lemma_nul_terminated_law(raw: Seq<u8>, max: int)
    requires
        0 <= max <= raw.len(),
    ensures
        ({
            let p = nul_terminated(raw, max);
            &&& p.len() <= max
            &&& p == raw.subrange(0, p.len() as int)
            &&& forall|q: int| 0 <= q < p.len() ==> raw[q] != 0
            &&& p.len() == max || raw[p.len() as int] == 0
        }),
    decreases max,
{
    if max > 0 {
        lemma_nul_terminated_law(raw, max - 1);
        let prev = nul_terminated(raw, max - 1);
        let p = nul_terminated(raw, max);
        if prev.len() == max - 1 && raw[max - 1] != 0 {
            assert(p =~= raw.subrange(0, max));
        }
    }
}

/// Recording a log entry files its path under exactly one list, by kind: a
/// missing-path lookup under `enoent`; a write, creation, rename into,
/// mkdir or symlink under `write`; an unlink, rmdir or rename away under
/// `recreate`; any other record nowhere. The other lists stay as they were.
pub proof fn lemma_record_files_by_kind(g: GuidanceView, kind: FuseLogKind, path: Seq<char>)
    ensures
        kind == FuseLogKind::Enoent ==> record_spec(g, kind, path).enoent == g.enoent.push(path)
            && record_spec(g, kind, path).write == g.write && record_spec(g, kind, path).recreate
            == g.recreate,
        (kind == FuseLogKind::Write || kind == FuseLogKind::Create || kind == FuseLogKind::RenameTo
            || kind == FuseLogKind::Mkdir || kind == FuseLogKind::Symlink) ==> record_spec(
            g,
            kind,
            path,
        ).write == g.write.push(path) && record_spec(g, kind, path).enoent == g.enoent
            && record_spec(g, kind, path).recreate == g.recreate,
        (kind == FuseLogKind::Unlink || kind == FuseLogKind::Rmdir || kind == FuseLogKind::RenameFrom)
            ==> record_spec(g, kind, path).recreate == g.recreate.push(path) && record_spec(
            g,
            kind,
            path,
        ).enoent == g.enoent && record_spec(g, kind, path).write == g.write,
        kind == FuseLogKind::Other ==> record_spec(g, kind, path) == g,
{
}

/// Draining one more log entry files its decoded path by the same rule: the
/// guidance of the first `k + 1` entries is that of the first `k` with the
/// path of entry `k` appended to the list of its kind, and only to that one.
pub proof fn lemma_log_entry_filed_by_kind(entries: Seq<FuseLogEntry>, max: int, k: int)
    requires
        0 <= k < entries.len(),
    ensures
        ({
            let before = guidance_of_log(entries, max, k);
            let after = guidance_of_log(entries, max, k + 1);
            let kind = entries[k].kind;
            let path = lossy_utf8(nul_terminated(entries[k].path@, max));
            &&& kind == FuseLogKind::Enoent ==> after.enoent == before.enoent.push(path)
                && after.write == before.write && after.recreate == before.recreate
            &&& (kind == FuseLogKind::Write || kind == FuseLogKind::Create || kind
                == FuseLogKind::RenameTo || kind == FuseLogKind::Mkdir || kind
                == FuseLogKind::Symlink) ==> after.write == before.write.push(path) && after.enoent
                == before.enoent && after.recreate == before.recreate
            &&& (kind == FuseLogKind::Unlink || kind == FuseLogKind::Rmdir || kind
                == FuseLogKind::RenameFrom) ==> after.recreate == before.recreate.push(path)
                && after.enoent == before.enoent && after.write == before.write
            &&& kind == FuseLogKind::Other ==> after == before
        }),
{
    lemma_record_files_by_kind(
        guidance_of_log(entries, max, k),
        entries[k].kind,
        lossy_utf8(nul_terminated(entries[k].path@, max)),
    );
}

/// Draining reads every entry a log claims, up to 512 of them, and none when
/// it claims a negative count.
pub proof fn lemma_log_entries_read_law(n: i32)
    ensures
        0 <= log_entries_read(n) <= 512,
        n < 0 ==> log_entries_read(n) == 0,
        0 <= n <= 512 ==> log_entries_read(n) == n,
        n > 512 ==> log_entries_read(n) == 512,
{
}

/// The text `String::from_utf8_lossy` makes of some bytes.
pub uninterp spec fn lossy_utf8(bytes: Seq<u8>) -> Seq<char>;

/// Decodes bytes with `String::from_utf8_lossy`.
///
/// Trusted: the result is named [`lossy_utf8`] of the bytes; std documents
/// that valid UTF-8 is decoded as it is (only invalid sequences become
/// U+FFFD), which the second clause states. What invalid input gives is not
/// stated.
#[verifier::external_body]
pub(crate) fn decode_lossy(bytes: &[u8]) -> (s: String)
    ensures
        s@ == lossy_utf8(bytes@),
        valid_utf8(bytes@) ==> s@ == decode_utf8(bytes@),
{
    String::from_utf8_lossy(bytes).into_owned()
}

/// The bytes of a fixed-size path field up to its first NUL, within the first `max` bytes.
pub open spec fn nul_terminated(raw: Seq<u8>, max: int) -> Seq<u8>
    decreases max,
{
    if max <= 0 {
        Seq::empty()
    } else {
        let prefix = nul_terminated(raw, max - 1);
        if prefix.len() == max - 1 && raw[max - 1] != 0 {
            prefix.push(raw[max - 1])
        } else {
            prefix
        }
    }
}

/// The path recorded in a log entry's fixed-size path field.
pub fn log_entry_path(raw: &[u8], max: usize) -> (p: String)
    requires
        max <= raw@.len(),
    ensures
        p@ == lossy_utf8(nul_terminated(raw@, max as int)),
{
    let mut end: usize = 0;
    while end < max && raw[end] != 0
        invariant
            end <= max <= raw@.len(),
            nul_terminated(raw@, end as int) == raw@.subrange(0, end as int),
        decreases max - end,
    {
        assert(raw@.subrange(0, end + 1) =~= raw@.subrange(0, end as int).push(raw@[end as int]));
        end += 1;
    }
    proof {
        lemma_nul_terminated_stops(raw@, end as int, max as int);
    }
    let bytes = vstd::slice::slice_subrange(raw, 0, end);
    decode_lossy(bytes)
}

proof fn lemma_nul_terminated_stops(raw: Seq<u8>, end: int, max: int)
    requires
        0 <= end <= max <= raw.len(),
        nul_terminated(raw, end) == raw.subrange(0, end),
        end == max || raw[end] == 0,
    ensures
        nul_terminated(raw, max) == raw.subrange(0, end),
    decreases max - end,
{
    if end < max {
        lemma_nul_terminated_len(raw, max - 1);
        if max - 1 > end {
            lemma_nul_terminated_stops(raw, end, max - 1);
        }
    }
}

proof fn lemma_nul_terminated_len(raw: Seq<u8>, max: int)
    requires
        0 <= max,
    ensures
        nul_terminated(raw, max).len() <= max,
    decreases max,
{
    if max > 0 {
        lemma_nul_terminated_len(raw, max - 1);
    }
}

/// One record of the FUSE access log.
#[derive(Debug)]
pub struct FuseLogEntry {
    pub kind: FuseLogKind,
    /// The fixed-size, NUL-padded path field.
    pub path: Vec<u8>,
}

/// At most this many log entries are read per run.
pub const FUSE_LOG_MAX_ENTRIES: usize = 512;

/// How many entries of a log that claims `n` entries are read.
pub open spec fn log_entries_read(n: i32) -> int {
    if n < 0 {
        0
    } else if n > 512 {
        512
    } else {
        n as int
    }
}

/// The guidance made of the first `k` entries of a log.
pub open spec fn guidance_of_log(entries: Seq<FuseLogEntry>, max: int, k: int) -> GuidanceView
    decreases k,
{
    if k <= 0 {
        GuidanceView { write: Seq::empty(), enoent: Seq::empty(), recreate: Seq::empty() }
    } else {
        record_spec(
            guidance_of_log(entries, max, k - 1),
            entries[k - 1].kind,
            lossy_utf8(nul_terminated(entries[k - 1].path@, max)),
        )
    }
}

/// Drains a FUSE access log that claims `n` entries into guidance: ENOENT
/// lookups, then writes/creations/renames-into/mkdirs/symlinks, then
/// unlinks/rmdirs/renames-away, each in log order. Paths are read up to their
/// first NUL within `path_max` bytes.
pub fn guidance_from_log(n: i32, entries: &Vec<FuseLogEntry>, path_max: usize) -> (g: MutationGuidance)
    requires
        log_entries_read(n) <= entries@.len(),
        forall|i: int| 0 <= i < entries@.len() ==> path_max <= #[trigger] entries@[i].path@.len(),
    ensures
        g@ == guidance_of_log(entries@, path_max as int, log_entries_read(n)),
{
    let count: usize = if n < 0 {
        0
    } else if n > 512 {
        512
    } else {
        n as usize
    };
    let mut g = MutationGuidance::none();
    assert(g@.write =~= Seq::<Seq<char>>::empty());
    assert(g@.enoent =~= Seq::<Seq<char>>::empty());
    assert(g@.recreate =~= Seq::<Seq<char>>::empty());
    for i in 0..count
        invariant
            count == log_entries_read(n),
            count <= entries@.len(),
            forall|j: int| 0 <= j < entries@.len() ==> path_max <= #[trigger] entries@[j].path@.len(),
            g@ == guidance_of_log(entries@, path_max as int, i as int),
    {
        let entry = &entries[i];
        let path = log_entry_path(entry.path.as_slice(), path_max);
        g.record(entry.kind, path);
    }
    g
}

} // verus!
