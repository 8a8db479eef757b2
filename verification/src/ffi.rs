//! The library side of the C control plane: its handle types, the structural
//! check run before a delta is handed over, and the per-call outcome.

use vstd::prelude::*;

use crate::delta::{is_content_kind, FsDelta, OpView};
use crate::text::starts_with_char;

verus! {

/// Opaque handle to the C VFS (`vfs_t`).
pub struct VfsT {
    _private: [u8; 0],
}

/// Opaque handle to a C delta (`fs_delta_t`).
pub struct FsDeltaC {
    _private: [u8; 0],
}

/// Per-call outcome of applying a delta.
///
/// Individual ops may fail (that is expected fuzzer behaviour); catastrophic
/// failures are reported separately by the caller.
#[derive(Debug, Clone, Copy)]
pub struct DeltaResult {
    pub succeeded: usize,
    pub failed: usize,
}

impl DeltaResult {
    pub fn all_ok(&self) -> (b: bool)
        ensures
            b == (self.failed == 0),
    {
        self.failed == 0
    }
}

/// The structural invariants a delta must meet before it is applied: at least
/// one op, absolute paths, and size equal to content length for file ops.
pub open spec fn delta_valid(s: Seq<OpView>) -> bool {
    &&& s.len() > 0
    &&& forall|i: int| 0 <= i < s.len() ==> (#[trigger] s[i]).path.len() > 0 && s[i].path[0] == '/'
    &&& forall|i: int|
        0 <= i < s.len() && is_content_kind((#[trigger] s[i]).kind) ==> s[i].size == s[i].content.len()
}

/// Whether `delta` meets the structural invariants checked before it is applied.
pub fn validate_delta(delta: &FsDelta) -> (ok: bool)
    ensures
        ok == delta_valid(delta@),
{
    let n = delta.ops.len();
    if n == 0 {
        return false;
    }
    for i in 0..n
        invariant
            n == delta@.len(),
            n > 0,
            forall|j: int|
                0 <= j < i ==> (#[trigger] delta@[j]).path.len() > 0 && delta@[j].path[0] == '/',
            forall|j: int|
                0 <= j < i && is_content_kind((#[trigger] delta@[j]).kind) ==> delta@[j].size
                    == delta@[j].content.len(),
    {
        let op = &delta.ops[i];
        assert(delta@[i as int] == op@);
        if !starts_with_char(op.path.as_str(), '/') {
            return false;
        }
        if (op.kind == crate::delta::FsOpKind::CreateFile || op.kind == crate::delta::FsOpKind::UpdateFile)
            && op.size != op.content.len() {
            return false;
        }
    }
    true
}

/// The outcome counts reported by the control plane (C `int`s), read as
/// `usize` the way an `as` cast does.
pub fn delta_result_from_counts(succeeded: i32, failed: i32) -> (r: DeltaResult)
    ensures
        r.succeeded == succeeded as usize,
        r.failed == failed as usize,
        succeeded >= 0 ==> r.succeeded == succeeded,
        failed >= 0 ==> r.failed == failed,
{
    DeltaResult { succeeded: succeeded as usize, failed: failed as usize }
}

/// Whether `path` holds a NUL character, which a C path cannot carry.
pub fn has_interior_nul(path: &str) -> (b: bool)
    ensures
        b == path@.contains('\0'),
{
    let n = vstd::string::StrSliceExecFns::unicode_len(path);
    for i in 0..n
        invariant
            n == path@.len(),
            forall|j: int| 0 <= j < i ==> path@[j] != '\0',
    {
        if vstd::string::StrSliceExecFns::get_char(path, i) == '\0' {
            assert(path@[i as int] == '\0');
            return true;
        }
    }
    false
}

} // verus!
