//! Helpers for handing a delta to single-buffer harnesses.

use vstd::prelude::*;

use crate::delta::{is_content_kind, FsDelta, OpView};

verus! {

/// The content of the first CreateFile/UpdateFile op among `s[i..]`, or empty.
pub open spec fn first_content_from(s: Seq<OpView>, i: int) -> Seq<u8>
    decreases s.len() - i,
{
    if i < 0 || i >= s.len() {
        Seq::empty()
    } else if is_content_kind(s[i].kind) {
        s[i].content
    } else {
        first_content_from(s, i + 1)
    }
}

/// Content of the first CreateFile/UpdateFile op, or empty.
pub fn primary_content(delta: &FsDelta) -> (c: &[u8])
    ensures
        c@ == first_content_from(delta@, 0),
{
    let n = delta.ops.len();
    let mut i: usize = 0;
    while i < n
        invariant
            n == delta@.len(),
            i <= n,
            first_content_from(delta@, 0) == first_content_from(delta@, i as int),
        decreases n - i,
    {
        let op = &delta.ops[i];
        assert(delta@[i as int] == op@);
        if op.kind == crate::delta::FsOpKind::CreateFile || op.kind == crate::delta::FsOpKind::UpdateFile {
            return op.content.as_slice();
        }
        i += 1;
    }
    let empty: &[u8] = &[];
    assert(empty@ =~= Seq::<u8>::empty());
    empty
}

} // verus!
