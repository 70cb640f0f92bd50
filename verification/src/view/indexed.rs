//! Index-keyed lists of child views: the items are matched by position.
use vstd::prelude::*;

verus! {

/// One step of updating an index-keyed list.
#[derive(Clone, Copy, PartialEq, Eq, Structural, Debug)]
pub enum IndexedOp {
    /// Overwrite the item at this position with the new view, and update its state.
    Update(usize),
    /// Build a new item and append it; it takes this position.
    Build(usize),
    /// Raze the item at this position and remove it from the end of the list.
    Raze(usize),
}

/// The steps that turn a list of `prev_len` items into one of `next_len` items: the items
/// both have are overwritten in order, then the missing ones appended in order, then the
/// surplus ones razed from the last one down.
pub open spec fn index_plan(prev_len: int, next_len: int) -> Seq<IndexedOp> {
    let common = if prev_len < next_len {
        prev_len
    } else {
        next_len
    };
    Seq::new(common as nat, |i: int| IndexedOp::Update(i as usize)) + Seq::new(
        (next_len - common) as nat,
        |k: int| IndexedOp::Build((common + k) as usize),
    ) + Seq::new((prev_len - common) as nat, |k: int| IndexedOp::Raze((prev_len - 1 - k) as usize))
}

/// The steps that turn a list of `prev_len` items into one of `next_len` items, as
/// [`index_plan`] gives them.
pub fn plan_index_update(prev_len: usize, next_len: usize) -> (ops: Vec<IndexedOp>)
    ensures
        ops@ == index_plan(prev_len as int, next_len as int),
{
    let ghost common = if prev_len < next_len {
        prev_len as int
    } else {
        next_len as int
    };
    let ghost updates = Seq::new(common as nat, |i: int| IndexedOp::Update(i as usize));
    let ghost appends = Seq::new(
        (next_len - common) as nat,
        |k: int| IndexedOp::Build((common + k) as usize),
    );
    let mut ops: Vec<IndexedOp> = Vec::new();
    // Overwrite existing items.
    let mut i: usize = 0;
    while i < next_len && i < prev_len
        invariant
            i <= next_len,
            i <= prev_len,
            i <= common,
            common == (if prev_len < next_len {
                prev_len as int
            } else {
                next_len as int
            }),
            ops@ =~= Seq::new(i as nat, |j: int| IndexedOp::Update(j as usize)),
        decreases next_len - i,
    {
        ops.push(IndexedOp::Update(i));
        i = i + 1;
    }
    assert(ops@ =~= updates);
    // Append new items.
    while i < next_len
        invariant
            common <= i <= next_len,
            common == (if prev_len < next_len {
                prev_len as int
            } else {
                next_len as int
            }),
            ops@ =~= updates + Seq::new(
                (i - common) as nat,
                |k: int| IndexedOp::Build((common + k) as usize),
            ),
        decreases next_len - i,
    {
        ops.push(IndexedOp::Build(i));
        i = i + 1;
    }
    assert(ops@ =~= updates + appends);
    // Raze surplus items.
    let mut len = prev_len;
    while len > next_len
        invariant
            len <= prev_len,
            prev_len > next_len ==> len >= next_len,
            prev_len <= next_len ==> len == prev_len,
            common == (if prev_len < next_len {
                prev_len as int
            } else {
                next_len as int
            }),
            ops@ =~= updates + appends + Seq::new(
                (prev_len - len) as nat,
                |k: int| IndexedOp::Raze((prev_len - 1 - k) as usize),
            ),
        decreases len,
    {
        len = len - 1;
        ops.push(IndexedOp::Raze(len));
    }
    ops
}

} // verus!
