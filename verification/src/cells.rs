//! The atomic cells that the connection counters live in.
//!
//! An atomic cell is shared: between two operations of one thread, any other
//! thread may change it. So what is known of an operation is that it took place,
//! on which cell, what it found there and what it left there. Two things say so:
//!
//! - An [`AccessLog`] goes along with the operations. Each of them adds one entry to
//!   the log that it is given. A contract that says how a log grows fixes the
//!   operations that go through this log; those that go through another log are not seen.
//! - The four predicates below speak of the whole life of a cell, so what they say
//!   stays true whatever happens to the cell later.

use std::sync::atomic::AtomicUsize;
use std::sync::atomic::Ordering;
use vstd::prelude::*;

verus! {

/// `cell` held `value` when it was made.
pub uninterp spec fn cell_created(cell: AtomicUsize, value: usize) -> bool;

/// At some moment of the life of `cell`, a load of it returned `value`.
pub uninterp spec fn cell_loaded(cell: AtomicUsize, value: usize) -> bool;

/// At some moment of the life of `cell`, an atomic addition found `before` in it and left
/// `after` there.
pub uninterp spec fn cell_added(cell: AtomicUsize, before: usize, after: usize) -> bool;

/// At some moment of the life of `cell`, an atomic subtraction found `before` in it and
/// left `after` there.
pub uninterp spec fn cell_subtracted(cell: AtomicUsize, before: usize, after: usize) -> bool;

/// One atomic operation on a cell: which cell, what it found there, what it left there. A
/// load leaves what it found.
pub struct CellAccess {
    pub cell: AtomicUsize,
    pub before: usize,
    pub after: usize,
}

/// The operations that were performed on cells with this log at hand, first to last.
pub struct AccessLog {
    made: Ghost<Seq<CellAccess>>,
}

impl View for AccessLog {
    type V = Seq<CellAccess>;

    closed spec fn view(&self) -> Seq<CellAccess> {
        self.made@
    }
}

impl AccessLog {
    /// An empty log
    pub fn new() -> (log: Self)
        ensures
            log@ == Seq::<CellAccess>::empty(),
        opens_invariants none
        no_unwind
    {
        AccessLog { made: Ghost(Seq::empty()) }
    }
}

/// What a cell that held `first` holds after these operations, if they are all that is done
/// to it.
pub open spec fn held(made: Seq<CellAccess>, cell: AtomicUsize, first: usize) -> usize
    decreases made.len(),
{
    if made.len() == 0 {
        first
    } else if made.last().cell == cell {
        made.last().after
    } else {
        held(made.drop_last(), cell, first)
    }
}

/// None of these operations was performed on the cell.
pub open spec fn is_new_to(cell: AtomicUsize, made: Seq<CellAccess>) -> bool {
    forall|i: int| 0 <= i < made.len() ==> (#[trigger] made[i]).cell != cell
}

/// Calls `AtomicUsize::new` three times. The claim: each of the new cells starts out with
/// `value`; no two of them are the same cell; and none of them is a cell that an operation
/// in `log` was performed on, for such a cell was there before. That they are none of the
/// other cells that were there before is left unsaid.
#[verifier::external_body]
pub(crate) fn new_cells(value: usize, log: &AccessLog) -> (cells: (
    AtomicUsize,
    AtomicUsize,
    AtomicUsize,
))
    ensures
        cell_created(cells.0, value),
        cell_created(cells.1, value),
        cell_created(cells.2, value),
        cells.0 != cells.1,
        cells.0 != cells.2,
        cells.1 != cells.2,
        is_new_to(cells.0, log@),
        is_new_to(cells.1, log@),
        is_new_to(cells.2, log@),
{
    (AtomicUsize::new(value), AtomicUsize::new(value), AtomicUsize::new(value))
}

/// Calls `AtomicUsize::load` with relaxed ordering. The claim: it is one load of this very
/// cell, and `log` grows by it. Which of the values that the cell holds over
/// time it finds, depends on the other threads and is left unsaid.
#[verifier::external_body]
pub(crate) fn load(cell: &AtomicUsize, log: &mut AccessLog) -> (value: usize)
    ensures
        final(log)@ == old(log)@.push((CellAccess { cell: *cell, before: value, after: value })),
        cell_loaded(*cell, value),
    opens_invariants none
    no_unwind
{
    cell.load(Ordering::Relaxed)
}

/// Calls `AtomicUsize::fetch_add` with relaxed ordering. The claim: in one step, `amount` was
/// added to what this very cell held, around the end of the type, and `log` grows by
/// this step. What it held depends on the other threads and is left unsaid.
#[verifier::external_body]
pub(crate) fn fetch_add(cell: &AtomicUsize, amount: usize, log: &mut AccessLog) -> (before: usize)
    ensures
        final(log)@ == old(log)@.push(
            (CellAccess { cell: *cell, before, after: before.wrapping_add(amount) }),
        ),
        cell_added(*cell, before, before.wrapping_add(amount)),
    opens_invariants none
    no_unwind
{
    cell.fetch_add(amount, Ordering::Relaxed)
}

/// Calls `AtomicUsize::fetch_sub` with relaxed ordering. The claim: in one step, `amount` was
/// subtracted from what this very cell held, around the end of the type, and `log` grows by
/// this step. What it held depends on the other threads and is left unsaid.
#[verifier::external_body]
pub(crate) fn fetch_sub(cell: &AtomicUsize, amount: usize, log: &mut AccessLog) -> (before: usize)
    ensures
        final(log)@ == old(log)@.push(
            (CellAccess { cell: *cell, before, after: before.wrapping_sub(amount) }),
        ),
        cell_subtracted(*cell, before, before.wrapping_sub(amount)),
    opens_invariants none
    no_unwind
{
    cell.fetch_sub(amount, Ordering::Relaxed)
}

} // verus!
