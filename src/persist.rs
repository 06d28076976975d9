//! Bookkeeping of the persisted collections: the dirty flag that decides
//! when a flush writes, and the counter of problem ids.
//!
//! A flush runs in two steps around the write. `begin_flush` decides, and
//! `finish_flush` clears the flag only when the write succeeded, so a failed
//! write is retried on the next tick. The caller holds the flag's lock from
//! the first step to the second; a mutation that marks the flag meanwhile
//! waits, lands after the clear, and is written by the next flush.
use vstd::prelude::*;
use crate::models::DiskProblem;

verus! {

/// What a flush does.
#[derive(Clone, Copy, Debug, PartialEq, Eq, Structural)]
pub enum FlushAction {
    /// Nothing changed since the last successful write: no I/O.
    Skip,
    /// Write both collections.
    Save,
}

/// The decision of a flush, given the flag.
pub open spec fn flush_action(dirty: bool) -> FlushAction {
    if dirty {
        FlushAction::Save
    } else {
        FlushAction::Skip
    }
}

/// The flag after a write that did or did not succeed.
pub open spec fn after_save(dirty: bool, saved: bool) -> bool {
    dirty && !saved
}

/// Whether the collections changed since the last successful write.
pub struct DirtyFlag {
    dirty: bool,
}

impl View for DirtyFlag {
    type V = bool;

    closed spec fn view(&self) -> bool {
        self.dirty
    }
}

impl DirtyFlag {
    /// A clean flag: what was loaded is what is on disk.
    pub fn new() -> (r: DirtyFlag)
        ensures
            r@ == false,
    {
        DirtyFlag { dirty: false }
    }

    /// Records a mutation of the collections.
    pub fn mark_dirty(&mut self)
        ensures
            final(self)@ == true,
    {
        self.dirty = true;
    }

    pub fn is_dirty(&self) -> (r: bool)
        ensures
            r == self@,
    {
        self.dirty
    }

    /// The first step of a flush: whether to write.
    pub fn begin_flush(&self) -> (r: FlushAction)
        ensures
            r == flush_action(self@),
    {
        if self.dirty {
            FlushAction::Save
        } else {
            FlushAction::Skip
        }
    }

    /// The second step of a flush that wrote: the flag is cleared only if
    /// the write succeeded.
    pub fn finish_flush(&mut self, saved: bool)
        ensures
            final(self)@ == after_save(old(self)@, saved),
    {
        if saved {
            self.dirty = false;
        }
    }
}

/// Two flushes in succession with no mutation between them write at most
/// once: after a flush that found nothing to do, or whose write succeeded,
/// the next flush skips.
pub proof fn lemma_flush_twice_writes_once(dirty: bool, saved: bool)
    requires
        flush_action(dirty) == FlushAction::Save ==> saved,
    ensures
        ({
            let after = if flush_action(dirty) == FlushAction::Save {
                after_save(dirty, saved)
            } else {
                dirty
            };
            flush_action(after) == FlushAction::Skip
        }),
{
}

/// A failed write leaves the flag set, so the next flush writes again.
pub proof fn lemma_failed_save_retries(dirty: bool)
    requires
        dirty,
    ensures
        flush_action(after_save(dirty, false)) == FlushAction::Save,
{
}

/// The largest problem id, or 0 without problems.
pub open spec fn max_id(problems: Seq<DiskProblem>) -> int
    decreases problems.len(),
{
    if problems.len() == 0 {
        0
    } else {
        let rest = max_id(problems.drop_last());
        let id = problems.last().base.id as int;
        if id > rest {
            id
        } else {
            rest
        }
    }
}

/// The counter that hands out problem ids.
pub struct ProblemIdCounter {
    next: u32,
}

impl View for ProblemIdCounter {
    type V = int;

    closed spec fn view(&self) -> int {
        self.next as int
    }
}

impl ProblemIdCounter {
    /// Starts after the largest id of the loaded problems, at 1 without any.
    pub fn from_problems(problems: &Vec<DiskProblem>) -> (r: ProblemIdCounter)
        requires
            forall|i: int| 0 <= i < problems@.len() ==> (#[trigger] problems@[i]).base.id < u32::MAX,
        ensures
            r@ == max_id(problems@) + 1,
    {
        let mut largest: u32 = 0;
        let mut i: usize = 0;
        while i < problems.len()
            invariant
                i <= problems@.len(),
                largest as int == max_id(problems@.take(i as int)),
                forall|k: int| 0 <= k < problems@.len() ==> (#[trigger] problems@[k]).base.id < u32::MAX,
                largest < u32::MAX,
            decreases problems@.len() - i,
        {
            assert(problems@.take(i as int + 1).drop_last() == problems@.take(i as int));
            let id = problems[i].base.id;
            if id > largest {
                largest = id;
            }
            i = i + 1;
        }
        assert(problems@.take(i as int) == problems@);
        ProblemIdCounter { next: largest + 1 }
    }

    /// The id that the next problem gets.
    pub fn next_problem_id(&self) -> (r: u32)
        ensures
            r == self@,
    {
        self.next
    }

    /// Hands out the next id and moves past it.
    pub fn get_next_problem_id(&mut self) -> (r: u32)
        requires
            old(self)@ < u32::MAX,
        ensures
            r == old(self)@,
            final(self)@ == old(self)@ + 1,
    {
        let id = self.next;
        self.next = self.next + 1;
        id
    }
}

} // verus!
