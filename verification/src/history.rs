//! The undo/redo store: an ordered stack of diffs with a cursor.
//!
//! `diffs[0..cursor]` is the applied past and `diffs[cursor..]` the redo-able
//! future; recording a new diff first discards that future. The invariant
//! `cursor <= diffs.len()` holds before and after every operation.

use vstd::prelude::*;

use crate::canvas::Color;

verus! {

/// One changed pixel: `index` is the flat pixel index `y * width + x`
/// (not a byte offset), with the pixel's color before and after the edit.
#[derive(Debug, Clone, Copy, PartialEq, Eq, Structural)]
pub struct SparsePixelDelta {
    pub index: usize,
    pub before: Color,
    pub after: Color,
}

/// A reversible record of the pixel changes between two buffer states.
pub enum Diff {
    Sparse(Vec<SparsePixelDelta>),
}

impl Diff {
    /// The ordered sequence of single-pixel changes this diff holds.
    pub open spec fn deltas(&self) -> Seq<SparsePixelDelta> {
        match self {
            Diff::Sparse(v) => v@,
        }
    }

    pub fn new_sparse(deltas: Vec<SparsePixelDelta>) -> (r: Diff)
        ensures
            r.deltas() == deltas@,
    {
        Diff::Sparse(deltas)
    }

    /// The number of single-pixel changes this diff holds.
    pub fn len(&self) -> (n: usize)
        ensures
            n == self.deltas().len(),
    {
        match self {
            Diff::Sparse(v) => v.len(),
        }
    }

    /// The delta at position `k`.
    pub fn delta_at(&self, k: usize) -> (r: SparsePixelDelta)
        requires
            k < self.deltas().len(),
        ensures
            r == self.deltas()[k as int],
    {
        match self {
            Diff::Sparse(v) => v[k],
        }
    }

    /// An element-for-element copy of this diff.
    pub fn duplicate(&self) -> (r: Diff)
        ensures
            r.deltas() == self.deltas(),
    {
        match self {
            Diff::Sparse(v) => {
                let mut copy: Vec<SparsePixelDelta> = Vec::new();
                let mut k: usize = 0;
                while k < v.len()
                    invariant
                        k <= v.len(),
                        copy@ == v@.take(k as int),
                    decreases v.len() - k,
                {
                    copy.push(v[k]);
                    proof {
                        assert(v@.take(k as int + 1) =~= v@.take(k as int).push(v@[k as int]));
                    }
                    k = k + 1;
                }
                proof {
                    assert(v@.take(v@.len() as int) =~= v@);
                }
                Diff::Sparse(copy)
            },
        }
    }
}

/// Which way a diff is applied: `Normal` writes each delta's `after` color,
/// `Reverse` writes each delta's `before` color.
#[derive(Debug, Clone, Copy, PartialEq, Eq, Structural)]
pub enum DiffDirection {
    Normal,
    Reverse,
}

/// The diff stack with its cursor.
pub struct History {
    diffs: Vec<Diff>,
    cursor: usize,
}

impl History {
    /// The recorded diffs, each as its delta sequence, oldest first.
    pub closed spec fn entries(&self) -> Seq<Seq<SparsePixelDelta>> {
        self.diffs@.map_values(|d: Diff| d.deltas())
    }

    /// The cursor: how many of the recorded diffs are currently applied.
    pub closed spec fn spec_cursor(&self) -> int {
        self.cursor as int
    }

    /// The cursor never escapes `[0, diffs.len()]`.
    pub open spec fn wf(&self) -> bool {
        0 <= self.spec_cursor() <= self.entries().len()
    }

    pub fn new() -> (r: History)
        ensures
            r.wf(),
            r.entries() == Seq::<Seq<SparsePixelDelta>>::empty(),
            r.spec_cursor() == 0,
    {
        let r = History { diffs: Vec::new(), cursor: 0 };
        proof {
            assert(r.entries() =~= Seq::<Seq<SparsePixelDelta>>::empty());
        }
        r
    }

    pub fn cursor(&self) -> (c: usize)
        ensures
            c as int == self.spec_cursor(),
    {
        self.cursor
    }

    pub fn len(&self) -> (n: usize)
        ensures
            n as int == self.entries().len(),
    {
        self.diffs.len()
    }

    /// A copy of the diff recorded at position `i` of the stack.
    pub fn entry(&self, i: usize) -> (r: Diff)
        requires
            i < self.entries().len(),
        ensures
            r.deltas() == self.entries()[i as int],
    {
        self.diffs[i].duplicate()
    }

    /// Steps the cursor one diff into the past and hands out that diff; the
    /// caller applies it in `Reverse` direction. At the beginning of the
    /// timeline there is nothing to undo and the history is left unchanged.
    pub fn undo(&mut self) -> (r: Option<Diff>)
        requires
            old(self).wf(),
        ensures
            final(self).wf(),
            final(self).entries() == old(self).entries(),
            old(self).spec_cursor() == 0 ==> r is None && final(self).spec_cursor() == 0,
            old(self).spec_cursor() > 0 ==> {
                &&& final(self).spec_cursor() == old(self).spec_cursor() - 1
                &&& match r {
                    Some(d) => d.deltas() == old(self).entries()[old(self).spec_cursor() - 1],
                    None => false,
                }
            },
    {
        if self.cursor == 0 {
            None
        } else {
            self.cursor = self.cursor - 1;
            Some(self.diffs[self.cursor].duplicate())
        }
    }

    /// Hands out the next not-yet-applied diff and steps the cursor over it;
    /// the caller applies it in `Normal` direction. At the end of the
    /// timeline there is nothing to redo and the history is left unchanged.
    pub fn redo(&mut self) -> (r: Option<Diff>)
        requires
            old(self).wf(),
        ensures
            final(self).wf(),
            final(self).entries() == old(self).entries(),
            old(self).spec_cursor() == old(self).entries().len() ==> r is None
                && final(self).spec_cursor() == old(self).spec_cursor(),
            old(self).spec_cursor() < old(self).entries().len() ==> {
                &&& final(self).spec_cursor() == old(self).spec_cursor() + 1
                &&& match r {
                    Some(d) => d.deltas() == old(self).entries()[old(self).spec_cursor()],
                    None => false,
                }
            },
    {
        if self.cursor < self.diffs.len() {
            let d = self.diffs[self.cursor].duplicate();
            self.cursor = self.cursor + 1;
            Some(d)
        } else {
            None
        }
    }

    /// Truncates the stack to the cursor — discarding any stale redo-able
    /// future — then pushes the new diff and steps the cursor over it. After
    /// a `record` the cursor always stands at the end of the timeline.
    pub fn record(&mut self, diff: Diff)
        requires
            old(self).wf(),
        ensures
            final(self).wf(),
            final(self).entries() == old(self).entries().take(old(self).spec_cursor()).push(
                diff.deltas(),
            ),
            final(self).spec_cursor() == old(self).spec_cursor() + 1,
            final(self).spec_cursor() == final(self).entries().len(),
    {
        let ghost prior = self.diffs@;
        self.diffs.truncate(self.cursor);
        self.diffs.push(diff);
        self.cursor = self.diffs.len();
        proof {
            assert(self.entries() =~= prior.map_values(|d: Diff| d.deltas()).take(
                old(self).spec_cursor(),
            ).push(diff.deltas()));
        }
    }
}

/// Recording after one or more undos discards the stale redo tail: when a
/// history steps from `before` to `after` as `record` promises, whatever
/// redo-able future stood past the cursor is gone — the new stack is the
/// applied past plus the new diff — and the cursor stands at the end of the
/// stack, which is exactly the state in which `redo` reports the time edge.
pub proof fn law_record_discards_redo(
    before: History,
    after: History,
    recorded: Seq<SparsePixelDelta>,
)
    requires
        before.wf(),
        after.entries() == before.entries().take(before.spec_cursor()).push(recorded),
        after.spec_cursor() == before.spec_cursor() + 1,
    ensures
        after.entries().len() == before.spec_cursor() + 1,
        after.spec_cursor() == after.entries().len(),
        forall|i: int| 0 <= i < before.spec_cursor() ==> after.entries()[i] == before.entries()[i],
        after.entries().last() == recorded,
{
}

} // verus!
