//! The shared task queue at the heart of the worker pool.
//!
//! The pool itself is a set of threads; threads cannot be verified here, so
//! the crate verifies the one piece the threads share: a FIFO queue of
//! deferred work items.  The contracts pin down the delivery discipline the
//! server relies on: submitting appends exactly one item, claiming removes
//! exactly the oldest item, and draining a queue of K items hands back all K
//! in submission order — nothing lost, nothing delivered twice.  Callers
//! wrap the queue in whatever synchronisation their runtime offers; the
//! per-operation contracts hold for every interleaving of calls.

use vstd::prelude::*;

verus! {

/// FIFO queue of deferred work items.  Its view is the sequence of items
/// still waiting, oldest first.
pub struct TaskQueue<T> {
    tasks: Vec<T>,
}

impl<T> View for TaskQueue<T> {
    type V = Seq<T>;

    closed spec fn view(&self) -> Seq<T> {
        self.tasks@
    }
}

impl<T> TaskQueue<T> {
    /// An empty queue.
    pub fn new() -> (q: Self)
        ensures
            q@ == Seq::<T>::empty(),
    {
        TaskQueue { tasks: Vec::new() }
    }

    /// Number of items still waiting.
    pub fn len(&self) -> (n: usize)
        ensures
            n == self@.len(),
    {
        self.tasks.len()
    }

    /// Enqueue one item behind everything already waiting.  Exactly this
    /// item is appended; no waiting item is disturbed.
    pub fn submit(&mut self, task: T)
        ensures
            final(self)@ == old(self)@.push(task),
    {
        self.tasks.push(task);
    }

    /// Dequeue the oldest waiting item, if any.  The claimed item is the
    /// head of the queue and is removed from it; an empty queue is left
    /// unchanged.  Two claims can therefore never hand out the same item.
    pub fn claim(&mut self) -> (r: Option<T>)
        ensures
            match r {
                Option::Some(task) => {
                    &&& old(self)@.len() > 0
                    &&& task == old(self)@[0]
                    &&& final(self)@ == old(self)@.drop_first()
                },
                Option::None => {
                    &&& old(self)@.len() == 0
                    &&& final(self)@ == old(self)@
                },
            },
    {
        if self.tasks.len() == 0 {
            None
        } else {
            Some(self.tasks.remove(0))
        }
    }

    /// Claim every waiting item.  The result is exactly the queued sequence,
    /// in submission order: every submitted item is delivered once, none is
    /// delivered twice, none is lost.
    pub fn drain(&mut self) -> (r: Vec<T>)
        ensures
            r@ == old(self)@,
            final(self)@ == Seq::<T>::empty(),
    {
        let ghost initial: Seq<T> = self@;
        let mut out: Vec<T> = Vec::new();
        loop
            invariant
                out@ + self@ == initial,
            ensures
                out@ + self@ == initial,
                self@.len() == 0,
            decreases self@.len(),
        {
            match self.claim() {
                Option::Some(task) => {
                    out.push(task);
                    proof {
                        assert(out@ + self@ =~= initial);
                    }
                }
                Option::None => {
                    break;
                }
            }
        }
        proof {
            assert(out@ =~= initial);
        }
        out
    }
}

/// Law: one claim conserves the queue's inventory.  The claimed item put
/// back in front of what remains is exactly what was waiting before, so a
/// claim can neither lose an item nor duplicate one.
pub proof fn lemma_claim_conserves_inventory<T>(before: Seq<T>, after: Seq<T>, task: T)
    requires
        before.len() > 0,
        task == before[0],
        after == before.drop_first(),
    ensures
        seq![task] + after == before,
{
    assert(seq![task] + after =~= before);
}

} // verus!
