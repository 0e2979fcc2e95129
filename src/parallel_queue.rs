use crate::algorithm_queue::AlgorithmQueue;
use vstd::prelude::*;

verus! {

/// Runs the steps of an [`AlgorithmQueue`] one after another until it is empty.
pub struct ParallelQueue<S> {
    pub algorithm_queue: AlgorithmQueue<S>,
}

impl<S: FnMut()> ParallelQueue<S> {
    pub fn new() -> (r: Self)
        ensures
            r.algorithm_queue@ == Seq::<S>::empty(),
    {
        ParallelQueue { algorithm_queue: AlgorithmQueue::new() }
    }

    /// Takes the steps out in order and calls each once.
    pub fn run(&mut self)
        requires
            forall|i: int| 0 <= i < old(self).algorithm_queue@.len()
                ==> call_requires(old(self).algorithm_queue@[i], ()),
        ensures
            final(self).algorithm_queue@ == Seq::<S>::empty(),
            forall|i: int| 0 <= i < old(self).algorithm_queue@.len()
                ==> call_ensures(#[trigger] old(self).algorithm_queue@[i], (), ()),
    {
        let ghost steps = self.algorithm_queue@;
        let ghost mut done: int = 0;
        loop
            invariant
                0 <= done <= steps.len(),
                self.algorithm_queue@ == steps.subrange(done, steps.len() as int),
                forall|i: int| 0 <= i < steps.len() ==> call_requires(steps[i], ()),
                forall|i: int| 0 <= i < done ==> call_ensures(#[trigger] steps[i], (), ()),
            ensures
                self.algorithm_queue@ == Seq::<S>::empty(),
                forall|i: int| 0 <= i < steps.len() ==> call_ensures(#[trigger] steps[i], (), ()),
            decreases steps.len() - done,
        {
            match self.algorithm_queue.dequeue() {
                Some(mut step) => {
                    assert(step == steps[done]);
                    step();
                    proof {
                        done = done + 1;
                        assert(self.algorithm_queue@ =~= steps.subrange(done, steps.len() as int));
                    }
                },
                None => {
                    assert(done == steps.len());
                    break;
                },
            }
        }
    }
}

} // verus!
