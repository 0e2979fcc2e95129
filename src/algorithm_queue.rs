use std::collections::VecDeque;
use vstd::prelude::*;

verus! {

/// A first-in first-out queue of deferred steps (for instance `Box<dyn FnMut()>`).
pub struct AlgorithmQueue<S> {
    pub steps: VecDeque<S>,
}

impl<S> AlgorithmQueue<S> {
    /// The queued steps, oldest first.
    pub open spec fn view(&self) -> Seq<S> {
        self.steps@
    }

    pub fn new() -> (r: Self)
        ensures
            r@ == Seq::<S>::empty(),
    {
        AlgorithmQueue { steps: VecDeque::new() }
    }

    pub fn enqueue(&mut self, step: S)
        ensures
            final(self)@ == old(self)@.push(step),
    {
        self.steps.push_back(step);
    }

    pub fn dequeue(&mut self) -> (r: Option<S>)
        ensures
            old(self)@.len() == 0 ==> r.is_none() && final(self)@ == old(self)@,
            old(self)@.len() > 0 ==> r == Some(old(self)@[0]) && final(self)@ == old(self)@.drop_first(),
    {
        self.steps.pop_front()
    }
}

} // verus!
