use vstd::prelude::*;

verus! {

/// Scheduling decisions of a bounded pipeline over `total` tasks that
/// delivers results in task order. A task occupies one of `bound` slots from
/// its start until its result is delivered.
pub struct OrderedPipeline {
    pub bound: usize,
    pub total: usize,
    pub started: usize,
    pub delivered: usize,
    pub done: Vec<bool>,
}

impl OrderedPipeline {
    pub open spec fn wf(&self) -> bool {
        &&& self.bound > 0
        &&& self.delivered <= self.started <= self.total
        &&& self.started - self.delivered <= self.bound
        &&& self.done@.len() == self.total
        &&& forall|i: int| self.started <= i < self.total ==> !(#[trigger] self.done@[i])
    }

    /// The number of tasks that hold a slot.
    pub open spec fn in_flight(&self) -> int {
        self.started - self.delivered
    }

    pub fn new(total: usize, bound: usize) -> (r: OrderedPipeline)
        requires
            bound > 0,
        ensures
            r.wf(),
            r.total == total,
            r.bound == bound,
            r.started == 0,
            r.delivered == 0,
    {
        let mut done: Vec<bool> = Vec::new();
        let mut i: usize = 0;
        while i < total
            invariant
                i <= total,
                done@.len() == i,
                forall|j: int| 0 <= j < i ==> !(#[trigger] done@[j]),
            decreases total - i,
        {
            done.push(false);
            i = i + 1;
        }
        OrderedPipeline { bound, total, started: 0, delivered: 0, done }
    }

    /// The next task to start, if one remains and a slot is free. Tasks start
    /// in order.
    pub fn next_start(&mut self) -> (r: Option<usize>)
        requires
            old(self).wf(),
        ensures
            final(self).wf(),
            final(self).bound == old(self).bound,
            final(self).total == old(self).total,
            final(self).delivered == old(self).delivered,
            final(self).done == old(self).done,
            r is Some <==> (old(self).started < old(self).total && old(self).in_flight() < old(self).bound),
            r is Some ==> r->0 == old(self).started && final(self).started == old(self).started + 1,
            r is None ==> final(self).started == old(self).started,
    {
        if self.started < self.total && self.started - self.delivered < self.bound {
            let i = self.started;
            self.started = self.started + 1;
            Some(i)
        } else {
            None
        }
    }

    /// Records that started task `i` has finished.
    pub fn complete(&mut self, i: usize)
        requires
            old(self).wf(),
            old(self).delivered <= i < old(self).started,
        ensures
            final(self).wf(),
            final(self).bound == old(self).bound,
            final(self).total == old(self).total,
            final(self).started == old(self).started,
            final(self).delivered == old(self).delivered,
            final(self).done@ == old(self).done@.update(i as int, true),
    {
        self.done.set(i, true);
    }

    /// The next result to hand on, if the earliest undelivered task has
    /// finished; its slot is then freed.
    pub fn next_delivery(&mut self) -> (r: Option<usize>)
        requires
            old(self).wf(),
        ensures
            final(self).wf(),
            final(self).bound == old(self).bound,
            final(self).total == old(self).total,
            final(self).started == old(self).started,
            final(self).done == old(self).done,
            r is Some <==> (old(self).delivered < old(self).started && old(self).done@[old(self).delivered as int]),
            r is Some ==> r->0 == old(self).delivered && final(self).delivered == old(self).delivered + 1,
            r is None ==> final(self).delivered == old(self).delivered,
    {
        if self.delivered < self.started && self.done[self.delivered] {
            let i = self.delivered;
            self.delivered = self.delivered + 1;
            Some(i)
        } else {
            None
        }
    }

    pub fn is_finished(&self) -> (r: bool)
        requires
            self.wf(),
        ensures
            r == (self.delivered == self.total),
    {
        self.delivered == self.total
    }
}

/// Scheduling decisions of a bounded pipeline over `total` tasks whose
/// results are handed on as they finish, in any order.
#[derive(Debug, Clone, Copy, PartialEq, Eq, Structural)]
pub struct UnorderedPipeline {
    pub bound: usize,
    pub total: usize,
    pub started: usize,
    pub finished: usize,
}

impl UnorderedPipeline {
    pub open spec fn wf(&self) -> bool {
        &&& self.bound > 0
        &&& self.finished <= self.started <= self.total
        &&& self.started - self.finished <= self.bound
    }

    pub fn new(total: usize, bound: usize) -> (r: UnorderedPipeline)
        requires
            bound > 0,
        ensures
            r.wf(),
            r == (UnorderedPipeline { bound, total, started: 0, finished: 0 }),
    {
        UnorderedPipeline { bound, total, started: 0, finished: 0 }
    }

    /// The next task to start, if one remains and a slot is free.
    pub fn next_start(&mut self) -> (r: Option<usize>)
        requires
            old(self).wf(),
        ensures
            final(self).wf(),
            r is Some <==> (old(self).started < old(self).total && old(self).started - old(self).finished < old(self).bound),
            r is Some ==> r->0 == old(self).started && *final(self) == (UnorderedPipeline { started: (old(self).started + 1) as usize, ..*old(self) }),
            r is None ==> *final(self) == *old(self),
    {
        if self.started < self.total && self.started - self.finished < self.bound {
            let i = self.started;
            self.started = self.started + 1;
            Some(i)
        } else {
            None
        }
    }

    /// Records that one started task has finished and its result was handed on.
    pub fn complete(&mut self)
        requires
            old(self).wf(),
            old(self).finished < old(self).started,
        ensures
            final(self).wf(),
            *final(self) == (UnorderedPipeline { finished: (old(self).finished + 1) as usize, ..*old(self) }),
    {
        self.finished = self.finished + 1;
    }

    pub fn is_finished(&self) -> (r: bool)
        ensures
            r == (self.finished == self.total),
    {
        self.finished == self.total
    }
}

} // verus!
