//! Compensation journals: what to undo when a multi-step operation fails
//! part of the way through.
use vstd::prelude::*;

verus! {

/// A journal of compensation steps, in the order they were registered.
pub struct Rollback<T> {
    steps: Vec<T>,
}

impl<T> View for Rollback<T> {
    type V = Seq<T>;

    closed spec fn view(&self) -> Seq<T> {
        self.steps@
    }
}

impl<T> Default for Rollback<T> {
    fn default() -> (r: Self)
        ensures
            r@ == Seq::<T>::empty(),
    {
        Self::new()
    }
}

impl<T> Rollback<T> {
    /// An empty journal.
    pub fn new() -> (r: Self)
        ensures
            r@ == Seq::<T>::empty(),
    {
        Rollback { steps: Vec::new() }
    }

    /// Records one more compensation step.
    pub fn register(&mut self, step: T)
        ensures
            final(self)@ == old(self)@.push(step),
    {
        self.steps.push(step);
    }

    /// The registered steps in the order they are to run: the last one
    /// registered first.
    pub fn execute(self) -> (order: Vec<T>)
        ensures
            order@ == self@.reverse(),
    {
        let ghost all = self.steps@;
        let mut steps = self.steps;
        let mut order: Vec<T> = Vec::new();
        while steps.len() > 0
            invariant
                steps@ == all.take(steps@.len() as int),
                steps@.len() <= all.len(),
                order@.len() == all.len() - steps@.len(),
                forall|i: int| 0 <= i < order@.len() ==> order@[i] == all[all.len() - 1 - i],
            decreases steps@.len(),
        {
            let step = steps.pop().unwrap();
            order.push(step);
        }
        assert(order@ =~= all.reverse());
        order
    }

    /// Drops the journal without running any of its steps.
    pub fn disarm(self) {
    }
}

/// The compensations a sequence of steps registers as it completes, in
/// order: one for each step that has one.
pub open spec fn registered<A, C>(steps: Seq<(A, Option<C>)>) -> Seq<C>
    decreases steps.len(),
{
    if steps.len() == 0 {
        Seq::empty()
    } else {
        registered(steps.drop_last()) + match steps.last().1 {
            Some(c) => seq![c],
            None => Seq::empty(),
        }
    }
}

/// A run through a plan of steps, each an action with an optional
/// compensation that undoes it. Steps are handed out one at a time; a step
/// that succeeds registers its compensation; a failure hands back what is to
/// be undone.
pub struct StepRun<A, C> {
    pending: Vec<(A, Option<C>)>,
    current: Option<C>,
    running: bool,
    journal: Rollback<C>,
    plan: Ghost<Seq<(A, Option<C>)>>,
    started: Ghost<nat>,
}

impl<A, C> StepRun<A, C> {
    /// The whole plan the run was started with.
    pub closed spec fn plan(&self) -> Seq<(A, Option<C>)> {
        self.plan@
    }

    /// How many steps have been handed out.
    pub closed spec fn started(&self) -> nat {
        self.started@
    }

    /// Whether a step has been handed out and has not yet reported back.
    pub closed spec fn in_step(&self) -> bool {
        self.running
    }

    /// The steps that completed.
    pub open spec fn completed(&self) -> nat {
        if self.in_step() {
            (self.started() - 1) as nat
        } else {
            self.started()
        }
    }

    pub closed spec fn well_formed(&self) -> bool {
        &&& self.started@ <= self.plan@.len()
        &&& self.pending@.len() + self.started@ == self.plan@.len()
        &&& forall|i: int|
            0 <= i < self.pending@.len() ==> #[trigger] self.pending@[i] == self.plan@[self.plan@.len() - 1 - i]
        &&& self.running ==> self.started@ >= 1 && self.current == self.plan@[self.started@ - 1].1
        &&& !self.running ==> self.current is None
        &&& self.journal@ == registered(self.plan@.take(self.completed() as int))
    }

    /// A run that has not started any step of `steps`.
    pub fn new(steps: Vec<(A, Option<C>)>) -> (r: Self)
        ensures
            r.well_formed(),
            r.plan() == steps@,
            r.started() == 0,
            !r.in_step(),
    {
        let ghost plan = steps@;
        let mut pending: Vec<(A, Option<C>)> = Vec::new();
        let mut rest = steps;
        while rest.len() > 0
            invariant
                rest@ == plan.take(rest@.len() as int),
                rest@.len() <= plan.len(),
                pending@.len() == plan.len() - rest@.len(),
                forall|i: int| 0 <= i < pending@.len() ==> pending@[i] == plan[plan.len() - 1 - i],
            decreases rest@.len(),
        {
            let s = rest.pop().unwrap();
            pending.push(s);
        }
        let r = StepRun {
            pending,
            current: None,
            running: false,
            journal: Rollback::new(),
            plan: Ghost(plan),
            started: Ghost(0),
        };
        assert(plan.take(0) =~= Seq::<(A, Option<C>)>::empty());
        r
    }

    /// Hands out the next step's action, or `None` when the plan is done.
    pub fn start_next(&mut self) -> (a: Option<A>)
        requires
            old(self).well_formed(),
            !old(self).in_step(),
        ensures
            final(self).well_formed(),
            final(self).plan() == old(self).plan(),
            old(self).started() < old(self).plan().len() ==> {
                &&& a == Some(old(self).plan()[old(self).started() as int].0)
                &&& final(self).started() == old(self).started() + 1
                &&& final(self).in_step()
            },
            old(self).started() == old(self).plan().len() ==> {
                &&& a is None
                &&& final(self).started() == old(self).started()
                &&& !final(self).in_step()
            },
    {
        match self.pending.pop() {
            None => None,
            Some((action, compensation)) => {
                self.current = compensation;
                self.running = true;
                self.started = Ghost(self.started@ + 1);
                proof {
                    let plan = self.plan@;
                    assert(self.pending@.len() + self.started@ == plan.len());
                    assert(plan.take(self.completed() as int) =~= plan.take(self.started@ - 1));
                }
                Some(action)
            },
        }
    }

    /// The step handed out last has succeeded: its compensation, if any,
    /// joins the journal.
    pub fn succeeded(&mut self)
        requires
            old(self).well_formed(),
            old(self).in_step(),
        ensures
            final(self).well_formed(),
            final(self).plan() == old(self).plan(),
            final(self).started() == old(self).started(),
            !final(self).in_step(),
    {
        let ghost plan = self.plan@;
        let ghost k = self.started@;
        proof {
            assert(plan.take(k as int).drop_last() =~= plan.take(k - 1));
            assert(plan.take(k as int).last() == plan[k - 1]);
        }
        let c = self.current.take();
        match c {
            Some(c) => self.journal.register(c),
            None => {},
        }
        self.running = false;
        assert(self.journal@ == registered(plan.take(k as int)));
    }

    /// The step handed out last has failed: the compensations of every step
    /// that completed before it, the most recent first.
    pub fn failed(self) -> (undo: Vec<C>)
        requires
            self.well_formed(),
            self.in_step(),
        ensures
            undo@ == registered(self.plan().take(self.started() - 1)).reverse(),
    {
        self.journal.execute()
    }

    /// The plan ran to its end: nothing is undone.
    pub fn finish(self)
        requires
            self.well_formed(),
    {
        self.journal.disarm();
    }
}

/// The journal undoes in reverse: after registering `step` on a journal,
/// executing it runs `step` first and then the earlier steps in the order
/// the earlier journal would have run them.
pub proof fn lemma_last_registered_runs_first<T>(journal: Seq<T>, step: T)
    ensures
        journal.push(step).reverse()[0] == step,
        journal.push(step).reverse().drop_first() == journal.reverse(),
        journal.push(step).reverse().len() == journal.len() + 1,
{
    assert(journal.push(step).reverse().drop_first() =~= journal.reverse());
}

} // verus!
