//! Activities and the stack that runs them: only the top activity updates,
//! renders and reacts; an update can push a new activity, pop the top one or
//! abort them all.
use vstd::prelude::*;
use std::marker::PhantomData;

use crate::event::{Event, React};
use crate::framework::FrameworkError;

verus! {

/// What the activity stack does after an update.
pub enum Transition<A> {
    /// Nothing.
    Keep,
    /// Suspends the top activity and pushes a new one over it.
    Push(A),
    /// Stops and pops the top activity, and resumes the one below.
    Pop,
    /// Stops and pops every activity.
    Abort,
}

impl<A> Transition<A> {
    /// Whether the transition aborts the stack.
    pub fn is_abort(&self) -> (r: bool)
        ensures
            r == (*self is Abort),
    {
        match self {
            Transition::Abort => true,
            _ => false,
        }
    }
}

/// An activity over a context `C`.
pub trait Activity<C>: React + Sized {
    fn update(&mut self, context: &mut C) -> Result<Transition<Self>, FrameworkError>;

    fn render(&mut self, context: &mut C) -> Result<(), FrameworkError>;

    fn suspend(&mut self) {
    }

    fn resume(&mut self) {
    }

    fn stop(&mut self) {
    }
}

/// A stack of activities over a context `C`.
pub struct ActivityStack<C, A: Activity<C>> {
    stack: Vec<A>,
    context: PhantomData<C>,
}

/// The activities below the top two are left as they are: a pop stops the
/// top one and resumes the one under it.
pub open spec fn kept_below<A>(before: Seq<A>, after: Seq<A>) -> bool {
    forall|i: int| 0 <= i < before.len() - 2 ==> i < after.len() && #[trigger] after[i] == before[i]
}

/// The activities under the top one are left as they are; the top one may
/// change, and more may be pushed over it.
pub open spec fn kept_under_top<A>(before: Seq<A>, after: Seq<A>) -> bool {
    forall|i: int| 0 <= i < before.len() - 1 ==> i < after.len() && #[trigger] after[i] == before[i]
}

/// What a transition that goes on leaves of the stack: the same number of
/// activities with all but the top one as they were, one more pushed over
/// the old ones with all but the old top one as they were, or one fewer
/// with the activities below the popped one and the one under it as they
/// were.
pub open spec fn transitioned<A>(before: Seq<A>, after: Seq<A>) -> bool {
    ||| kept_but_top(before, after)
    ||| after.len() == before.len() + 1 && kept_under_top(before, after)
    ||| after.len() + 1 == before.len() && kept_below(before, after)
}

/// Every activity but the top one is left as it is.
pub open spec fn kept_but_top<A>(before: Seq<A>, after: Seq<A>) -> bool {
    &&& after.len() == before.len()
    &&& kept_under_top(before, after)
}

impl<C, A: Activity<C>> ActivityStack<C, A> {
    /// The activities, the top one last.
    pub closed spec fn activities(&self) -> Seq<A> {
        self.stack@
    }

    /// A stack of one activity.
    pub fn new(activity: A) -> (r: Self)
        ensures
            r.activities() == seq![activity],
    {
        let mut stack = Vec::new();
        stack.push(activity);
        ActivityStack { stack, context: PhantomData }
    }

    /// The number of activities.
    pub fn len(&self) -> (r: usize)
        ensures
            r == self.activities().len(),
    {
        self.stack.len()
    }

    /// Updates the top activity and carries out the transition it asks for.
    /// Gives `Ok(false)` where the stack is empty or the activity aborts, the
    /// activity's error where it fails, and else `Ok(true)`.
    pub fn update(&mut self, context: &mut C) -> (r: Result<bool, FrameworkError>)
        ensures
            old(self).activities().len() == 0 ==> r == Ok::<bool, FrameworkError>(false)
                && final(self).activities() == old(self).activities(),
            r == Ok::<bool, FrameworkError>(false) ==> final(self).activities().len() == 0,
            r is Err ==> kept_but_top(old(self).activities(), final(self).activities()),
            r == Ok::<bool, FrameworkError>(true) ==> transitioned(
                old(self).activities(),
                final(self).activities(),
            ),
    {
        let n = self.stack.len();
        if n == 0 {
            return Ok(false);
        }
        let mut top = self.stack.pop().unwrap();
        let result = top.update(context);
        self.stack.push(top);
        proof {
            assert forall|i: int| 0 <= i < n - 1 implies #[trigger] self.stack@[i] == old(self).stack@[i] by {}
        }
        match result {
            Ok(transition) => {
                let signal = self.transition(transition);
                Ok(signal)
            },
            Err(error) => Err(error),
        }
    }

    /// Carries out a transition. Gives whether the stack goes on: `false`
    /// only for an abort.
    pub fn transition(&mut self, transition: Transition<A>) -> (r: bool)
        ensures
            r == !(transition is Abort),
            transition is Keep ==> final(self).activities() == old(self).activities(),
            transition matches Transition::Push(activity) ==> final(self).activities().len()
                == old(self).activities().len() + 1 && final(self).activities().last() == activity
                && kept_under_top(old(self).activities(), final(self).activities()),
            transition is Pop ==> final(self).activities().len() == (if old(self).activities().len() == 0 {
                0
            } else {
                old(self).activities().len() - 1
            }) && kept_below(old(self).activities(), final(self).activities()),
            transition is Abort ==> final(self).activities().len() == 0,
    {
        let signal = !transition.is_abort();
        match transition {
            Transition::Push(activity) => {
                self.push(activity);
            },
            Transition::Pop => {
                self.pop();
            },
            Transition::Abort => {
                self.abort();
            },
            Transition::Keep => {},
        }
        signal
    }

    /// Renders the top activity, if any.
    pub fn render(&mut self, context: &mut C) -> (r: Result<(), FrameworkError>)
        ensures
            old(self).activities().len() == 0 ==> r == Ok::<(), FrameworkError>(()),
            kept_but_top(old(self).activities(), final(self).activities()),
    {
        let n = self.stack.len();
        if n == 0 {
            return Ok(());
        }
        let mut top = self.stack.pop().unwrap();
        let result = top.render(context);
        self.stack.push(top);
        result
    }

    /// Suspends the top activity, if any, and pushes `activity` over it.
    pub fn push(&mut self, activity: A)
        ensures
            final(self).activities().len() == old(self).activities().len() + 1,
            final(self).activities().last() == activity,
            kept_under_top(old(self).activities(), final(self).activities()),
    {
        let n = self.stack.len();
        if n > 0 {
            let mut top = self.stack.pop().unwrap();
            top.suspend();
            self.stack.push(top);
        }
        self.stack.push(activity);
    }

    /// Stops and pops the top activity, if any, and resumes the one below.
    /// Gives whether there was an activity to pop.
    pub fn pop(&mut self) -> (r: bool)
        ensures
            r == (old(self).activities().len() > 0),
            final(self).activities().len() == (if r {
                old(self).activities().len() - 1
            } else {
                0
            }),
            forall|i: int|
                0 <= i < old(self).activities().len() - 2 ==> #[trigger] final(self).activities()[i] == old(self).activities()[i],
    {
        match self.stack.pop() {
            Some(activity) => {
                let mut activity = activity;
                activity.stop();
                let n = self.stack.len();
                if n > 0 {
                    let mut top = self.stack.pop().unwrap();
                    top.resume();
                    self.stack.push(top);
                }
                true
            },
            None => false,
        }
    }

    /// Stops and pops every activity, the top one first.
    pub fn abort(&mut self)
        ensures
            final(self).activities().len() == 0,
    {
        while self.pop()
            invariant_except_break
                true,
            ensures
                self.stack@.len() == 0,
            decreases self.stack@.len(),
        {
        }
    }
}

impl<C, A: Activity<C>> React for ActivityStack<C, A> {
    /// The top activity, if any, reacts to the event.
    fn react(&mut self, event: &Event)
        ensures
            kept_but_top(old(self).activities(), final(self).activities()),
    {
        let n = self.stack.len();
        if n > 0 {
            let mut top = self.stack.pop().unwrap();
            top.react(event);
            self.stack.push(top);
        }
    }
}

} // verus!
