//! The harness of an application: it holds the context, and runs the stack of
//! activities one frame at a time, on the events that the window gave.
use vstd::prelude::*;

use crate::event::{Event, React};
use crate::framework::activity::{kept_but_top, transitioned, Activity, ActivityStack};
use crate::framework::context::{Context, State};
use crate::framework::FrameworkError;

verus! {

/// Whether the main loop goes on after a frame, from what the frame saw:
/// whether a `Closed` event came, what the stack's update gave (`None` where
/// it did not update) and what its render gave (`None` where it did not
/// render). The loop goes on only where no `Closed` event came, the update
/// asked to go on, and the render succeeded.
pub fn frame_outcome(
    closed: bool,
    update: Option<Result<bool, FrameworkError>>,
    render: Option<Result<(), FrameworkError>>,
) -> (r: bool)
    ensures
        r == (!closed && update == Some(Ok::<bool, FrameworkError>(true)) && render == Some(
            Ok::<(), FrameworkError>(()),
        )),
{
    if closed {
        return false;
    }
    match update {
        Some(Ok(true)) => {},
        _ => {
            return false;
        },
    }
    match render {
        Some(Ok(unit)) => {
            proof {
                assert(unit == ());
            }
            true
        },
        _ => false,
    }
}

/// What one frame of the main loop saw.
#[derive(Clone, Copy, Debug)]
pub struct FrameReport {
    /// Whether a `Closed` event came.
    pub closed: bool,
    /// What the stack's update gave, where it updated.
    pub update: Option<Result<bool, FrameworkError>>,
    /// What the stack's render gave, where it rendered.
    pub render: Option<Result<(), FrameworkError>>,
}

impl FrameReport {
    /// Whether the main loop goes on after this frame.
    pub fn goes_on(&self) -> (r: bool)
        ensures
            r == (!self.closed && self.update == Some(Ok::<bool, FrameworkError>(true))
                && self.render == Some(Ok::<(), FrameworkError>(()))),
    {
        frame_outcome(self.closed, self.update, self.render)
    }
}

/// Holds the context of an application and runs its activities.
pub struct Harness<T: State, R> {
    pub context: Context<T, R>,
}

impl<T: State, R: React> Harness<T, R> {
    pub fn new(context: Context<T, R>) -> (r: Self)
        ensures
            r.context == context,
    {
        Harness { context }
    }

    /// One frame of the main loop: the context and the stack react to each
    /// event in turn, then the stack updates and renders. A `Closed` event
    /// ends the frame at once: the events after it are left alone and the
    /// stack neither updates nor renders. Else the stack updates, and renders
    /// only where the update asked to go on. The report says what came of
    /// each step; the loop goes on where `goes_on` says so.
    pub fn frame<A: Activity<Context<T, R>>>(
        &mut self,
        stack: &mut ActivityStack<Context<T, R>, A>,
        events: &Vec<Event>,
    ) -> (r: FrameReport)
        ensures
            r.closed == events@.contains(Event::Closed),
            r.closed ==> r.update is None && r.render is None && kept_but_top(
                old(stack).activities(),
                final(stack).activities(),
            ),
            !r.closed ==> r.update is Some,
            !r.closed && old(stack).activities().len() == 0 ==> r.update == Some(
                Ok::<bool, FrameworkError>(false),
            ),
            r.update == Some(Ok::<bool, FrameworkError>(false)) ==> final(stack).activities().len()
                == 0,
            (r.update matches Some(Err(_))) ==> kept_but_top(
                old(stack).activities(),
                final(stack).activities(),
            ),
            r.update == Some(Ok::<bool, FrameworkError>(true)) ==> transitioned(
                old(stack).activities(),
                final(stack).activities(),
            ),
            r.render is Some <==> r.update == Some(Ok::<bool, FrameworkError>(true)),
    {
        let mut i: usize = 0;
        let mut closed = false;
        while i < events.len() && !closed
            invariant
                i <= events.len(),
                closed ==> events@.contains(Event::Closed),
                !closed ==> forall|j: int| 0 <= j < i ==> events@[j] != Event::Closed,
                kept_but_top(old(stack).activities(), stack.activities()),
            decreases events.len() - i, (if closed { 0int } else { 1int }),
        {
            let event = &events[i];
            if let Event::Closed = event {
                closed = true;
                proof {
                    assert(events@[i as int] == Event::Closed);
                }
            } else {
                self.context.react(event);
                stack.react(event);
                i = i + 1;
            }
        }
        if closed {
            return FrameReport { closed: true, update: None, render: None };
        }
        proof {
            assert(!events@.contains(Event::Closed));
        }
        let update = stack.update(&mut self.context);
        let render = match update {
            Ok(true) => Some(stack.render(&mut self.context)),
            _ => None,
        };
        FrameReport { closed: false, update: Some(update), render }
    }
}

} // verus!
