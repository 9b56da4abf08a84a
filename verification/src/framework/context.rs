//! The context that activities work in: the state of the application and a
//! renderer.
use vstd::prelude::*;

use crate::event::{Event, React};

verus! {

/// The state of an application.
pub trait State: Sized + React {

}

/// A view of a context: its state.
pub trait ContextView {
    type State;

    fn state(&self) -> &Self::State;
}

/// A view of a context while updating: its state can change.
pub trait UpdateContextView: ContextView {
    fn state_mut(&mut self) -> &mut Self::State;
}

/// A view of a context while rendering: its renderer.
pub trait RenderContextView<R>: ContextView {
    fn renderer(&self) -> &R;

    fn renderer_mut(&mut self) -> &mut R;
}

/// The state of an application and the renderer that draws it.
pub struct Context<T: State, R> {
    pub state: T,
    pub renderer: R,
}

impl<T: State, R> Context<T, R> {
    pub fn new(state: T, renderer: R) -> (r: Self)
        ensures
            r.state == state,
            r.renderer == renderer,
    {
        Context { state, renderer }
    }
}

impl<T: State, R> ContextView for Context<T, R> {
    type State = T;

    fn state(&self) -> (r: &T)
        ensures
            *r == self.state,
    {
        &self.state
    }
}

impl<T: State, R> UpdateContextView for Context<T, R> {
    fn state_mut(&mut self) -> (r: &mut T)
        ensures
            *r == old(self).state,
            final(self).state == *final(r),
            final(self).renderer == old(self).renderer,
    {
        &mut self.state
    }
}

impl<T: State, R> RenderContextView<R> for Context<T, R> {
    fn renderer(&self) -> (r: &R)
        ensures
            *r == self.renderer,
    {
        &self.renderer
    }

    fn renderer_mut(&mut self) -> (r: &mut R)
        ensures
            *r == old(self).renderer,
            final(self).renderer == *final(r),
            final(self).state == old(self).state,
    {
        &mut self.renderer
    }
}

impl<T: State, R: React> React for Context<T, R> {
    /// The state, then the renderer, react to the event.
    fn react(&mut self, event: &Event) {
        self.state.react(event);
        self.renderer.react(event);
    }
}

} // verus!
