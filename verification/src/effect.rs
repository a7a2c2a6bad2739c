//! Effects, handlers, and the suspension protocol: the vocabulary a
//! computation uses when it suspends, written out as explicit data.

use vstd::prelude::*;
use crate::value::{Expr, SVal, Val, ValType};

verus! {

/// A typed effect: a nominal tag, the output type the continuation must be
/// resumed with (fixed at declaration time), and a payload expression
/// evaluated over the performing computation's environment.
pub struct Effect {
    pub tag: u64,
    pub out_type: ValType,
    pub payload: Expr,
}

/// What a handler does with an intercepted effect.
pub enum Reaction {
    /// Resume the continuation with the expression's value; the handler
    /// expression sees the effect payload as slot 0.
    Resume(Expr),
    /// Discard the continuation and complete the whole run with the
    /// expression's value; the expression sees the effect payload as slot 0.
    Abort(Expr),
}

/// An installed interceptor for one effect type. Effects of other types pass
/// upward to an enclosing handler unchanged.
pub struct Handler {
    /// The effect tag this handler intercepts.
    pub tag: u64,
    /// Converts the wrapped computation's final value into the outer
    /// representation (the pure case); sees that value as slot 0.
    pub on_return: Expr,
    /// The effect case.
    pub reaction: Reaction,
}

/// A suspendable computation. Each suspension point carries the rest of the
/// computation; the value a suspension is resumed with is appended to the
/// environment, where expressions of the rest can read it.
pub enum Comp {
    /// Complete with the expression's value.
    Ret(Expr),
    /// Yield a plain value; the driver feeds it straight back, so the rest
    /// sees it as the next environment slot.
    Emit(Expr, Box<Comp>),
    /// Perform an effect: suspend, bundling the effect with the continuation
    /// (the rest of this computation); a handler answers, and the rest is
    /// resumed with the answer.
    Perform(Effect, Box<Comp>),
    /// Delegate to an inner computation: drive it to completion through this
    /// computation's own handler chain, then resume the rest with its final
    /// value.
    Delegate(Box<Comp>, Box<Comp>),
    /// Install a handler around an inner computation, convert its final value
    /// through the handler's pure case, then continue with the rest.
    Handle(Handler, Box<Comp>, Box<Comp>),
}

/// The structural size of a computation: the trampoline's termination
/// measure.
pub open spec fn comp_size(c: Comp) -> nat
    decreases c,
{
    match c {
        Comp::Ret(_) => 1,
        Comp::Emit(_, rest) => 1 + comp_size(*rest),
        Comp::Perform(_, rest) => 1 + comp_size(*rest),
        Comp::Delegate(inner, rest) => 1 + comp_size(*inner) + comp_size(*rest),
        Comp::Handle(_, inner, rest) => 1 + comp_size(*inner) + comp_size(*rest),
    }
}

/// One resumption performed by the driver, as recorded in a run's trace.
#[derive(Debug, PartialEq, Eq)]
pub enum Event {
    /// A plain yield was fed back into the computation.
    Plain(Val),
    /// An effect with the given tag and payload was intercepted by a handler
    /// that resumed the continuation.
    Effect(u64, Val),
    /// An effect with the given tag and payload was intercepted by a handler
    /// that aborted instead of resuming.
    EffectAborted(u64, Val),
    /// A delegated inner computation completed with the given value, resuming
    /// the outer computation.
    Delegated(Val),
}

/// The mathematical model of an [`Event`].
pub enum EventV {
    Plain(SVal),
    Effect(u64, SVal),
    EffectAborted(u64, SVal),
    Delegated(SVal),
}

impl View for Event {
    type V = EventV;

    open spec fn view(&self) -> EventV {
        match self {
            Event::Plain(v) => EventV::Plain(v@),
            Event::Effect(t, v) => EventV::Effect(*t, v@),
            Event::EffectAborted(t, v) => EventV::EffectAborted(*t, v@),
            Event::Delegated(v) => EventV::Delegated(v@),
        }
    }
}

/// The view of a recorded trace.
pub open spec fn events_view(s: Seq<Event>) -> Seq<EventV> {
    s.map_values(|e: Event| e@)
}

} // verus!
