//! The trampoline: the driver that repeatedly resumes a suspended
//! computation, dispatches performed effects to the installed handlers, and
//! never grows the native call stack with the number of suspensions.

use vstd::prelude::*;
use vstd::pervasive::unreached;
use crate::cell::Cell;
use crate::effect::{Comp, Effect, Event, EventV, Handler, Reaction, comp_size, events_view};
use crate::value::{Expr, SVal, Val, dup_val, eval, eval_spec, opt_val_view, sval_type,
    val_type, vals_view};

verus! {

/// Why a run failed. Continuation-usage errors (resuming twice, or neither
/// resuming nor aborting) cannot arise: a handler's reaction is a value that
/// resumes exactly once or aborts exactly once by construction.
#[derive(Clone, Copy, PartialEq, Eq, Structural, Debug)]
pub enum RunError {
    /// An effect with the given tag reached the driver with no matching
    /// handler installed.
    UnhandledEffect(u64),
    /// A handler answered an effect with the given tag with a value that is
    /// not of the effect's declared output type.
    TypeMismatch(u64),
    /// An expression was ill-formed where it was evaluated: an out-of-range
    /// environment slot, an ill-typed operand, or an overflowing operation.
    ExprError,
}

/// How a run ended: the computation completed with a final value, or a
/// handler aborted it with an immediate value.
#[derive(Debug, PartialEq, Eq)]
pub enum Outcome {
    Done(Val),
    Aborted(Val),
}

/// The model of an [`Outcome`], or of a failure.
pub enum Out {
    Done(SVal),
    Aborted(SVal),
    Failed(RunError),
}

/// The model of a whole run: how it ended, and the resumptions the driver
/// performed, in order.
pub struct Sem {
    pub out: Out,
    pub trace: Seq<EventV>,
}

/// The index of the innermost installed handler for `tag`. The chain grows
/// at the end: the handler at the highest index was installed innermost and
/// is consulted first.
pub open spec fn dispatch(hs: Seq<Handler>, tag: u64) -> Option<int>
    decreases hs.len(),
{
    if hs.len() == 0 {
        None
    } else if hs.last().tag == tag {
        Some(hs.len() - 1)
    } else {
        dispatch(hs.drop_last(), tag)
    }
}

/// The semantics of driving a computation: what the run ends with and which
/// resumptions the driver performs, given the environment of values already
/// resumed and the installed handler chain. On failure the trace holds the
/// resumptions performed before the failure.
pub open spec fn sem(c: Comp, env: Seq<SVal>, hs: Seq<Handler>) -> Sem
    decreases c,
{
    match c {
        Comp::Ret(e) => match eval_spec(e, env) {
            Some(v) => Sem { out: Out::Done(v), trace: Seq::empty() },
            None => Sem { out: Out::Failed(RunError::ExprError), trace: Seq::empty() },
        },
        Comp::Emit(e, rest) => match eval_spec(e, env) {
            Some(v) => {
                let s = sem(*rest, env.push(v), hs);
                Sem { out: s.out, trace: seq![EventV::Plain(v)] + s.trace }
            },
            None => Sem { out: Out::Failed(RunError::ExprError), trace: Seq::empty() },
        },
        Comp::Perform(eff, rest) => match eval_spec(eff.payload, env) {
            Some(p) => match dispatch(hs, eff.tag) {
                Some(i) => match hs[i].reaction {
                    Reaction::Resume(rx) => match eval_spec(rx, seq![p]) {
                        Some(ans) => if sval_type(ans) == eff.out_type {
                            let s = sem(*rest, env.push(ans), hs);
                            Sem {
                                out: s.out,
                                trace: seq![EventV::Effect(eff.tag, p)] + s.trace,
                            }
                        } else {
                            Sem {
                                out: Out::Failed(RunError::TypeMismatch(eff.tag)),
                                trace: Seq::empty(),
                            }
                        },
                        None => Sem { out: Out::Failed(RunError::ExprError), trace: Seq::empty() },
                    },
                    Reaction::Abort(ax) => match eval_spec(ax, seq![p]) {
                        Some(v) => Sem {
                            out: Out::Aborted(v),
                            trace: seq![EventV::EffectAborted(eff.tag, p)],
                        },
                        None => Sem { out: Out::Failed(RunError::ExprError), trace: Seq::empty() },
                    },
                },
                None => Sem {
                    out: Out::Failed(RunError::UnhandledEffect(eff.tag)),
                    trace: Seq::empty(),
                },
            },
            None => Sem { out: Out::Failed(RunError::ExprError), trace: Seq::empty() },
        },
        Comp::Delegate(inner, rest) => {
            let si = sem(*inner, Seq::empty(), hs);
            match si.out {
                Out::Done(v) => {
                    let s = sem(*rest, env.push(v), hs);
                    Sem { out: s.out, trace: si.trace + seq![EventV::Delegated(v)] + s.trace }
                },
                _ => si,
            }
        },
        Comp::Handle(h, inner, rest) => {
            let si = sem(*inner, Seq::empty(), hs.push(h));
            match si.out {
                Out::Done(v) => match eval_spec(h.on_return, seq![v]) {
                    Some(pv) => {
                        let s = sem(*rest, env.push(pv), hs);
                        Sem { out: s.out, trace: si.trace + s.trace }
                    },
                    None => Sem { out: Out::Failed(RunError::ExprError), trace: si.trace },
                },
                _ => si,
            }
        },
    }
}

/// Whether a driver result agrees with a modeled outcome.
pub open spec fn out_matches(r: Result<Outcome, RunError>, o: Out) -> bool {
    match r {
        Ok(Outcome::Done(v)) => o == Out::Done(v@),
        Ok(Outcome::Aborted(v)) => o == Out::Aborted(v@),
        Err(e) => o == Out::Failed(e),
    }
}

/// Finds the innermost installed handler for `tag`.
fn find_handler(handlers: &Vec<Handler>, tag: u64) -> (r: Option<usize>)
    ensures
        match r {
            Some(i) => i < handlers@.len() && dispatch(handlers@, tag) == Some(i as int),
            None => dispatch(handlers@, tag) is None,
        },
{
    let mut j: usize = handlers.len();
    proof {
        assert(handlers@.take(j as int) =~= handlers@);
    }
    while j > 0
        invariant
            j <= handlers@.len(),
            dispatch(handlers@, tag) == dispatch(handlers@.take(j as int), tag),
        decreases j,
    {
        if handlers[j - 1].tag == tag {
            proof {
                let pre = handlers@.take(j as int);
                assert(pre.last() == handlers@[j - 1]);
            }
            return Some(j - 1);
        }
        proof {
            let pre = handlers@.take(j as int);
            assert(pre.last() == handlers@[j - 1]);
            assert(pre.drop_last() =~= handlers@.take(j - 1));
        }
        j = j - 1;
    }
    proof {
        assert(handlers@.take(0) =~= Seq::<Handler>::empty());
    }
    None
}

/// Drives a computation until it completes, a handler aborts it, or it
/// fails. Plain yields and performed effects are resumed in place by an
/// explicit loop, so the native call stack does not grow with the number of
/// suspensions; only delegation and handler installation re-enter the driver,
/// so call depth grows only with the program's nesting structure. Before
/// every resume the driver writes the cell and the resumed computation reads
/// and clears it; each resumption is appended to `trace`.
pub fn run_generator(
    comp: Comp,
    env: Vec<Val>,
    cell: &mut Cell,
    handlers: &mut Vec<Handler>,
    trace: &mut Vec<Event>,
) -> (r: Result<Outcome, RunError>)
    requires
        old(cell)@ is None,
    ensures
        final(cell)@ is None,
        final(handlers)@ == old(handlers)@,
        final(trace)@.len() >= old(trace)@.len(),
        final(trace)@.take(old(trace)@.len() as int) == old(trace)@,
        ({
            let s = sem(comp, vals_view(env@), old(handlers)@);
            events_view(final(trace)@.skip(old(trace)@.len() as int)) == s.trace && out_matches(
                r,
                s.out,
            )
        }),
    decreases comp_size(comp),
{
    let ghost c0 = comp;
    let ghost env0 = vals_view(env@);
    let ghost hs0 = handlers@;
    let ghost t0 = trace@;
    let mut cur = comp;
    let mut cenv = env;
    loop
        invariant
            c0 == comp,
            env0 == vals_view(env@),
            hs0 == old(handlers)@,
            t0 == old(trace)@,
            cell@ is None,
            handlers@ == hs0,
            trace@.len() >= t0.len(),
            trace@.take(t0.len() as int) == t0,
            comp_size(cur) <= comp_size(c0),
            sem(c0, env0, hs0).out == sem(cur, vals_view(cenv@), hs0).out,
            sem(c0, env0, hs0).trace == events_view(trace@.skip(t0.len() as int)) + sem(
                cur,
                vals_view(cenv@),
                hs0,
            ).trace,
        decreases comp_size(cur),
    {
        let ghost cur_g = cur;
        let ghost envv = vals_view(cenv@);
        let ghost pushed = events_view(trace@.skip(t0.len() as int));
        match cur {
            Comp::Ret(e) => {
                match eval(&e, &cenv) {
                    Some(v) => {
                        proof {
                            assert(pushed + Seq::<EventV>::empty() =~= pushed);
                        }
                        return Ok(Outcome::Done(v));
                    },
                    None => {
                        proof {
                            assert(pushed + Seq::<EventV>::empty() =~= pushed);
                        }
                        return Err(RunError::ExprError);
                    },
                }
            },
            Comp::Emit(e, rest) => {
                proof {
                    assert(cur_g == Comp::Emit(e, rest));
                }
                match eval(&e, &cenv) {
                    Some(v) => {
                        let ghost vv = v@;
                        let ghost s_rest = sem(*rest, envv.push(vv), hs0);
                        trace.push(Event::Plain(dup_val(&v)));
                        cell.write(v);
                        let rv = match cell.read_and_clear() {
                            Ok(x) => x,
                            Err(_) => unreached(),
                        };
                        cenv.push(rv);
                        proof {
                            assert(vals_view(cenv@) =~= envv.push(vv));
                            assert(trace@.take(t0.len() as int) =~= t0);
                            assert(events_view(trace@.skip(t0.len() as int)) =~= pushed.push(
                                EventV::Plain(vv),
                            ));
                            assert(sem(cur_g, envv, hs0).trace =~= seq![EventV::Plain(vv)]
                                + s_rest.trace);
                            assert(pushed + (seq![EventV::Plain(vv)] + s_rest.trace) =~= pushed.push(
                                EventV::Plain(vv),
                            ) + s_rest.trace);
                        }
                        cur = *rest;
                    },
                    None => {
                        proof {
                            assert(pushed + Seq::<EventV>::empty() =~= pushed);
                        }
                        return Err(RunError::ExprError);
                    },
                }
            },
            Comp::Perform(eff, rest) => {
                proof {
                    assert(cur_g == Comp::Perform(eff, rest));
                }
                match eval(&eff.payload, &cenv) {
                    Some(p) => {
                        let ghost pv = p@;
                        match find_handler(handlers, eff.tag) {
                            Some(i) => {
                                let mut henv: Vec<Val> = Vec::new();
                                henv.push(dup_val(&p));
                                proof {
                                    assert(vals_view(henv@) =~= seq![pv]);
                                }
                                match &handlers[i].reaction {
                                    Reaction::Resume(rx) => {
                                        match eval(rx, &henv) {
                                            Some(ans) => {
                                                if val_type(&ans) == eff.out_type {
                                                    let ghost av = ans@;
                                                    let ghost s_rest = sem(
                                                        *rest,
                                                        envv.push(av),
                                                        hs0,
                                                    );
                                                    trace.push(Event::Effect(eff.tag, p));
                                                    cell.write(ans);
                                                    let rv = match cell.read_and_clear() {
                                                        Ok(x) => x,
                                                        Err(_) => unreached(),
                                                    };
                                                    cenv.push(rv);
                                                    proof {
                                                        assert(vals_view(cenv@) =~= envv.push(av));
                                                        assert(trace@.take(t0.len() as int) =~= t0);
                                                        assert(events_view(
                                                            trace@.skip(t0.len() as int),
                                                        ) =~= pushed.push(
                                                            EventV::Effect(eff.tag, pv),
                                                        ));
                                                        assert(pushed + (seq![
                                                            EventV::Effect(eff.tag, pv),
                                                        ] + s_rest.trace) =~= pushed.push(
                                                            EventV::Effect(eff.tag, pv),
                                                        ) + s_rest.trace);
                                                    }
                                                    cur = *rest;
                                                } else {
                                                    proof {
                                                        assert(pushed + Seq::<EventV>::empty()
                                                            =~= pushed);
                                                    }
                                                    return Err(RunError::TypeMismatch(eff.tag));
                                                }
                                            },
                                            None => {
                                                proof {
                                                    assert(pushed + Seq::<EventV>::empty()
                                                        =~= pushed);
                                                }
                                                return Err(RunError::ExprError);
                                            },
                                        }
                                    },
                                    Reaction::Abort(ax) => {
                                        match eval(ax, &henv) {
                                            Some(v) => {
                                                trace.push(Event::EffectAborted(eff.tag, p));
                                                proof {
                                                    assert(trace@.take(t0.len() as int) =~= t0);
                                                    assert(events_view(
                                                        trace@.skip(t0.len() as int),
                                                    ) =~= pushed.push(
                                                        EventV::EffectAborted(eff.tag, pv),
                                                    ));
                                                    assert(pushed + seq![
                                                        EventV::EffectAborted(eff.tag, pv),
                                                    ] =~= pushed.push(
                                                        EventV::EffectAborted(eff.tag, pv),
                                                    ));
                                                }
                                                return Ok(Outcome::Aborted(v));
                                            },
                                            None => {
                                                proof {
                                                    assert(pushed + Seq::<EventV>::empty()
                                                        =~= pushed);
                                                }
                                                return Err(RunError::ExprError);
                                            },
                                        }
                                    },
                                }
                            },
                            None => {
                                proof {
                                    assert(pushed + Seq::<EventV>::empty() =~= pushed);
                                }
                                return Err(RunError::UnhandledEffect(eff.tag));
                            },
                        }
                    },
                    None => {
                        proof {
                            assert(pushed + Seq::<EventV>::empty() =~= pushed);
                        }
                        return Err(RunError::ExprError);
                    },
                }
            },
            Comp::Delegate(inner, rest) => {
                proof {
                    assert(cur_g == Comp::Delegate(inner, rest));
                    assert(comp_size(*inner) < comp_size(c0));
                }
                let ghost s_inner = sem(*inner, Seq::<SVal>::empty(), hs0);
                let mut inner_cell = Cell::new();
                let inner_env: Vec<Val> = Vec::new();
                proof {
                    assert(vals_view(inner_env@) =~= Seq::<SVal>::empty());
                }
                let ghost t_pre = trace@;
                let r_inner = run_generator(*inner, inner_env, &mut inner_cell, handlers, trace);
                proof {
                    assert(trace@.take(t0.len() as int) =~= t0) by {
                        assert(t_pre.take(t0.len() as int) == t0);
                        assert(trace@.take(t_pre.len() as int) == t_pre);
                        assert(trace@.take(t0.len() as int) =~= t_pre.take(t0.len() as int));
                    }
                    assert(events_view(trace@.skip(t0.len() as int)) =~= pushed + s_inner.trace)
                        by {
                        assert(events_view(trace@.skip(t_pre.len() as int)) == s_inner.trace);
                        assert(trace@.skip(t0.len() as int) =~= t_pre.skip(t0.len() as int)
                            + trace@.skip(t_pre.len() as int));
                        assert(events_view(t_pre.skip(t0.len() as int) + trace@.skip(
                            t_pre.len() as int,
                        )) =~= pushed + s_inner.trace);
                    }
                }
                match r_inner {
                    Ok(Outcome::Done(v)) => {
                        let ghost vv = v@;
                        let ghost s_rest = sem(*rest, envv.push(vv), hs0);
                        trace.push(Event::Delegated(dup_val(&v)));
                        cell.write(v);
                        let rv = match cell.read_and_clear() {
                            Ok(x) => x,
                            Err(_) => unreached(),
                        };
                        cenv.push(rv);
                        proof {
                            assert(vals_view(cenv@) =~= envv.push(vv));
                            assert(trace@.take(t0.len() as int) =~= t0);
                            assert(events_view(trace@.skip(t0.len() as int)) =~= (pushed
                                + s_inner.trace).push(EventV::Delegated(vv)));
                            assert(sem(cur_g, envv, hs0).trace == s_inner.trace + seq![
                                EventV::Delegated(vv),
                            ] + s_rest.trace);
                            assert(pushed + (s_inner.trace + seq![EventV::Delegated(vv)]
                                + s_rest.trace) =~= (pushed + s_inner.trace).push(
                                EventV::Delegated(vv),
                            ) + s_rest.trace);
                        }
                        cur = *rest;
                    },
                    Ok(Outcome::Aborted(v)) => {
                        proof {
                            assert(sem(cur_g, envv, hs0) == s_inner);
                        }
                        return Ok(Outcome::Aborted(v));
                    },
                    Err(e) => {
                        proof {
                            assert(sem(cur_g, envv, hs0) == s_inner);
                        }
                        return Err(e);
                    },
                }
            },
            Comp::Handle(h, inner, rest) => {
                proof {
                    assert(cur_g == Comp::Handle(h, inner, rest));
                    assert(comp_size(*inner) < comp_size(c0));
                }
                let ghost h_g = h;
                let ghost s_inner = sem(*inner, Seq::<SVal>::empty(), hs0.push(h_g));
                handlers.push(h);
                let inner_env: Vec<Val> = Vec::new();
                proof {
                    assert(vals_view(inner_env@) =~= Seq::<SVal>::empty());
                }
                let ghost t_pre = trace@;
                let r_inner = run_generator(*inner, inner_env, cell, handlers, trace);
                let h_back = match handlers.pop() {
                    Some(x) => x,
                    None => unreached(),
                };
                proof {
                    assert(h_back == h_g);
                    assert(handlers@ =~= hs0);
                    assert(trace@.take(t0.len() as int) =~= t0) by {
                        assert(t_pre.take(t0.len() as int) == t0);
                        assert(trace@.take(t_pre.len() as int) == t_pre);
                        assert(trace@.take(t0.len() as int) =~= t_pre.take(t0.len() as int));
                    }
                    assert(events_view(trace@.skip(t0.len() as int)) =~= pushed + s_inner.trace)
                        by {
                        assert(events_view(trace@.skip(t_pre.len() as int)) == s_inner.trace);
                        assert(trace@.skip(t0.len() as int) =~= t_pre.skip(t0.len() as int)
                            + trace@.skip(t_pre.len() as int));
                        assert(events_view(t_pre.skip(t0.len() as int) + trace@.skip(
                            t_pre.len() as int,
                        )) =~= pushed + s_inner.trace);
                    }
                }
                match r_inner {
                    Ok(Outcome::Done(v)) => {
                        let ghost vv = v@;
                        let mut penv: Vec<Val> = Vec::new();
                        penv.push(v);
                        proof {
                            assert(vals_view(penv@) =~= seq![vv]);
                        }
                        match eval(&h_back.on_return, &penv) {
                            Some(pval) => {
                                let ghost pvv = pval@;
                                let ghost s_rest = sem(*rest, envv.push(pvv), hs0);
                                cenv.push(pval);
                                proof {
                                    assert(vals_view(cenv@) =~= envv.push(pvv));
                                    assert(sem(cur_g, envv, hs0).trace == s_inner.trace
                                        + s_rest.trace);
                                    assert(pushed + (s_inner.trace + s_rest.trace) =~= (pushed
                                        + s_inner.trace) + s_rest.trace);
                                }
                                cur = *rest;
                            },
                            None => {
                                return Err(RunError::ExprError);
                            },
                        }
                    },
                    Ok(Outcome::Aborted(v)) => {
                        proof {
                            assert(sem(cur_g, envv, hs0) == s_inner);
                        }
                        return Ok(Outcome::Aborted(v));
                    },
                    Err(e) => {
                        proof {
                            assert(sem(cur_g, envv, hs0) == s_inner);
                        }
                        return Err(e);
                    },
                }
            },
        }
    }
}

/// A completed run: its outcome and the resumptions the driver performed,
/// in order.
#[derive(Debug)]
pub struct RunReport {
    pub outcome: Outcome,
    pub trace: Vec<Event>,
}

/// Whether a report agrees with a modeled run that did not fail.
pub open spec fn report_matches(rep: RunReport, s: Sem) -> bool {
    out_matches(Ok(rep.outcome), s.out) && events_view(rep.trace@) == s.trace
}

/// Launches a computation under a pre-installed handler chain (innermost
/// last): packages it with a fresh cell and an empty environment and drives
/// it to completion.
pub fn start(comp: Comp, handlers: Vec<Handler>) -> (r: Result<RunReport, RunError>)
    ensures
        ({
            let s = sem(comp, Seq::<SVal>::empty(), handlers@);
            match r {
                Ok(rep) => report_matches(rep, s),
                Err(e) => s.out == Out::Failed(e),
            }
        }),
{
    let mut cell = Cell::new();
    let mut handlers = handlers;
    let mut trace: Vec<Event> = Vec::new();
    let env: Vec<Val> = Vec::new();
    proof {
        assert(vals_view(env@) =~= Seq::<SVal>::empty());
    }
    let out = run_generator(comp, env, &mut cell, &mut handlers, &mut trace);
    proof {
        assert(trace@.skip(0) =~= trace@);
    }
    match out {
        Ok(outcome) => Ok(RunReport { outcome, trace }),
        Err(e) => Err(e),
    }
}

/// Drives a fully handled computation to completion: the only entry point a
/// user needs. An effect that no installed handler answers fails the run
/// with [`RunError::UnhandledEffect`]; the run never silently drops a result.
pub fn run(comp: Comp) -> (r: Result<RunReport, RunError>)
    ensures
        ({
            let s = sem(comp, Seq::<SVal>::empty(), Seq::<Handler>::empty());
            match r {
                Ok(rep) => report_matches(rep, s),
                Err(e) => s.out == Out::Failed(e),
            }
        }),
{
    start(comp, Vec::new())
}

/// Wraps a computation in a handler: the composition surface. The handled
/// computation's final value, converted by the handler's pure case, becomes
/// the wrapper's final value.
pub fn handle(h: Handler, comp: Comp) -> (r: Comp)
    ensures
        r matches Comp::Handle(h2, inner, rest) && h2 == h && *inner == comp && *rest
            == Comp::Ret(Expr::Var(0)),
{
    Comp::Handle(h, Box::new(comp), Box::new(Comp::Ret(Expr::Var(0))))
}

/// Suspends with an effect and a continuation: when a handler answers with a
/// value of the effect's declared output type, the rest of the computation is
/// resumed with it as its next environment slot.
pub fn perform(eff: Effect, rest: Comp) -> (r: Comp)
    ensures
        r matches Comp::Perform(e2, rest2) && e2 == eff && *rest2 == rest,
{
    Comp::Perform(eff, Box::new(rest))
}

/// Delegates to an inner computation: every effect the inner computation
/// performs surfaces through the outer computation's handler chain, and its
/// final value resumes the rest of the outer computation.
pub fn perform_from(inner: Comp, rest: Comp) -> (r: Comp)
    ensures
        r matches Comp::Delegate(inner2, rest2) && *inner2 == inner && *rest2 == rest,
{
    Comp::Delegate(Box::new(inner), Box::new(rest))
}

} // verus!
