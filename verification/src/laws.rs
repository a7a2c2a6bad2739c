//! The laws of the runtime, proved once and for all over the semantics that
//! every driver contract is stated against.

use vstd::prelude::*;
use crate::effect::{Comp, EventV, Handler, Reaction};
use crate::runtime::{Out, RunError, Sem, dispatch, sem};
use crate::value::{SVal, eval_spec, sval_type};

verus! {

/// Whether a computation contains no `perform` at all.
pub open spec fn perform_free(c: Comp) -> bool
    decreases c,
{
    match c {
        Comp::Ret(_) => true,
        Comp::Emit(_, rest) => perform_free(*rest),
        Comp::Perform(_, _) => false,
        Comp::Delegate(inner, rest) => perform_free(*inner) && perform_free(*rest),
        Comp::Handle(_, inner, rest) => perform_free(*inner) && perform_free(*rest),
    }
}

/// What a computation means as ordinary, non-suspending code: each yielded
/// value becomes a plain binding, each delegation an ordinary call, each
/// handler's pure case an ordinary conversion.
pub open spec fn pure_eval(c: Comp, env: Seq<SVal>) -> Option<SVal>
    decreases c,
{
    match c {
        Comp::Ret(e) => eval_spec(e, env),
        Comp::Emit(e, rest) => match eval_spec(e, env) {
            Some(v) => pure_eval(*rest, env.push(v)),
            None => None,
        },
        Comp::Perform(_, _) => None,
        Comp::Delegate(inner, rest) => match pure_eval(*inner, Seq::empty()) {
            Some(v) => pure_eval(*rest, env.push(v)),
            None => None,
        },
        Comp::Handle(h, inner, rest) => match pure_eval(*inner, Seq::empty()) {
            Some(v) => match eval_spec(h.on_return, seq![v]) {
                Some(pv) => pure_eval(*rest, env.push(pv)),
                None => None,
            },
            None => None,
        },
    }
}

/// Sequential identity: a computation with no `perform`, driven by the
/// trampoline, completes with exactly the value it denotes as ordinary
/// non-suspending code, under any handler chain.
pub proof fn lemma_sequential_identity(c: Comp, env: Seq<SVal>, hs: Seq<Handler>)
    requires
        perform_free(c),
    ensures
        pure_eval(c, env) matches Some(v) ==> sem(c, env, hs).out == Out::Done(v),
    decreases c,
{
    match c {
        Comp::Ret(_) => {},
        Comp::Emit(e, rest) => {
            if let Some(v) = eval_spec(e, env) {
                lemma_sequential_identity(*rest, env.push(v), hs);
            }
        },
        Comp::Perform(_, _) => {},
        Comp::Delegate(inner, rest) => {
            lemma_sequential_identity(*inner, Seq::empty(), hs);
            if let Some(v) = pure_eval(*inner, Seq::empty()) {
                lemma_sequential_identity(*rest, env.push(v), hs);
            }
        },
        Comp::Handle(h, inner, rest) => {
            lemma_sequential_identity(*inner, Seq::empty(), hs.push(h));
            if let Some(v) = pure_eval(*inner, Seq::empty()) {
                if let Some(pv) = eval_spec(h.on_return, seq![v]) {
                    lemma_sequential_identity(*rest, env.push(pv), hs);
                }
            }
        },
    }
}

/// Single resumption per suspension: in a run that completes, no recorded
/// suspension was answered by an abort, so every event of the trace stands
/// for a suspension that was resumed, each exactly once. How often the resume
/// path runs is fixed by the driver's contract, which pins the trace exactly:
/// once per event, and once more to deliver the final value.
pub proof fn lemma_single_resumption(c: Comp, env: Seq<SVal>, hs: Seq<Handler>)
    ensures
        sem(c, env, hs).out is Done ==> forall|k: int|
            0 <= k < sem(c, env, hs).trace.len() ==> !((#[trigger] sem(c, env, hs).trace[k])
                is EffectAborted),
    decreases c,
{
    match c {
        Comp::Ret(_) => {},
        Comp::Emit(e, rest) => {
            if let Some(v) = eval_spec(e, env) {
                lemma_single_resumption(*rest, env.push(v), hs);
            }
        },
        Comp::Perform(eff, rest) => {
            if let Some(p) = eval_spec(eff.payload, env) {
                if let Some(i) = dispatch(hs, eff.tag) {
                    if let Reaction::Resume(rx) = hs[i].reaction {
                        if let Some(ans) = eval_spec(rx, seq![p]) {
                            if sval_type(ans) == eff.out_type {
                                lemma_single_resumption(*rest, env.push(ans), hs);
                            }
                        }
                    }
                }
            }
        },
        Comp::Delegate(inner, rest) => {
            lemma_single_resumption(*inner, Seq::empty(), hs);
            let si = sem(*inner, Seq::empty(), hs);
            if let Out::Done(v) = si.out {
                lemma_single_resumption(*rest, env.push(v), hs);
            }
        },
        Comp::Handle(h, inner, rest) => {
            lemma_single_resumption(*inner, Seq::empty(), hs.push(h));
            let si = sem(*inner, Seq::empty(), hs.push(h));
            if let Out::Done(v) = si.out {
                if let Some(pv) = eval_spec(h.on_return, seq![v]) {
                    lemma_single_resumption(*rest, env.push(pv), hs);
                }
            }
        },
    }
}

/// Delegation transparency: a delegated computation runs under exactly the
/// outer computation's handler chain, its resumptions come first in the outer
/// trace, and its final value resumes the outer computation as an ordinary
/// value; if it does not complete, its outcome is the outer outcome.
pub proof fn lemma_delegation_transparent(c: Comp, env: Seq<SVal>, hs: Seq<Handler>)
    requires
        c matches Comp::Delegate(_, _),
    ensures
        c matches Comp::Delegate(inner, rest) ==> {
            let si = sem(*inner, Seq::empty(), hs);
            &&& (si.out matches Out::Done(v) ==> sem(c, env, hs) == Sem {
                out: sem(*rest, env.push(v), hs).out,
                trace: si.trace + seq![EventV::Delegated(v)] + sem(*rest, env.push(v), hs).trace,
            })
            &&& (!(si.out is Done) ==> sem(c, env, hs) == si)
        },
{
}

/// Abort short-circuit: when the innermost matching handler aborts, the run
/// completes at once with the abort's value; the suspended continuation
/// contributes nothing — neither its outcome nor any further resumption.
pub proof fn lemma_abort_short_circuit(c: Comp, env: Seq<SVal>, hs: Seq<Handler>, av: SVal)
    requires
        (c matches Comp::Perform(eff, _) && (eval_spec(eff.payload, env) is Some && (dispatch(
            hs,
            eff.tag,
        ) matches Some(i) && (hs[i].reaction matches Reaction::Abort(ax) && eval_spec(
            ax,
            seq![eval_spec(eff.payload, env)->0],
        ) == Some(av))))),
    ensures
        (c matches Comp::Perform(eff, _) ==> sem(c, env, hs) == Sem {
            out: Out::Aborted(av),
            trace: seq![EventV::EffectAborted(eff.tag, eval_spec(eff.payload, env)->0)],
        }),
{
}

/// An abort passes unchanged through delegation and through enclosing
/// handlers: neither the rest of the delegating computation nor any pure case
/// runs after it.
pub proof fn lemma_abort_propagates(c: Comp, env: Seq<SVal>, hs: Seq<Handler>)
    ensures
        c matches Comp::Delegate(inner, rest) ==> (sem(*inner, Seq::empty(), hs).out matches
            Out::Aborted(v) ==> sem(c, env, hs) == sem(*inner, Seq::empty(), hs)),
        c matches Comp::Handle(h, inner, rest) ==> (sem(*inner, Seq::empty(), hs.push(h)).out
            matches Out::Aborted(v) ==> sem(c, env, hs) == sem(*inner, Seq::empty(), hs.push(h))),
{
}

/// Type discipline: an effect whose handler answers with a value that is not
/// of the effect's declared output type fails the run with a type mismatch;
/// the continuation is never resumed.
pub proof fn lemma_type_discipline(c: Comp, env: Seq<SVal>, hs: Seq<Handler>)
    ensures
        c matches Comp::Perform(eff, _) ==> (eval_spec(eff.payload, env) matches Some(p) ==> (
        dispatch(hs, eff.tag) matches Some(i) ==> (hs[i].reaction matches Reaction::Resume(rx) ==> (
        eval_spec(rx, seq![p]) matches Some(ans) ==> (sval_type(ans) != eff.out_type ==> sem(
            c,
            env,
            hs,
        ) == Sem { out: Out::Failed(RunError::TypeMismatch(eff.tag)), trace: Seq::<EventV>::empty() }))))),
{
}

/// Handler interception order: with a handler for tag `ta` installed inside
/// a handler for tag `tb`, a computation that performs `ta` and then `tb` has
/// its first effect intercepted by the inner handler and its second by the
/// outer one, in program order: they are the first two resumptions of the
/// run's trace.
pub proof fn lemma_handler_order(
    c: Comp,
    env: Seq<SVal>,
    hs: Seq<Handler>,
    ta: u64,
    tb: u64,
    pa: SVal,
    aa: SVal,
    pb: SVal,
    ab: SVal,
)
    requires
        (c matches Comp::Handle(hb, mid, rb) && (*mid matches Comp::Handle(ha, body, ra) && (*body
            matches Comp::Perform(ea, k1) && (*k1 matches Comp::Perform(eb, k2) && (ha.reaction
            matches Reaction::Resume(rxa) && (hb.reaction matches Reaction::Resume(rxb) && (ea.tag
            == ta && eb.tag == tb && ha.tag == ta && hb.tag == tb && ta != tb && eval_spec(
            ea.payload,
            Seq::<SVal>::empty(),
        ) == Some(pa) && eval_spec(rxa, seq![pa]) == Some(aa) && sval_type(aa) == ea.out_type
            && eval_spec(eb.payload, seq![aa]) == Some(pb) && eval_spec(rxb, seq![pb]) == Some(ab)
            && sval_type(ab) == eb.out_type))))))),
    ensures
        sem(c, env, hs).trace.len() >= 2,
        sem(c, env, hs).trace[0] == EventV::Effect(ta, pa),
        sem(c, env, hs).trace[1] == EventV::Effect(tb, pb),
{
    let hb = c->Handle_0;
    let mid = *(c->Handle_1);
    let rb = *(c->Handle_2);
    let ha = mid->Handle_0;
    let body = *(mid->Handle_1);
    let ra = *(mid->Handle_2);
    let ea = body->Perform_0;
    let k1 = *(body->Perform_1);
    let eb = k1->Perform_0;
    let k2 = *(k1->Perform_1);
    let rxa = ha.reaction->Resume_0;
    let rxb = hb.reaction->Resume_0;
    let hs1 = hs.push(hb);
    let hs2 = hs1.push(ha);
    // The innermost handler answers the first effect.
    assert(dispatch(hs2, ta) == Some(hs2.len() - 1));
    assert(hs2[hs2.len() - 1] == ha);
    // It does not match the second, which passes upward to the enclosing
    // handler.
    assert(hs2.drop_last() =~= hs1);
    assert(dispatch(hs2, tb) == dispatch(hs1, tb));
    assert(dispatch(hs1, tb) == Some(hs1.len() - 1));
    assert(hs2[hs1.len() - 1] == hb);
    let env1 = Seq::<SVal>::empty().push(aa);
    let env2 = env1.push(ab);
    let s2 = sem(k2, env2, hs2);
    let s1 = sem(k1, env1, hs2);
    assert(s1.trace == seq![EventV::Effect(tb, pb)] + s2.trace);
    let sbody = sem(body, Seq::<SVal>::empty(), hs2);
    assert(sbody.trace == seq![EventV::Effect(ta, pa)] + s1.trace);
    assert(sbody.trace[0] == EventV::Effect(ta, pa));
    assert(sbody.trace[1] == EventV::Effect(tb, pb));
    assert(sbody.trace.len() >= 2);
    // Whatever follows the two effects, they stay the first two resumptions
    // at each enclosing layer.
    let smid = sem(mid, Seq::<SVal>::empty(), hs1);
    if sbody.out is Done {
        let v = sbody.out->Done_0;
        if eval_spec(ha.on_return, seq![v]) is Some {
            let pv = eval_spec(ha.on_return, seq![v])->0;
            assert(smid.trace == sbody.trace + sem(ra, Seq::<SVal>::empty().push(pv), hs1).trace);
        } else {
            assert(smid.trace == sbody.trace);
        }
    } else {
        assert(smid.trace == sbody.trace);
    }
    assert(smid.trace.len() >= 2);
    assert(smid.trace[0] == EventV::Effect(ta, pa));
    assert(smid.trace[1] == EventV::Effect(tb, pb));
    let sc = sem(c, env, hs);
    if smid.out is Done {
        let v = smid.out->Done_0;
        if eval_spec(hb.on_return, seq![v]) is Some {
            let pv = eval_spec(hb.on_return, seq![v])->0;
            assert(sc.trace == smid.trace + sem(rb, env.push(pv), hs).trace);
        } else {
            assert(sc.trace == smid.trace);
        }
    } else {
        assert(sc.trace == smid.trace);
    }
    assert(sc.trace.len() >= 2);
    assert(sc.trace[0] == EventV::Effect(ta, pa));
    assert(sc.trace[1] == EventV::Effect(tb, pb));
}

} // verus!
