//! Illustrative computations: a greeter that yields a plain value and a
//! factorial that nests delegation.

use vstd::prelude::*;
use vstd::string::StringExecFns;
use crate::effect::{Comp, EventV, Handler};
use crate::runtime::{Out, RunError, sem};
use crate::value::{Expr, SVal, Val, eval_spec};

verus! {

/// A computation that yields a greeting for `name` as a plain value and
/// completes with whatever it was resumed with; under the driver, which feeds
/// a plain yield straight back, it completes with the greeting itself.
pub fn greet(name: String) -> (c: Comp)
    ensures
        forall|hs: Seq<Handler>|
            (#[trigger] sem(c, Seq::<SVal>::empty(), hs)).out == Out::Done(
                SVal::Str("Hi, "@ + name@),
            ),
        forall|hs: Seq<Handler>|
            (#[trigger] sem(c, Seq::<SVal>::empty(), hs)).trace == seq![
                EventV::Plain(SVal::Str("Hi, "@ + name@)),
            ],
{
    let ghost namev = name@;
    let lit = String::from_str("Hi, ");
    let ghost litv = lit@;
    let left = Expr::Const(Val::Str(lit));
    let ghost left_g = left;
    let right = Expr::Const(Val::Str(name));
    let ghost right_g = right;
    let message = Expr::Concat(Box::new(left), Box::new(right));
    let ghost mg = message;
    let c = Comp::Emit(message, Box::new(Comp::Ret(Expr::Var(0))));
    proof {
        let greeting = SVal::Str(litv + namev);
        let env0 = Seq::<SVal>::empty();
        let env1 = env0.push(greeting);
        assert forall|hs: Seq<Handler>|
            (#[trigger] sem(c, env0, hs)).out == Out::Done(greeting) && sem(c, env0, hs).trace
                == seq![EventV::Plain(greeting)] by {
            assert(eval_spec(left_g, env0) == Some(SVal::Str(litv)));
            assert(eval_spec(right_g, env0) == Some(SVal::Str(namev)));
            assert(eval_spec(mg, env0) == Some(greeting));
            assert(eval_spec(Expr::Var(0), env1) == Some(greeting));
            let s = sem(Comp::Ret(Expr::Var(0)), env1, hs);
            assert(env1[0] == greeting);
            assert(s.out == Out::Done(greeting));
            assert(seq![EventV::Plain(greeting)] + s.trace =~= seq![EventV::Plain(greeting)]);
        }
        assert(litv + namev == "Hi, "@ + namev);
    }
    c
}

/// The factorial of `n`.
pub open spec fn fact(n: nat) -> nat
    decreases n,
{
    if n == 0 {
        1
    } else {
        n * fact((n - 1) as nat)
    }
}

/// Factorial never shrinks when its argument grows by one.
proof fn lemma_fact_step(n: nat)
    requires
        n >= 1,
    ensures
        fact(n) >= fact((n - 1) as nat),
{
    assert(fact(n) == n * fact((n - 1) as nat));
    assert(n * fact((n - 1) as nat) >= 1 * fact((n - 1) as nat)) by (nonlinear_arith)
        requires
            n >= 1,
    ;
}

/// A computation that computes `n!` by delegating to itself for `n - 1`:
/// every level suspends once, and the driver feeds the inner result back
/// into the outer computation. Whenever `n!` fits in a machine integer it
/// completes with `n!` after exactly `n` suspensions, one delegation per
/// level, resumed with `0!, 1!, ..., (n - 1)!` in that order (in particular,
/// computing `0!` never suspends); past the machine range it fails with the
/// checked multiplication.
pub fn factorial(n: u64) -> (c: Comp)
    ensures
        forall|hs: Seq<Handler>|
            (#[trigger] sem(c, Seq::<SVal>::empty(), hs)).out == (if fact(n as nat) <= u64::MAX {
                Out::Done(SVal::Int(fact(n as nat) as u64))
            } else {
                Out::Failed(RunError::ExprError)
            }),
        forall|hs: Seq<Handler>|
            fact(n as nat) <= u64::MAX ==> {
                let t = (#[trigger] sem(c, Seq::<SVal>::empty(), hs)).trace;
                t.len() == n && (forall|i: int|
                    0 <= i < n ==> t[i] == EventV::Delegated(SVal::Int(fact(i as nat) as u64)))
            },
    decreases n,
{
    if n == 0 {
        let c = Comp::Ret(Expr::Const(Val::Int(1)));
        proof {
            assert forall|hs: Seq<Handler>|
                (#[trigger] sem(c, Seq::<SVal>::empty(), hs)).out == Out::Done(SVal::Int(1)) && sem(
                    c,
                    Seq::<SVal>::empty(),
                    hs,
                ).trace == Seq::<EventV>::empty() by {
                assert(eval_spec(Expr::Const(Val::Int(1)), Seq::<SVal>::empty()) == Some(
                    SVal::Int(1),
                ));
            }
        }
        c
    } else {
        let inner = factorial(n - 1);
        let ghost inner_g = inner;
        let product = Expr::Mul(Box::new(Expr::Var(0)), Box::new(Expr::Const(Val::Int(n))));
        let ghost product_g = product;
        let tail = Comp::Ret(product);
        let ghost tail_g = tail;
        let c = Comp::Delegate(Box::new(inner), Box::new(tail));
        proof {
            let f1 = fact((n - 1) as nat);
            assert(fact(n as nat) == n * f1);
            assert forall|hs: Seq<Handler>|
                (#[trigger] sem(c, Seq::<SVal>::empty(), hs)).out == (if fact(n as nat)
                    <= u64::MAX {
                    Out::Done(SVal::Int(fact(n as nat) as u64))
                } else {
                    Out::Failed(RunError::ExprError)
                }) by {
                let si = sem(inner_g, Seq::<SVal>::empty(), hs);
                if f1 <= u64::MAX {
                    assert(si.out == Out::Done(SVal::Int(f1 as u64)));
                    let env1 = Seq::<SVal>::empty().push(SVal::Int(f1 as u64));
                    assert(env1[0] == SVal::Int(f1 as u64));
                    assert(eval_spec(Expr::Var(0), env1) == Some(SVal::Int(f1 as u64)));
                    assert(eval_spec(Expr::Const(Val::Int(n)), env1) == Some(SVal::Int(n)));
                    assert((f1 as u64) * n == f1 * n);
                    assert(eval_spec(product_g, env1) == (if f1 * n <= u64::MAX {
                        Some(SVal::Int((f1 * n) as u64))
                    } else {
                        None
                    }));
                    let s = sem(tail_g, env1, hs);
                    assert(s.out == (if f1 * n <= u64::MAX {
                        Out::Done(SVal::Int((f1 * n) as u64))
                    } else {
                        Out::Failed(RunError::ExprError)
                    }));
                    assert(sem(c, Seq::<SVal>::empty(), hs).out == s.out);
                    assert(n * f1 == f1 * n) by (nonlinear_arith);
                    assert(fact(n as nat) == f1 * n);
                } else {
                    lemma_fact_step(n as nat);
                    assert(fact(n as nat) > u64::MAX);
                    assert(si.out == Out::Failed(RunError::ExprError));
                    assert(sem(c, Seq::<SVal>::empty(), hs).out == si.out);
                }
            }
            assert forall|hs: Seq<Handler>|
                fact(n as nat) <= u64::MAX implies {
                let t = (#[trigger] sem(c, Seq::<SVal>::empty(), hs)).trace;
                t.len() == n && (forall|i: int|
                    0 <= i < n ==> t[i] == EventV::Delegated(SVal::Int(fact(i as nat) as u64)))
            } by {
                lemma_fact_step(n as nat);
                assert(f1 <= u64::MAX);
                let si = sem(inner_g, Seq::<SVal>::empty(), hs);
                assert(si.out == Out::Done(SVal::Int(f1 as u64)));
                assert(si.trace.len() == n - 1);
                let env1 = Seq::<SVal>::empty().push(SVal::Int(f1 as u64));
                let s = sem(tail_g, env1, hs);
                assert(s.trace == Seq::<EventV>::empty());
                let step = seq![EventV::Delegated(SVal::Int(f1 as u64))];
                let t = sem(c, Seq::<SVal>::empty(), hs).trace;
                assert(t == si.trace + step + s.trace);
                assert(t =~= si.trace.push(EventV::Delegated(SVal::Int(f1 as u64))));
                assert(t.len() == n);
                assert forall|i: int| 0 <= i < n implies t[i] == EventV::Delegated(
                    SVal::Int(fact(i as nat) as u64),
                ) by {
                    if i < n - 1 {
                        assert(t[i] == si.trace[i]);
                    } else {
                        assert(t[i] == EventV::Delegated(SVal::Int(f1 as u64)));
                        assert(fact(i as nat) == f1);
                    }
                }
            }
        }
        c
    }
}

} // verus!
