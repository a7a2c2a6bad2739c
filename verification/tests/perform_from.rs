use resumable::effect::{Comp, Effect, Handler, Reaction};
use resumable::runtime::{handle, perform, perform_from, run, Outcome};
use resumable::value::{Expr, Val, ValType};

const BAR: u64 = 1;
const FOO: u64 = 2;

fn bar_handler() -> Handler {
    Handler {
        tag: BAR,
        on_return: Expr::Var(0),
        reaction: Reaction::Resume(Expr::Add(
            Box::new(Expr::Var(0)),
            Box::new(Expr::Const(Val::Int(2))),
        )),
    }
}

fn foo_handler() -> Handler {
    Handler {
        tag: FOO,
        on_return: Expr::Var(0),
        reaction: Reaction::Resume(Expr::Const(Val::Int(42))),
    }
}

#[test]
fn test_perform_from() {
    // The inner computation performs Bar(10) and completes with the answer.
    let inner = perform(
        Effect { tag: BAR, out_type: ValType::IntT, payload: Expr::Const(Val::Int(10)) },
        Comp::Ret(Expr::Var(0)),
    );
    // The outer computation delegates to it, then performs Foo and completes
    // with the decimal length of the inner result plus the Foo answer:
    // Bar(10) is answered with 12, "12" has two digits, and 2 + 42 = 44.
    let body = perform_from(
        inner,
        perform(
            Effect { tag: FOO, out_type: ValType::IntT, payload: Expr::Const(Val::Unit) },
            Comp::Ret(Expr::Add(
                Box::new(Expr::DigitLen(Box::new(Expr::Var(0)))),
                Box::new(Expr::Var(1)),
            )),
        ),
    );
    let report = run(handle(bar_handler(), handle(foo_handler(), body))).unwrap();
    assert_eq!(report.outcome, Outcome::Done(Val::Int(44)));
}
