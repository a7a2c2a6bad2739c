use resumable::cell::Cell;
use resumable::effect::{Comp, Effect, Event, Handler, Reaction};
use resumable::runtime::{handle, perform, run, Outcome, RunError};
use resumable::value::{digit_len, eval, Expr, Val, ValType};

const TICK: u64 = 7;
const A: u64 = 10;
const B: u64 = 11;

fn resume_with(tag: u64, answer: Val) -> Handler {
    Handler { tag, on_return: Expr::Var(0), reaction: Reaction::Resume(Expr::Const(answer)) }
}

fn int_effect(tag: u64, payload: u64) -> Effect {
    Effect { tag, out_type: ValType::IntT, payload: Expr::Const(Val::Int(payload)) }
}

#[test]
fn test_plain_yield_round_trip() {
    // A computation with no effects completes with the value it yields,
    // exactly as the ordinary code would.
    let comp = Comp::Emit(Expr::Const(Val::Int(7)), Box::new(Comp::Ret(Expr::Var(0))));
    let report = run(comp).unwrap();
    assert_eq!(report.outcome, Outcome::Done(Val::Int(7)));
    assert_eq!(report.trace, vec![Event::Plain(Val::Int(7))]);
}

#[test]
fn test_single_resumption_count() {
    // Three performs: the trace records three resumptions, so the driver's
    // resume path ran 3 + 1 times, the last delivering the final value.
    let comp = perform(
        int_effect(TICK, 1),
        perform(
            int_effect(TICK, 2),
            perform(int_effect(TICK, 3), Comp::Ret(Expr::Var(2))),
        ),
    );
    let report = run(handle(resume_with(TICK, Val::Int(5)), comp)).unwrap();
    assert_eq!(report.outcome, Outcome::Done(Val::Int(5)));
    assert_eq!(
        report.trace,
        vec![
            Event::Effect(TICK, Val::Int(1)),
            Event::Effect(TICK, Val::Int(2)),
            Event::Effect(TICK, Val::Int(3)),
        ]
    );
    assert_eq!(report.trace.len() + 1, 4);
}

#[test]
fn test_handler_order() {
    // Inner handler for A, outer handler for B; the computation performs A
    // then B, and the trace records them in program order.
    let body = perform(int_effect(A, 1), perform(int_effect(B, 2), Comp::Ret(Expr::Var(1))));
    let nested = handle(resume_with(A, Val::Int(100)), body);
    let report = run(handle(resume_with(B, Val::Int(200)), nested)).unwrap();
    assert_eq!(report.outcome, Outcome::Done(Val::Int(200)));
    assert_eq!(
        report.trace,
        vec![Event::Effect(A, Val::Int(1)), Event::Effect(B, Val::Int(2))]
    );
}

#[test]
fn test_abort_short_circuits() {
    // The handler aborts instead of resuming: the run completes with the
    // abort's value and the yield after the perform never happens.
    let aborting = Handler {
        tag: TICK,
        on_return: Expr::Var(0),
        reaction: Reaction::Abort(Expr::Add(
            Box::new(Expr::Var(0)),
            Box::new(Expr::Const(Val::Int(100))),
        )),
    };
    let comp = Comp::Emit(
        Expr::Const(Val::Int(1)),
        Box::new(perform(
            int_effect(TICK, 10),
            Comp::Emit(Expr::Const(Val::Int(2)), Box::new(Comp::Ret(Expr::Var(2)))),
        )),
    );
    let report = run(handle(aborting, comp)).unwrap();
    assert_eq!(report.outcome, Outcome::Aborted(Val::Int(110)));
    assert_eq!(
        report.trace,
        vec![Event::Plain(Val::Int(1)), Event::EffectAborted(TICK, Val::Int(10))]
    );
}

#[test]
fn test_type_mismatch_rejected() {
    // The effect declares an integer output; the handler answers with a
    // string: the resume is rejected.
    let wrong = Handler {
        tag: TICK,
        on_return: Expr::Var(0),
        reaction: Reaction::Resume(Expr::Const(Val::Str(String::from("oops")))),
    };
    let comp = perform(int_effect(TICK, 1), Comp::Ret(Expr::Var(0)));
    let err = run(handle(wrong, comp)).unwrap_err();
    assert_eq!(err, RunError::TypeMismatch(TICK));
}

#[test]
fn test_unhandled_effect_fails() {
    let comp = perform(int_effect(TICK, 1), Comp::Ret(Expr::Var(0)));
    let err = run(comp).unwrap_err();
    assert_eq!(err, RunError::UnhandledEffect(TICK));
}

#[test]
fn test_unbound_slot_fails() {
    let err = run(Comp::Ret(Expr::Var(0))).unwrap_err();
    assert_eq!(err, RunError::ExprError);
}

#[test]
fn test_cell_write_then_read() {
    let mut cell = Cell::new();
    assert!(cell.read_and_clear().is_err());
    cell.write(Val::Int(3));
    assert_eq!(cell.read_and_clear().unwrap(), Val::Int(3));
    assert!(cell.read_and_clear().is_err());
}

#[test]
fn test_digit_len_values() {
    assert_eq!(digit_len(0), 1);
    assert_eq!(digit_len(9), 1);
    assert_eq!(digit_len(10), 2);
    assert_eq!(digit_len(12), 2);
    assert_eq!(digit_len(99), 2);
    assert_eq!(digit_len(100), 3);
    assert_eq!(digit_len(u64::MAX), 20);
}

#[test]
fn test_eval_checked_add_overflow() {
    let e = Expr::Add(
        Box::new(Expr::Const(Val::Int(u64::MAX))),
        Box::new(Expr::Const(Val::Int(1))),
    );
    assert!(eval(&e, &Vec::new()).is_none());
}

#[test]
fn test_eval_concat() {
    let e = Expr::Concat(
        Box::new(Expr::Const(Val::Str(String::from("ab")))),
        Box::new(Expr::Const(Val::Str(String::from("cd")))),
    );
    assert_eq!(eval(&e, &Vec::new()), Some(Val::Str(String::from("abcd"))));
}

#[test]
fn test_start_with_installed_handlers() {
    // `start` drives a computation under a pre-installed chain, innermost
    // last: of two handlers for the same tag, the later one answers.
    let comp = resumable::runtime::perform(
        int_effect(A, 5),
        Comp::Ret(Expr::Var(0)),
    );
    let report = resumable::runtime::start(
        comp,
        vec![resume_with(A, Val::Int(1)), resume_with(A, Val::Int(2))],
    )
    .unwrap();
    assert_eq!(report.outcome, Outcome::Done(Val::Int(2)));
    assert_eq!(report.trace, vec![Event::Effect(A, Val::Int(5))]);
}
