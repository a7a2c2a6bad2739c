use resumable::effect::Event;
use resumable::examples::{factorial, greet};
use resumable::fib::fib;
use resumable::interp::{interp, Ast, InterpError, Value};
use resumable::runtime::{run, Outcome, RunError};
use resumable::value::Val;

#[test]
fn test_greet() {
    let report = run(greet(String::from("hoyoyo"))).unwrap();
    assert_eq!(report.outcome, Outcome::Done(Val::Str(String::from("Hi, hoyoyo"))));
    assert_eq!(report.trace, vec![Event::Plain(Val::Str(String::from("Hi, hoyoyo")))]);
}

#[test]
fn test_factorial_ten() {
    let report = run(factorial(10)).unwrap();
    assert_eq!(report.outcome, Outcome::Done(Val::Int(3628800)));
    // Each of the ten delegation levels suspended once and was resumed with
    // the factorial below it.
    let resumed: Vec<Event> = [1u64, 1, 2, 6, 24, 120, 720, 5040, 40320, 362880]
        .iter()
        .map(|k| Event::Delegated(Val::Int(*k)))
        .collect();
    assert_eq!(report.trace, resumed);
}

#[test]
fn test_factorial_zero() {
    let report = run(factorial(0)).unwrap();
    assert_eq!(report.outcome, Outcome::Done(Val::Int(1)));
    assert_eq!(report.trace.len(), 0);
}

#[test]
fn test_factorial_largest_fitting() {
    let report = run(factorial(20)).unwrap();
    assert_eq!(report.outcome, Outcome::Done(Val::Int(2432902008176640000)));
}

#[test]
fn test_factorial_overflow() {
    let err = run(factorial(21)).unwrap_err();
    assert_eq!(err, RunError::ExprError);
}

#[test]
fn test_fib_values() {
    let expected: [u32; 10] = [1, 1, 2, 3, 5, 8, 13, 21, 34, 55];
    for (i, want) in expected.iter().enumerate() {
        assert_eq!(fib(i as u32), *want);
    }
}

#[test]
fn test_interp_literal() {
    let mut env: Vec<(u64, Value)> = Vec::new();
    assert_eq!(interp(&Ast::Lit(4), &mut env, 10), Ok(Value::Int(4)));
}

#[test]
fn test_interp_double_application() {
    // (fun x -> x + x) applied to 6.
    let x = Ast::Var(0);
    let double = Ast::Fun(0, Box::new(Ast::Add(Box::new(x), Box::new(Ast::Var(0)))));
    let program = Ast::App(Box::new(double), Box::new(Ast::Lit(6)));
    let mut env: Vec<(u64, Value)> = Vec::new();
    assert_eq!(interp(&program, &mut env, 10), Ok(Value::Int(12)));
    assert_eq!(env.len(), 0);
}

#[test]
fn test_interp_unbound_variable() {
    let mut env: Vec<(u64, Value)> = Vec::new();
    assert_eq!(interp(&Ast::Var(3), &mut env, 10), Err(InterpError::UnboundVar));
}

#[test]
fn test_interp_apply_integer() {
    let program = Ast::App(Box::new(Ast::Lit(1)), Box::new(Ast::Lit(2)));
    let mut env: Vec<(u64, Value)> = Vec::new();
    assert_eq!(interp(&program, &mut env, 10), Err(InterpError::TypeError));
}

#[test]
fn test_interp_runs_out_of_fuel() {
    // (fun x -> x x) (fun x -> x x) never finishes; the budget stops it.
    let self_apply = Ast::Fun(0, Box::new(Ast::App(Box::new(Ast::Var(0)), Box::new(Ast::Var(0)))));
    let omega = Ast::App(
        Box::new(self_apply),
        Box::new(Ast::Fun(
            0,
            Box::new(Ast::App(Box::new(Ast::Var(0)), Box::new(Ast::Var(0)))),
        )),
    );
    let mut env: Vec<(u64, Value)> = Vec::new();
    assert_eq!(interp(&omega, &mut env, 25), Err(InterpError::OutOfFuel));
}
