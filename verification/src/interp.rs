//! A toy expression interpreter: the second illustrative example, written in
//! direct style with an explicit binding environment and a fuel bound on
//! application depth.

use vstd::prelude::*;

verus! {

/// An expression of the toy language. Variables are numeric names.
#[derive(Debug, PartialEq, Eq)]
pub enum Ast {
    Lit(u64),
    Add(Box<Ast>, Box<Ast>),
    Var(u64),
    Fun(u64, Box<Ast>),
    App(Box<Ast>, Box<Ast>),
}

/// A value of the toy language: an integer or a function awaiting one
/// argument.
#[derive(Debug, PartialEq, Eq)]
pub enum Value {
    Int(u64),
    Fun(u64, Box<Ast>),
}

/// Why interpretation failed.
#[derive(Clone, Copy, PartialEq, Eq, Structural, Debug)]
pub enum InterpError {
    /// An operand had the wrong shape (adding a function, applying an
    /// integer).
    TypeError,
    /// A variable had no binding.
    UnboundVar,
    /// An addition exceeded the machine integer range.
    Overflow,
    /// The application-depth budget ran out.
    OutOfFuel,
}

/// The latest binding of `x`, if any.
pub open spec fn lookup_spec(env: Seq<(u64, Value)>, x: u64) -> Option<Value>
    decreases env.len(),
{
    if env.len() == 0 {
        None
    } else if env.last().0 == x {
        Some(env.last().1)
    } else {
        lookup_spec(env.drop_last(), x)
    }
}

/// What interpreting an expression yields under a binding environment and an
/// application-depth budget. Functions are applied in the environment of the
/// application site, extended with the argument binding.
pub open spec fn interp_spec(ast: Ast, env: Seq<(u64, Value)>, fuel: nat) -> Result<
    Value,
    InterpError,
>
    decreases fuel, ast,
{
    match ast {
        Ast::Lit(x) => Ok(Value::Int(x)),
        Ast::Add(lhs, rhs) => match interp_spec(*lhs, env, fuel) {
            Ok(Value::Int(a)) => match interp_spec(*rhs, env, fuel) {
                Ok(Value::Int(b)) => if a + b <= u64::MAX {
                    Ok(Value::Int((a + b) as u64))
                } else {
                    Err(InterpError::Overflow)
                },
                Ok(_) => Err(InterpError::TypeError),
                Err(e) => Err(e),
            },
            Ok(_) => Err(InterpError::TypeError),
            Err(e) => Err(e),
        },
        Ast::Var(v) => match lookup_spec(env, v) {
            Some(value) => Ok(value),
            None => Err(InterpError::UnboundVar),
        },
        Ast::Fun(param, body) => Ok(Value::Fun(param, body)),
        Ast::App(f, x) => match interp_spec(*f, env, fuel) {
            Ok(Value::Fun(param, body)) => match interp_spec(*x, env, fuel) {
                Ok(arg) => if fuel == 0 {
                    Err(InterpError::OutOfFuel)
                } else {
                    interp_spec(*body, env.push((param, arg)), (fuel - 1) as nat)
                },
                Err(e) => Err(e),
            },
            Ok(_) => Err(InterpError::TypeError),
            Err(e) => Err(e),
        },
    }
}

/// An exact copy of an expression.
pub fn dup_ast(ast: &Ast) -> (r: Ast)
    ensures
        r == *ast,
    decreases *ast,
{
    match ast {
        Ast::Lit(x) => Ast::Lit(*x),
        Ast::Add(lhs, rhs) => Ast::Add(Box::new(dup_ast(lhs)), Box::new(dup_ast(rhs))),
        Ast::Var(v) => Ast::Var(*v),
        Ast::Fun(param, body) => Ast::Fun(*param, Box::new(dup_ast(body))),
        Ast::App(f, x) => Ast::App(Box::new(dup_ast(f)), Box::new(dup_ast(x))),
    }
}

/// The latest binding of `x`, if any.
fn lookup(env: &Vec<(u64, Value)>, x: u64) -> (r: Option<Value>)
    ensures
        r == lookup_spec(env@, x),
{
    let mut j: usize = env.len();
    proof {
        assert(env@.take(j as int) =~= env@);
    }
    while j > 0
        invariant
            j <= env@.len(),
            lookup_spec(env@, x) == lookup_spec(env@.take(j as int), x),
        decreases j,
    {
        proof {
            let pre = env@.take(j as int);
            assert(pre.last() == env@[j - 1]);
            assert(pre.drop_last() =~= env@.take(j - 1));
        }
        if env[j - 1].0 == x {
            let value = match &env[j - 1].1 {
                Value::Int(n) => Value::Int(*n),
                Value::Fun(param, body) => Value::Fun(*param, Box::new(dup_ast(body))),
            };
            return Some(value);
        }
        j = j - 1;
    }
    proof {
        assert(env@.take(0) =~= Seq::<(u64, Value)>::empty());
    }
    None
}

/// Interprets an expression under a binding environment and an
/// application-depth budget; the environment is left as it was found.
pub fn interp(ast: &Ast, env: &mut Vec<(u64, Value)>, fuel: u64) -> (r: Result<Value, InterpError>)
    ensures
        final(env)@ == old(env)@,
        r == interp_spec(*ast, old(env)@, fuel as nat),
    decreases fuel, *ast,
{
    match ast {
        Ast::Lit(x) => Ok(Value::Int(*x)),
        Ast::Add(lhs, rhs) => match interp(lhs, env, fuel) {
            Ok(Value::Int(a)) => match interp(rhs, env, fuel) {
                Ok(Value::Int(b)) => if a <= u64::MAX - b {
                    Ok(Value::Int(a + b))
                } else {
                    Err(InterpError::Overflow)
                },
                Ok(_) => Err(InterpError::TypeError),
                Err(e) => Err(e),
            },
            Ok(_) => Err(InterpError::TypeError),
            Err(e) => Err(e),
        },
        Ast::Var(v) => match lookup(env, *v) {
            Some(value) => Ok(value),
            None => Err(InterpError::UnboundVar),
        },
        Ast::Fun(param, body) => Ok(Value::Fun(*param, Box::new(dup_ast(body)))),
        Ast::App(f, x) => match interp(f, env, fuel) {
            Ok(Value::Fun(param, body)) => match interp(x, env, fuel) {
                Ok(arg) => if fuel == 0 {
                    Err(InterpError::OutOfFuel)
                } else {
                    let ghost env_pre = env@;
                    env.push((param, arg));
                    let r = interp(&body, env, fuel - 1);
                    let _ = env.pop();
                    proof {
                        assert(env@ =~= env_pre);
                    }
                    r
                },
                Err(e) => Err(e),
            },
            Ok(_) => Err(InterpError::TypeError),
            Err(e) => Err(e),
        },
    }
}

} // verus!
