//! Runtime values, their mathematical model, and the expression language
//! that computations and handlers evaluate over resumed values.

use vstd::prelude::*;

verus! {

/// A runtime value: the data a computation yields, an effect carries as its
/// payload, and a continuation is resumed with.
#[derive(Debug, PartialEq, Eq)]
pub enum Val {
    Unit,
    Int(u64),
    Str(String),
}

/// The mathematical model of a [`Val`]: strings are modeled as character
/// sequences, so contracts can state exact value equalities.
pub enum SVal {
    Unit,
    Int(u64),
    Str(Seq<char>),
}

impl View for Val {
    type V = SVal;

    open spec fn view(&self) -> SVal {
        match self {
            Val::Unit => SVal::Unit,
            Val::Int(n) => SVal::Int(*n),
            Val::Str(s) => SVal::Str(s@),
        }
    }
}

/// The type of a value; each effect declares the output type its
/// continuation must be resumed with.
#[derive(Clone, Copy, PartialEq, Eq, Structural, Debug)]
pub enum ValType {
    UnitT,
    IntT,
    StrT,
}

/// The type tag of a modeled value.
pub open spec fn sval_type(v: SVal) -> ValType {
    match v {
        SVal::Unit => ValType::UnitT,
        SVal::Int(_) => ValType::IntT,
        SVal::Str(_) => ValType::StrT,
    }
}

/// The type tag of a runtime value.
pub fn val_type(v: &Val) -> (t: ValType)
    ensures
        t == sval_type(v@),
{
    match v {
        Val::Unit => ValType::UnitT,
        Val::Int(_) => ValType::IntT,
        Val::Str(_) => ValType::StrT,
    }
}

/// An exact copy of a value (string contents included).
pub fn dup_val(v: &Val) -> (r: Val)
    ensures
        r@ == v@,
{
    match v {
        Val::Unit => Val::Unit,
        Val::Int(n) => Val::Int(*n),
        Val::Str(s) => Val::Str(s.clone()),
    }
}

/// The view of a sequence of runtime values.
pub open spec fn vals_view(s: Seq<Val>) -> Seq<SVal> {
    s.map_values(|v: Val| v@)
}

/// An expression over an environment of resumed values. Computations use
/// expressions wherever straight-line code would read a local: the
/// environment holds, in order, every value the computation was resumed with.
pub enum Expr {
    /// A literal value.
    Const(Val),
    /// The environment slot at the given index (slot 0 is the first value the
    /// computation was resumed with; handler expressions see the effect
    /// payload, or the final value, as slot 0).
    Var(usize),
    /// Checked integer addition; ill-typed operands or overflow fail.
    Add(Box<Expr>, Box<Expr>),
    /// Checked integer multiplication; ill-typed operands or overflow fail.
    Mul(Box<Expr>, Box<Expr>),
    /// The number of decimal digits of an integer, i.e. the length of its
    /// decimal rendering.
    DigitLen(Box<Expr>),
    /// String concatenation.
    Concat(Box<Expr>, Box<Expr>),
}

/// The number of decimal digits of `n` (the length of `n`'s decimal
/// rendering).
pub open spec fn dec_len(n: u64) -> u64 {
    if n < 10 {
        1
    } else if n < 100 {
        2
    } else if n < 1000 {
        3
    } else if n < 10000 {
        4
    } else if n < 100000 {
        5
    } else if n < 1000000 {
        6
    } else if n < 10000000 {
        7
    } else if n < 100000000 {
        8
    } else if n < 1000000000 {
        9
    } else if n < 10000000000 {
        10
    } else if n < 100000000000 {
        11
    } else if n < 1000000000000 {
        12
    } else if n < 10000000000000 {
        13
    } else if n < 100000000000000 {
        14
    } else if n < 1000000000000000 {
        15
    } else if n < 10000000000000000 {
        16
    } else if n < 100000000000000000 {
        17
    } else if n < 1000000000000000000 {
        18
    } else if n < 10000000000000000000 {
        19
    } else {
        20
    }
}

/// The number of decimal digits of `n`.
pub fn digit_len(n: u64) -> (r: u64)
    ensures
        r == dec_len(n),
{
    if n < 10 {
        1
    } else if n < 100 {
        2
    } else if n < 1000 {
        3
    } else if n < 10000 {
        4
    } else if n < 100000 {
        5
    } else if n < 1000000 {
        6
    } else if n < 10000000 {
        7
    } else if n < 100000000 {
        8
    } else if n < 1000000000 {
        9
    } else if n < 10000000000 {
        10
    } else if n < 100000000000 {
        11
    } else if n < 1000000000000 {
        12
    } else if n < 10000000000000 {
        13
    } else if n < 100000000000000 {
        14
    } else if n < 1000000000000000 {
        15
    } else if n < 10000000000000000 {
        16
    } else if n < 100000000000000000 {
        17
    } else if n < 1000000000000000000 {
        18
    } else if n < 10000000000000000000 {
        19
    } else {
        20
    }
}

/// What an expression evaluates to over a modeled environment; `None` means
/// the expression is ill-formed there (an out-of-range slot, an ill-typed
/// operand, or an overflowing operation).
pub open spec fn eval_spec(e: Expr, env: Seq<SVal>) -> Option<SVal>
    decreases e,
{
    match e {
        Expr::Const(v) => Some(v@),
        Expr::Var(i) => if i < env.len() {
            Some(env[i as int])
        } else {
            None
        },
        Expr::Add(a, b) => match (eval_spec(*a, env), eval_spec(*b, env)) {
            (Some(SVal::Int(x)), Some(SVal::Int(y))) => if x + y <= u64::MAX {
                Some(SVal::Int((x + y) as u64))
            } else {
                None
            },
            _ => None,
        },
        Expr::Mul(a, b) => match (eval_spec(*a, env), eval_spec(*b, env)) {
            (Some(SVal::Int(x)), Some(SVal::Int(y))) => if x * y <= u64::MAX {
                Some(SVal::Int((x * y) as u64))
            } else {
                None
            },
            _ => None,
        },
        Expr::DigitLen(a) => match eval_spec(*a, env) {
            Some(SVal::Int(x)) => Some(SVal::Int(dec_len(x))),
            _ => None,
        },
        Expr::Concat(a, b) => match (eval_spec(*a, env), eval_spec(*b, env)) {
            (Some(SVal::Str(x)), Some(SVal::Str(y))) => Some(SVal::Str(x + y)),
            _ => None,
        },
    }
}

/// The view of an optional runtime value.
pub open spec fn opt_val_view(r: Option<Val>) -> Option<SVal> {
    match r {
        Some(v) => Some(v@),
        None => None,
    }
}

/// Evaluates an expression over an environment of resumed values.
pub fn eval(e: &Expr, env: &Vec<Val>) -> (r: Option<Val>)
    ensures
        opt_val_view(r) == eval_spec(*e, vals_view(env@)),
    decreases *e,
{
    match e {
        Expr::Const(v) => Some(dup_val(v)),
        Expr::Var(i) => if *i < env.len() {
            assert(vals_view(env@)[*i as int] == env@[*i as int]@);
            Some(dup_val(&env[*i]))
        } else {
            None
        },
        Expr::Add(a, b) => match (eval(a, env), eval(b, env)) {
            (Some(Val::Int(x)), Some(Val::Int(y))) => if x <= u64::MAX - y {
                Some(Val::Int(x + y))
            } else {
                None
            },
            _ => None,
        },
        Expr::Mul(a, b) => match (eval(a, env), eval(b, env)) {
            (Some(Val::Int(x)), Some(Val::Int(y))) => {
                match x.checked_mul(y) {
                    Some(p) => Some(Val::Int(p)),
                    None => None,
                }
            },
            _ => None,
        },
        Expr::DigitLen(a) => match eval(a, env) {
            Some(Val::Int(x)) => Some(Val::Int(digit_len(x))),
            Some(_) => None,
            None => None,
        },
        Expr::Concat(a, b) => match (eval(a, env), eval(b, env)) {
            (Some(Val::Str(x)), Some(Val::Str(y))) => Some(Val::Str(x.concat(y.as_str()))),
            _ => None,
        },
    }
}

} // verus!
