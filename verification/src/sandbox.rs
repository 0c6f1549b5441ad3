//! The sandbox executor: runs one script inside a fresh, isolated context
//! with a fixed, host-defined capability surface. Each run gets its own
//! empty global scope, so nothing flows from one run to the next; the only
//! way out of the sandbox is a registered host binding, and every invocation
//! of one is recorded in the run's call log. Compilation errors and runtime
//! errors are reported separately, and a run's outcome is a function of the
//! script text and the binding names alone.

use vstd::arithmetic::div_mod::{lemma_fundamental_div_mod, lemma_mod_bound};
use vstd::arithmetic::mul::lemma_mul_inequality;
use vstd::prelude::*;

use crate::script::{
    chk_program, chk_program_x, spec_tokenize, tokenize, toks_view, Tok, TokM,
};
use crate::util::{chars_eq, chars_eq_str, chars_of, clone_chars, dec_chars, string_of_chars};

verus! {

/// A value a script expression can take.
pub enum Value {
    Num(u64),
    Text(Vec<char>),
    Undefined,
}

/// A value, as mathematical data.
pub enum ValueM {
    Num(u64),
    Text(Seq<char>),
    Undef,
}

impl View for Value {
    type V = ValueM;

    open spec fn view(&self) -> ValueM {
        match self {
            Value::Num(n) => ValueM::Num(*n),
            Value::Text(s) => ValueM::Text(s@),
            Value::Undefined => ValueM::Undef,
        }
    }
}

/// The textual representation of a value: the decimal digits of a number,
/// the characters of a string, `undefined` otherwise.
pub open spec fn to_text(v: ValueM) -> Seq<char> {
    match v {
        ValueM::Num(n) => crate::util::spec_dec(n as nat),
        ValueM::Text(s) => s,
        ValueM::Undef => "undefined"@,
    }
}

/// A named capability the host exposes into the script's global scope for
/// one run. Invoking it records the call and hands the script nothing back.
pub struct HostBinding {
    pub name: String,
}

/// One recorded invocation of a host binding: the binding's name and the
/// textual form of the argument it was given.
pub struct HostCall {
    pub binding: String,
    pub argument: String,
}

/// The binding names a binding list exposes.
pub open spec fn binds_view(bs: Seq<HostBinding>) -> Seq<Seq<char>> {
    bs.map(|k: int, b: HostBinding| b.name@)
}

/// The mathematical form of a call log.
pub open spec fn log_view(ls: Seq<HostCall>) -> Seq<(Seq<char>, Seq<char>)> {
    ls.map(|k: int, c: HostCall| (c.binding@, c.argument@))
}

/// The mathematical form of a global scope.
pub open spec fn env_view(es: Seq<(Vec<char>, Value)>) -> Seq<(Seq<char>, ValueM)> {
    es.map(|k: int, e: (Vec<char>, Value)| (e.0@, e.1@))
}

/// The value bound to `x`, the most recent declaration winning.
pub open spec fn env_lookup(env: Seq<(Seq<char>, ValueM)>, x: Seq<char>) -> Option<ValueM>
    decreases env.len(),
{
    if env.len() == 0 {
        None
    } else if env.last().0 == x {
        Some(env.last().1)
    } else {
        env_lookup(env.drop_last(), x)
    }
}

/// Addition on script values: defined on numbers, rejecting overflow.
pub open spec fn apply_plus(a: ValueM, b: ValueM) -> Result<ValueM, Seq<char>> {
    match (a, b) {
        (ValueM::Num(x), ValueM::Num(y)) => if x > u64::MAX - y {
            Err("number overflow"@)
        } else {
            Ok(ValueM::Num((x + y) as u64))
        },
        _ => Err("arithmetic needs numbers"@),
    }
}

/// Subtraction on script values: defined on numbers, rejecting underflow.
pub open spec fn apply_minus(a: ValueM, b: ValueM) -> Result<ValueM, Seq<char>> {
    match (a, b) {
        (ValueM::Num(x), ValueM::Num(y)) => if x < y {
            Err("number underflow"@)
        } else {
            Ok(ValueM::Num((x - y) as u64))
        },
        _ => Err("arithmetic needs numbers"@),
    }
}

/// Multiplication on script values: defined on numbers, rejecting overflow.
pub open spec fn apply_star(a: ValueM, b: ValueM) -> Result<ValueM, Seq<char>> {
    match (a, b) {
        (ValueM::Num(x), ValueM::Num(y)) => if y != 0 && (x as int) > (u64::MAX as int) / (
        y as int) {
            Err("number overflow"@)
        } else {
            Ok(ValueM::Num((x * y) as u64))
        },
        _ => Err("arithmetic needs numbers"@),
    }
}

/// The outcome of evaluating an expression: its value and end position, a
/// thrown runtime error, or a stuck marker for token shapes the syntax check
/// rules out.
pub enum EvOutM {
    Done { v: ValueM, j: int, log: Seq<(Seq<char>, Seq<char>)> },
    Thrown { msg: Seq<char>, log: Seq<(Seq<char>, Seq<char>)> },
    Stuck,
}

/// The outcome of evaluating a statement.
pub enum StOutM {
    Done { v: ValueM, j: int, env: Seq<(Seq<char>, ValueM)>, log: Seq<(Seq<char>, Seq<char>)> },
    Thrown { msg: Seq<char>, log: Seq<(Seq<char>, Seq<char>)> },
    Stuck,
}

/// The outcome of evaluating a whole script.
pub enum PrOutM {
    Done { v: ValueM, log: Seq<(Seq<char>, Seq<char>)> },
    Thrown { msg: Seq<char>, log: Seq<(Seq<char>, Seq<char>)> },
    Stuck,
}

/// Evaluates a factor.
pub open spec fn ev_factor(
    t: Seq<TokM>,
    i: int,
    fuel: nat,
    env: Seq<(Seq<char>, ValueM)>,
    binds: Seq<Seq<char>>,
    log: Seq<(Seq<char>, Seq<char>)>,
) -> EvOutM
    decreases fuel,
{
    if fuel == 0 || i < 0 || i >= t.len() {
        EvOutM::Stuck
    } else {
        match t[i] {
            TokM::Num(n) => EvOutM::Done { v: ValueM::Num(n), j: i + 1, log },
            TokM::Str(s) => EvOutM::Done { v: ValueM::Text(s), j: i + 1, log },
            TokM::Ident(x) => if i + 1 < t.len() && t[i + 1] is LParen {
                match ev_expr(t, i + 2, (fuel - 1) as nat, env, binds, log) {
                    EvOutM::Done { v, j, log } => if 0 <= j < t.len() && t[j] is RParen {
                        if binds.contains(x) {
                            EvOutM::Done {
                                v: ValueM::Undef,
                                j: j + 1,
                                log: log.push((x, to_text(v))),
                            }
                        } else if env_lookup(env, x) is Some {
                            EvOutM::Thrown { msg: x + " is not a function"@, log }
                        } else {
                            EvOutM::Thrown { msg: x + " is not defined"@, log }
                        }
                    } else {
                        EvOutM::Stuck
                    },
                    EvOutM::Thrown { msg, log } => EvOutM::Thrown { msg, log },
                    EvOutM::Stuck => EvOutM::Stuck,
                }
            } else {
                match env_lookup(env, x) {
                    Some(v) => EvOutM::Done { v, j: i + 1, log },
                    None => EvOutM::Thrown { msg: x + " is not defined"@, log },
                }
            },
            TokM::LParen => match ev_expr(t, i + 1, (fuel - 1) as nat, env, binds, log) {
                EvOutM::Done { v, j, log } => if 0 <= j < t.len() && t[j] is RParen {
                    EvOutM::Done { v, j: j + 1, log }
                } else {
                    EvOutM::Stuck
                },
                EvOutM::Thrown { msg, log } => EvOutM::Thrown { msg, log },
                EvOutM::Stuck => EvOutM::Stuck,
            },
            _ => EvOutM::Stuck,
        }
    }
}

/// Evaluates the `* factor` tail of a term, folding onto `acc`.
pub open spec fn ev_term_more(
    t: Seq<TokM>,
    i: int,
    fuel: nat,
    acc: ValueM,
    env: Seq<(Seq<char>, ValueM)>,
    binds: Seq<Seq<char>>,
    log: Seq<(Seq<char>, Seq<char>)>,
) -> EvOutM
    decreases fuel,
{
    if fuel == 0 {
        EvOutM::Stuck
    } else if 0 <= i < t.len() && t[i] is Star {
        match ev_factor(t, i + 1, (fuel - 1) as nat, env, binds, log) {
            EvOutM::Done { v, j, log } => match apply_star(acc, v) {
                Ok(nv) => ev_term_more(t, j, (fuel - 1) as nat, nv, env, binds, log),
                Err(msg) => EvOutM::Thrown { msg, log },
            },
            EvOutM::Thrown { msg, log } => EvOutM::Thrown { msg, log },
            EvOutM::Stuck => EvOutM::Stuck,
        }
    } else {
        EvOutM::Done { v: acc, j: i, log }
    }
}

/// Evaluates a term.
pub open spec fn ev_term(
    t: Seq<TokM>,
    i: int,
    fuel: nat,
    env: Seq<(Seq<char>, ValueM)>,
    binds: Seq<Seq<char>>,
    log: Seq<(Seq<char>, Seq<char>)>,
) -> EvOutM
    decreases fuel,
{
    if fuel == 0 {
        EvOutM::Stuck
    } else {
        match ev_factor(t, i, (fuel - 1) as nat, env, binds, log) {
            EvOutM::Done { v, j, log } => ev_term_more(
                t,
                j,
                (fuel - 1) as nat,
                v,
                env,
                binds,
                log,
            ),
            EvOutM::Thrown { msg, log } => EvOutM::Thrown { msg, log },
            EvOutM::Stuck => EvOutM::Stuck,
        }
    }
}

/// Evaluates the `+ term` / `- term` tail of an expression, folding onto
/// `acc`.
pub open spec fn ev_expr_more(
    t: Seq<TokM>,
    i: int,
    fuel: nat,
    acc: ValueM,
    env: Seq<(Seq<char>, ValueM)>,
    binds: Seq<Seq<char>>,
    log: Seq<(Seq<char>, Seq<char>)>,
) -> EvOutM
    decreases fuel,
{
    if fuel == 0 {
        EvOutM::Stuck
    } else if 0 <= i < t.len() && (t[i] is Plus || t[i] is Minus) {
        match ev_term(t, i + 1, (fuel - 1) as nat, env, binds, log) {
            EvOutM::Done { v, j, log } => match (if t[i] is Plus {
                apply_plus(acc, v)
            } else {
                apply_minus(acc, v)
            }) {
                Ok(nv) => ev_expr_more(t, j, (fuel - 1) as nat, nv, env, binds, log),
                Err(msg) => EvOutM::Thrown { msg, log },
            },
            EvOutM::Thrown { msg, log } => EvOutM::Thrown { msg, log },
            EvOutM::Stuck => EvOutM::Stuck,
        }
    } else {
        EvOutM::Done { v: acc, j: i, log }
    }
}

/// Evaluates an expression.
pub open spec fn ev_expr(
    t: Seq<TokM>,
    i: int,
    fuel: nat,
    env: Seq<(Seq<char>, ValueM)>,
    binds: Seq<Seq<char>>,
    log: Seq<(Seq<char>, Seq<char>)>,
) -> EvOutM
    decreases fuel,
{
    if fuel == 0 {
        EvOutM::Stuck
    } else {
        match ev_term(t, i, (fuel - 1) as nat, env, binds, log) {
            EvOutM::Done { v, j, log } => ev_expr_more(
                t,
                j,
                (fuel - 1) as nat,
                v,
                env,
                binds,
                log,
            ),
            EvOutM::Thrown { msg, log } => EvOutM::Thrown { msg, log },
            EvOutM::Stuck => EvOutM::Stuck,
        }
    }
}

/// Evaluates one statement: a declaration extends the scope, a `throw`
/// raises a runtime error, an expression yields its value.
pub open spec fn ev_stmt(
    t: Seq<TokM>,
    i: int,
    fuel: nat,
    env: Seq<(Seq<char>, ValueM)>,
    binds: Seq<Seq<char>>,
    log: Seq<(Seq<char>, Seq<char>)>,
) -> StOutM
    decreases fuel,
{
    if fuel == 0 || i < 0 || i >= t.len() {
        StOutM::Stuck
    } else if t[i] is KwLet || t[i] is KwVar {
        if i + 1 < t.len() && i + 2 < t.len() && t[i + 2] is Assign {
            match t[i + 1] {
                TokM::Ident(x) => match ev_expr(t, i + 3, (fuel - 1) as nat, env, binds, log) {
                    EvOutM::Done { v, j, log } => StOutM::Done {
                        v: ValueM::Undef,
                        j,
                        env: env.push((x, v)),
                        log,
                    },
                    EvOutM::Thrown { msg, log } => StOutM::Thrown { msg, log },
                    EvOutM::Stuck => StOutM::Stuck,
                },
                _ => StOutM::Stuck,
            }
        } else {
            StOutM::Stuck
        }
    } else if t[i] is KwThrow {
        if i + 1 < t.len() && t[i + 1] is KwNew && i + 2 < t.len() && i + 3 < t.len() && t[i + 3]
            is LParen {
            match t[i + 2] {
                TokM::Ident(ename) => match ev_expr(t, i + 4, (fuel - 1) as nat, env, binds, log) {
                    EvOutM::Done { v, j, log } => if 0 <= j < t.len() && t[j] is RParen {
                        StOutM::Thrown { msg: "Uncaught "@ + ename + ": "@ + to_text(v), log }
                    } else {
                        StOutM::Stuck
                    },
                    EvOutM::Thrown { msg, log } => StOutM::Thrown { msg, log },
                    EvOutM::Stuck => StOutM::Stuck,
                },
                _ => StOutM::Stuck,
            }
        } else {
            StOutM::Stuck
        }
    } else {
        match ev_expr(t, i, (fuel - 1) as nat, env, binds, log) {
            EvOutM::Done { v, j, log } => StOutM::Done { v, j, env, log },
            EvOutM::Thrown { msg, log } => StOutM::Thrown { msg, log },
            EvOutM::Stuck => StOutM::Stuck,
        }
    }
}

/// Evaluates a whole script: statements in order, the last one's value as
/// the result; `last` carries the value of the most recent statement.
pub open spec fn ev_program(
    t: Seq<TokM>,
    i: int,
    fuel: nat,
    env: Seq<(Seq<char>, ValueM)>,
    binds: Seq<Seq<char>>,
    log: Seq<(Seq<char>, Seq<char>)>,
    last: ValueM,
) -> PrOutM
    decreases fuel,
{
    if fuel == 0 {
        PrOutM::Stuck
    } else if i >= t.len() {
        PrOutM::Done { v: last, log }
    } else if i < 0 {
        PrOutM::Stuck
    } else if t[i] is Semi {
        ev_program(t, i + 1, (fuel - 1) as nat, env, binds, log, last)
    } else {
        match ev_stmt(t, i, (fuel - 1) as nat, env, binds, log) {
            StOutM::Done { v, j, env, log } => if j >= t.len() {
                PrOutM::Done { v, log }
            } else if 0 <= j && t[j] is Semi {
                ev_program(t, j + 1, (fuel - 1) as nat, env, binds, log, v)
            } else {
                PrOutM::Stuck
            },
            StOutM::Thrown { msg, log } => PrOutM::Thrown { msg, log },
            StOutM::Stuck => PrOutM::Stuck,
        }
    }
}

proof fn lemma_progress_factor(
    t: Seq<TokM>,
    i: int,
    fuel: nat,
    env: Seq<(Seq<char>, ValueM)>,
    binds: Seq<Seq<char>>,
    log: Seq<(Seq<char>, Seq<char>)>,
)
    requires
        crate::script::chk_factor(t, i, fuel) is Ok,
    ensures
        !(ev_factor(t, i, fuel, env, binds, log) is Stuck),
        (ev_factor(t, i, fuel, env, binds, log) matches EvOutM::Done { j, .. } ==> crate::script::chk_factor(
            t,
            i,
            fuel,
        ) == Ok::<int, Seq<char>>(j)),
    decreases fuel,
{
    match t[i] {
        TokM::Ident(_) => {
            if i + 1 < t.len() && t[i + 1] is LParen {
                lemma_progress_expr(t, i + 2, (fuel - 1) as nat, env, binds, log);
            }
        },
        TokM::LParen => {
            lemma_progress_expr(t, i + 1, (fuel - 1) as nat, env, binds, log);
        },
        _ => {},
    }
}

proof fn lemma_progress_term_more(
    t: Seq<TokM>,
    i: int,
    fuel: nat,
    acc: ValueM,
    env: Seq<(Seq<char>, ValueM)>,
    binds: Seq<Seq<char>>,
    log: Seq<(Seq<char>, Seq<char>)>,
)
    requires
        crate::script::chk_term_more(t, i, fuel) is Ok,
    ensures
        !(ev_term_more(t, i, fuel, acc, env, binds, log) is Stuck),
        (ev_term_more(t, i, fuel, acc, env, binds, log) matches EvOutM::Done { j, .. }
            ==> crate::script::chk_term_more(t, i, fuel) == Ok::<int, Seq<char>>(j)),
    decreases fuel,
{
    if 0 <= i < t.len() && t[i] is Star {
        lemma_progress_factor(t, i + 1, (fuel - 1) as nat, env, binds, log);
        match ev_factor(t, i + 1, (fuel - 1) as nat, env, binds, log) {
            EvOutM::Done { v, j, log: l2 } => {
                match apply_star(acc, v) {
                    Ok(nv) => {
                        lemma_progress_term_more(t, j, (fuel - 1) as nat, nv, env, binds, l2);
                    },
                    Err(_) => {},
                }
            },
            _ => {},
        }
    }
}

proof fn lemma_progress_term(
    t: Seq<TokM>,
    i: int,
    fuel: nat,
    env: Seq<(Seq<char>, ValueM)>,
    binds: Seq<Seq<char>>,
    log: Seq<(Seq<char>, Seq<char>)>,
)
    requires
        crate::script::chk_term(t, i, fuel) is Ok,
    ensures
        !(ev_term(t, i, fuel, env, binds, log) is Stuck),
        (ev_term(t, i, fuel, env, binds, log) matches EvOutM::Done { j, .. } ==> crate::script::chk_term(
            t,
            i,
            fuel,
        ) == Ok::<int, Seq<char>>(j)),
    decreases fuel,
{
    lemma_progress_factor(t, i, (fuel - 1) as nat, env, binds, log);
    match ev_factor(t, i, (fuel - 1) as nat, env, binds, log) {
        EvOutM::Done { v, j, log: l2 } => {
            lemma_progress_term_more(t, j, (fuel - 1) as nat, v, env, binds, l2);
        },
        _ => {},
    }
}

proof fn lemma_progress_expr_more(
    t: Seq<TokM>,
    i: int,
    fuel: nat,
    acc: ValueM,
    env: Seq<(Seq<char>, ValueM)>,
    binds: Seq<Seq<char>>,
    log: Seq<(Seq<char>, Seq<char>)>,
)
    requires
        crate::script::chk_expr_more(t, i, fuel) is Ok,
    ensures
        !(ev_expr_more(t, i, fuel, acc, env, binds, log) is Stuck),
        (ev_expr_more(t, i, fuel, acc, env, binds, log) matches EvOutM::Done { j, .. }
            ==> crate::script::chk_expr_more(t, i, fuel) == Ok::<int, Seq<char>>(j)),
    decreases fuel,
{
    if 0 <= i < t.len() && (t[i] is Plus || t[i] is Minus) {
        lemma_progress_term(t, i + 1, (fuel - 1) as nat, env, binds, log);
        match ev_term(t, i + 1, (fuel - 1) as nat, env, binds, log) {
            EvOutM::Done { v, j, log: l2 } => {
                let folded = if t[i] is Plus {
                    apply_plus(acc, v)
                } else {
                    apply_minus(acc, v)
                };
                match folded {
                    Ok(nv) => {
                        lemma_progress_expr_more(t, j, (fuel - 1) as nat, nv, env, binds, l2);
                    },
                    Err(_) => {},
                }
            },
            _ => {},
        }
    }
}

proof fn lemma_progress_expr(
    t: Seq<TokM>,
    i: int,
    fuel: nat,
    env: Seq<(Seq<char>, ValueM)>,
    binds: Seq<Seq<char>>,
    log: Seq<(Seq<char>, Seq<char>)>,
)
    requires
        crate::script::chk_expr(t, i, fuel) is Ok,
    ensures
        !(ev_expr(t, i, fuel, env, binds, log) is Stuck),
        (ev_expr(t, i, fuel, env, binds, log) matches EvOutM::Done { j, .. } ==> crate::script::chk_expr(
            t,
            i,
            fuel,
        ) == Ok::<int, Seq<char>>(j)),
    decreases fuel,
{
    lemma_progress_term(t, i, (fuel - 1) as nat, env, binds, log);
    match ev_term(t, i, (fuel - 1) as nat, env, binds, log) {
        EvOutM::Done { v, j, log: l2 } => {
            lemma_progress_expr_more(t, j, (fuel - 1) as nat, v, env, binds, l2);
        },
        _ => {},
    }
}

proof fn lemma_progress_stmt(
    t: Seq<TokM>,
    i: int,
    fuel: nat,
    env: Seq<(Seq<char>, ValueM)>,
    binds: Seq<Seq<char>>,
    log: Seq<(Seq<char>, Seq<char>)>,
)
    requires
        crate::script::chk_stmt(t, i, fuel) is Ok,
    ensures
        !(ev_stmt(t, i, fuel, env, binds, log) is Stuck),
        (ev_stmt(t, i, fuel, env, binds, log) matches StOutM::Done { j, .. } ==> crate::script::chk_stmt(
            t,
            i,
            fuel,
        ) == Ok::<int, Seq<char>>(j)),
    decreases fuel,
{
    if t[i] is KwLet || t[i] is KwVar {
        lemma_progress_expr(t, i + 3, (fuel - 1) as nat, env, binds, log);
    } else if t[i] is KwThrow {
        lemma_progress_expr(t, i + 4, (fuel - 1) as nat, env, binds, log);
    } else {
        lemma_progress_expr(t, i, (fuel - 1) as nat, env, binds, log);
    }
}

proof fn lemma_progress_program(
    t: Seq<TokM>,
    i: int,
    fuel: nat,
    env: Seq<(Seq<char>, ValueM)>,
    binds: Seq<Seq<char>>,
    log: Seq<(Seq<char>, Seq<char>)>,
    last: ValueM,
)
    requires
        crate::script::chk_program(t, i, fuel) is Ok,
    ensures
        !(ev_program(t, i, fuel, env, binds, log, last) is Stuck),
    decreases fuel,
{
    if fuel == 0 || i >= t.len() {
    } else if t[i] is Semi {
        lemma_progress_program(t, i + 1, (fuel - 1) as nat, env, binds, log, last);
    } else {
        lemma_progress_stmt(t, i, (fuel - 1) as nat, env, binds, log);
        match ev_stmt(t, i, (fuel - 1) as nat, env, binds, log) {
            StOutM::Done { v, j, env: env2, log: log2 } => {
                if j < t.len() {
                    lemma_progress_program(t, j + 1, (fuel - 1) as nat, env2, binds, log2, v);
                }
            },
            _ => {},
        }
    }
}

/// Progress of the sandbox: a script that passes the syntax check never gets
/// stuck in the evaluator — every run of a compiled script either completes
/// with a value or raises a script-level error, so `run` reports its
/// internal-error marker for no input at all.
pub proof fn lemma_compiled_scripts_execute(s: Seq<char>, binds: Seq<Seq<char>>)
    ensures
        match spec_tokenize(s, 0) {
            Ok(toks) => (toks.len() <= (usize::MAX - 8) / 4 && crate::script::chk_program(
                toks,
                0,
                (4 * toks.len() + 8) as nat,
            ) is Ok) ==> !(ev_program(
                toks,
                0,
                (4 * toks.len() + 8) as nat,
                Seq::empty(),
                binds,
                Seq::empty(),
                ValueM::Undef,
            ) is Stuck),
            Err(_) => true,
        },
{
    match spec_tokenize(s, 0) {
        Ok(toks) => {
            if toks.len() <= (usize::MAX - 8) / 4 && crate::script::chk_program(
                toks,
                0,
                (4 * toks.len() + 8) as nat,
            ) is Ok {
                lemma_progress_program(
                    toks,
                    0,
                    (4 * toks.len() + 8) as nat,
                    Seq::empty(),
                    binds,
                    Seq::empty(),
                    ValueM::Undef,
                );
            }
        },
        Err(_) => {},
    }
}

/// A copy of a value.
fn clone_value(v: &Value) -> (r: Value)
    ensures
        r@ == v@,
{
    match v {
        Value::Num(n) => Value::Num(*n),
        Value::Text(s) => Value::Text(clone_chars(s)),
        Value::Undefined => Value::Undefined,
    }
}

/// The textual representation of a value.
fn value_text(v: &Value) -> (r: Vec<char>)
    ensures
        r@ == to_text(v@),
{
    match v {
        Value::Num(n) => dec_chars(*n),
        Value::Text(s) => clone_chars(s),
        Value::Undefined => chars_of("undefined"),
    }
}

/// Looks a name up in the scope, the most recent declaration winning.
#[verifier::loop_isolation(false)]
fn env_get(env: &Vec<(Vec<char>, Value)>, x: &Vec<char>) -> (r: Option<Value>)
    ensures
        match r {
            Some(v) => env_lookup(env_view(env@), x@) == Some(v@),
            None => env_lookup(env_view(env@), x@) is None,
        },
{
    let mut j: usize = env.len();
    proof {
        assert(env_view(env@).take(j as int) =~= env_view(env@));
    }
    while j > 0
        invariant
            j <= env@.len(),
            env_lookup(env_view(env@), x@) == env_lookup(env_view(env@).take(j as int), x@),
        decreases j,
    {
        j -= 1;
        proof {
            assert(env_view(env@).take(j + 1 as int).drop_last() =~= env_view(env@).take(j as int));
            assert(env_view(env@).take(j + 1 as int).last() == env_view(env@)[j as int]);
        }
        if chars_eq(&env[j].0, x) {
            return Some(clone_value(&env[j].1));
        }
    }
    proof {
        assert(env_view(env@).take(0) =~= Seq::<(Seq<char>, ValueM)>::empty());
    }
    None
}

/// Whether a binding with this name is registered.
#[verifier::loop_isolation(false)]
fn binds_contains(binds: &Vec<HostBinding>, x: &Vec<char>) -> (r: bool)
    ensures
        r == binds_view(binds@).contains(x@),
{
    let mut i: usize = 0;
    while i < binds.len()
        invariant
            i <= binds@.len(),
            forall|k: int| 0 <= k < i ==> binds_view(binds@)[k] != x@,
        decreases binds@.len() - i,
    {
        if chars_eq_str(x, binds[i].name.as_str()) {
            proof {
                assert(binds_view(binds@)[i as int] == x@);
            }
            return true;
        }
        i += 1;
    }
    proof {
        assert(forall|k: int| 0 <= k < binds_view(binds@).len() ==> binds_view(binds@)[k] != x@);
    }
    false
}

proof fn lemma_log_push(l: Seq<HostCall>, c: HostCall)
    ensures
        log_view(l.push(c)) == log_view(l).push((c.binding@, c.argument@)),
{
    assert(log_view(l.push(c)) =~= log_view(l).push((c.binding@, c.argument@)));
}

proof fn lemma_env_push(e: Seq<(Vec<char>, Value)>, x: Vec<char>, v: Value)
    ensures
        env_view(e.push((x, v))) == env_view(e).push((x@, v@)),
{
    assert(env_view(e.push((x, v))) =~= env_view(e).push((x@, v@)));
}

/// Appends `suffix`'s characters to `base`.
fn push_chars(base: &mut Vec<char>, suffix: &str)
    ensures
        final(base)@ == old(base)@ + suffix@,
{
    let mut tail = chars_of(suffix);
    base.append(&mut tail);
}

/// Appends another character vector's contents to `base`.
#[verifier::loop_isolation(false)]
fn push_chars_vec(base: &mut Vec<char>, suffix: &Vec<char>)
    ensures
        final(base)@ == old(base)@ + suffix@,
{
    let mut i: usize = 0;
    proof {
        assert(base@ =~= old(base)@ + suffix@.take(0));
    }
    while i < suffix.len()
        invariant
            i <= suffix@.len(),
            base@ == old(base)@ + suffix@.take(i as int),
        decreases suffix@.len() - i,
    {
        base.push(suffix[i]);
        proof {
            assert(old(base)@ + suffix@.take(i as int) + seq![suffix@[i as int]] =~= old(base)@
                + suffix@.take(i + 1 as int));
        }
        i += 1;
    }
    proof {
        assert(old(base)@ + suffix@.take(suffix@.len() as int) =~= old(base)@ + suffix@);
    }
}

/// An executable expression outcome.
pub enum EvalStep {
    Done(Value, usize),
    Thrown(Vec<char>),
    Stuck,
}

/// An executable statement outcome.
pub enum StmtStep {
    Done(Value, usize),
    Thrown(Vec<char>),
    Stuck,
}

/// An executable script outcome.
pub enum ProgStep {
    Done(Value),
    Thrown(Vec<char>),
    Stuck,
}

/// An executable expression outcome against its mathematical mirror.
pub open spec fn ev_matches(r: EvalStep, logv: Seq<(Seq<char>, Seq<char>)>, m: EvOutM) -> bool {
    match m {
        EvOutM::Done { v, j, log } => r matches EvalStep::Done(rv, rj) && rv@ == v && rj as int
            == j && logv == log,
        EvOutM::Thrown { msg, log } => r matches EvalStep::Thrown(rm) && rm@ == msg && logv == log,
        EvOutM::Stuck => r is Stuck,
    }
}

/// An executable statement outcome against its mathematical mirror.
pub open spec fn st_matches(
    r: StmtStep,
    envv: Seq<(Seq<char>, ValueM)>,
    logv: Seq<(Seq<char>, Seq<char>)>,
    m: StOutM,
) -> bool {
    match m {
        StOutM::Done { v, j, env, log } => r matches StmtStep::Done(rv, rj) && rv@ == v && rj
            as int == j && envv == env && logv == log,
        StOutM::Thrown { msg, log } => r matches StmtStep::Thrown(rm) && rm@ == msg && logv == log,
        StOutM::Stuck => r is Stuck,
    }
}

/// An executable script outcome against its mathematical mirror.
pub open spec fn pr_matches(r: ProgStep, logv: Seq<(Seq<char>, Seq<char>)>, m: PrOutM) -> bool {
    match m {
        PrOutM::Done { v, log } => r matches ProgStep::Done(rv) && rv@ == v && logv == log,
        PrOutM::Thrown { msg, log } => r matches ProgStep::Thrown(rm) && rm@ == msg && logv == log,
        PrOutM::Stuck => r is Stuck,
    }
}

/// An executable arithmetic result against its mathematical mirror.
pub open spec fn val_res_matches(r: Result<Value, Vec<char>>, m: Result<ValueM, Seq<char>>) -> bool {
    match r {
        Ok(v) => m matches Ok(mv) && v@ == mv,
        Err(e) => m matches Err(ms) && e@ == ms,
    }
}

fn op_plus_x(a: &Value, b: &Value) -> (r: Result<Value, Vec<char>>)
    ensures
        val_res_matches(r, apply_plus(a@, b@)),
{
    match (a, b) {
        (Value::Num(x), Value::Num(y)) => {
            if *x > u64::MAX - *y {
                Err(chars_of("number overflow"))
            } else {
                Ok(Value::Num(*x + *y))
            }
        },
        _ => Err(chars_of("arithmetic needs numbers")),
    }
}

fn op_minus_x(a: &Value, b: &Value) -> (r: Result<Value, Vec<char>>)
    ensures
        val_res_matches(r, apply_minus(a@, b@)),
{
    match (a, b) {
        (Value::Num(x), Value::Num(y)) => {
            if *x < *y {
                Err(chars_of("number underflow"))
            } else {
                Ok(Value::Num(*x - *y))
            }
        },
        _ => Err(chars_of("arithmetic needs numbers")),
    }
}

fn op_star_x(a: &Value, b: &Value) -> (r: Result<Value, Vec<char>>)
    ensures
        val_res_matches(r, apply_star(a@, b@)),
{
    match (a, b) {
        (Value::Num(x), Value::Num(y)) => {
            if *y != 0 && *x > u64::MAX / *y {
                Err(chars_of("number overflow"))
            } else {
                proof {
                    if *y != 0 {
                        lemma_fundamental_div_mod(u64::MAX as int, *y as int);
                        lemma_mod_bound(u64::MAX as int, *y as int);
                        lemma_mul_inequality(*x as int, (u64::MAX / *y) as int, *y as int);
                        assert((*x as int) * (*y as int) <= u64::MAX);
                    }
                }
                Ok(Value::Num(*x * *y))
            }
        },
        _ => Err(chars_of("arithmetic needs numbers")),
    }
}

fn ev_factor_x(
    t: &Vec<Tok>,
    i: usize,
    fuel: usize,
    env: &Vec<(Vec<char>, Value)>,
    binds: &Vec<HostBinding>,
    log: &mut Vec<HostCall>,
) -> (r: EvalStep)
    ensures
        ev_matches(
            r,
            log_view(final(log)@),
            ev_factor(
                toks_view(t@),
                i as int,
                fuel as nat,
                env_view(env@),
                binds_view(binds@),
                log_view(old(log)@),
            ),
        ),
    decreases fuel,
{
    if fuel == 0 || i >= t.len() {
        return EvalStep::Stuck;
    }
    match &t[i] {
        Tok::Num(n) => EvalStep::Done(Value::Num(*n), i + 1),
        Tok::Str(s) => EvalStep::Done(Value::Text(clone_chars(s)), i + 1),
        Tok::Ident(x) => {
            if i + 1 < t.len() && matches!(&t[i + 1], Tok::LParen) {
                match ev_expr_x(t, i + 2, fuel - 1, env, binds, log) {
                    EvalStep::Done(v, j) => {
                        if j < t.len() && matches!(&t[j], Tok::RParen) {
                            if binds_contains(binds, x) {
                                let text = value_text(&v);
                                let call = HostCall {
                                    binding: string_of_chars(x),
                                    argument: string_of_chars(&text),
                                };
                                proof {
                                    lemma_log_push(log@, call);
                                }
                                log.push(call);
                                EvalStep::Done(Value::Undefined, j + 1)
                            } else {
                                let mut msg = clone_chars(x);
                                match env_get(env, x) {
                                    Some(_) => {
                                        push_chars(&mut msg, " is not a function");
                                        EvalStep::Thrown(msg)
                                    },
                                    None => {
                                        push_chars(&mut msg, " is not defined");
                                        EvalStep::Thrown(msg)
                                    },
                                }
                            }
                        } else {
                            EvalStep::Stuck
                        }
                    },
                    EvalStep::Thrown(m) => EvalStep::Thrown(m),
                    EvalStep::Stuck => EvalStep::Stuck,
                }
            } else {
                match env_get(env, x) {
                    Some(v) => EvalStep::Done(v, i + 1),
                    None => {
                        let mut msg = clone_chars(x);
                        push_chars(&mut msg, " is not defined");
                        EvalStep::Thrown(msg)
                    },
                }
            }
        },
        Tok::LParen => {
            match ev_expr_x(t, i + 1, fuel - 1, env, binds, log) {
                EvalStep::Done(v, j) => {
                    if j < t.len() && matches!(&t[j], Tok::RParen) {
                        EvalStep::Done(v, j + 1)
                    } else {
                        EvalStep::Stuck
                    }
                },
                EvalStep::Thrown(m) => EvalStep::Thrown(m),
                EvalStep::Stuck => EvalStep::Stuck,
            }
        },
        _ => EvalStep::Stuck,
    }
}

fn ev_term_more_x(
    t: &Vec<Tok>,
    i: usize,
    fuel: usize,
    acc: Value,
    env: &Vec<(Vec<char>, Value)>,
    binds: &Vec<HostBinding>,
    log: &mut Vec<HostCall>,
) -> (r: EvalStep)
    ensures
        ev_matches(
            r,
            log_view(final(log)@),
            ev_term_more(
                toks_view(t@),
                i as int,
                fuel as nat,
                acc@,
                env_view(env@),
                binds_view(binds@),
                log_view(old(log)@),
            ),
        ),
    decreases fuel,
{
    if fuel == 0 {
        return EvalStep::Stuck;
    }
    if i < t.len() && matches!(&t[i], Tok::Star) {
        match ev_factor_x(t, i + 1, fuel - 1, env, binds, log) {
            EvalStep::Done(v, j) => {
                match op_star_x(&acc, &v) {
                    Ok(nv) => ev_term_more_x(t, j, fuel - 1, nv, env, binds, log),
                    Err(m) => EvalStep::Thrown(m),
                }
            },
            EvalStep::Thrown(m) => EvalStep::Thrown(m),
            EvalStep::Stuck => EvalStep::Stuck,
        }
    } else {
        EvalStep::Done(acc, i)
    }
}

fn ev_term_x(
    t: &Vec<Tok>,
    i: usize,
    fuel: usize,
    env: &Vec<(Vec<char>, Value)>,
    binds: &Vec<HostBinding>,
    log: &mut Vec<HostCall>,
) -> (r: EvalStep)
    ensures
        ev_matches(
            r,
            log_view(final(log)@),
            ev_term(
                toks_view(t@),
                i as int,
                fuel as nat,
                env_view(env@),
                binds_view(binds@),
                log_view(old(log)@),
            ),
        ),
    decreases fuel,
{
    if fuel == 0 {
        return EvalStep::Stuck;
    }
    match ev_factor_x(t, i, fuel - 1, env, binds, log) {
        EvalStep::Done(v, j) => ev_term_more_x(t, j, fuel - 1, v, env, binds, log),
        EvalStep::Thrown(m) => EvalStep::Thrown(m),
        EvalStep::Stuck => EvalStep::Stuck,
    }
}

fn ev_expr_more_x(
    t: &Vec<Tok>,
    i: usize,
    fuel: usize,
    acc: Value,
    env: &Vec<(Vec<char>, Value)>,
    binds: &Vec<HostBinding>,
    log: &mut Vec<HostCall>,
) -> (r: EvalStep)
    ensures
        ev_matches(
            r,
            log_view(final(log)@),
            ev_expr_more(
                toks_view(t@),
                i as int,
                fuel as nat,
                acc@,
                env_view(env@),
                binds_view(binds@),
                log_view(old(log)@),
            ),
        ),
    decreases fuel,
{
    if fuel == 0 {
        return EvalStep::Stuck;
    }
    if i < t.len() && (matches!(&t[i], Tok::Plus) || matches!(&t[i], Tok::Minus)) {
        let plus = matches!(&t[i], Tok::Plus);
        match ev_term_x(t, i + 1, fuel - 1, env, binds, log) {
            EvalStep::Done(v, j) => {
                let folded = if plus {
                    op_plus_x(&acc, &v)
                } else {
                    op_minus_x(&acc, &v)
                };
                match folded {
                    Ok(nv) => ev_expr_more_x(t, j, fuel - 1, nv, env, binds, log),
                    Err(m) => EvalStep::Thrown(m),
                }
            },
            EvalStep::Thrown(m) => EvalStep::Thrown(m),
            EvalStep::Stuck => EvalStep::Stuck,
        }
    } else {
        EvalStep::Done(acc, i)
    }
}

fn ev_expr_x(
    t: &Vec<Tok>,
    i: usize,
    fuel: usize,
    env: &Vec<(Vec<char>, Value)>,
    binds: &Vec<HostBinding>,
    log: &mut Vec<HostCall>,
) -> (r: EvalStep)
    ensures
        ev_matches(
            r,
            log_view(final(log)@),
            ev_expr(
                toks_view(t@),
                i as int,
                fuel as nat,
                env_view(env@),
                binds_view(binds@),
                log_view(old(log)@),
            ),
        ),
    decreases fuel,
{
    if fuel == 0 {
        return EvalStep::Stuck;
    }
    match ev_term_x(t, i, fuel - 1, env, binds, log) {
        EvalStep::Done(v, j) => ev_expr_more_x(t, j, fuel - 1, v, env, binds, log),
        EvalStep::Thrown(m) => EvalStep::Thrown(m),
        EvalStep::Stuck => EvalStep::Stuck,
    }
}

fn ev_stmt_x(
    t: &Vec<Tok>,
    i: usize,
    fuel: usize,
    env: &mut Vec<(Vec<char>, Value)>,
    binds: &Vec<HostBinding>,
    log: &mut Vec<HostCall>,
) -> (r: StmtStep)
    ensures
        st_matches(
            r,
            env_view(final(env)@),
            log_view(final(log)@),
            ev_stmt(
                toks_view(t@),
                i as int,
                fuel as nat,
                env_view(old(env)@),
                binds_view(binds@),
                log_view(old(log)@),
            ),
        ),
    decreases fuel,
{
    if fuel == 0 || i >= t.len() {
        return StmtStep::Stuck;
    }
    if matches!(&t[i], Tok::KwLet) || matches!(&t[i], Tok::KwVar) {
        if i + 1 < t.len() && i + 2 < t.len() && matches!(&t[i + 2], Tok::Assign) {
            let name: Vec<char> = match &t[i + 1] {
                Tok::Ident(x) => clone_chars(x),
                _ => {
                    return StmtStep::Stuck;
                },
            };
            match ev_expr_x(t, i + 3, fuel - 1, env, binds, log) {
                EvalStep::Done(v, j) => {
                    proof {
                        lemma_env_push(env@, name, v);
                    }
                    env.push((name, v));
                    StmtStep::Done(Value::Undefined, j)
                },
                EvalStep::Thrown(m) => StmtStep::Thrown(m),
                EvalStep::Stuck => StmtStep::Stuck,
            }
        } else {
            StmtStep::Stuck
        }
    } else if matches!(&t[i], Tok::KwThrow) {
        if i + 1 < t.len() && matches!(&t[i + 1], Tok::KwNew) && i + 2 < t.len() && i + 3 < t.len()
            && matches!(&t[i + 3], Tok::LParen) {
            let ename: Vec<char> = match &t[i + 2] {
                Tok::Ident(x) => clone_chars(x),
                _ => {
                    return StmtStep::Stuck;
                },
            };
            match ev_expr_x(t, i + 4, fuel - 1, env, binds, log) {
                EvalStep::Done(v, j) => {
                    if j < t.len() && matches!(&t[j], Tok::RParen) {
                        let mut msg = chars_of("Uncaught ");
                        push_chars_vec(&mut msg, &ename);
                        push_chars(&mut msg, ": ");
                        let text = value_text(&v);
                        push_chars_vec(&mut msg, &text);
                        StmtStep::Thrown(msg)
                    } else {
                        StmtStep::Stuck
                    }
                },
                EvalStep::Thrown(m) => StmtStep::Thrown(m),
                EvalStep::Stuck => StmtStep::Stuck,
            }
        } else {
            StmtStep::Stuck
        }
    } else {
        match ev_expr_x(t, i, fuel - 1, env, binds, log) {
            EvalStep::Done(v, j) => StmtStep::Done(v, j),
            EvalStep::Thrown(m) => StmtStep::Thrown(m),
            EvalStep::Stuck => StmtStep::Stuck,
        }
    }
}

fn ev_program_x(
    t: &Vec<Tok>,
    i: usize,
    fuel: usize,
    env: &mut Vec<(Vec<char>, Value)>,
    binds: &Vec<HostBinding>,
    log: &mut Vec<HostCall>,
    last: Value,
) -> (r: ProgStep)
    ensures
        pr_matches(
            r,
            log_view(final(log)@),
            ev_program(
                toks_view(t@),
                i as int,
                fuel as nat,
                env_view(old(env)@),
                binds_view(binds@),
                log_view(old(log)@),
                last@,
            ),
        ),
    decreases fuel,
{
    if fuel == 0 {
        return ProgStep::Stuck;
    }
    if i >= t.len() {
        return ProgStep::Done(last);
    }
    if matches!(&t[i], Tok::Semi) {
        return ev_program_x(t, i + 1, fuel - 1, env, binds, log, last);
    }
    match ev_stmt_x(t, i, fuel - 1, env, binds, log) {
        StmtStep::Done(v, j) => {
            if j >= t.len() {
                ProgStep::Done(v)
            } else if matches!(&t[j], Tok::Semi) {
                ev_program_x(t, j + 1, fuel - 1, env, binds, log, v)
            } else {
                ProgStep::Stuck
            }
        },
        StmtStep::Thrown(m) => ProgStep::Thrown(m),
        StmtStep::Stuck => ProgStep::Stuck,
    }
}

/// Why a run failed: the script did not compile, or it raised an error
/// while executing. The two are always reported distinctly.
#[derive(Debug)]
pub enum ExecError {
    CompileError(String),
    RuntimeError(String),
}

/// A run error, as mathematical data.
pub enum ErrM {
    Compile(Seq<char>),
    Runtime(Seq<char>),
}

/// The textual representation of a completed script's final value.
#[derive(Debug)]
pub struct ScriptResult {
    pub text: String,
}

/// Everything one run produced: its result and the log of host-binding
/// invocations it made, in order.
pub struct RunOutput {
    pub result: Result<ScriptResult, ExecError>,
    pub calls: Vec<HostCall>,
}

/// A run outcome, as mathematical data.
pub struct RunM {
    pub result: Result<Seq<char>, ErrM>,
    pub log: Seq<(Seq<char>, Seq<char>)>,
}

/// The outcome of running `s` with the given binding names: a function of
/// the script text and the binding names alone, starting from an empty
/// global scope and an empty call log.
pub open spec fn spec_run(s: Seq<char>, binds: Seq<Seq<char>>) -> RunM {
    match spec_tokenize(s, 0) {
        Err(m) => RunM { result: Err(ErrM::Compile(m)), log: Seq::empty() },
        Ok(toks) => if toks.len() > (usize::MAX - 8) / 4 {
            RunM { result: Err(ErrM::Compile("script too long"@)), log: Seq::empty() }
        } else {
            let fuel = (4 * toks.len() + 8) as nat;
            match chk_program(toks, 0, fuel) {
                Err(m) => RunM { result: Err(ErrM::Compile(m)), log: Seq::empty() },
                Ok(_) => match ev_program(
                    toks,
                    0,
                    fuel,
                    Seq::empty(),
                    binds,
                    Seq::empty(),
                    ValueM::Undef,
                ) {
                    PrOutM::Done { v, log } => RunM { result: Ok(to_text(v)), log },
                    PrOutM::Thrown { msg, log } => RunM { result: Err(ErrM::Runtime(msg)), log },
                    PrOutM::Stuck => RunM {
                        result: Err(ErrM::Runtime("internal evaluation error"@)),
                        log: Seq::empty(),
                    },
                },
            }
        },
    }
}

/// An executable run result against its mathematical mirror.
pub open spec fn run_result_matches(
    r: Result<ScriptResult, ExecError>,
    m: Result<Seq<char>, ErrM>,
) -> bool {
    match r {
        Ok(sr) => m matches Ok(txt) && sr.text@ == txt,
        Err(ExecError::CompileError(s)) => m matches Err(ErrM::Compile(ms)) && s@ == ms,
        Err(ExecError::RuntimeError(s)) => m matches Err(ErrM::Runtime(ms)) && s@ == ms,
    }
}

/// A run's executable output against its mathematical mirror.
pub open spec fn run_output_matches(out: RunOutput, m: RunM) -> bool {
    &&& log_view(out.calls@) == m.log
    &&& run_result_matches(out.result, m.result)
}

/// Runs one script in a fresh, isolated context with the given host
/// bindings, and reports both the result and the log of binding
/// invocations. Each call builds its own empty global scope, so no state
/// flows between runs.
pub fn run_with_log(script_text: &str, bindings: &Vec<HostBinding>) -> (out: RunOutput)
    ensures
        run_output_matches(out, spec_run(script_text@, binds_view(bindings@))),
{
    proof {
        assert(log_view(Seq::<HostCall>::empty()) =~= Seq::<(Seq<char>, Seq<char>)>::empty());
    }
    let chars = chars_of(script_text);
    let toks = match tokenize(&chars) {
        Ok(ts) => ts,
        Err(m) => {
            return RunOutput {
                result: Err(ExecError::CompileError(string_of_chars(&m))),
                calls: Vec::new(),
            };
        },
    };
    if toks.len() > (usize::MAX - 8) / 4 {
        return RunOutput {
            result: Err(ExecError::CompileError(String::from_str("script too long"))),
            calls: Vec::new(),
        };
    }
    let fuel: usize = 4 * toks.len() + 8;
    match chk_program_x(&toks, 0, fuel) {
        Ok(_) => {},
        Err(m) => {
            return RunOutput {
                result: Err(ExecError::CompileError(string_of_chars(&m))),
                calls: Vec::new(),
            };
        },
    }
    let mut env: Vec<(Vec<char>, Value)> = Vec::new();
    let mut log: Vec<HostCall> = Vec::new();
    proof {
        assert(env_view(env@) =~= Seq::<(Seq<char>, ValueM)>::empty());
        assert(log_view(log@) =~= Seq::<(Seq<char>, Seq<char>)>::empty());
    }
    match ev_program_x(&toks, 0, fuel, &mut env, bindings, &mut log, Value::Undefined) {
        ProgStep::Done(v) => {
            let text = value_text(&v);
            RunOutput { result: Ok(ScriptResult { text: string_of_chars(&text) }), calls: log }
        },
        ProgStep::Thrown(m) => {
            RunOutput { result: Err(ExecError::RuntimeError(string_of_chars(&m))), calls: log }
        },
        ProgStep::Stuck => {
            proof {
                assert(log_view(Seq::<HostCall>::empty()) =~= Seq::<(Seq<char>, Seq<char>)>::empty());
            }
            RunOutput {
                result: Err(ExecError::RuntimeError(String::from_str("internal evaluation error"))),
                calls: Vec::new(),
            }
        },
    }
}

/// Runs one script in a fresh, isolated context with the given host
/// bindings. A syntax error is reported as `CompileError` before any code
/// runs; an error raised while executing is reported as `RuntimeError`; a
/// completed script yields the textual representation of its final value.
pub fn run(script_text: &str, bindings: &Vec<HostBinding>) -> (r: Result<ScriptResult, ExecError>)
    ensures
        run_result_matches(r, spec_run(script_text@, binds_view(bindings@)).result),
{
    let out = run_with_log(script_text, bindings);
    out.result
}

/// Runs several scripts in order with one shared binding list. Isolation of
/// the sandbox, stated over the whole sequence: every run's output is
/// exactly that of running its script alone — the position of a script in
/// the sequence, and whatever the earlier scripts declared, leave no trace
/// on the later runs.
pub fn run_sequence(scripts: &Vec<String>, bindings: &Vec<HostBinding>) -> (outs: Vec<RunOutput>)
    ensures
        outs@.len() == scripts@.len(),
        forall|k: int| 0 <= k < scripts@.len() ==> run_output_matches(
            #[trigger] outs@[k],
            spec_run(scripts@[k]@, binds_view(bindings@)),
        ),
{
    let mut outs: Vec<RunOutput> = Vec::new();
    let mut i: usize = 0;
    while i < scripts.len()
        invariant
            i <= scripts@.len(),
            outs@.len() == i,
            forall|k: int| 0 <= k < i ==> run_output_matches(
                #[trigger] outs@[k],
                spec_run(scripts@[k]@, binds_view(bindings@)),
            ),
        decreases scripts@.len() - i,
    {
        let out = run_with_log(scripts[i].as_str(), bindings);
        outs.push(out);
        i += 1;
    }
    outs
}

} // verus!
