//! The tree-walking executor. Its meaning is given by `exec` and `eval` below: a
//! big-step semantics over the program's abstract syntax with a fuel bound. Each loop
//! iteration and each procedure call spends one unit of fuel, so every run ends;
//! a run that needs more fuel than it was given stops with `Halt::OutOfFuel`.
use vstd::prelude::*;
use vstd::string::*;
use crate::ast::{
    decl_view, decls_view, exprs_view, lemma_decls_view_len, lemma_exprs_view_len, params_view,
    BinaryOperator, CallProcedure, CallV, CmdV, Command, ConcreteValue, DeclV, Declaration,
    Expression, ExprV, IOCommand, ParamV, Program, UnaryOperator, Value, ValueV,
};
use crate::diagnostics::{message, moved_read, unbound_assignment, unbound_procedure, unbound_read, Diagnostic};
use crate::runtime::{ProcBody, RtModel, RuntimeEnvironment};
use crate::semantic::{binary_accepts, strings, unary_operand_type, value_type};
use crate::text::{
    chars_of, digits_value, int_string, int_text, is_digit, lemma_digits_value_monotone,
    lemma_skip_digits_bounds, scan_digits, skip_digits,
};

verus! {

/// Why evaluation stopped. `Reported` means a problem was recorded and the command
/// at hand is abandoned while the run goes on; the others end the run.
#[derive(Debug, Clone, Copy, PartialEq, Eq, Structural)]
pub enum Halt {
    Reported,
    InvalidOperands,
    Overflow,
    OutOfFuel,
}

pub open spec fn unary_value(op: UnaryOperator, v: ValueV) -> Result<ValueV, Halt> {
    match (op, v) {
        (UnaryOperator::Neg, ValueV::Int(n)) => if n == i64::MIN {
            Err(Halt::Overflow)
        } else {
            Ok(ValueV::Int((-n) as i64))
        },
        (UnaryOperator::Not, ValueV::Bool(b)) => Ok(ValueV::Bool(!b)),
        (UnaryOperator::Length, ValueV::Str(s)) => if s.len() > i64::MAX {
            Err(Halt::Overflow)
        } else {
            Ok(ValueV::Int(s.len() as i64))
        },
        _ => Err(Halt::InvalidOperands),
    }
}

pub open spec fn int_result(n: int) -> Result<ValueV, Halt> {
    if i64::MIN <= n <= i64::MAX {
        Ok(ValueV::Int(n as i64))
    } else {
        Err(Halt::Overflow)
    }
}

pub open spec fn binary_value(op: BinaryOperator, a: ValueV, b: ValueV) -> Result<ValueV, Halt> {
    match (op, a, b) {
        (BinaryOperator::Add, ValueV::Int(x), ValueV::Int(y)) => int_result(x + y),
        (BinaryOperator::Sub, ValueV::Int(x), ValueV::Int(y)) => int_result(x - y),
        (BinaryOperator::Equal, ValueV::Int(x), ValueV::Int(y)) => Ok(ValueV::Bool(x == y)),
        (BinaryOperator::Equal, ValueV::Str(x), ValueV::Str(y)) => Ok(ValueV::Bool(x == y)),
        (BinaryOperator::Equal, ValueV::Bool(x), ValueV::Bool(y)) => Ok(ValueV::Bool(x == y)),
        (BinaryOperator::Equal, ValueV::Unit, ValueV::Unit) => Ok(ValueV::Bool(true)),
        (BinaryOperator::And, ValueV::Bool(x), ValueV::Bool(y)) => Ok(ValueV::Bool(x && y)),
        (BinaryOperator::Or, ValueV::Bool(x), ValueV::Bool(y)) => Ok(ValueV::Bool(x || y)),
        (BinaryOperator::Concat, ValueV::Str(x), ValueV::Str(y)) => Ok(ValueV::Str(x + y)),
        (BinaryOperator::Less, ValueV::Int(x), ValueV::Int(y)) => Ok(ValueV::Bool(x < y)),
        (BinaryOperator::LessEqual, ValueV::Int(x), ValueV::Int(y)) => Ok(ValueV::Bool(x <= y)),
        (BinaryOperator::Greater, ValueV::Int(x), ValueV::Int(y)) => Ok(ValueV::Bool(x > y)),
        (BinaryOperator::GreaterEqual, ValueV::Int(x), ValueV::Int(y)) => Ok(ValueV::Bool(x >= y)),
        _ => Err(Halt::InvalidOperands),
    }
}

/// The text `write` emits for a value.
pub open spec fn value_text(v: ValueV) -> Seq<char> {
    match v {
        ValueV::Int(n) => int_text(n as int),
        ValueV::Str(s) => s,
        ValueV::Bool(b) => if b { "true"@ } else { "false"@ },
        ValueV::Unit => "()"@,
    }
}

/// A line read as an integer: an optional sign, then decimal digits, in range.
pub open spec fn line_int(s: Seq<char>) -> Option<i64> {
    let start: int = if s.len() > 0 && (s[0] == '-' || s[0] == '+') { 1 } else { 0 };
    if start < s.len() && skip_digits(s, start) == s.len() {
        let v = digits_value(s, start, s.len() as int);
        let n = if s[0] == '-' { -v } else { v };
        if i64::MIN <= n <= i64::MAX {
            Some(n as i64)
        } else {
            None
        }
    } else {
        None
    }
}

/// Whitespace as an input line may hold it: the characters of Unicode's
/// `White_Space` property.
pub open spec fn is_line_space(c: char) -> bool {
    ('\u{9}' <= c && c <= '\u{d}') || c == ' ' || c == '\u{85}' || c == '\u{a0}' || c == '\u{1680}'
        || ('\u{2000}' <= c && c <= '\u{200a}') || c == '\u{2028}' || c == '\u{2029}' || c == '\u{202f}'
        || c == '\u{205f}' || c == '\u{3000}'
}

pub fn is_line_space_char(c: char) -> (r: bool)
    ensures
        r == is_line_space(c),
{
    ('\u{9}' <= c && c <= '\u{d}') || c == ' ' || c == '\u{85}' || c == '\u{a0}' || c == '\u{1680}'
        || ('\u{2000}' <= c && c <= '\u{200a}') || c == '\u{2028}' || c == '\u{2029}' || c == '\u{202f}'
        || c == '\u{205f}' || c == '\u{3000}'
}

/// The start of `s[i..]` once leading whitespace is dropped.
pub open spec fn trim_start(s: Seq<char>, i: int) -> int
    decreases s.len() - i,
{
    if 0 <= i < s.len() && is_line_space(s[i]) {
        trim_start(s, i + 1)
    } else {
        i
    }
}

/// The end of `s[..j]` once trailing whitespace is dropped.
pub open spec fn trim_end(s: Seq<char>, j: int) -> int
    decreases j,
{
    if 0 < j <= s.len() && is_line_space(s[j - 1]) {
        trim_end(s, j - 1)
    } else {
        j
    }
}

/// A line without the whitespace at either end.
pub open spec fn trimmed(s: Seq<char>) -> Seq<char> {
    let a = trim_start(s, 0);
    let b = trim_end(s, s.len() as int);
    if a < b {
        s.subrange(a, b)
    } else {
        Seq::empty()
    }
}

/// What `read` binds for a line, once the Unicode whitespace at either end is dropped: an
/// integer if it reads as one, else a boolean if it is `true` or `false`, else the
/// text itself.
pub open spec fn line_value(line: Seq<char>) -> ValueV {
    let s = trimmed(line);
    match line_int(s) {
        Some(n) => ValueV::Int(n),
        None => if s == "true"@ {
            ValueV::Bool(true)
        } else if s == "false"@ {
            ValueV::Bool(false)
        } else {
            ValueV::Str(s)
        },
    }
}

pub open spec fn halt_text(h: Halt) -> Seq<char> {
    match h {
        Halt::Reported => Seq::empty(),
        Halt::InvalidOperands => "Erro fatal: operandos de tipos inválidos"@,
        Halt::Overflow => "Erro fatal: estouro aritmético"@,
        Halt::OutOfFuel => "Erro fatal: limite de passos de execução atingido"@,
    }
}

/// The executor's state: scopes, problems reported, lines written, lines to read and
/// how many of them were read.
pub struct XState {
    pub env: RtModel,
    pub errors: Seq<Seq<char>>,
    pub output: Seq<Seq<char>>,
    pub input: Seq<Seq<char>>,
    pub next: int,
}

pub open spec fn xreport(st: XState, d: Diagnostic) -> XState {
    XState { errors: st.errors.push(message(d)), ..st }
}

pub open spec fn with_rt(st: XState, env: RtModel) -> XState {
    XState { env: env, ..st }
}

pub open spec fn move_rt(st: XState, x: Seq<char>) -> XState {
    match st.env.lookup_var(x) {
        Some(i) => with_rt(st, st.env.set_moved(i)),
        None => st,
    }
}

/// The source of a `move` becomes moved once its value is taken.
pub open spec fn move_if(st: XState, e: ExprV, is_move: bool) -> XState {
    if is_move {
        match e {
            ExprV::Ident(x) => move_rt(st, x),
            _ => st,
        }
    } else {
        st
    }
}

/// Reported problems abandon the command; the run goes on.
pub open spec fn settle(r: Result<ValueV, Halt>) -> Result<ValueV, Halt> {
    match r {
        Err(Halt::Reported) => Ok(ValueV::Unit),
        Err(h) => Err(h),
        Ok(_) => Ok(ValueV::Unit),
    }
}

pub open spec fn bind_args(env: RtModel, params: Seq<ParamV>, vals: Seq<ValueV>, i: int) -> RtModel
    decreases params.len() - i,
{
    if 0 <= i < params.len() && i < vals.len() {
        bind_args(env.declare_var(params[i].name, vals[i]), params, vals, i + 1)
    } else {
        env
    }
}

#[verifier::opaque]
pub open spec fn eval(st: XState, e: ExprV, fuel: nat) -> (XState, Result<ValueV, Halt>)
    decreases fuel, 0nat, e, 0int,
{
    match e {
        ExprV::Const(v) => (st, Ok(v)),
        ExprV::Ident(x) => match st.env.lookup_var(x) {
            None => (xreport(st, Diagnostic::UnboundRead(x)), Err(Halt::Reported)),
            Some(i) => if st.env.vars[i].moved {
                (xreport(st, Diagnostic::MovedRead(x)), Err(Halt::Reported))
            } else {
                (st, Ok(st.env.vars[i].value))
            },
        },
        ExprV::Unary(op, a) => {
            let (st1, r) = eval(st, *a, fuel);
            match r {
                Ok(v) => (st1, unary_value(op, v)),
                Err(h) => (st1, Err(h)),
            }
        },
        ExprV::Binary(op, a, b) => {
            let (st1, r1) = eval(st, *a, fuel);
            match r1 {
                Err(h) => (st1, Err(h)),
                Ok(va) => {
                    let (st2, r2) = eval(st1, *b, fuel);
                    match r2 {
                        Err(h) => (st2, Err(h)),
                        Ok(vb) => (st2, binary_value(op, va, vb)),
                    }
                },
            }
        },
        ExprV::Call(c) => call(st, c, fuel),
    }
}

/// A call: arguments are evaluated in the caller's scope, left to right, and a bare
/// name given as argument is moved; then the body runs in a child scope with the
/// parameters bound, and the call's value is the body's tail value. A call of an
/// unknown procedure is reported and has the value `Unit`.
#[verifier::opaque]
pub open spec fn call(st: XState, c: CallV, fuel: nat) -> (XState, Result<ValueV, Halt>)
    decreases fuel, 0nat, c, 0int,
{
    match st.env.lookup_proc(c.id) {
        None => (xreport(st, Diagnostic::UnboundProcedure(c.id)), Ok(ValueV::Unit)),
        Some(p) => {
            let pr = st.env.procs[p];
            let (st1, r) = eval_args(st, c.args, 0, Seq::empty(), fuel);
            match r {
                Err(h) => (st1, Err(h)),
                Ok(vals) => if fuel == 0 {
                    (st1, Err(Halt::OutOfFuel))
                } else {
                    let st2 = with_rt(st1, bind_args(st1.env.nest(), pr.params, vals, 0));
                    let (st3, r2) = exec(st2, pr.body, (fuel - 1) as nat);
                    (with_rt(st3, st3.env.leave()), r2)
                },
            }
        },
    }
}

#[verifier::opaque]
pub open spec fn eval_args(st: XState, args: Seq<ExprV>, i: int, acc: Seq<ValueV>, fuel: nat) -> (XState, Result<Seq<ValueV>, Halt>)
    decreases fuel, 0nat, args, args.len() - i,
{
    if i < 0 || i >= args.len() {
        (st, Ok(acc))
    } else {
        let (st1, r) = eval(st, args[i], fuel);
        match r {
            Err(h) => (st1, Err(h)),
            Ok(v) => eval_args(move_if(st1, args[i], true), args, i + 1, acc.push(v), fuel),
        }
    }
}

/// Runs a command; the value is its tail value: that of the second part of a
/// sequence, that of a procedure call, and `Unit` for any other command.
#[verifier::opaque]
pub open spec fn exec(st: XState, c: CmdV, fuel: nat) -> (XState, Result<ValueV, Halt>)
    decreases fuel, 2nat, c, 0int,
{
    match c {
        CmdV::Assign(x, e, mv) => {
            let (st1, r) = eval(st, e, fuel);
            match r {
                Ok(v) => match st1.env.lookup_var(x) {
                    None => (xreport(st1, Diagnostic::UnboundAssignment(x)), Ok(ValueV::Unit)),
                    Some(i) => {
                        let st2 = move_if(st1, e, mv);
                        (with_rt(st2, st2.env.assign(i, v)), Ok(ValueV::Unit))
                    },
                },
                Err(_) => (st1, settle(r)),
            }
        },
        CmdV::Block(ds, body) => {
            let (st1, r) = exec_decls(with_rt(st, st.env.nest()), ds, 0, fuel);
            match r {
                Err(h) => (with_rt(st1, st1.env.leave()), Err(h)),
                Ok(_) => {
                    let (st2, r2) = exec(st1, *body, fuel);
                    (with_rt(st2, st2.env.leave()), settle(r2))
                },
            }
        },
        CmdV::While(_, _) => run_while(st, c, fuel),
        CmdV::If(cond, a, b) => {
            let (st1, r) = eval(st, cond, fuel);
            match r {
                Ok(ValueV::Bool(true)) => {
                    let (st2, r2) = exec(st1, *a, fuel);
                    (st2, settle(r2))
                },
                Ok(ValueV::Bool(false)) => {
                    let (st2, r2) = exec(st1, *b, fuel);
                    (st2, settle(r2))
                },
                Ok(_) => (st1, Err(Halt::InvalidOperands)),
                Err(_) => (st1, settle(r)),
            }
        },
        CmdV::Read(x) => {
            let line = if 0 <= st.next < st.input.len() { st.input[st.next] } else { Seq::empty() };
            let st1 = XState { next: if 0 <= st.next < st.input.len() { st.next + 1 } else { st.next }, ..st };
            (with_rt(st1, st1.env.declare_var(x, line_value(line))), Ok(ValueV::Unit))
        },
        CmdV::Write(e) => {
            let (st1, r) = eval(st, e, fuel);
            match r {
                Ok(v) => (XState { output: st1.output.push(value_text(v)), ..st1 }, Ok(ValueV::Unit)),
                Err(_) => (st1, settle(r)),
            }
        },
        CmdV::Then(a, b) => {
            let (st1, r) = exec(st, *a, fuel);
            match r {
                Err(h) => (st1, Err(h)),
                Ok(_) => exec(st1, *b, fuel),
            }
        },
        CmdV::Skip => (st, Ok(ValueV::Unit)),
        CmdV::Call(cv) => {
            let (st1, r) = call(st, cv, fuel);
            match r {
                Err(Halt::Reported) => (st1, Ok(ValueV::Unit)),
                _ => (st1, r),
            }
        },
    }
}

/// A loop: each iteration spends one unit of fuel, evaluates the condition and, while
/// it is `true`, runs the body.
#[verifier::opaque]
pub open spec fn run_while(st: XState, w: CmdV, fuel: nat) -> (XState, Result<ValueV, Halt>)
    decreases fuel, 1nat, w, 0int,
{
    match w {
        CmdV::While(cond, body) => if fuel == 0 {
            (st, Err(Halt::OutOfFuel))
        } else {
            let (st1, r) = eval(st, cond, fuel);
            match r {
                Ok(ValueV::Bool(false)) => (st1, Ok(ValueV::Unit)),
                Ok(ValueV::Bool(true)) => {
                    let (st2, r2) = exec(st1, *body, (fuel - 1) as nat);
                    match r2 {
                        Err(h) => (st2, Err(h)),
                        Ok(_) => run_while(st2, w, (fuel - 1) as nat),
                    }
                },
                Ok(_) => (st1, Err(Halt::InvalidOperands)),
                Err(_) => (st1, settle(r)),
            }
        },
        _ => (st, Ok(ValueV::Unit)),
    }
}

#[verifier::opaque]
pub open spec fn exec_decls(st: XState, ds: Seq<DeclV>, i: int, fuel: nat) -> (XState, Result<ValueV, Halt>)
    decreases fuel, 1nat, ds, ds.len() - i,
{
    if i < 0 || i >= ds.len() {
        (st, Ok(ValueV::Unit))
    } else {
        let (st1, r) = exec_decl(st, ds[i], fuel);
        match r {
            Err(h) => (st1, Err(h)),
            Ok(_) => exec_decls(st1, ds, i + 1, fuel),
        }
    }
}

#[verifier::opaque]
pub open spec fn exec_decl(st: XState, d: DeclV, fuel: nat) -> (XState, Result<ValueV, Halt>)
    decreases fuel, 1nat, d, 0int,
{
    match d {
        DeclV::Var(x, e, mv) => {
            let (st1, r) = eval(st, e, fuel);
            match r {
                Ok(v) => {
                    let st2 = move_if(st1, e, mv);
                    (with_rt(st2, st2.env.declare_var(x, v)), Ok(ValueV::Unit))
                },
                Err(_) => (st1, settle(r)),
            }
        },
        DeclV::Proc(n, ps, _, body) => (
            with_rt(st, st.env.declare_proc(ProcBody { name: n, params: ps, body: *body })),
            Ok(ValueV::Unit),
        ),
        DeclV::Compound(a, b) => {
            let (st1, r) = exec_decl(st, *a, fuel);
            match r {
                Err(h) => (st1, Err(h)),
                Ok(_) => exec_decl(st1, *b, fuel),
            }
        },
    }
}

/// The state a program starts from, given its input lines.
pub open spec fn start(input: Seq<Seq<char>>) -> XState {
    XState { env: RtModel::root(), errors: Seq::empty(), output: Seq::empty(), input: input, next: 0 }
}

/// A run to its end: a halt other than a reported problem adds its own report.
pub open spec fn finish_run(r: (XState, Result<ValueV, Halt>)) -> XState {
    match r.1 {
        Err(h) => if h != Halt::Reported {
            XState { errors: r.0.errors.push(halt_text(h)), ..r.0 }
        } else {
            r.0
        },
        Ok(_) => r.0,
    }
}

pub open spec fn outcome(r: Result<Value, Halt>) -> Result<ValueV, Halt> {
    match r {
        Ok(v) => Ok(v@),
        Err(h) => Err(h),
    }
}

pub open spec fn values_view(s: Seq<Value>) -> Seq<ValueV> {
    s.map_values(|v: Value| v@)
}

pub fn apply_unary(op: UnaryOperator, v: Value) -> (r: Result<Value, Halt>)
    ensures
        outcome(r) == unary_value(op, v@),
{
    match op {
        UnaryOperator::Neg => match v {
            Value::Int(n) => if n == i64::MIN {
                Err(Halt::Overflow)
            } else {
                Ok(Value::Int(-n))
            },
            _ => Err(Halt::InvalidOperands),
        },
        UnaryOperator::Not => match v {
            Value::Bool(b) => Ok(Value::Bool(!b)),
            _ => Err(Halt::InvalidOperands),
        },
        UnaryOperator::Length => match v {
            Value::Str(s) => {
                let n = s.as_str().unicode_len();
                if (n as u128) <= 0x7fff_ffff_ffff_ffff {
                    Ok(Value::Int(n as i64))
                } else {
                    Err(Halt::Overflow)
                }
            },
            _ => Err(Halt::InvalidOperands),
        },
    }
}

pub fn apply_binary(op: BinaryOperator, a: Value, b: Value) -> (r: Result<Value, Halt>)
    ensures
        outcome(r) == binary_value(op, a@, b@),
{
    match (op, a, b) {
        (BinaryOperator::Add, Value::Int(x), Value::Int(y)) => {
            if (y > 0 && x > i64::MAX - y) || (y < 0 && x < i64::MIN - y) {
                Err(Halt::Overflow)
            } else {
                Ok(Value::Int(x + y))
            }
        },
        (BinaryOperator::Sub, Value::Int(x), Value::Int(y)) => {
            if (y < 0 && x > i64::MAX + y) || (y > 0 && x < i64::MIN + y) {
                Err(Halt::Overflow)
            } else {
                Ok(Value::Int(x - y))
            }
        },
        (BinaryOperator::Equal, Value::Int(x), Value::Int(y)) => Ok(Value::Bool(x == y)),
        (BinaryOperator::Equal, Value::Str(x), Value::Str(y)) => Ok(Value::Bool(x == y)),
        (BinaryOperator::Equal, Value::Bool(x), Value::Bool(y)) => Ok(Value::Bool(x == y)),
        (BinaryOperator::Equal, Value::Unit, Value::Unit) => Ok(Value::Bool(true)),
        (BinaryOperator::And, Value::Bool(x), Value::Bool(y)) => Ok(Value::Bool(x && y)),
        (BinaryOperator::Or, Value::Bool(x), Value::Bool(y)) => Ok(Value::Bool(x || y)),
        (BinaryOperator::Concat, Value::Str(x), Value::Str(y)) => Ok(Value::Str(x.concat(y.as_str()))),
        (BinaryOperator::Less, Value::Int(x), Value::Int(y)) => Ok(Value::Bool(x < y)),
        (BinaryOperator::LessEqual, Value::Int(x), Value::Int(y)) => Ok(Value::Bool(x <= y)),
        (BinaryOperator::Greater, Value::Int(x), Value::Int(y)) => Ok(Value::Bool(x > y)),
        (BinaryOperator::GreaterEqual, Value::Int(x), Value::Int(y)) => Ok(Value::Bool(x >= y)),
        _ => Err(Halt::InvalidOperands),
    }
}

/// The text `write` emits for a value.
pub fn render_value(v: &Value) -> (r: String)
    ensures
        r@ == value_text(v@),
{
    match v {
        Value::Int(n) => int_string(*n),
        Value::Str(s) => s.clone(),
        Value::Bool(b) => if *b {
            String::from_str("true")
        } else {
            String::from_str("false")
        },
        Value::Unit => String::from_str("()"),
    }
}

#[verifier::loop_isolation(false)]
fn read_int(s: &Vec<char>) -> (r: Option<i64>)
    ensures
        r == line_int(s@),
{
    let ghost q = s@;
    let n = s.len();
    let start: usize = if n > 0 && (s[0] == '-' || s[0] == '+') { 1 } else { 0 };
    if start >= n {
        return None;
    }
    let end = scan_digits(s, start);
    if end != n {
        return None;
    }
    proof {
        lemma_skip_digits_bounds(q, start as int);
    }
    let neg = s[0] == '-';
    let mut v: i128 = 0;
    let mut k: usize = start;
    while k < n
        invariant
            q == s@,
            n == q.len(),
            start <= k <= n,
            skip_digits(q, start as int) == n,
            forall|m: int| start <= m < n ==> is_digit(#[trigger] q[m]),
            v as int == digits_value(q, start as int, k as int),
            0 <= v <= 0x8000_0000_0000_0000,
        decreases n - k,
    {
        assert(is_digit(q[k as int]));
        let d: i128 = (s[k] as u32 - '0' as u32) as i128;
        assert(digits_value(q, start as int, k + 1) == v * 10 + d);
        if v > (0x8000_0000_0000_0000 - d) / 10 {
            assert(v * 10 + d > 0x8000_0000_0000_0000) by (nonlinear_arith)
                requires
                    v > (0x8000_0000_0000_0000 - d) / 10,
                    0 <= d <= 9,
            ;
            proof {
                lemma_digits_value_monotone(q, start as int, k + 1, n as int);
                let total = digits_value(q, start as int, n as int);
                assert(total > 0x8000_0000_0000_0000);
                assert(-total < i64::MIN);
            }
            return None;
        }
        assert(v * 10 + d <= 0x8000_0000_0000_0000) by (nonlinear_arith)
            requires
                v <= (0x8000_0000_0000_0000 - d) / 10,
                0 <= d <= 9,
                0 <= v,
        ;
        assert(0 <= v * 10 + d) by (nonlinear_arith)
            requires
                0 <= v,
                0 <= d,
        ;
        v = v * 10 + d;
        k += 1;
    }
    let m: i128 = if neg { -v } else { v };
    if m < i64::MIN as i128 || m > i64::MAX as i128 {
        None
    } else {
        Some(m as i64)
    }
}

/// What `read` binds for an input line.
pub fn line_to_value(line: &String) -> (r: Value)
    ensures
        r@ == line_value(line@),
{
    let t = trim_line(line);
    let cs = chars_of(t.as_str());
    match read_int(&cs) {
        Some(n) => Value::Int(n),
        None => {
            if t == String::from_str("true") {
                Value::Bool(true)
            } else if t == String::from_str("false") {
                Value::Bool(false)
            } else {
                Value::Str(t)
            }
        },
    }
}

fn trim_line(line: &String) -> (r: String)
    ensures
        r@ == trimmed(line@),
{
    let cs = chars_of(line.as_str());
    let mut a: usize = 0;
    while a < cs.len() && is_line_space_char(cs[a])
        invariant
            cs@ == line@,
            a <= cs@.len(),
            trim_start(cs@, a as int) == trim_start(cs@, 0),
        decreases cs@.len() - a,
    {
        a += 1;
    }
    let mut b = cs.len();
    while b > 0 && is_line_space_char(cs[b - 1])
        invariant
            cs@ == line@,
            b <= cs@.len(),
            trim_end(cs@, b as int) == trim_end(cs@, cs@.len() as int),
        decreases b,
    {
        b -= 1;
    }
    if a < b {
        String::from_str(line.as_str().substring_char(a, b))
    } else {
        String::new()
    }
}

fn halt_message(h: Halt) -> (r: String)
    ensures
        r@ == halt_text(h),
{
    match h {
        Halt::Reported => String::new(),
        Halt::InvalidOperands => String::from_str("Erro fatal: operandos de tipos inválidos"),
        Halt::Overflow => String::from_str("Erro fatal: estouro aritmético"),
        Halt::OutOfFuel => String::from_str("Erro fatal: limite de passos de execução atingido"),
    }
}

/// The executor: scopes, problems reported, lines written, and the lines `read` takes.
pub struct Executor<'a> {
    pub env: RuntimeEnvironment<'a>,
    pub errors: Vec<String>,
    pub output: Vec<String>,
    pub input: Vec<String>,
    pub next_input: usize,
}

impl<'a> Executor<'a> {
    pub open spec fn model(&self) -> XState {
        XState {
            env: self.env@,
            errors: strings(self.errors@),
            output: strings(self.output@),
            input: strings(self.input@),
            next: self.next_input as int,
        }
    }

    pub open spec fn wf(&self) -> bool {
        self.env@.wf()
    }

    /// An executor with no input to read.
    pub fn new() -> (r: Executor<'a>)
        ensures
            r.model() == start(Seq::empty()),
            r.wf(),
    {
        let r = Executor::with_input(Vec::new());
        assert(strings(Seq::<String>::empty()) =~= Seq::<Seq<char>>::empty());
        r
    }

    /// An executor whose `read` commands take these lines in order.
    pub fn with_input(input: Vec<String>) -> (r: Executor<'a>)
        ensures
            r.model() == start(strings(input@)),
            r.wf(),
    {
        let r = Executor { env: RuntimeEnvironment::new(), errors: Vec::new(), output: Vec::new(), input, next_input: 0 };
        assert(strings(r.errors@) =~= Seq::<Seq<char>>::empty());
        assert(strings(r.output@) =~= Seq::<Seq<char>>::empty());
        r
    }

    #[verifier::spinoff_prover]
    fn report(&mut self, msg: String)
        ensures
            final(self).model() == (XState { errors: old(self).model().errors.push(msg@), ..old(self).model() }),
            final(self).env == old(self).env,
    {
        let ghost before = self.errors@;
        self.errors.push(msg);
        assert(strings(self.errors@) =~= strings(before).push(msg@));
    }

    #[verifier::spinoff_prover]
    fn emit(&mut self, line: String)
        ensures
            final(self).model() == (XState { output: old(self).model().output.push(line@), ..old(self).model() }),
            final(self).env == old(self).env,
    {
        let ghost before = self.output@;
        self.output.push(line);
        assert(strings(self.output@) =~= strings(before).push(line@));
    }

    #[verifier::spinoff_prover]
    fn move_named(&mut self, x: &String)
        requires
            old(self).wf(),
        ensures
            final(self).wf(),
            final(self).model() == move_rt(old(self).model(), x@),
            final(self).env@.scopes == old(self).env@.scopes,
            final(self).env@.vars.len() == old(self).env@.vars.len(),
    {
        match self.env.find_variable(x) {
            Some(i) => {
                self.env.mark_moved(i);
            },
            None => {},
        }
    }

    /// Runs a program to its end with as much fuel as a `u64` holds. Succeeds when no
    /// problem was reported.
    #[verifier::spinoff_prover]
    pub fn execute_program(&mut self, program: &'a Program) -> (r: Result<(), Vec<String>>)
        requires
            old(self).wf(),
        ensures
            final(self).wf(),
            final(self).model() == finish_run(exec(old(self).model(), program@, u64::MAX as nat)),
            match r {
                Ok(()) => final(self).model().errors.len() == 0,
                Err(v) => final(self).model().errors.len() > 0 && strings(v@) == final(self).model().errors,
            },
    {
        let r = match program {
            Program::Command(c) => self.execute_command(c, u64::MAX),
        };
        match r {
            Err(h) => {
                if h != Halt::Reported {
                    self.report(halt_message(h));
                }
            },
            Ok(_) => {},
        }
        if self.errors.len() == 0 {
            Ok(())
        } else {
            let mut out: Vec<String> = Vec::new();
            let mut i: usize = 0;
            while i < self.errors.len()
                invariant
                    i <= self.errors@.len(),
                    strings(out@) == strings(self.errors@.take(i as int)),
                decreases self.errors@.len() - i,
            {
                let ghost before = out@;
                out.push(self.errors[i].clone());
                assert(strings(out@) =~= strings(before).push(self.errors@[i as int]@));
                assert(strings(self.errors@.take(i + 1)) =~= strings(self.errors@.take(i as int)).push(self.errors@[i as int]@));
                i += 1;
            }
            assert(self.errors@.take(i as int) =~= self.errors@);
            Err(out)
        }
    }

    pub fn execute_concrete_value(&self, value: &ConcreteValue) -> (r: Value)
        ensures
            r@ == value@,
    {
        match value {
            ConcreteValue::Value(v) => v.duplicate(),
        }
    }

    #[verifier::spinoff_prover]
    pub fn execute_expression(&mut self, expr: &'a Expression, fuel: u64) -> (r: Result<Value, Halt>)
        requires
            old(self).wf(),
        ensures
            final(self).wf(),
            (final(self).model(), outcome(r)) == eval(old(self).model(), expr@, fuel as nat),
            final(self).env@.scopes == old(self).env@.scopes,
        decreases fuel, 0nat, expr, 2int,
    {
        proof {
            reveal_with_fuel(eval, 1);
        }
        match expr {
            Expression::ConcreteValue(cv) => {
                proof {
                    assert(expr@ == ExprV::Const(cv@));
                }
                Ok(self.execute_concrete_value(cv))
            },
            Expression::Identifier(x) => self.execute_identifier(x),
            Expression::UnaryExp(_, _) => self.unary_operation(expr, fuel),
            Expression::BinaryExp(_, _, _) => self.binary_operation(expr, fuel),
            Expression::CallProcedure(c) => self.execute_call_procedure(c, fuel),
        }
    }

    #[verifier::spinoff_prover]
    fn execute_identifier(&mut self, x: &String) -> (r: Result<Value, Halt>)
        requires
            old(self).wf(),
        ensures
            final(self).wf(),
            (final(self).model(), outcome(r)) == eval(old(self).model(), ExprV::Ident(x@), 0),
            final(self).env == old(self).env,
    {
        proof {
            reveal_with_fuel(eval, 1);
        }
        match self.env.lookup_variable(x) {
            None => {
                self.report(unbound_read(x));
                Err(Halt::Reported)
            },
            Some((v, moved)) => {
                if moved {
                    self.report(moved_read(x));
                    Err(Halt::Reported)
                } else {
                    Ok(v)
                }
            },
        }
    }

    /// Evaluates a unary expression: its operand, then the operator.
    #[verifier::spinoff_prover]
    fn unary_operation(&mut self, expr: &'a Expression, fuel: u64) -> (r: Result<Value, Halt>)
        requires
            old(self).wf(),
            expr is UnaryExp,
        ensures
            final(self).wf(),
            (final(self).model(), outcome(r)) == eval(old(self).model(), expr@, fuel as nat),
            final(self).env@.scopes == old(self).env@.scopes,
        decreases fuel, 0nat, expr, 1int,
    {
        proof {
            reveal_with_fuel(eval, 1);
        }
        match expr {
            Expression::UnaryExp(op, a) => {
                match self.execute_expression(a, fuel) {
                    Ok(v) => apply_unary(*op, v),
                    Err(h) => Err(h),
                }
            },
            _ => Err(Halt::InvalidOperands),
        }
    }

    /// Evaluates a binary expression: left operand, right operand, then the operator.
    #[verifier::spinoff_prover]
    fn binary_operation(&mut self, expr: &'a Expression, fuel: u64) -> (r: Result<Value, Halt>)
        requires
            old(self).wf(),
            expr is BinaryExp,
        ensures
            final(self).wf(),
            (final(self).model(), outcome(r)) == eval(old(self).model(), expr@, fuel as nat),
            final(self).env@.scopes == old(self).env@.scopes,
        decreases fuel, 0nat, expr, 1int,
    {
        proof {
            reveal_with_fuel(eval, 1);
        }
        match expr {
            Expression::BinaryExp(op, a, b) => {
                let va = match self.execute_expression(a, fuel) {
                    Ok(v) => v,
                    Err(h) => {
                        return Err(h);
                    },
                };
                let vb = match self.execute_expression(b, fuel) {
                    Ok(v) => v,
                    Err(h) => {
                        return Err(h);
                    },
                };
                apply_binary(*op, va, vb)
            },
            _ => Err(Halt::InvalidOperands),
        }
    }

    /// Evaluates a unary expression whose operand, if it has a value, has the type
    /// the operator takes: the operand, then the operator. A reported problem in the
    /// operand stops it as `Halt::Reported`.
    #[verifier::spinoff_prover]
    pub fn execute_unary_expression(&mut self, expr: &'a Expression, fuel: u64) -> (r: Result<Value, Halt>)
        requires
            old(self).wf(),
            expr is UnaryExp,
            match expr@ {
                ExprV::Unary(op, a) => match eval(old(self).model(), *a, fuel as nat).1 {
                    Ok(v) => value_type(v) == unary_operand_type(op),
                    Err(h) => h != Halt::InvalidOperands,
                },
                _ => false,
            },
        ensures
            final(self).wf(),
            (final(self).model(), outcome(r)) == eval(old(self).model(), expr@, fuel as nat),
            outcome(r) != Err::<ValueV, Halt>(Halt::InvalidOperands),
            final(self).env@.scopes == old(self).env@.scopes,
    {
        proof {
            reveal_with_fuel(eval, 1);
        }
        self.unary_operation(expr, fuel)
    }

    /// Evaluates a binary expression whose operands, when they have values, have
    /// types the operator accepts: left operand, right operand, then the operator.
    /// A reported problem in an operand stops it as `Halt::Reported`.
    #[verifier::spinoff_prover]
    pub fn execute_binary_expression(&mut self, expr: &'a Expression, fuel: u64) -> (r: Result<Value, Halt>)
        requires
            old(self).wf(),
            expr is BinaryExp,
            match expr@ {
                ExprV::Binary(op, a, b) => {
                    let (st1, ra) = eval(old(self).model(), *a, fuel as nat);
                    match ra {
                        Err(h) => h != Halt::InvalidOperands,
                        Ok(va) => match eval(st1, *b, fuel as nat).1 {
                            Err(h) => h != Halt::InvalidOperands,
                            Ok(vb) => binary_accepts(op, value_type(va), value_type(vb)),
                        },
                    }
                },
                _ => false,
            },
        ensures
            final(self).wf(),
            (final(self).model(), outcome(r)) == eval(old(self).model(), expr@, fuel as nat),
            outcome(r) != Err::<ValueV, Halt>(Halt::InvalidOperands),
            final(self).env@.scopes == old(self).env@.scopes,
    {
        proof {
            reveal_with_fuel(eval, 1);
        }
        self.binary_operation(expr, fuel)
    }

    #[verifier::spinoff_prover]
    #[verifier::loop_isolation(false)]
    fn evaluate_arguments(&mut self, c: &'a CallProcedure, fuel: u64) -> (r: Result<Vec<Value>, Halt>)
        requires
            old(self).wf(),
        ensures
            final(self).wf(),
            match (r, eval_args(old(self).model(), exprs_view(c.args@), 0, Seq::empty(), fuel as nat)) {
                (Ok(vs), (st, Ok(ws))) => final(self).model() == st && values_view(vs@) == ws,
                (Err(h), (st, Err(g))) => final(self).model() == st && h == g,
                _ => false,
            },
            final(self).env@.scopes == old(self).env@.scopes,
        decreases fuel, 0nat, c, 1int,
    {
        proof {
            reveal_with_fuel(eval_args, 1);
            lemma_exprs_view_len(c.args@);
        }
        let ghost av = exprs_view(c.args@);
        let ghost st0 = self.model();
        let ghost scopes0 = self.env@.scopes;
        let mut vals: Vec<Value> = Vec::new();
        let mut i: usize = 0;
        assert(values_view(vals@) =~= Seq::<ValueV>::empty());
        while i < c.args.len()
            invariant
                self.wf(),
                i <= c.args@.len(),
                av == exprs_view(c.args@),
                av.len() == c.args@.len(),
                eval_args(st0, av, 0, Seq::empty(), fuel as nat) == eval_args(self.model(), av, i as int, values_view(vals@), fuel as nat),
                self.env@.scopes == scopes0,
            decreases c.args@.len() - i,
        {
            proof {
                reveal_with_fuel(eval_args, 1);
                assert(decreases_to!(c => c.args));
                assert(decreases_to!(c.args => c.args[i as int]));
            }
            let v = match self.execute_expression(&c.args[i], fuel) {
                Ok(v) => v,
                Err(h) => {
                    return Err(h);
                },
            };
            match &c.args[i] {
                Expression::Identifier(x) => {
                    self.move_named(x);
                },
                _ => {},
            }
            let ghost before = vals@;
            vals.push(v);
            assert(values_view(vals@) =~= values_view(before).push(v@));
            i += 1;
        }
        Ok(vals)
    }

    /// Calls a procedure: arguments first, in the caller's scope; then the body in a
    /// child scope that binds the parameters. The value is the body's tail value.
    #[verifier::spinoff_prover]
    #[verifier::loop_isolation(false)]
    pub fn execute_call_procedure(&mut self, c: &'a CallProcedure, fuel: u64) -> (r: Result<Value, Halt>)
        requires
            old(self).wf(),
        ensures
            final(self).wf(),
            (final(self).model(), outcome(r)) == call(
                old(self).model(),
                CallV { id: c.id@, args: exprs_view(c.args@) },
                fuel as nat,
            ),
            final(self).env@.scopes == old(self).env@.scopes,
        decreases fuel, 0nat, c, 2int,
    {
        proof {
            reveal_with_fuel(call, 1);
        }
        let (params, body) = match self.env.lookup_procedure(&c.id) {
            None => {
                self.report(unbound_procedure(&c.id));
                return Ok(Value::Unit);
            },
            Some(p) => p,
        };
        let vals = match self.evaluate_arguments(c, fuel) {
            Ok(vs) => vs,
            Err(h) => {
                return Err(h);
            },
        };
        if fuel == 0 {
            return Err(Halt::OutOfFuel);
        }
        let ghost scopes0 = self.env@.scopes;
        let ghost pv = params_view(params@);
        let ghost vv = values_view(vals@);
        let ghost st1 = self.model();
        self.env.nest();
        let ghost env1 = self.env@;
        let mut i: usize = 0;
        while i < params.len() && i < vals.len()
            invariant
                self.wf(),
                i <= params@.len(),
                pv == params_view(params@),
                vv == values_view(vals@),
                pv.len() == params@.len(),
                vv.len() == vals@.len(),
                bind_args(env1, pv, vv, 0) == bind_args(self.env@, pv, vv, i as int),
                self.env@.scopes == env1.scopes,
                self.model() == with_rt(st1, self.env@),
            decreases params@.len() - i,
        {
            self.env.declare_variable(params[i].identifier.clone(), vals[i].duplicate());
            i += 1;
        }
        let r = self.execute_command(body, fuel - 1);
        self.env.leave();
        assert(self.env@.scopes =~= scopes0);
        r
    }

    /// Runs a command and gives its tail value.
    #[verifier::spinoff_prover]
    pub fn execute_command(&mut self, cmd: &'a Command, fuel: u64) -> (r: Result<Value, Halt>)
        requires
            old(self).wf(),
        ensures
            final(self).wf(),
            (final(self).model(), outcome(r)) == exec(old(self).model(), cmd@, fuel as nat),
            final(self).env@.scopes == old(self).env@.scopes,
        decreases fuel, 3nat, cmd, 1int,
    {
        proof {
            reveal_with_fuel(exec, 1);
        }
        match cmd {
            Command::Assignment(x, e, mv) => self.execute_assignment(x, e, *mv, fuel),
            Command::DeclarationBlock(_, _) => self.execute_declaration_block(cmd, fuel),
            Command::WhileLoop(_, _) => self.execute_while_loop(cmd, fuel),
            Command::IfElse(_, _, _) => self.execute_if_else(cmd, fuel),
            Command::IO(_) => self.execute_io(cmd, fuel),
            Command::Sequence(a, b) => {
                match self.execute_command(a, fuel) {
                    Err(h) => Err(h),
                    Ok(_) => self.execute_command(b, fuel),
                }
            },
            Command::Skip => Ok(Value::Unit),
            Command::CallProcedure(c) => {
                match self.execute_call_procedure(c, fuel) {
                    Err(Halt::Reported) => Ok(Value::Unit),
                    r => r,
                }
            },
        }
    }

    /// `var := expr`: evaluates, then updates the nearest binding of `var`, which
    /// is reported when there is none; the source of a `move` becomes moved only when
    /// the assignment takes place.
    #[verifier::spinoff_prover]
    pub fn execute_assignment(&mut self, var: &String, expr: &'a Expression, is_move: bool, fuel: u64) -> (r: Result<Value, Halt>)
        requires
            old(self).wf(),
        ensures
            final(self).wf(),
            (final(self).model(), outcome(r)) == exec(old(self).model(), CmdV::Assign(var@, expr@, is_move), fuel as nat),
            final(self).env@.scopes == old(self).env@.scopes,
        decreases fuel, 1nat, expr, 0int,
    {
        proof {
            reveal_with_fuel(exec, 1);
        }
        let v = match self.execute_expression(expr, fuel) {
            Ok(v) => v,
            Err(Halt::Reported) => {
                return Ok(Value::Unit);
            },
            Err(h) => {
                return Err(h);
            },
        };
        match self.env.find_variable(var) {
            None => {
                self.report(unbound_assignment(var));
            },
            Some(i) => {
                if is_move {
                    match expr {
                        Expression::Identifier(src) => {
                            self.move_named(src);
                        },
                        _ => {},
                    }
                }
                self.env.assign(i, v);
            },
        }
        Ok(Value::Unit)
    }

    /// A block: declarations in a child scope, then the body; the scope is then
    /// discarded.
    #[verifier::spinoff_prover]
    #[verifier::loop_isolation(false)]
    pub fn execute_declaration_block(&mut self, cmd: &'a Command, fuel: u64) -> (r: Result<Value, Halt>)
        requires
            old(self).wf(),
            cmd is DeclarationBlock,
        ensures
            final(self).wf(),
            (final(self).model(), outcome(r)) == exec(old(self).model(), cmd@, fuel as nat),
            final(self).env@.scopes == old(self).env@.scopes,
        decreases fuel, 3nat, cmd, 0int,
    {
        proof {
            reveal_with_fuel(exec, 1);
        }
        match cmd {
            Command::DeclarationBlock(ds, body) => {
                let ghost scopes0 = self.env@.scopes;
                self.env.nest();
                let ghost st1 = self.model();
                let ghost dv = decls_view(ds@);
                proof {
                    lemma_decls_view_len(ds@);
                }
                let mut i: usize = 0;
                while i < ds.len()
                    invariant
                        self.wf(),
                        i <= ds@.len(),
                        dv == decls_view(ds@),
                        dv.len() == ds@.len(),
                        forall|k: int| 0 <= k < ds@.len() ==> #[trigger] dv[k] == decl_view(ds@[k]),
                        exec_decls(st1, dv, 0, fuel as nat) == exec_decls(self.model(), dv, i as int, fuel as nat),
                        self.env@.scopes == st1.env.scopes,
                    decreases ds@.len() - i,
                {
                    proof {
                        reveal_with_fuel(exec_decls, 1);
                        assert(decreases_to!(*cmd => *ds));
                        assert(decreases_to!(ds => ds[i as int]));
                    }
                    match self.execute_declaration(&ds[i], fuel) {
                        Err(h) => {
                            self.env.leave();
                            assert(self.env@.scopes =~= scopes0);
                            return Err(h);
                        },
                        Ok(_) => {},
                    }
                    i += 1;
                }
                proof {
                    reveal_with_fuel(exec_decls, 1);
                }
                let r = self.execute_command(body, fuel);
                self.env.leave();
                assert(self.env@.scopes =~= scopes0);
                match r {
                    Err(Halt::Reported) => Ok(Value::Unit),
                    Err(h) => Err(h),
                    Ok(_) => Ok(Value::Unit),
                }
            },
            _ => Ok(Value::Unit),
        }
    }

    /// A declaration: a variable is bound to its value in the current scope, a
    /// procedure is registered there.
    #[verifier::spinoff_prover]
    pub fn execute_declaration(&mut self, decl: &'a Declaration, fuel: u64) -> (r: Result<Value, Halt>)
        requires
            old(self).wf(),
        ensures
            final(self).wf(),
            (final(self).model(), outcome(r)) == exec_decl(old(self).model(), decl@, fuel as nat),
            final(self).env@.scopes == old(self).env@.scopes,
        decreases fuel, 3nat, decl, 1int,
    {
        proof {
            reveal_with_fuel(exec_decl, 1);
        }
        match decl {
            Declaration::Variable(x, e, mv) => {
                let v = match self.execute_expression(e, fuel) {
                    Ok(v) => v,
                    Err(Halt::Reported) => {
                        return Ok(Value::Unit);
                    },
                    Err(h) => {
                        return Err(h);
                    },
                };
                if *mv {
                    match e {
                        Expression::Identifier(src) => {
                            self.move_named(src);
                        },
                        _ => {},
                    }
                }
                self.env.declare_variable(x.clone(), v);
                Ok(Value::Unit)
            },
            Declaration::Procedure(n, ps, _, body) => {
                self.env.declare_procedure(n.clone(), ps, body);
                Ok(Value::Unit)
            },
            Declaration::Compound(a, b) => {
                match self.execute_declaration(a, fuel) {
                    Err(h) => Err(h),
                    Ok(_) => self.execute_declaration(b, fuel),
                }
            },
        }
    }

    /// `while cond do body`: one unit of fuel per iteration.
    #[verifier::spinoff_prover]
    #[verifier::loop_isolation(false)]
    pub fn execute_while_loop(&mut self, cmd: &'a Command, fuel: u64) -> (r: Result<Value, Halt>)
        requires
            old(self).wf(),
            cmd is WhileLoop,
        ensures
            final(self).wf(),
            (final(self).model(), outcome(r)) == exec(old(self).model(), cmd@, fuel as nat),
            final(self).env@.scopes == old(self).env@.scopes,
        decreases fuel, 3nat, cmd, 0int,
    {
        proof {
            reveal_with_fuel(exec, 1);
        }
        match cmd {
            Command::WhileLoop(cond, body) => {
                let ghost st0 = self.model();
                let ghost scopes0 = self.env@.scopes;
                let mut f = fuel;
                loop
                    invariant
                        self.wf(),
                        f <= fuel,
                        run_while(st0, cmd@, fuel as nat) == run_while(self.model(), cmd@, f as nat),
                        self.env@.scopes == scopes0,
                    decreases f,
                {
                    proof {
                        reveal_with_fuel(run_while, 1);
                    }
                    if f == 0 {
                        return Err(Halt::OutOfFuel);
                    }
                    match self.execute_expression(cond, f) {
                        Ok(Value::Bool(true)) => {},
                        Ok(Value::Bool(false)) => {
                            return Ok(Value::Unit);
                        },
                        Ok(_) => {
                            return Err(Halt::InvalidOperands);
                        },
                        Err(Halt::Reported) => {
                            return Ok(Value::Unit);
                        },
                        Err(h) => {
                            return Err(h);
                        },
                    }
                    match self.execute_command(body, f - 1) {
                        Err(h) => {
                            return Err(h);
                        },
                        Ok(_) => {},
                    }
                    f = f - 1;
                }
            },
            _ => Ok(Value::Unit),
        }
    }

    /// `if cond then a else b`: runs exactly one branch.
    #[verifier::spinoff_prover]
    pub fn execute_if_else(&mut self, cmd: &'a Command, fuel: u64) -> (r: Result<Value, Halt>)
        requires
            old(self).wf(),
            cmd is IfElse,
        ensures
            final(self).wf(),
            (final(self).model(), outcome(r)) == exec(old(self).model(), cmd@, fuel as nat),
            final(self).env@.scopes == old(self).env@.scopes,
        decreases fuel, 3nat, cmd, 0int,
    {
        proof {
            reveal_with_fuel(exec, 1);
        }
        match cmd {
            Command::IfElse(cond, a, b) => {
                let branch = match self.execute_expression(cond, fuel) {
                    Ok(Value::Bool(t)) => t,
                    Ok(_) => {
                        return Err(Halt::InvalidOperands);
                    },
                    Err(Halt::Reported) => {
                        return Ok(Value::Unit);
                    },
                    Err(h) => {
                        return Err(h);
                    },
                };
                let r = if branch {
                    self.execute_command(a, fuel)
                } else {
                    self.execute_command(b, fuel)
                };
                match r {
                    Err(Halt::Reported) => Ok(Value::Unit),
                    Err(h) => Err(h),
                    Ok(_) => Ok(Value::Unit),
                }
            },
            _ => Ok(Value::Unit),
        }
    }

    /// `write(expr)` appends the value's text as one line of output; `read(x)` binds
    /// `x` in the current scope to the next input line, or to the empty line when
    /// none is left.
    #[verifier::spinoff_prover]
    pub fn execute_io(&mut self, cmd: &'a Command, fuel: u64) -> (r: Result<Value, Halt>)
        requires
            old(self).wf(),
            cmd is IO,
        ensures
            final(self).wf(),
            (final(self).model(), outcome(r)) == exec(old(self).model(), cmd@, fuel as nat),
            final(self).env@.scopes == old(self).env@.scopes,
        decreases fuel, 3nat, cmd, 0int,
    {
        proof {
            reveal_with_fuel(exec, 1);
        }
        match cmd {
            Command::IO(IOCommand::Write(e)) => {
                match self.execute_expression(e, fuel) {
                    Ok(v) => {
                        self.emit(render_value(&v));
                        Ok(Value::Unit)
                    },
                    Err(Halt::Reported) => Ok(Value::Unit),
                    Err(h) => Err(h),
                }
            },
            Command::IO(IOCommand::Read(x)) => {
                let line = if self.next_input < self.input.len() {
                    let l = self.input[self.next_input].clone();
                    self.next_input = self.next_input + 1;
                    l
                } else {
                    String::new()
                };
                self.env.declare_variable(x.clone(), line_to_value(&line));
                Ok(Value::Unit)
            },
            _ => Ok(Value::Unit),
        }
    }
}

} // verus!
