//! The semantic analyzer: one pass over a program that checks types and the move
//! discipline, and collects every problem it finds rather than stopping at the first.
use vstd::prelude::*;
use crate::ast::{
    decl_view, decls_view, exprs_view, lemma_decls_view_len, lemma_exprs_view_len, params_view,
    BinaryOperator, CallProcedure, CallV, CmdV, Command, ConcreteValue, DeclV, Declaration,
    Expression, ExprV, IOCommand, ParamV, ProcedureParameter, Program, Type, UnaryOperator,
    Value, ValueV,
};
use crate::diagnostics::{
    already_declared, already_moved, argument_count, assignment_type, binary_operands,
    duplicate_parameter, if_condition, message, move_of_non_identifier, move_of_undeclared,
    moved_variable, parameter_type, procedure_already_declared, read_moved, return_type,
    unary_operand, undeclared_procedure, undeclared_variable, while_condition, Diagnostic,
};
use crate::environment::{EnvModel, Environment, ProcModel, ProcedureSignature, VariableInfo};

verus! {

/// The analyzer's state: its scopes and the texts of the problems found so far.
pub struct AState {
    pub env: EnvModel,
    pub errors: Seq<Seq<char>>,
}

pub open spec fn report(st: AState, d: Diagnostic) -> AState {
    AState { errors: st.errors.push(message(d)), ..st }
}

pub open spec fn with_env(st: AState, env: EnvModel) -> AState {
    AState { env: env, ..st }
}

pub open spec fn value_type(v: ValueV) -> Type {
    match v {
        ValueV::Int(_) => Type::Int,
        ValueV::Str(_) => Type::Str,
        ValueV::Bool(_) => Type::Bool,
        ValueV::Unit => Type::Unit,
    }
}

/// The operand type a unary operator requires.
pub open spec fn unary_operand_type(op: UnaryOperator) -> Type {
    match op {
        UnaryOperator::Neg => Type::Int,
        UnaryOperator::Not => Type::Bool,
        UnaryOperator::Length => Type::Str,
    }
}

pub open spec fn unary_result_type(op: UnaryOperator) -> Type {
    match op {
        UnaryOperator::Neg => Type::Int,
        UnaryOperator::Not => Type::Bool,
        UnaryOperator::Length => Type::Int,
    }
}

/// Whether a binary operator accepts operands of these types.
pub open spec fn binary_accepts(op: BinaryOperator, a: Type, b: Type) -> bool {
    match op {
        BinaryOperator::Add | BinaryOperator::Sub | BinaryOperator::Less
        | BinaryOperator::LessEqual | BinaryOperator::Greater | BinaryOperator::GreaterEqual => a
            == Type::Int && b == Type::Int,
        BinaryOperator::Equal => a == b,
        BinaryOperator::And | BinaryOperator::Or => a == Type::Bool && b == Type::Bool,
        BinaryOperator::Concat => a == Type::Str && b == Type::Str,
    }
}

pub open spec fn binary_result_type(op: BinaryOperator) -> Type {
    match op {
        BinaryOperator::Add | BinaryOperator::Sub => Type::Int,
        BinaryOperator::Concat => Type::Str,
        _ => Type::Bool,
    }
}

/// Marks the nearest binding of `x`, if any, as moved.
#[verifier::opaque]
pub open spec fn mark_moved(st: AState, x: Seq<char>) -> AState {
    match st.env.lookup_var(x) {
        Some(i) => if st.env.vars[i].1.moved {
            st
        } else {
            with_env(st, st.env.set_moved(i, true))
        },
        None => st,
    }
}

/// Marks the binding of `x` in the current scope itself, if any, as moved.
pub open spec fn mark_moved_here(st: AState, x: Seq<char>) -> AState {
    match st.env.lookup_var(x) {
        Some(i) => if st.env.var_declared_here(x) {
            with_env(st, st.env.set_moved(i, true))
        } else {
            st
        },
        None => st,
    }
}

/// The type of an expression, with the problems found in it; `None` when an unknown
/// name keeps the type from being known.
#[verifier::opaque]
pub open spec fn check_expr(st: AState, e: ExprV) -> (AState, Option<Type>)
    decreases e, 0nat,
{
    match e {
        ExprV::Const(v) => (st, Some(value_type(v))),
        ExprV::Ident(x) => match st.env.lookup_var(x) {
            None => (report(st, Diagnostic::UndeclaredVariable(x)), None),
            Some(i) => {
                let info = st.env.vars[i].1;
                (if info.moved { report(st, Diagnostic::MovedVariable(x)) } else { st }, Some(info.type_))
            },
        },
        ExprV::Unary(op, a) => {
            let (st1, t) = check_expr(st, *a);
            match t {
                Some(t) => (
                    if t != unary_operand_type(op) {
                        report(st1, Diagnostic::UnaryOperand(op, t))
                    } else {
                        st1
                    },
                    Some(unary_result_type(op)),
                ),
                None => (st1, None),
            }
        },
        ExprV::Binary(op, a, b) => {
            let (st1, ta) = check_expr(st, *a);
            let (st2, tb) = check_expr(st1, *b);
            match (ta, tb) {
                (Some(ta), Some(tb)) => (
                    if binary_accepts(op, ta, tb) {
                        st2
                    } else {
                        report(st2, Diagnostic::BinaryOperands(op, ta, tb))
                    },
                    Some(binary_result_type(op)),
                ),
                _ => (st2, None),
            }
        },
        ExprV::Call(c) => check_call(st, c),
    }
}

/// A call: the procedure must be known, take as many arguments as are given, each of
/// its parameter's type; every argument that is a bare name is moved.
#[verifier::opaque]
pub open spec fn check_call(st: AState, c: CallV) -> (AState, Option<Type>)
    decreases c, 0nat,
{
    match st.env.lookup_proc(c.id) {
        None => (report(st, Diagnostic::UndeclaredProcedure(c.id)), None),
        Some(p) => {
            let params = st.env.procs[p].params;
            let st1 = if c.args.len() != params.len() {
                report(st, Diagnostic::ArgumentCount(c.id, params.len(), c.args.len()))
            } else {
                st
            };
            let st2 = check_args(st1, c.id, params, c.args, 0);
            (
                st2,
                Some(
                    match st.env.procs[p].ret {
                        Some(t) => t,
                        None => Type::Unit,
                    },
                ),
            )
        },
    }
}

#[verifier::opaque]
pub open spec fn check_args(st: AState, id: Seq<char>, params: Seq<Type>, args: Seq<ExprV>, i: int) -> AState
    decreases args, args.len() - i,
{
    if i < 0 || i >= args.len() {
        st
    } else {
        check_args(check_arg(st, id, params, args, i), id, params, args, i + 1)
    }
}

/// One argument: it is checked as an expression, its type is compared with its
/// parameter's when there is one, and a bare name is moved.
#[verifier::opaque]
pub open spec fn check_arg(st: AState, id: Seq<char>, params: Seq<Type>, args: Seq<ExprV>, i: int) -> AState
    decreases args, 0int,
{
    if 0 <= i < args.len() {
        let (st1, t) = check_expr(st, args[i]);
        let st2 = match t {
            Some(t) => if i < params.len() && t != params[i] {
                report(st1, Diagnostic::ParameterType(id, (i + 1) as nat, params[i], t))
            } else {
                st1
            },
            None => st1,
        };
        match args[i] {
            ExprV::Ident(x) => mark_moved(st2, x),
            _ => st2,
        }
    } else {
        st
    }
}

/// The source of a move: it must be a known name, not moved already; it becomes moved.
#[verifier::opaque]
pub open spec fn move_source(st: AState, x: Seq<char>) -> (AState, Option<Type>) {
    match st.env.lookup_var(x) {
        None => (report(st, Diagnostic::MoveOfUndeclared(x)), None),
        Some(i) => {
            let info = st.env.vars[i].1;
            if info.moved {
                (report(st, Diagnostic::AlreadyMoved(x)), Some(info.type_))
            } else {
                (with_env(st, st.env.set_moved(i, true)), Some(info.type_))
            }
        },
    }
}

/// The right-hand side of an assignment or a variable declaration.
#[verifier::opaque]
pub open spec fn check_rhs(st: AState, e: ExprV, is_move: bool) -> (AState, Option<Type>) {
    if is_move {
        match e {
            ExprV::Ident(x) => move_source(st, x),
            _ => check_expr(report(st, Diagnostic::MoveOfNonIdentifier), e),
        }
    } else {
        check_expr(st, e)
    }
}

/// An assignment needs a binding of the name, of the assigned value's type; it
/// clears the binding's moved flag.
#[verifier::opaque]
pub open spec fn check_assign(st: AState, x: Seq<char>, e: ExprV, is_move: bool) -> AState {
    let (st1, t) = check_rhs(st, e, is_move);
    match st1.env.lookup_var(x) {
        None => report(st1, Diagnostic::UndeclaredVariable(x)),
        Some(i) => {
            let info = st1.env.vars[i].1;
            let st2 = match t {
                Some(t) => if t != info.type_ {
                    report(st1, Diagnostic::AssignmentType(x, info.type_, t))
                } else {
                    st1
                },
                None => st1,
            };
            with_env(st2, st2.env.set_moved(i, false))
        },
    }
}

/// Checks a command; the type is that of its tail expression: a sequence has the type
/// of its second part, a procedure call the type of the call, any other command `Unit`.
#[verifier::opaque]
pub open spec fn check_cmd(st: AState, c: CmdV) -> (AState, Type)
    decreases c, 0nat,
{
    match c {
        CmdV::Assign(x, e, mv) => (check_assign(st, x, e, mv), Type::Unit),
        CmdV::Block(ds, body) => {
            let st1 = check_decls(with_env(st, st.env.nest()), ds, 0);
            let (st2, _) = check_cmd(st1, *body);
            (with_env(st2, st2.env.leave()), Type::Unit)
        },
        CmdV::While(cond, body) => {
            let (st1, t) = check_expr(st, cond);
            let st2 = match t {
                Some(t) => if t != Type::Bool {
                    report(st1, Diagnostic::WhileCondition(t))
                } else {
                    st1
                },
                None => st1,
            };
            (check_cmd(st2, *body).0, Type::Unit)
        },
        CmdV::If(cond, a, b) => {
            let (st1, t) = check_expr(st, cond);
            let st2 = match t {
                Some(t) => if t != Type::Bool {
                    report(st1, Diagnostic::IfCondition(t))
                } else {
                    st1
                },
                None => st1,
            };
            let st3 = check_cmd(st2, *a).0;
            (check_cmd(st3, *b).0, Type::Unit)
        },
        CmdV::Read(x) => (
            match st.env.lookup_var(x) {
                None => report(st, Diagnostic::UndeclaredVariable(x)),
                Some(i) => if st.env.vars[i].1.moved {
                    report(st, Diagnostic::ReadMoved(x))
                } else {
                    st
                },
            },
            Type::Unit,
        ),
        CmdV::Write(e) => (check_expr(st, e).0, Type::Unit),
        CmdV::Then(a, b) => {
            let st1 = check_cmd(st, *a).0;
            check_cmd(st1, *b)
        },
        CmdV::Skip => (st, Type::Unit),
        CmdV::Call(c) => {
            let (st1, t) = check_call(st, c);
            (
                st1,
                match t {
                    Some(t) => t,
                    None => Type::Unit,
                },
            )
        },
    }
}

#[verifier::opaque]
pub open spec fn check_decls(st: AState, ds: Seq<DeclV>, i: int) -> AState
    decreases ds, ds.len() - i,
{
    if i < 0 || i >= ds.len() {
        st
    } else {
        check_decls(check_decl(st, ds[i]), ds, i + 1)
    }
}

/// Reports each parameter whose name an earlier parameter already has.
#[verifier::opaque]
pub open spec fn check_param_names(st: AState, ps: Seq<ParamV>, i: int) -> AState
    decreases ps.len() - i,
{
    if i < 0 || i >= ps.len() {
        st
    } else {
        let st1 = if exists|j: int| 0 <= j < i && ps[j].name == ps[i].name {
            report(st, Diagnostic::DuplicateParameter(ps[i].name))
        } else {
            st
        };
        check_param_names(st1, ps, i + 1)
    }
}

/// Binds the parameters as fresh, unmoved, mutable variables of the current scope.
#[verifier::opaque]
pub open spec fn bind_params(st: AState, ps: Seq<ParamV>, i: int) -> AState
    decreases ps.len() - i,
{
    if i < 0 || i >= ps.len() {
        st
    } else {
        let st1 = if st.env.var_declared_here(ps[i].name) {
            st
        } else {
            with_env(
                st,
                st.env.declare_var(ps[i].name, VariableInfo { type_: ps[i].ty, moved: false, mutable: true }),
            )
        };
        bind_params(st1, ps, i + 1)
    }
}

pub open spec fn param_types(ps: Seq<ParamV>) -> Seq<Type> {
    ps.map_values(|p: ParamV| p.ty)
}

#[verifier::opaque]
pub open spec fn check_decl(st: AState, d: DeclV) -> AState
    decreases d, 0nat,
{
    match d {
        DeclV::Var(x, e, mv) => {
            let (st1, t) = check_rhs(st, e, mv);
            if st1.env.var_declared_here(x) {
                report(st1, Diagnostic::AlreadyDeclared(x))
            } else {
                match t {
                    Some(t) => with_env(
                        st1,
                        st1.env.declare_var(x, VariableInfo { type_: t, moved: false, mutable: true }),
                    ),
                    None => st1,
                }
            }
        },
        DeclV::Proc(n, ps, ret, body) => {
            let st1 = check_param_names(st, ps, 0);
            let st2 = if st1.env.proc_declared_here(n) {
                report(st1, Diagnostic::ProcedureAlreadyDeclared(n))
            } else {
                with_env(st1, st1.env.declare_proc(ProcModel { name: n, params: param_types(ps), ret: ret }))
            };
            let st3 = bind_params(with_env(st2, st2.env.nest()), ps, 0);
            let (st4, t) = check_cmd(st3, *body);
            let st5 = match ret {
                Some(rt) => if t != rt {
                    report(st4, Diagnostic::ReturnType(n, rt, t))
                } else {
                    st4
                },
                None => st4,
            };
            with_env(st5, st5.env.leave())
        },
        DeclV::Compound(a, b) => check_decl(check_decl(st, *a), *b),
    }
}
pub open spec fn strings(s: Seq<String>) -> Seq<Seq<char>> {
    s.map_values(|x: String| x@)
}

fn copy_strings(v: &Vec<String>) -> (r: Vec<String>)
    ensures
        strings(r@) == strings(v@),
{
    let mut out: Vec<String> = Vec::new();
    let mut i: usize = 0;
    while i < v.len()
        invariant
            i <= v@.len(),
            strings(out@) == strings(v@.take(i as int)),
        decreases v@.len() - i,
    {
        let ghost before = out@;
        out.push(v[i].clone());
        assert(strings(out@) =~= strings(before).push(v@[i as int]@));
        assert(strings(v@.take(i + 1)) =~= strings(v@.take(i as int)).push(v@[i as int]@));
        i += 1;
    }
    assert(v@.take(i as int) =~= v@);
    out
}

fn operand_type_of(op: UnaryOperator) -> (r: Type)
    ensures
        r == unary_operand_type(op),
{
    match op {
        UnaryOperator::Neg => Type::Int,
        UnaryOperator::Not => Type::Bool,
        UnaryOperator::Length => Type::Str,
    }
}

fn result_type_of(op: UnaryOperator) -> (r: Type)
    ensures
        r == unary_result_type(op),
{
    match op {
        UnaryOperator::Neg => Type::Int,
        UnaryOperator::Not => Type::Bool,
        UnaryOperator::Length => Type::Int,
    }
}

fn accepts(op: BinaryOperator, a: Type, b: Type) -> (r: bool)
    ensures
        r == binary_accepts(op, a, b),
{
    match op {
        BinaryOperator::Add | BinaryOperator::Sub | BinaryOperator::Less
        | BinaryOperator::LessEqual | BinaryOperator::Greater | BinaryOperator::GreaterEqual => a
            == Type::Int && b == Type::Int,
        BinaryOperator::Equal => a == b,
        BinaryOperator::And | BinaryOperator::Or => a == Type::Bool && b == Type::Bool,
        BinaryOperator::Concat => a == Type::Str && b == Type::Str,
    }
}

fn binary_result_of(op: BinaryOperator) -> (r: Type)
    ensures
        r == binary_result_type(op),
{
    match op {
        BinaryOperator::Add | BinaryOperator::Sub => Type::Int,
        BinaryOperator::Concat => Type::Str,
        _ => Type::Bool,
    }
}

fn literal_type(v: &Value) -> (r: Type)
    ensures
        r == value_type(v@),
{
    match v {
        Value::Int(_) => Type::Int,
        Value::Str(_) => Type::Str,
        Value::Bool(_) => Type::Bool,
        Value::Unit => Type::Unit,
    }
}

/// Whether an earlier parameter has the same name as parameter `i`.
fn repeats_earlier(ps: &Vec<ProcedureParameter>, i: usize) -> (r: bool)
    requires
        i < ps@.len(),
    ensures
        r == exists|j: int| 0 <= j < i && params_view(ps@)[j].name == params_view(ps@)[i as int].name,
{
    let mut j: usize = 0;
    while j < i
        invariant
            i < ps@.len(),
            j <= i,
            forall|k: int| 0 <= k < j ==> params_view(ps@)[k].name != params_view(ps@)[i as int].name,
        decreases i - j,
    {
        if ps[j].identifier == ps[i].identifier {
            assert(params_view(ps@)[j as int].name == params_view(ps@)[i as int].name);
            return true;
        }
        j += 1;
    }
    false
}

fn parameter_type_list(ps: &Vec<ProcedureParameter>) -> (r: Vec<Type>)
    ensures
        r@ == param_types(params_view(ps@)),
{
    let mut out: Vec<Type> = Vec::new();
    let mut i: usize = 0;
    while i < ps.len()
        invariant
            i <= ps@.len(),
            out@ == param_types(params_view(ps@.take(i as int))),
        decreases ps@.len() - i,
    {
        out.push(ps[i].type_);
        i += 1;
        assert(out@ =~= param_types(params_view(ps@.take(i as int))));
    }
    assert(ps@.take(i as int) =~= ps@);
    out
}

/// The analyzer: its scopes and the texts of the problems found so far.
pub struct SemanticAnalyzer {
    pub env: Environment,
    pub errors: Vec<String>,
}

impl SemanticAnalyzer {
    pub open spec fn model(&self) -> AState {
        AState { env: self.env@, errors: strings(self.errors@) }
    }

    pub open spec fn wf(&self) -> bool {
        self.env@.wf()
    }

    #[verifier::spinoff_prover]
    pub fn new() -> (r: SemanticAnalyzer)
        ensures
            r.model() == (AState { env: EnvModel::root(), errors: Seq::empty() }),
            r.wf(),
    {
        let r = SemanticAnalyzer { env: Environment::new(), errors: Vec::new() };
        assert(strings(r.errors@) =~= Seq::<Seq<char>>::empty());
        r
    }

    /// Records a problem.
    #[verifier::spinoff_prover]
    pub fn report_error(&mut self, msg: String)
        ensures
            final(self).model() == (AState { errors: old(self).model().errors.push(msg@), ..old(self).model() }),
            final(self).env == old(self).env,
    {
        let ghost before = self.errors@;
        self.errors.push(msg);
        assert(strings(self.errors@) =~= strings(before).push(msg@));
    }

    /// Checks a program; succeeds when no problem is found, in this call or before.
    #[verifier::spinoff_prover]
    pub fn check_program(&mut self, program: &Program) -> (r: Result<(), Vec<String>>)
        requires
            old(self).wf(),
        ensures
            final(self).wf(),
            final(self).model() == check_cmd(old(self).model(), program@).0,
            match r {
                Ok(()) => final(self).model().errors.len() == 0,
                Err(v) => final(self).model().errors.len() > 0 && strings(v@) == final(self).model().errors,
            },
    {
        match program {
            Program::Command(c) => {
                self.check_command(c);
            },
        }
        if self.errors.len() == 0 {
            Ok(())
        } else {
            Err(copy_strings(&self.errors))
        }
    }

    /// Marks the binding of `var` in the current scope itself, if there is one, as
    /// moved; bindings of enclosing scopes are left alone.
    #[verifier::spinoff_prover]
    pub fn mark_as_moved(&mut self, var: &String)
        requires
            old(self).wf(),
        ensures
            final(self).wf(),
            final(self).model() == mark_moved_here(old(self).model(), var@),
            final(self).env@.scopes == old(self).env@.scopes,
    {
        if self.env.variable_declared_here(var) {
            match self.env.find_variable(var) {
                Some(i) => {
                    let info = self.env.variable_info(i);
                    self.env.set_info(i, VariableInfo { moved: true, ..info });
                },
                None => {},
            }
        }
    }

    /// Marks the nearest binding of `var`, if there is one, as moved.
    #[verifier::spinoff_prover]
    pub fn mark_variable_as_moved(&mut self, var: &String)
        requires
            old(self).wf(),
        ensures
            final(self).wf(),
            final(self).model() == mark_moved(old(self).model(), var@),
            final(self).env@.scopes == old(self).env@.scopes,
    {
        proof {
            reveal(mark_moved);
        }
        let _ = self.env.move_variable(var);
    }

    #[verifier::spinoff_prover]
    #[verifier::rlimit(100)]
    pub fn check_expression(&mut self, expr: &Expression) -> (r: Option<Type>)
        requires
            old(self).wf(),
        ensures
            final(self).wf(),
            (final(self).model(), r) == check_expr(old(self).model(), expr@),
            final(self).env@.scopes == old(self).env@.scopes,
        decreases expr, 2nat,
    {
        proof {
            reveal_with_fuel(check_expr, 1);
        }
        match expr {
            Expression::ConcreteValue(ConcreteValue::Value(v)) => {
                proof {
                    assert(expr@ == ExprV::Const(v@));
                }
                Some(literal_type(v))
            },
            Expression::Identifier(x) => self.check_identifier(x),
            Expression::UnaryExp(_, _) => self.check_operator(expr),
            Expression::BinaryExp(_, _, _) => self.check_operator(expr),
            Expression::CallProcedure(c) => self.check_call(c),
        }
    }

    #[verifier::spinoff_prover]
    #[verifier::rlimit(100)]
    fn check_operator(&mut self, expr: &Expression) -> (r: Option<Type>)
        requires
            old(self).wf(),
            expr is UnaryExp || expr is BinaryExp,
        ensures
            final(self).wf(),
            (final(self).model(), r) == check_expr(old(self).model(), expr@),
            final(self).env@.scopes == old(self).env@.scopes,
        decreases expr, 1nat,
    {
        proof {
            reveal_with_fuel(check_expr, 1);
        }
        match expr {
            Expression::UnaryExp(op, a) => {
                let t = self.check_expression(a);
                match t {
                    Some(t) => {
                        if t != operand_type_of(*op) {
                            self.report_error(unary_operand(*op, t));
                        }
                        Some(result_type_of(*op))
                    },
                    None => None,
                }
            },
            Expression::BinaryExp(op, a, b) => {
                let ta = self.check_expression(a);
                let tb = self.check_expression(b);
                match (ta, tb) {
                    (Some(ta), Some(tb)) => {
                        if !accepts(*op, ta, tb) {
                            self.report_error(binary_operands(*op, ta, tb));
                        }
                        Some(binary_result_of(*op))
                    },
                    _ => None,
                }
            },
            _ => None,
        }
    }

    #[verifier::spinoff_prover]
    #[verifier::rlimit(100)]
    fn check_identifier(&mut self, x: &String) -> (r: Option<Type>)
        requires
            old(self).wf(),
        ensures
            final(self).wf(),
            (final(self).model(), r) == check_expr(old(self).model(), ExprV::Ident(x@)),
            final(self).env == old(self).env,
    {
        proof {
            reveal_with_fuel(check_expr, 1);
        }
        match self.env.lookup_variable(x) {
            None => {
                self.report_error(undeclared_variable(x));
                None
            },
            Some(info) => {
                if info.moved {
                    self.report_error(moved_variable(x));
                }
                Some(info.type_)
            },
        }
    }

    #[verifier::spinoff_prover]
    #[verifier::loop_isolation(false)]
    fn check_call(&mut self, c: &CallProcedure) -> (r: Option<Type>)
        requires
            old(self).wf(),
        ensures
            final(self).wf(),
            (final(self).model(), r) == check_call(
                old(self).model(),
                CallV { id: c.id@, args: exprs_view(c.args@) },
            ),
            final(self).env@.scopes == old(self).env@.scopes,
        decreases c, 2nat,
    {
        proof {
            reveal_with_fuel(check_call, 1);
            reveal_with_fuel(check_args, 1);
        }
        let ghost cv = CallV { id: c.id@, args: exprs_view(c.args@) };
        proof {
            lemma_exprs_view_len(c.args@);
        }
        let p = match self.env.find_procedure(&c.id) {
            None => {
                self.report_error(undeclared_procedure(&c.id));
                return None;
            },
            Some(p) => p,
        };
        let params = self.env.parameter_types(p);
        let ret = self.env.return_type(p);
        if c.args.len() != params.len() {
            self.report_error(argument_count(&c.id, params.len(), c.args.len()));
        }
        let ghost st1 = self.model();
        let ghost scopes0 = self.env@.scopes;
        let mut i: usize = 0;
        while i < c.args.len()
            invariant
                self.wf(),
                i <= c.args@.len(),
                cv.args == exprs_view(c.args@),
                cv.args.len() == c.args@.len(),
                check_args(st1, c.id@, params@, cv.args, 0) == check_args(self.model(), c.id@, params@, cv.args, i as int),
                self.env@.scopes == scopes0,
            decreases c.args@.len() - i,
        {
            proof {
                reveal_with_fuel(check_args, 1);
            }
            self.check_argument(c, &params, i);
            i += 1;
        }
        Some(
            match ret {
                Some(t) => t,
                None => Type::Unit,
            },
        )
    }

    #[verifier::spinoff_prover]
    #[verifier::rlimit(100)]
    fn check_argument(&mut self, c: &CallProcedure, params: &Vec<Type>, i: usize)
        requires
            old(self).wf(),
            i < c.args@.len(),
            i < usize::MAX,
        ensures
            final(self).wf(),
            final(self).model() == check_arg(old(self).model(), c.id@, params@, exprs_view(c.args@), i as int),
            final(self).env@.scopes == old(self).env@.scopes,
        decreases c, 1nat,
    {
        proof {
            reveal_with_fuel(check_arg, 1);
        }
        proof {
            lemma_exprs_view_len(c.args@);
            assert(decreases_to!(c.args => c.args[i as int]));
        }
        let t = self.check_expression(&c.args[i]);
        match t {
            Some(t) => {
                if i < params.len() && t != params[i] {
                    self.report_error(parameter_type(&c.id, i + 1, params[i], t));
                }
            },
            None => {},
        }
        match &c.args[i] {
            Expression::Identifier(x) => {
                self.mark_variable_as_moved(x);
            },
            _ => {},
        }
    }

    #[verifier::spinoff_prover]
    fn move_source(&mut self, x: &String) -> (r: Option<Type>)
        requires
            old(self).wf(),
        ensures
            final(self).wf(),
            (final(self).model(), r) == move_source(old(self).model(), x@),
            final(self).env@.scopes == old(self).env@.scopes,
    {
        proof {
            reveal(move_source);
        }
        match self.env.lookup_variable(x) {
            None => {
                self.report_error(move_of_undeclared(x));
                None
            },
            Some(info) => {
                if info.moved {
                    self.report_error(already_moved(x));
                } else {
                    let _ = self.env.move_variable(x);
                }
                Some(info.type_)
            },
        }
    }

    #[verifier::spinoff_prover]
    fn check_rhs(&mut self, e: &Expression, is_move: bool) -> (r: Option<Type>)
        requires
            old(self).wf(),
        ensures
            final(self).wf(),
            (final(self).model(), r) == check_rhs(old(self).model(), e@, is_move),
            final(self).env@.scopes == old(self).env@.scopes,
    {
        proof {
            reveal(check_rhs);
        }
        if is_move {
            match e {
                Expression::Identifier(x) => self.move_source(x),
                _ => {
                    self.report_error(move_of_non_identifier());
                    self.check_expression(e)
                },
            }
        } else {
            self.check_expression(e)
        }
    }

    #[verifier::spinoff_prover]
    pub fn check_assignment(&mut self, var: &String, expr: &Expression, is_move: bool)
        requires
            old(self).wf(),
        ensures
            final(self).wf(),
            final(self).model() == check_assign(old(self).model(), var@, expr@, is_move),
            final(self).env@.scopes == old(self).env@.scopes,
    {
        proof {
            reveal(check_assign);
        }
        let t = self.check_rhs(expr, is_move);
        match self.env.find_variable(var) {
            None => {
                self.report_error(undeclared_variable(var));
            },
            Some(i) => {
                let info = self.env.variable_info(i);
                match t {
                    Some(t) => {
                        if t != info.type_ {
                            self.report_error(assignment_type(var, info.type_, t));
                        }
                    },
                    None => {},
                }
                self.env.set_info(i, VariableInfo { moved: false, ..info });
            },
        }
    }

    /// Checks a command and gives the type of its tail expression.
    #[verifier::spinoff_prover]
    #[verifier::rlimit(100)]
    pub fn check_command(&mut self, cmd: &Command) -> (r: Type)
        requires
            old(self).wf(),
        ensures
            final(self).wf(),
            (final(self).model(), r) == check_cmd(old(self).model(), cmd@),
            final(self).env@.scopes == old(self).env@.scopes,
        decreases cmd, 2nat,
    {
        proof {
            reveal_with_fuel(check_cmd, 1);
        }
        match cmd {
            Command::Assignment(x, e, mv) => {
                self.check_assignment(x, e, *mv);
                Type::Unit
            },
            Command::DeclarationBlock(_, _) => {
                self.check_block(cmd);
                Type::Unit
            },
            Command::WhileLoop(cond, body) => {
                let t = self.check_expression(cond);
                match t {
                    Some(t) => {
                        if t != Type::Bool {
                            self.report_error(while_condition(t));
                        }
                    },
                    None => {},
                }
                self.check_command(body);
                Type::Unit
            },
            Command::IfElse(cond, a, b) => {
                let t = self.check_expression(cond);
                match t {
                    Some(t) => {
                        if t != Type::Bool {
                            self.report_error(if_condition(t));
                        }
                    },
                    None => {},
                }
                self.check_command(a);
                self.check_command(b);
                Type::Unit
            },
            Command::IO(IOCommand::Read(x)) => {
                match self.env.lookup_variable(x) {
                    None => {
                        self.report_error(undeclared_variable(x));
                    },
                    Some(info) => {
                        if info.moved {
                            self.report_error(read_moved(x));
                        }
                    },
                }
                Type::Unit
            },
            Command::IO(IOCommand::Write(e)) => {
                self.check_expression(e);
                Type::Unit
            },
            Command::Sequence(a, b) => {
                self.check_command(a);
                self.check_command(b)
            },
            Command::Skip => Type::Unit,
            Command::CallProcedure(c) => match self.check_call(c) {
                Some(t) => t,
                None => Type::Unit,
            },
        }
    }

    #[verifier::spinoff_prover]
    #[verifier::loop_isolation(false)]
    fn check_block(&mut self, cmd: &Command)
        requires
            old(self).wf(),
            cmd is DeclarationBlock,
        ensures
            final(self).wf(),
            final(self).model() == check_cmd(old(self).model(), cmd@).0,
            final(self).env@.scopes == old(self).env@.scopes,
        decreases cmd, 1nat,
    {
        proof {
            reveal_with_fuel(check_cmd, 1);
            reveal_with_fuel(check_decls, 1);
        }
        match cmd {
            Command::DeclarationBlock(ds, body) => {
                let ghost scopes0 = self.env@.scopes;
                self.env.nest();
                let ghost st1 = self.model();
                let ghost dv = decls_view(ds@);
                proof {
                    lemma_decls_view_len(ds@);
                }
                let mut i: usize = 0;
                while i < ds.len()
                    invariant
                        self.wf(),
                        i <= ds@.len(),
                        dv.len() == ds@.len(),
                        forall|k: int| 0 <= k < ds@.len() ==> #[trigger] dv[k] == decl_view(ds@[k]),
                        check_decls(st1, dv, 0) == check_decls(self.model(), dv, i as int),
                        self.env@.scopes == st1.env.scopes,
                    decreases ds@.len() - i,
                {
                    proof {
                        assert(decreases_to!(*cmd => *ds));
                        assert(decreases_to!(ds => ds[i as int]));
                    }
                    self.check_declaration(&ds[i]);
                    i += 1;
                }
                self.check_command(body);
                self.env.leave();
                assert(self.env@.scopes =~= scopes0);
            },
            _ => {},
        }
    }

    #[verifier::spinoff_prover]
    #[verifier::loop_isolation(false)]
    fn check_param_names(&mut self, ps: &Vec<ProcedureParameter>)
        requires
            old(self).wf(),
        ensures
            final(self).wf(),
            final(self).model() == check_param_names(old(self).model(), params_view(ps@), 0),
            final(self).env == old(self).env,
    {
        proof {
            reveal_with_fuel(check_param_names, 1);
        }
        let ghost st0 = self.model();
        let ghost pv = params_view(ps@);
        let mut i: usize = 0;
        while i < ps.len()
            invariant
                self.env == old(self).env,
                self.wf(),
                i <= ps@.len(),
                pv == params_view(ps@),
                pv.len() == ps@.len(),
                check_param_names(st0, pv, 0) == check_param_names(self.model(), pv, i as int),
            decreases ps@.len() - i,
        {
            proof {
                reveal_with_fuel(check_param_names, 1);
            }
            if repeats_earlier(ps, i) {
                self.report_error(duplicate_parameter(&ps[i].identifier));
            }
            i += 1;
        }
    }

    #[verifier::spinoff_prover]
    #[verifier::loop_isolation(false)]
    #[verifier::rlimit(100)]
    fn bind_params(&mut self, ps: &Vec<ProcedureParameter>)
        requires
            old(self).wf(),
        ensures
            final(self).wf(),
            final(self).model() == bind_params(old(self).model(), params_view(ps@), 0),
            final(self).env@.scopes == old(self).env@.scopes,
    {
        proof {
            reveal_with_fuel(bind_params, 1);
        }
        let ghost st0 = self.model();
        let ghost pv = params_view(ps@);
        let mut i: usize = 0;
        while i < ps.len()
            invariant
                self.wf(),
                i <= ps@.len(),
                pv == params_view(ps@),
                pv.len() == ps@.len(),
                bind_params(st0, pv, 0) == bind_params(self.model(), pv, i as int),
                self.env@.scopes == st0.env.scopes,
            decreases ps@.len() - i,
        {
            proof {
                reveal_with_fuel(bind_params, 1);
            }
            let info = VariableInfo { type_: ps[i].type_, moved: false, mutable: true };
            let _ = self.env.declare_variable(ps[i].identifier.clone(), info);
            i += 1;
        }
    }

    #[verifier::spinoff_prover]
    #[verifier::rlimit(100)]
    fn check_procedure(&mut self, decl: &Declaration)
        requires
            old(self).wf(),
            decl is Procedure,
        ensures
            final(self).wf(),
            final(self).model() == check_decl(old(self).model(), decl@),
            final(self).env@.scopes == old(self).env@.scopes,
        decreases decl, 1nat,
    {
        proof {
            reveal_with_fuel(check_decl, 1);
        }
        match decl {
            Declaration::Procedure(n, ps, ret, body) => {
                let ghost scopes0 = self.env@.scopes;
                self.check_param_names(ps);
                let sig = ProcedureSignature {
                    name: n.clone(),
                    parameters: parameter_type_list(ps),
                    return_type: *ret,
                };
                if !self.env.declare_procedure(sig) {
                    self.report_error(procedure_already_declared(n));
                }
                self.env.nest();
                self.bind_params(ps);
                let t = self.check_command(body);
                match ret {
                    Some(rt) => {
                        if t != *rt {
                            self.report_error(return_type(n, *rt, t));
                        }
                    },
                    None => {},
                }
                self.env.leave();
                assert(self.env@.scopes =~= scopes0);
            },
            _ => {},
        }
    }

    #[verifier::spinoff_prover]
    pub fn check_declaration(&mut self, decl: &Declaration)
        requires
            old(self).wf(),
        ensures
            final(self).wf(),
            final(self).model() == check_decl(old(self).model(), decl@),
            final(self).env@.scopes == old(self).env@.scopes,
        decreases decl, 2nat,
    {
        proof {
            reveal_with_fuel(check_decl, 1);
        }
        match decl {
            Declaration::Variable(x, e, mv) => {
                let t = self.check_rhs(e, *mv);
                if self.env.variable_declared_here(x) {
                    self.report_error(already_declared(x));
                } else {
                    match t {
                        Some(t) => {
                            let _ = self.env.declare_variable(
                                x.clone(),
                                VariableInfo { type_: t, moved: false, mutable: true },
                            );
                        },
                        None => {},
                    }
                }
            },
            Declaration::Procedure(_, _, _, _) => {
                self.check_procedure(decl);
            },
            Declaration::Compound(a, b) => {
                self.check_declaration(a);
                self.check_declaration(b);
            },
        }
    }
}

} // verus!
