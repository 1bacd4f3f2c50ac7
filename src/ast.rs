//! The abstract syntax tree shared by the parser, the analyzer and the executor.
use vstd::prelude::*;

verus! {

/// A whole program: one command.
#[derive(Debug, PartialEq, Eq)]
pub enum Program {
    Command(Command),
}

#[derive(Debug, PartialEq, Eq)]
pub enum Command {
    /// `x := e` or `x := move y`.
    Assignment(String, Expression, bool),
    /// `{ declarations ; body }`.
    DeclarationBlock(Vec<Declaration>, Box<Command>),
    WhileLoop(Expression, Box<Command>),
    IfElse(Expression, Box<Command>, Box<Command>),
    IO(IOCommand),
    Sequence(Box<Command>, Box<Command>),
    Skip,
    CallProcedure(CallProcedure),
}

#[derive(Debug, PartialEq, Eq)]
pub enum Declaration {
    /// `var x = e` or `var x = move y`.
    Variable(String, Expression, bool),
    /// `proc name(parameters) { body }`, with an optional declared result type.
    Procedure(String, Vec<ProcedureParameter>, Option<Type>, Box<Command>),
    /// Two declarations of one comma-separated list.
    Compound(Box<Declaration>, Box<Declaration>),
}

#[derive(Debug, PartialEq, Eq)]
pub enum Expression {
    ConcreteValue(ConcreteValue),
    Identifier(String),
    UnaryExp(UnaryOperator, Box<Expression>),
    BinaryExp(BinaryOperator, Box<Expression>, Box<Expression>),
    CallProcedure(CallProcedure),
}

#[derive(Debug, Clone, Copy, PartialEq, Eq, Structural)]
pub enum UnaryOperator {
    Neg,
    Not,
    Length,
}

#[derive(Debug, Clone, Copy, PartialEq, Eq, Structural)]
pub enum BinaryOperator {
    Add,
    Sub,
    Equal,
    And,
    Or,
    Concat,
    Less,
    LessEqual,
    Greater,
    GreaterEqual,
}

#[derive(Debug, PartialEq, Eq)]
pub enum IOCommand {
    Read(String),
    Write(Box<Expression>),
}

#[derive(Debug, Clone, PartialEq, Eq)]
pub enum ConcreteValue {
    Value(Value),
}

#[derive(Debug, Clone, PartialEq, Eq)]
pub enum Value {
    Int(i64),
    Str(String),
    Bool(bool),
    Unit,
}

#[derive(Debug, PartialEq, Eq)]
pub struct CallProcedure {
    pub id: String,
    pub args: Vec<Expression>,
}

#[derive(Debug, Clone, PartialEq, Eq)]
pub struct ProcedureParameter {
    pub identifier: String,
    pub type_: Type,
}

#[derive(Debug, Clone, Copy, PartialEq, Eq, Structural)]
pub enum Type {
    Int,
    Str,
    Bool,
    Unit,
}
impl Value {
    /// A copy of the value, equal to it.
    pub fn duplicate(&self) -> (r: Value)
        ensures
            r == *self,
    {
        match self {
            Value::Int(n) => Value::Int(*n),
            Value::Str(s) => Value::Str(s.clone()),
            Value::Bool(b) => Value::Bool(*b),
            Value::Unit => Value::Unit,
        }
    }
}

} // verus!

verus! {

broadcast use {vstd::std_specs::vec::axiom_vec_decreases_to_view, vstd::seq::axiom_seq_index_decreases, vstd::seq::axiom_seq_subrange_decreases};

/// The mathematical form of a value: strings as character sequences.
pub enum ValueV {
    Int(i64),
    Str(Seq<char>),
    Bool(bool),
    Unit,
}

pub struct CallV {
    pub id: Seq<char>,
    pub args: Seq<ExprV>,
}

pub enum ExprV {
    Const(ValueV),
    Ident(Seq<char>),
    Unary(UnaryOperator, Box<ExprV>),
    Binary(BinaryOperator, Box<ExprV>, Box<ExprV>),
    Call(CallV),
}

pub struct ParamV {
    pub name: Seq<char>,
    pub ty: Type,
}

pub enum CmdV {
    Assign(Seq<char>, ExprV, bool),
    Block(Seq<DeclV>, Box<CmdV>),
    While(ExprV, Box<CmdV>),
    If(ExprV, Box<CmdV>, Box<CmdV>),
    Read(Seq<char>),
    Write(ExprV),
    Then(Box<CmdV>, Box<CmdV>),
    Skip,
    Call(CallV),
}

pub enum DeclV {
    Var(Seq<char>, ExprV, bool),
    Proc(Seq<char>, Seq<ParamV>, Option<Type>, Box<CmdV>),
    Compound(Box<DeclV>, Box<DeclV>),
}

pub open spec fn value_view(v: Value) -> ValueV {
    match v {
        Value::Int(n) => ValueV::Int(n),
        Value::Str(s) => ValueV::Str(s@),
        Value::Bool(b) => ValueV::Bool(b),
        Value::Unit => ValueV::Unit,
    }
}

pub open spec fn expr_view(e: Expression) -> ExprV
    decreases e,
{
    match e {
        Expression::ConcreteValue(ConcreteValue::Value(v)) => ExprV::Const(value_view(v)),
        Expression::Identifier(x) => ExprV::Ident(x@),
        Expression::UnaryExp(op, a) => ExprV::Unary(op, Box::new(expr_view(*a))),
        Expression::BinaryExp(op, a, b) => ExprV::Binary(
            op,
            Box::new(expr_view(*a)),
            Box::new(expr_view(*b)),
        ),
        Expression::CallProcedure(c) => ExprV::Call(CallV { id: c.id@, args: exprs_view(c.args@) }),
    }
}

pub open spec fn exprs_view(s: Seq<Expression>) -> Seq<ExprV>
    decreases s,
{
    if s.len() == 0 {
        Seq::empty()
    } else {
        exprs_view(s.drop_last()).push(expr_view(s.last()))
    }
}

pub open spec fn param_view(p: ProcedureParameter) -> ParamV {
    ParamV { name: p.identifier@, ty: p.type_ }
}

pub open spec fn params_view(s: Seq<ProcedureParameter>) -> Seq<ParamV> {
    s.map_values(|p: ProcedureParameter| param_view(p))
}

pub open spec fn cmd_view(c: Command) -> CmdV
    decreases c,
{
    match c {
        Command::Assignment(x, e, m) => CmdV::Assign(x@, expr_view(e), m),
        Command::DeclarationBlock(ds, b) => CmdV::Block(decls_view(ds@), Box::new(cmd_view(*b))),
        Command::WhileLoop(e, b) => CmdV::While(expr_view(e), Box::new(cmd_view(*b))),
        Command::IfElse(e, a, b) => CmdV::If(
            expr_view(e),
            Box::new(cmd_view(*a)),
            Box::new(cmd_view(*b)),
        ),
        Command::IO(IOCommand::Read(x)) => CmdV::Read(x@),
        Command::IO(IOCommand::Write(e)) => CmdV::Write(expr_view(*e)),
        Command::Sequence(a, b) => CmdV::Then(Box::new(cmd_view(*a)), Box::new(cmd_view(*b))),
        Command::Skip => CmdV::Skip,
        Command::CallProcedure(c) => CmdV::Call(CallV { id: c.id@, args: exprs_view(c.args@) }),
    }
}

pub open spec fn decl_view(d: Declaration) -> DeclV
    decreases d,
{
    match d {
        Declaration::Variable(x, e, m) => DeclV::Var(x@, expr_view(e), m),
        Declaration::Procedure(n, ps, t, b) => DeclV::Proc(
            n@,
            params_view(ps@),
            t,
            Box::new(cmd_view(*b)),
        ),
        Declaration::Compound(a, b) => DeclV::Compound(
            Box::new(decl_view(*a)),
            Box::new(decl_view(*b)),
        ),
    }
}

pub open spec fn decls_view(s: Seq<Declaration>) -> Seq<DeclV>
    decreases s,
{
    if s.len() == 0 {
        Seq::empty()
    } else {
        decls_view(s.drop_last()).push(decl_view(s.last()))
    }
}

impl View for Value {
    type V = ValueV;

    open spec fn view(&self) -> ValueV {
        value_view(*self)
    }
}

impl View for Expression {
    type V = ExprV;

    open spec fn view(&self) -> ExprV {
        expr_view(*self)
    }
}

impl View for Command {
    type V = CmdV;

    open spec fn view(&self) -> CmdV {
        cmd_view(*self)
    }
}

impl View for Declaration {
    type V = DeclV;

    open spec fn view(&self) -> DeclV {
        decl_view(*self)
    }
}

impl View for Program {
    type V = CmdV;

    open spec fn view(&self) -> CmdV {
        match *self {
            Program::Command(c) => cmd_view(c),
        }
    }
}

impl View for ConcreteValue {
    type V = ValueV;

    open spec fn view(&self) -> ValueV {
        match *self {
            ConcreteValue::Value(v) => value_view(v),
        }
    }
}

impl View for ProcedureParameter {
    type V = ParamV;

    open spec fn view(&self) -> ParamV {
        param_view(*self)
    }
}

impl View for Type {
    type V = Type;

    open spec fn view(&self) -> Type {
        *self
    }
}

impl View for UnaryOperator {
    type V = UnaryOperator;

    open spec fn view(&self) -> UnaryOperator {
        *self
    }
}

impl View for BinaryOperator {
    type V = BinaryOperator;

    open spec fn view(&self) -> BinaryOperator {
        *self
    }
}

pub proof fn lemma_exprs_view_push(s: Seq<Expression>, e: Expression)
    ensures
        exprs_view(s.push(e)) == exprs_view(s).push(expr_view(e)),
{
    assert(s.push(e).drop_last() =~= s);
}

pub proof fn lemma_decls_view_push(s: Seq<Declaration>, d: Declaration)
    ensures
        decls_view(s.push(d)) == decls_view(s).push(decl_view(d)),
{
    assert(s.push(d).drop_last() =~= s);
}

pub proof fn lemma_exprs_view_len(s: Seq<Expression>)
    ensures
        exprs_view(s).len() == s.len(),
        forall|i: int| 0 <= i < s.len() ==> #[trigger] exprs_view(s)[i] == expr_view(s[i]),
    decreases s.len(),
{
    if s.len() > 0 {
        lemma_exprs_view_len(s.drop_last());
    }
}

pub proof fn lemma_decls_view_len(s: Seq<Declaration>)
    ensures
        decls_view(s).len() == s.len(),
        forall|i: int| 0 <= i < s.len() ==> #[trigger] decls_view(s)[i] == decl_view(s[i]),
    decreases s.len(),
{
    if s.len() > 0 {
        lemma_decls_view_len(s.drop_last());
    }
}

} // verus!
