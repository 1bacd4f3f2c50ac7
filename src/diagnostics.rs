//! What the analyzer and the executor report, and the text of each report.
use vstd::prelude::*;
use vstd::string::*;
use crate::ast::{BinaryOperator, Type, UnaryOperator};
use crate::text::{nat_string, nat_text};

verus! {

/// A problem found in a program, with the names and types involved.
pub enum Diagnostic {
    UndeclaredVariable(Seq<char>),
    MovedVariable(Seq<char>),
    UndeclaredProcedure(Seq<char>),
    AlreadyDeclared(Seq<char>),
    ProcedureAlreadyDeclared(Seq<char>),
    DuplicateParameter(Seq<char>),
    MoveOfUndeclared(Seq<char>),
    AlreadyMoved(Seq<char>),
    MoveOfNonIdentifier,
    ReadMoved(Seq<char>),
    WhileCondition(Type),
    IfCondition(Type),
    UnaryOperand(UnaryOperator, Type),
    BinaryOperands(BinaryOperator, Type, Type),
    AssignmentType(Seq<char>, Type, Type),
    ArgumentCount(Seq<char>, nat, nat),
    ParameterType(Seq<char>, nat, Type, Type),
    ReturnType(Seq<char>, Type, Type),
    UnboundAssignment(Seq<char>),
    UnboundRead(Seq<char>),
    MovedRead(Seq<char>),
    UnboundProcedure(Seq<char>),
}

pub open spec fn type_text(t: Type) -> Seq<char> {
    match t {
        Type::Int => "Int"@,
        Type::Str => "Str"@,
        Type::Bool => "Bool"@,
        Type::Unit => "Unit"@,
    }
}

pub open spec fn unary_text(op: UnaryOperator) -> Seq<char> {
    match op {
        UnaryOperator::Neg => "-"@,
        UnaryOperator::Not => "not"@,
        UnaryOperator::Length => "length"@,
    }
}

pub open spec fn binary_text(op: BinaryOperator) -> Seq<char> {
    match op {
        BinaryOperator::Add => "+"@,
        BinaryOperator::Sub => "-"@,
        BinaryOperator::Equal => "=="@,
        BinaryOperator::And => "and"@,
        BinaryOperator::Or => "or"@,
        BinaryOperator::Concat => "++"@,
        BinaryOperator::Less => "<"@,
        BinaryOperator::LessEqual => "<="@,
        BinaryOperator::Greater => ">"@,
        BinaryOperator::GreaterEqual => ">="@,
    }
}

/// `expected A, found B`, as it ends several reports.
pub open spec fn expected_found(a: Type, b: Type) -> Seq<char> {
    ": esperado "@ + type_text(a) + ", obtido "@ + type_text(b)
}

/// The human-readable text of a report.
pub open spec fn message(d: Diagnostic) -> Seq<char> {
    match d {
        Diagnostic::UndeclaredVariable(x) => "Variável não declarada: "@ + x,
        Diagnostic::MovedVariable(x) => "Uso de variável movida: "@ + x,
        Diagnostic::UndeclaredProcedure(x) => "Procedimento não declarado: "@ + x,
        Diagnostic::AlreadyDeclared(x) => "Variável já declarada: "@ + x,
        Diagnostic::ProcedureAlreadyDeclared(x) => "Procedimento já declarado: "@ + x,
        Diagnostic::DuplicateParameter(x) => "Parâmetro duplicado: "@ + x,
        Diagnostic::MoveOfUndeclared(x) => "Variável não declarada não pode ser movida: "@ + x,
        Diagnostic::AlreadyMoved(x) => "Variável já foi movida: "@ + x,
        Diagnostic::MoveOfNonIdentifier => "Move só pode ser aplicado a identificadores"@,
        Diagnostic::ReadMoved(x) => "Não pode ler uma variável movida: "@ + x,
        Diagnostic::WhileCondition(t) => "Condição do while precisa ser booleana, obtido "@ + type_text(t),
        Diagnostic::IfCondition(t) => "Condição do if precisa ser booleana, obtido "@ + type_text(t),
        Diagnostic::UnaryOperand(op, t) => "Tipo incompatível para "@ + unary_text(op) + ", obtido "@ + type_text(t),
        Diagnostic::BinaryOperands(op, a, b) => "Tipo incompatível para "@ + binary_text(op) + ", obtido "@
            + type_text(a) + " e "@ + type_text(b),
        Diagnostic::AssignmentType(x, a, b) => "Tipo incompatível na atribuição de "@ + x + expected_found(a, b),
        Diagnostic::ArgumentCount(x, a, b) => "Número incorreto de argumentos para "@ + x + ": esperado "@
            + nat_text(a) + ", obtido "@ + nat_text(b),
        Diagnostic::ParameterType(x, i, a, b) => "Tipo do parâmetro "@ + nat_text(i) + " de "@ + x
            + expected_found(a, b),
        Diagnostic::ReturnType(x, a, b) => "Tipo de retorno incompatível em "@ + x + expected_found(a, b),
        Diagnostic::UnboundAssignment(x) => "Atribuição inválida, variável não declarada: "@ + x,
        Diagnostic::UnboundRead(x) => "Variável não definida: "@ + x,
        Diagnostic::MovedRead(x) => "Leitura de variável movida: "@ + x,
        Diagnostic::UnboundProcedure(x) => "Procedimento não definido: "@ + x,
    }
}

pub fn type_label(t: Type) -> (r: &'static str)
    ensures
        r@ == type_text(t),
{
    match t {
        Type::Int => "Int",
        Type::Str => "Str",
        Type::Bool => "Bool",
        Type::Unit => "Unit",
    }
}

pub fn unary_label(op: UnaryOperator) -> (r: &'static str)
    ensures
        r@ == unary_text(op),
{
    match op {
        UnaryOperator::Neg => "-",
        UnaryOperator::Not => "not",
        UnaryOperator::Length => "length",
    }
}

pub fn binary_label(op: BinaryOperator) -> (r: &'static str)
    ensures
        r@ == binary_text(op),
{
    match op {
        BinaryOperator::Add => "+",
        BinaryOperator::Sub => "-",
        BinaryOperator::Equal => "==",
        BinaryOperator::And => "and",
        BinaryOperator::Or => "or",
        BinaryOperator::Concat => "++",
        BinaryOperator::Less => "<",
        BinaryOperator::LessEqual => "<=",
        BinaryOperator::Greater => ">",
        BinaryOperator::GreaterEqual => ">=",
    }
}

fn expected_found_text(head: String, a: Type, b: Type) -> (r: String)
    ensures
        r@ == head@ + expected_found(a, b),
{
    let r = head.concat(": esperado ").concat(type_label(a)).concat(", obtido ").concat(type_label(b));
    assert(r@ =~= head@ + expected_found(a, b));
    r
}

fn with_name(prefix: &str, x: &String) -> (r: String)
    ensures
        r@ == prefix@ + x@,
{
    String::from_str(prefix).concat(x.as_str())
}

pub fn undeclared_variable(x: &String) -> (r: String)
    ensures
        r@ == message(Diagnostic::UndeclaredVariable(x@)),
{
    with_name("Variável não declarada: ", x)
}

pub fn moved_variable(x: &String) -> (r: String)
    ensures
        r@ == message(Diagnostic::MovedVariable(x@)),
{
    with_name("Uso de variável movida: ", x)
}

pub fn undeclared_procedure(x: &String) -> (r: String)
    ensures
        r@ == message(Diagnostic::UndeclaredProcedure(x@)),
{
    with_name("Procedimento não declarado: ", x)
}

pub fn already_declared(x: &String) -> (r: String)
    ensures
        r@ == message(Diagnostic::AlreadyDeclared(x@)),
{
    with_name("Variável já declarada: ", x)
}

pub fn procedure_already_declared(x: &String) -> (r: String)
    ensures
        r@ == message(Diagnostic::ProcedureAlreadyDeclared(x@)),
{
    with_name("Procedimento já declarado: ", x)
}

pub fn duplicate_parameter(x: &String) -> (r: String)
    ensures
        r@ == message(Diagnostic::DuplicateParameter(x@)),
{
    with_name("Parâmetro duplicado: ", x)
}

pub fn move_of_undeclared(x: &String) -> (r: String)
    ensures
        r@ == message(Diagnostic::MoveOfUndeclared(x@)),
{
    with_name("Variável não declarada não pode ser movida: ", x)
}

pub fn already_moved(x: &String) -> (r: String)
    ensures
        r@ == message(Diagnostic::AlreadyMoved(x@)),
{
    with_name("Variável já foi movida: ", x)
}

pub fn move_of_non_identifier() -> (r: String)
    ensures
        r@ == message(Diagnostic::MoveOfNonIdentifier),
{
    String::from_str("Move só pode ser aplicado a identificadores")
}

pub fn read_moved(x: &String) -> (r: String)
    ensures
        r@ == message(Diagnostic::ReadMoved(x@)),
{
    with_name("Não pode ler uma variável movida: ", x)
}

pub fn while_condition(t: Type) -> (r: String)
    ensures
        r@ == message(Diagnostic::WhileCondition(t)),
{
    String::from_str("Condição do while precisa ser booleana, obtido ").concat(type_label(t))
}

pub fn if_condition(t: Type) -> (r: String)
    ensures
        r@ == message(Diagnostic::IfCondition(t)),
{
    String::from_str("Condição do if precisa ser booleana, obtido ").concat(type_label(t))
}

pub fn unary_operand(op: UnaryOperator, t: Type) -> (r: String)
    ensures
        r@ == message(Diagnostic::UnaryOperand(op, t)),
{
    String::from_str("Tipo incompatível para ").concat(unary_label(op)).concat(", obtido ").concat(
        type_label(t),
    )
}

pub fn binary_operands(op: BinaryOperator, a: Type, b: Type) -> (r: String)
    ensures
        r@ == message(Diagnostic::BinaryOperands(op, a, b)),
{
    String::from_str("Tipo incompatível para ").concat(binary_label(op)).concat(", obtido ").concat(
        type_label(a),
    ).concat(" e ").concat(type_label(b))
}

pub fn assignment_type(x: &String, a: Type, b: Type) -> (r: String)
    ensures
        r@ == message(Diagnostic::AssignmentType(x@, a, b)),
{
    expected_found_text(with_name("Tipo incompatível na atribuição de ", x), a, b)
}

pub fn argument_count(x: &String, a: usize, b: usize) -> (r: String)
    ensures
        r@ == message(Diagnostic::ArgumentCount(x@, a as nat, b as nat)),
{
    let na = nat_string(a as u64);
    let nb = nat_string(b as u64);
    let r = with_name("Número incorreto de argumentos para ", x).concat(": esperado ").concat(
        na.as_str(),
    ).concat(", obtido ").concat(nb.as_str());
    assert(r@ =~= message(Diagnostic::ArgumentCount(x@, a as nat, b as nat)));
    r
}

pub fn parameter_type(x: &String, i: usize, a: Type, b: Type) -> (r: String)
    ensures
        r@ == message(Diagnostic::ParameterType(x@, i as nat, a, b)),
{
    let ni = nat_string(i as u64);
    let head = String::from_str("Tipo do parâmetro ").concat(ni.as_str()).concat(" de ").concat(
        x.as_str(),
    );
    let r = expected_found_text(head, a, b);
    assert(r@ =~= message(Diagnostic::ParameterType(x@, i as nat, a, b)));
    r
}

pub fn return_type(x: &String, a: Type, b: Type) -> (r: String)
    ensures
        r@ == message(Diagnostic::ReturnType(x@, a, b)),
{
    expected_found_text(with_name("Tipo de retorno incompatível em ", x), a, b)
}

pub fn unbound_assignment(x: &String) -> (r: String)
    ensures
        r@ == message(Diagnostic::UnboundAssignment(x@)),
{
    with_name("Atribuição inválida, variável não declarada: ", x)
}

pub fn unbound_read(x: &String) -> (r: String)
    ensures
        r@ == message(Diagnostic::UnboundRead(x@)),
{
    with_name("Variável não definida: ", x)
}

pub fn moved_read(x: &String) -> (r: String)
    ensures
        r@ == message(Diagnostic::MovedRead(x@)),
{
    with_name("Leitura de variável movida: ", x)
}

pub fn unbound_procedure(x: &String) -> (r: String)
    ensures
        r@ == message(Diagnostic::UnboundProcedure(x@)),
{
    with_name("Procedimento não definido: ", x)
}

} // verus!
