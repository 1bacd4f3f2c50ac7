//! The grammar of the language, as functions from a character sequence and a start
//! position to the position after the construct and its abstract syntax.
//!
//! Every construct skips the whitespace in front of it, and most skip the whitespace
//! after it. Alternatives are tried in order and the first that matches wins, as in
//! a recursive-descent parser; a failure names the construct that did not match and
//! where it was expected.
use vstd::prelude::*;
use crate::ast::{BinaryOperator, CallV, CmdV, DeclV, ExprV, ParamV, Type, UnaryOperator, ValueV};
use crate::text::{
    digits_value, has_tag, is_ident_start, is_space, lemma_skip_digits_bounds, skip_digits,
    skip_ident, skip_to_quote, skip_ws,
};

verus! {

/// The kinds of construct a parse can fail to find.
#[derive(Debug, Clone, Copy, PartialEq, Eq, Structural)]
pub enum Construct {
    Identifier,
    TypeName,
    Integer,
    Text,
    Boolean,
    Literal,
    Atom,
    Operator,
    UnaryOperator,
    Symbol,
    Parameter,
    Declaration,
    Command,
    EndOfInput,
}

/// Where the parse failed, as a character offset, and what it expected there.
#[derive(Debug, Clone, Copy, PartialEq, Eq, Structural)]
pub struct ParseError {
    pub position: usize,
    pub construct: Construct,
}

/// A parse outcome: the position after the construct and its value, or the failure.
pub type PRes<V> = Result<(int, V), ParseError>;

pub open spec fn fail<V>(i: int, k: Construct) -> PRes<V> {
    Err(ParseError { position: i as usize, construct: k })
}

pub open spec fn at_char(s: Seq<char>, i: int, c: char) -> bool {
    0 <= i < s.len() && s[i] == c
}

pub open spec fn int_lit(s: Seq<char>, i: int) -> PRes<i64> {
    let j = skip_digits(s, i);
    if !(0 <= i < j) || digits_value(s, i, j) > i64::MAX {
        fail(i, Construct::Integer)
    } else {
        Ok((j, digits_value(s, i, j) as i64))
    }
}

/// A double-quoted string; no escapes, so it ends at the next quote.
pub open spec fn string_lit(s: Seq<char>, i: int) -> PRes<Seq<char>> {
    if at_char(s, i, '"') && at_char(s, skip_to_quote(s, i + 1), '"') {
        let j = skip_to_quote(s, i + 1);
        Ok((j + 1, s.subrange(i + 1, j)))
    } else {
        fail(i, Construct::Text)
    }
}

pub open spec fn bool_lit(s: Seq<char>, i: int) -> PRes<bool> {
    if has_tag(s, i, "true"@) {
        Ok((i + "true"@.len(), true))
    } else if has_tag(s, i, "false"@) {
        Ok((i + "false"@.len(), false))
    } else {
        fail(i, Construct::Boolean)
    }
}

/// `[A-Za-z_][A-Za-z0-9_]*`
pub open spec fn identifier(s: Seq<char>, i: int) -> PRes<Seq<char>> {
    if 0 <= i < s.len() && is_ident_start(s[i]) {
        Ok((skip_ident(s, i + 1), s.subrange(i, skip_ident(s, i + 1))))
    } else {
        fail(i, Construct::Identifier)
    }
}

pub open spec fn type_keyword(s: Seq<char>, i: int) -> PRes<Type> {
    if has_tag(s, i, "int"@) {
        Ok((i + "int"@.len(), Type::Int))
    } else if has_tag(s, i, "string"@) {
        Ok((i + "string"@.len(), Type::Str))
    } else if has_tag(s, i, "bool"@) {
        Ok((i + "bool"@.len(), Type::Bool))
    } else {
        fail(i, Construct::TypeName)
    }
}

/// An integer, boolean or string literal, with the whitespace around it.
pub open spec fn literal(s: Seq<char>, i: int) -> PRes<ValueV> {
    let k = skip_ws(s, i);
    match int_lit(s, k) {
        Ok((j, n)) => Ok((skip_ws(s, j), ValueV::Int(n))),
        Err(_) => match bool_lit(s, k) {
            Ok((j, b)) => Ok((skip_ws(s, j), ValueV::Bool(b))),
            Err(_) => match string_lit(s, k) {
                Ok((j, t)) => Ok((skip_ws(s, j), ValueV::Str(t))),
                Err(_) => fail(k, Construct::Literal),
            },
        },
    }
}

/// The symbol of a binary operator at `i`, longest symbols first.
pub open spec fn operator_symbol(s: Seq<char>, i: int) -> Option<(int, BinaryOperator)> {
    if has_tag(s, i, "++"@) {
        Some((i + 2, BinaryOperator::Concat))
    } else if has_tag(s, i, "+"@) {
        Some((i + 1, BinaryOperator::Add))
    } else if has_tag(s, i, "-"@) {
        Some((i + 1, BinaryOperator::Sub))
    } else if has_tag(s, i, "and"@) {
        Some((i + 3, BinaryOperator::And))
    } else if has_tag(s, i, "or"@) {
        Some((i + 2, BinaryOperator::Or))
    } else if has_tag(s, i, "=="@) {
        Some((i + 2, BinaryOperator::Equal))
    } else if has_tag(s, i, "<="@) {
        Some((i + 2, BinaryOperator::LessEqual))
    } else if has_tag(s, i, ">="@) {
        Some((i + 2, BinaryOperator::GreaterEqual))
    } else if has_tag(s, i, "<"@) {
        Some((i + 1, BinaryOperator::Less))
    } else if has_tag(s, i, ">"@) {
        Some((i + 1, BinaryOperator::Greater))
    } else {
        None
    }
}

pub open spec fn binary_operator(s: Seq<char>, i: int) -> PRes<BinaryOperator> {
    let k = skip_ws(s, i);
    match operator_symbol(s, k) {
        Some((j, op)) => Ok((skip_ws(s, j), op)),
        None => fail(k, Construct::Operator),
    }
}

pub open spec fn unary_operator(s: Seq<char>, i: int) -> PRes<UnaryOperator> {
    let k = skip_ws(s, i);
    if has_tag(s, k, "-"@) {
        Ok((skip_ws(s, k + 1), UnaryOperator::Neg))
    } else if has_tag(s, k, "not"@) {
        Ok((skip_ws(s, k + 3), UnaryOperator::Not))
    } else if has_tag(s, k, "length"@) {
        Ok((skip_ws(s, k + 6), UnaryOperator::Length))
    } else {
        fail(k, Construct::UnaryOperator)
    }
}

/// Binding strength of the binary operators; higher binds tighter.
pub open spec fn prec(op: BinaryOperator) -> nat {
    match op {
        BinaryOperator::Concat => 5,
        BinaryOperator::Add | BinaryOperator::Sub => 3,
        BinaryOperator::Equal
        | BinaryOperator::Less
        | BinaryOperator::LessEqual
        | BinaryOperator::Greater
        | BinaryOperator::GreaterEqual => 2,
        BinaryOperator::And => 1,
        BinaryOperator::Or => 0,
    }
}

/// The minimum precedence of the operand of a unary operator: above every binary one.
pub open spec fn unary_operand_prec() -> nat {
    100
}

/// Precedence climbing: a primary term, then every following binary operator of
/// precedence at least `min`, whose right operand is parsed at one level higher so
/// that operators of one level associate to the left.
pub open spec fn expr_bp(s: Seq<char>, i: int, min: nat) -> PRes<ExprV>
    decreases s.len() - i, 3nat,
{
    match primary(s, i) {
        Ok((j, lhs)) => if i < j <= s.len() {
            expr_loop(s, j, lhs, min)
        } else {
            fail(i, Construct::Atom)
        },
        Err(e) => Err(e),
    }
}

pub open spec fn expr_loop(s: Seq<char>, j: int, lhs: ExprV, min: nat) -> PRes<ExprV>
    decreases s.len() - j, 4nat,
{
    match binary_operator(s, j) {
        Ok((k, op)) => if prec(op) >= min && j < k <= s.len() {
            match expr_bp(s, k, prec(op) + 1) {
                Ok((m, rhs)) => if k < m <= s.len() {
                    expr_loop(s, m, ExprV::Binary(op, Box::new(lhs), Box::new(rhs)), min)
                } else {
                    fail(k, Construct::Atom)
                },
                Err(e) => Err(e),
            }
        } else {
            Ok((j, lhs))
        },
        Err(_) => Ok((j, lhs)),
    }
}

pub open spec fn expression(s: Seq<char>, i: int) -> PRes<ExprV> {
    expr_bp(s, i, 0)
}

/// A unary-operator term, else an atom.
pub open spec fn primary(s: Seq<char>, i: int) -> PRes<ExprV>
    decreases s.len() - i, 2nat,
{
    match unary_expr(s, i) {
        Ok(r) => Ok(r),
        Err(_) => atomic(s, i),
    }
}

pub open spec fn unary_expr(s: Seq<char>, i: int) -> PRes<ExprV>
    decreases s.len() - i, 1nat,
{
    match unary_operator(s, i) {
        Ok((k, op)) => if i < k <= s.len() {
            match expr_bp(s, k, unary_operand_prec()) {
                Ok((m, e)) => Ok((m, ExprV::Unary(op, Box::new(e)))),
                Err(e) => Err(e),
            }
        } else {
            fail(i, Construct::UnaryOperator)
        },
        Err(e) => Err(e),
    }
}

/// A literal, an identifier or a parenthesized expression, with surrounding whitespace.
pub open spec fn atomic(s: Seq<char>, i: int) -> PRes<ExprV>
    decreases s.len() - i, 1nat,
{
    let k = skip_ws(s, i);
    match literal(s, k) {
        Ok((j, v)) => Ok((j, ExprV::Const(v))),
        Err(_) => match identifier(s, k) {
            Ok((j, x)) => Ok((skip_ws(s, j), ExprV::Ident(x))),
            Err(_) => match parenthesized(s, i) {
                Ok(r) => Ok(r),
                Err(_) => fail(k, Construct::Atom),
            },
        },
    }
}

pub open spec fn parenthesized(s: Seq<char>, i: int) -> PRes<ExprV>
    decreases s.len() - i, 0nat,
{
    let k = skip_ws(s, i);
    if i <= k && at_char(s, k, '(') {
        match expr_bp(s, k + 1, 0) {
            Ok((j, e)) => if at_char(s, skip_ws(s, j), ')') {
                Ok((skip_ws(s, skip_ws(s, j) + 1), e))
            } else {
                fail(skip_ws(s, j), Construct::Symbol)
            },
            Err(e) => Err(e),
        }
    } else {
        fail(k, Construct::Symbol)
    }
}

/// An expression, optionally preceded by `move`; when what follows `move` is no
/// expression, the whole text is read as an expression.
pub open spec fn move_expr(s: Seq<char>, i: int) -> PRes<(ExprV, bool)> {
    let k = skip_ws(s, i);
    let plain = match expression(s, i) {
        Ok((m, e)) => Ok((m, (e, false))),
        Err(e) => Err(e),
    };
    if has_tag(s, k, "move"@) {
        match expression(s, k + 4) {
            Ok((m, e)) => Ok((m, (e, true))),
            Err(_) => plain,
        }
    } else {
        plain
    }
}

/// The arguments of a call: comma-separated expressions, possibly none.
pub open spec fn args_list(s: Seq<char>, i: int) -> (int, Seq<ExprV>) {
    match expression(s, i) {
        Ok((j, e)) => if i < j <= s.len() {
            args_tail(s, j, seq![e])
        } else {
            (i, Seq::empty())
        },
        Err(_) => (i, Seq::empty()),
    }
}

pub open spec fn args_tail(s: Seq<char>, j: int, acc: Seq<ExprV>) -> (int, Seq<ExprV>)
    decreases s.len() - j,
{
    let k = skip_ws(s, j);
    if j <= k && at_char(s, k, ',') {
        match expression(s, k + 1) {
            Ok((m, e)) => if j < m <= s.len() {
                args_tail(s, m, acc.push(e))
            } else {
                (j, acc)
            },
            Err(_) => (j, acc),
        }
    } else {
        (j, acc)
    }
}

/// `type name`, with whitespace between the two.
pub open spec fn param(s: Seq<char>, i: int) -> PRes<ParamV> {
    let k = skip_ws(s, i);
    match type_keyword(s, k) {
        Ok((j, t)) => if 0 <= j < s.len() && is_space(s[j]) {
            match identifier(s, skip_ws(s, j)) {
                Ok((m, x)) => Ok((m, ParamV { name: x, ty: t })),
                Err(e) => Err(e),
            }
        } else {
            fail(j, Construct::Parameter)
        },
        Err(e) => Err(e),
    }
}

/// One or more comma-separated parameters.
pub open spec fn params1(s: Seq<char>, i: int) -> PRes<Seq<ParamV>> {
    match param(s, i) {
        Ok((j, p)) => if i < j <= s.len() {
            Ok(params_tail(s, j, seq![p]))
        } else {
            fail(i, Construct::Parameter)
        },
        Err(e) => Err(e),
    }
}

pub open spec fn params_tail(s: Seq<char>, j: int, acc: Seq<ParamV>) -> (int, Seq<ParamV>)
    decreases s.len() - j,
{
    let k = skip_ws(s, j);
    if j <= k && at_char(s, k, ',') {
        match param(s, k + 1) {
            Ok((m, p)) => if j < m <= s.len() {
                params_tail(s, m, acc.push(p))
            } else {
                (j, acc)
            },
            Err(_) => (j, acc),
        }
    } else {
        (j, acc)
    }
}

/// Zero or more parameters.
pub open spec fn param_list(s: Seq<char>, i: int) -> (int, Seq<ParamV>) {
    match params1(s, i) {
        Ok(r) => r,
        Err(_) => (i, Seq::empty()),
    }
}

/// `var name = [move] expression`
pub open spec fn var_decl(s: Seq<char>, i: int) -> PRes<DeclV> {
    let k = skip_ws(s, i);
    if has_tag(s, k, "var"@) {
        match identifier(s, skip_ws(s, k + 3)) {
            Ok((j, x)) => {
                let k2 = skip_ws(s, j);
                if at_char(s, k2, '=') {
                    match move_expr(s, k2 + 1) {
                        Ok((m, (e, mv))) => Ok((m, DeclV::Var(x, e, mv))),
                        Err(e) => Err(e),
                    }
                } else {
                    fail(k2, Construct::Symbol)
                }
            },
            Err(e) => Err(e),
        }
    } else {
        fail(k, Construct::Declaration)
    }
}

/// The name of a call, `name(arguments)`, after the `call` keyword.
pub open spec fn call_body(s: Seq<char>, i: int) -> PRes<CallV> {
    match identifier(s, skip_ws(s, i)) {
        Ok((j, id)) => {
            let k = skip_ws(s, j);
            if at_char(s, k, '(') {
                let (p, args) = args_list(s, k + 1);
                let q = skip_ws(s, p);
                if at_char(s, q, ')') {
                    Ok((skip_ws(s, q + 1), CallV { id: id, args: args }))
                } else {
                    fail(q, Construct::Symbol)
                }
            } else {
                fail(k, Construct::Symbol)
            }
        },
        Err(e) => Err(e),
    }
}

/// `call name(arguments)`
pub open spec fn call_cmd(s: Seq<char>, i: int) -> PRes<CmdV> {
    let k = skip_ws(s, i);
    if has_tag(s, k, "call"@) {
        match call_body(s, k + 4) {
            Ok((j, c)) => Ok((j, CmdV::Call(c))),
            Err(e) => Err(e),
        }
    } else {
        fail(k, Construct::Command)
    }
}

/// `name := [move] expression`
pub open spec fn assignment(s: Seq<char>, i: int) -> PRes<CmdV> {
    match identifier(s, skip_ws(s, i)) {
        Ok((j, x)) => {
            let k = skip_ws(s, j);
            if has_tag(s, k, ":="@) {
                match move_expr(s, k + 2) {
                    Ok((m, (e, mv))) => Ok((m, CmdV::Assign(x, e, mv))),
                    Err(e) => Err(e),
                }
            } else {
                fail(k, Construct::Symbol)
            }
        },
        Err(e) => Err(e),
    }
}

/// `write(expression)` or `read(name)`
pub open spec fn io_cmd(s: Seq<char>, i: int) -> PRes<CmdV> {
    let k = skip_ws(s, i);
    if has_tag(s, k, "write"@) {
        let k2 = skip_ws(s, k + 5);
        if at_char(s, k2, '(') {
            match expression(s, k2 + 1) {
                Ok((j, e)) => {
                    let k3 = skip_ws(s, j);
                    if at_char(s, k3, ')') {
                        Ok((skip_ws(s, k3 + 1), CmdV::Write(e)))
                    } else {
                        fail(k3, Construct::Symbol)
                    }
                },
                Err(e) => Err(e),
            }
        } else {
            fail(k2, Construct::Symbol)
        }
    } else if has_tag(s, k, "read"@) {
        let k2 = skip_ws(s, k + 4);
        if at_char(s, k2, '(') {
            match identifier(s, skip_ws(s, k2 + 1)) {
                Ok((j, x)) => {
                    let k3 = skip_ws(s, j);
                    if at_char(s, k3, ')') {
                        Ok((skip_ws(s, k3 + 1), CmdV::Read(x)))
                    } else {
                        fail(k3, Construct::Symbol)
                    }
                },
                Err(e) => Err(e),
            }
        } else {
            fail(k2, Construct::Symbol)
        }
    } else {
        fail(k, Construct::Command)
    }
}

pub open spec fn skip_cmd(s: Seq<char>, i: int) -> PRes<CmdV> {
    let k = skip_ws(s, i);
    if has_tag(s, k, "skip"@) {
        Ok((skip_ws(s, k + 4), CmdV::Skip))
    } else {
        fail(k, Construct::Command)
    }
}

/// A command, optionally followed by `; command`, forming a right-nested sequence.
pub open spec fn command(s: Seq<char>, i: int) -> PRes<CmdV>
    decreases s.len() - i, 3nat,
{
    match simple_command(s, i) {
        Ok((j, c)) => if i < j <= s.len() {
            let k = skip_ws(s, j);
            if j <= k && at_char(s, k, ';') {
                match command(s, k + 1) {
                    Ok((m, r)) => Ok((m, CmdV::Then(Box::new(c), Box::new(r)))),
                    Err(_) => Ok((j, c)),
                }
            } else {
                Ok((j, c))
            }
        } else {
            fail(i, Construct::Command)
        },
        Err(e) => Err(e),
    }
}

/// One command without a following sequence, trying each form in turn.
pub open spec fn simple_command(s: Seq<char>, i: int) -> PRes<CmdV>
    decreases s.len() - i, 2nat,
{
    match assignment(s, i) {
        Ok(r) => Ok(r),
        Err(_) => match if_cmd(s, i) {
            Ok(r) => Ok(r),
            Err(_) => match while_cmd(s, i) {
                Ok(r) => Ok(r),
                Err(_) => match io_cmd(s, i) {
                    Ok(r) => Ok(r),
                    Err(_) => match skip_cmd(s, i) {
                        Ok(r) => Ok(r),
                        Err(_) => match block_cmd(s, i) {
                            Ok(r) => Ok(r),
                            Err(_) => match call_cmd(s, i) {
                                Ok(r) => Ok(r),
                                Err(_) => fail(skip_ws(s, i), Construct::Command),
                            },
                        },
                    },
                },
            },
        },
    }
}

/// `if cond then command else command`; the else branch takes no following sequence.
pub open spec fn if_cmd(s: Seq<char>, i: int) -> PRes<CmdV>
    decreases s.len() - i, 1nat,
{
    let k = skip_ws(s, i);
    if has_tag(s, k, "if"@) {
        match expression(s, k + 2) {
            Ok((j, c)) => {
                let k2 = skip_ws(s, j);
                if has_tag(s, k2, "then"@) && i < k2 + 4 <= s.len() {
                    match command(s, k2 + 4) {
                        Ok((m, a)) => {
                            let k3 = skip_ws(s, m);
                            if has_tag(s, k3, "else"@) && i < k3 + 4 <= s.len() {
                                match simple_command(s, k3 + 4) {
                                    Ok((q, b)) => Ok((q, CmdV::If(c, Box::new(a), Box::new(b)))),
                                    Err(e) => Err(e),
                                }
                            } else {
                                fail(k3, Construct::Symbol)
                            }
                        },
                        Err(e) => Err(e),
                    }
                } else {
                    fail(k2, Construct::Symbol)
                }
            },
            Err(e) => Err(e),
        }
    } else {
        fail(k, Construct::Command)
    }
}

/// `while cond do command`; the body takes no following sequence.
pub open spec fn while_cmd(s: Seq<char>, i: int) -> PRes<CmdV>
    decreases s.len() - i, 1nat,
{
    let k = skip_ws(s, i);
    if has_tag(s, k, "while"@) {
        match expression(s, k + 5) {
            Ok((j, c)) => {
                let k2 = skip_ws(s, j);
                if has_tag(s, k2, "do"@) && i < k2 + 2 <= s.len() {
                    match simple_command(s, k2 + 2) {
                        Ok((m, b)) => Ok((m, CmdV::While(c, Box::new(b)))),
                        Err(e) => Err(e),
                    }
                } else {
                    fail(k2, Construct::Symbol)
                }
            },
            Err(e) => Err(e),
        }
    } else {
        fail(k, Construct::Command)
    }
}

/// `{ declaration; ... declaration; command }`. A block whose last item is a
/// declaration has `skip` for its body.
pub open spec fn block_cmd(s: Seq<char>, i: int) -> PRes<CmdV>
    decreases s.len() - i, 1nat,
{
    let k = skip_ws(s, i);
    if at_char(s, k, '{') && i <= k {
        let (p, ds) = decl_items(s, k + 1);
        if k < p <= s.len() {
            match command(s, p) {
                Ok((m, c)) => block_end(s, m, ds, c),
                Err(e) => match declaration(s, p) {
                    Ok((m, d)) => block_end(s, m, ds.push(d), CmdV::Skip),
                    Err(_) => Err(e),
                },
            }
        } else {
            fail(k, Construct::Command)
        }
    } else {
        fail(k, Construct::Command)
    }
}

pub open spec fn block_end(s: Seq<char>, m: int, ds: Seq<DeclV>, body: CmdV) -> PRes<CmdV> {
    let q = skip_ws(s, m);
    if at_char(s, q, '}') {
        Ok((skip_ws(s, q + 1), CmdV::Block(ds, Box::new(body))))
    } else {
        fail(q, Construct::Symbol)
    }
}

/// The declarations of a block that are each followed by `;`.
pub open spec fn decl_items(s: Seq<char>, p: int) -> (int, Seq<DeclV>)
    decreases s.len() - p, 4nat,
{
    match declaration(s, p) {
        Ok((q, d)) => {
            let r = skip_ws(s, q);
            if p < q && q <= r && at_char(s, r, ';') {
                let (z, rest) = decl_items(s, r + 1);
                (z, seq![d] + rest)
            } else {
                (p, Seq::empty())
            }
        },
        Err(_) => (p, Seq::empty()),
    }
}

/// One or more comma-separated declarations, nested to the right.
pub open spec fn declaration(s: Seq<char>, i: int) -> PRes<DeclV>
    decreases s.len() - i, 2nat,
{
    match decl_item(s, i) {
        Ok((j, d)) => if i < j <= s.len() {
            let k = skip_ws(s, j);
            if j <= k && at_char(s, k, ',') {
                match declaration(s, k + 1) {
                    Ok((m, rest)) => Ok((m, DeclV::Compound(Box::new(d), Box::new(rest)))),
                    Err(_) => Ok((j, d)),
                }
            } else {
                Ok((j, d))
            }
        } else {
            fail(i, Construct::Declaration)
        },
        Err(e) => Err(e),
    }
}

pub open spec fn decl_item(s: Seq<char>, i: int) -> PRes<DeclV>
    decreases s.len() - i, 1nat,
{
    match var_decl(s, i) {
        Ok(r) => Ok(r),
        Err(_) => match proc_decl(s, i) {
            Ok(r) => Ok(r),
            Err(_) => fail(skip_ws(s, i), Construct::Declaration),
        },
    }
}

/// `proc name(parameters) { command }`
pub open spec fn proc_decl(s: Seq<char>, i: int) -> PRes<DeclV>
    decreases s.len() - i, 0nat,
{
    let k = skip_ws(s, i);
    if has_tag(s, k, "proc"@) {
        match identifier(s, skip_ws(s, k + 4)) {
            Ok((j, name)) => {
                let k2 = skip_ws(s, j);
                if at_char(s, k2, '(') {
                    let (p, ps) = param_list(s, k2 + 1);
                    let k3 = skip_ws(s, p);
                    if at_char(s, k3, ')') {
                        let k4 = skip_ws(s, k3 + 1);
                        if at_char(s, k4, '{') && i < k4 + 1 {
                            match command(s, k4 + 1) {
                                Ok((m, body)) => {
                                    let k5 = skip_ws(s, m);
                                    if at_char(s, k5, '}') {
                                        Ok((skip_ws(s, k5 + 1), DeclV::Proc(name, ps, None, Box::new(body))))
                                    } else {
                                        fail(k5, Construct::Symbol)
                                    }
                                },
                                Err(e) => Err(e),
                            }
                        } else {
                            fail(k4, Construct::Symbol)
                        }
                    } else {
                        fail(k3, Construct::Symbol)
                    }
                } else {
                    fail(k2, Construct::Symbol)
                }
            },
            Err(e) => Err(e),
        }
    } else {
        fail(k, Construct::Declaration)
    }
}

/// A whole source text: one command and nothing after it.
pub open spec fn program(s: Seq<char>) -> Result<CmdV, ParseError> {
    match command(s, 0) {
        Ok((j, c)) => if j == s.len() {
            Ok(c)
        } else {
            Err(ParseError { position: j as usize, construct: Construct::EndOfInput })
        },
        Err(e) => Err(e),
    }
}

/// The construct ends at a token: within the text, with no whitespace next.
pub open spec fn ends_at_token<V>(s: Seq<char>, r: PRes<V>) -> bool {
    match r {
        Ok((j, _)) => j <= s.len() && skip_ws(s, j) == j,
        Err(_) => true,
    }
}

pub proof fn lemma_ws(s: Seq<char>, x: int)
    requires
        0 <= x <= s.len(),
    ensures
        x <= skip_ws(s, x) <= s.len(),
        skip_ws(s, skip_ws(s, x)) == skip_ws(s, x),
        skip_ws(s, x) < s.len() ==> !is_space(s[skip_ws(s, x)]),
    decreases s.len() - x,
{
    if x < s.len() && is_space(s[x]) {
        lemma_ws(s, x + 1);
    }
}

pub proof fn lemma_ident_end(s: Seq<char>, x: int)
    requires
        0 <= x <= s.len(),
    ensures
        x <= skip_ident(s, x) <= s.len(),
    decreases s.len() - x,
{
    if x < s.len() && crate::text::is_ident_char(s[x]) {
        lemma_ident_end(s, x + 1);
    }
}

pub proof fn lemma_literal_end(s: Seq<char>, i: int)
    requires
        0 <= i <= s.len(),
    ensures
        ends_at_token(s, literal(s, i)),
{
    lemma_ws(s, i);
    let k = skip_ws(s, i);
    lemma_skip_digits_bounds(s, k);
    if let Ok((j, _)) = int_lit(s, k) {
        lemma_ws(s, j);
    } else if let Ok((j, _)) = bool_lit(s, k) {
        lemma_ws(s, j);
    } else if let Ok((j, _)) = string_lit(s, k) {
        lemma_ws(s, j);
    }
}

pub proof fn lemma_expr_bp_end(s: Seq<char>, i: int, min: nat)
    requires
        0 <= i <= s.len(),
    ensures
        ends_at_token(s, expr_bp(s, i, min)),
    decreases s.len() - i, 3nat,
{
    if let Ok((j, lhs)) = primary(s, i) {
        if i < j <= s.len() {
            lemma_primary_end(s, i);
            lemma_expr_loop_end(s, j, lhs, min);
        }
    }
}

pub proof fn lemma_expr_loop_end(s: Seq<char>, j: int, lhs: ExprV, min: nat)
    requires
        0 <= j <= s.len(),
        skip_ws(s, j) == j,
    ensures
        ends_at_token(s, expr_loop(s, j, lhs, min)),
    decreases s.len() - j, 4nat,
{
    if let Ok((k, op)) = binary_operator(s, j) {
        if prec(op) >= min && j < k <= s.len() {
            lemma_expr_bp_end(s, k, prec(op) + 1);
            if let Ok((m, rhs)) = expr_bp(s, k, prec(op) + 1) {
                if k < m <= s.len() {
                    lemma_expr_loop_end(s, m, ExprV::Binary(op, Box::new(lhs), Box::new(rhs)), min);
                }
            }
        }
    }
}

pub proof fn lemma_primary_end(s: Seq<char>, i: int)
    requires
        0 <= i <= s.len(),
    ensures
        ends_at_token(s, primary(s, i)),
    decreases s.len() - i, 2nat,
{
    lemma_unary_end(s, i);
    lemma_atomic_end(s, i);
}

pub proof fn lemma_unary_end(s: Seq<char>, i: int)
    requires
        0 <= i <= s.len(),
    ensures
        ends_at_token(s, unary_expr(s, i)),
    decreases s.len() - i, 1nat,
{
    if let Ok((k, op)) = unary_operator(s, i) {
        if i < k <= s.len() {
            lemma_expr_bp_end(s, k, unary_operand_prec());
        }
    }
}

pub proof fn lemma_atomic_end(s: Seq<char>, i: int)
    requires
        0 <= i <= s.len(),
    ensures
        ends_at_token(s, atomic(s, i)),
    decreases s.len() - i, 1nat,
{
    lemma_ws(s, i);
    let k = skip_ws(s, i);
    lemma_literal_end(s, k);
    if k < s.len() && is_ident_start(s[k]) {
        lemma_ident_end(s, k + 1);
        lemma_ws(s, skip_ident(s, k + 1));
    }
    lemma_parenthesized_end(s, i);
}

pub proof fn lemma_parenthesized_end(s: Seq<char>, i: int)
    requires
        0 <= i <= s.len(),
    ensures
        ends_at_token(s, parenthesized(s, i)),
    decreases s.len() - i, 0nat,
{
    lemma_ws(s, i);
    let k = skip_ws(s, i);
    if i <= k && at_char(s, k, '(') {
        if let Ok((j, e)) = expr_bp(s, k + 1, 0) {
            lemma_expr_bp_end(s, k + 1, 0);
            if at_char(s, skip_ws(s, j), ')') {
                lemma_ws(s, skip_ws(s, j) + 1);
            }
        }
    }
}

pub proof fn lemma_move_expr_end(s: Seq<char>, i: int)
    requires
        0 <= i <= s.len(),
    ensures
        ends_at_token(s, move_expr(s, i)),
{
    reveal_strlit("move");
    lemma_ws(s, i);
    let k = skip_ws(s, i);
    lemma_expr_bp_end(s, i, 0);
    if has_tag(s, k, "move"@) {
        lemma_expr_bp_end(s, k + 4, 0);
    }
}

pub proof fn lemma_call_body_end(s: Seq<char>, i: int)
    requires
        0 <= i <= s.len(),
    ensures
        ends_at_token(s, call_body(s, i)),
{
    lemma_ws(s, i);
    if let Ok((j, id)) = identifier(s, skip_ws(s, i)) {
        let k = skip_ws(s, j);
        if at_char(s, k, '(') {
            let (p, args) = args_list(s, k + 1);
            let q = skip_ws(s, p);
            if at_char(s, q, ')') {
                lemma_ws(s, q + 1);
            }
        }
    }
}

/// Every command the grammar reads ends at a token: whitespace after it is its own.
pub proof fn lemma_command_end(s: Seq<char>, i: int)
    requires
        0 <= i <= s.len(),
    ensures
        ends_at_token(s, command(s, i)),
    decreases s.len() - i, 3nat,
{
    lemma_simple_end(s, i);
    if let Ok((j, c)) = simple_command(s, i) {
        if i < j <= s.len() {
            let k = skip_ws(s, j);
            if j <= k && at_char(s, k, ';') {
                lemma_command_end(s, k + 1);
            }
        }
    }
}

pub proof fn lemma_simple_end(s: Seq<char>, i: int)
    requires
        0 <= i <= s.len(),
    ensures
        ends_at_token(s, simple_command(s, i)),
    decreases s.len() - i, 2nat,
{
    reveal_strlit(":=");
    reveal_strlit("skip");
    reveal_strlit("call");
    lemma_ws(s, i);
    let k = skip_ws(s, i);
    if let Ok((j, x)) = identifier(s, k) {
        lemma_ident_end(s, k + 1);
        let k2 = skip_ws(s, j);
        lemma_ws(s, j);
        if has_tag(s, k2, ":="@) {
            lemma_move_expr_end(s, k2 + 2);
        }
    }
    lemma_if_end(s, i);
    lemma_while_end(s, i);
    lemma_io_end(s, i);
    if has_tag(s, k, "skip"@) {
        lemma_ws(s, k + 4);
    }
    lemma_block_end(s, i);
    if has_tag(s, k, "call"@) {
        lemma_call_body_end(s, k + 4);
    }
}

pub proof fn lemma_io_end(s: Seq<char>, i: int)
    requires
        0 <= i <= s.len(),
    ensures
        ends_at_token(s, io_cmd(s, i)),
{
    lemma_ws(s, i);
    let k = skip_ws(s, i);
    if has_tag(s, k, "write"@) {
        let k2 = skip_ws(s, k + 5);
        if at_char(s, k2, '(') {
            if let Ok((j, e)) = expression(s, k2 + 1) {
                let k3 = skip_ws(s, j);
                if at_char(s, k3, ')') {
                    lemma_ws(s, k3 + 1);
                }
            }
        }
    } else if has_tag(s, k, "read"@) {
        let k2 = skip_ws(s, k + 4);
        if at_char(s, k2, '(') {
            if let Ok((j, x)) = identifier(s, skip_ws(s, k2 + 1)) {
                let k3 = skip_ws(s, j);
                if at_char(s, k3, ')') {
                    lemma_ws(s, k3 + 1);
                }
            }
        }
    }
}

pub proof fn lemma_if_end(s: Seq<char>, i: int)
    requires
        0 <= i <= s.len(),
    ensures
        ends_at_token(s, if_cmd(s, i)),
    decreases s.len() - i, 1nat,
{
    let k = skip_ws(s, i);
    if has_tag(s, k, "if"@) {
        if let Ok((j, c)) = expression(s, k + 2) {
            let k2 = skip_ws(s, j);
            if has_tag(s, k2, "then"@) && i < k2 + 4 <= s.len() {
                if let Ok((m, a)) = command(s, k2 + 4) {
                    let k3 = skip_ws(s, m);
                    if has_tag(s, k3, "else"@) && i < k3 + 4 <= s.len() {
                        lemma_simple_end(s, k3 + 4);
                    }
                }
            }
        }
    }
}

pub proof fn lemma_while_end(s: Seq<char>, i: int)
    requires
        0 <= i <= s.len(),
    ensures
        ends_at_token(s, while_cmd(s, i)),
    decreases s.len() - i, 1nat,
{
    let k = skip_ws(s, i);
    if has_tag(s, k, "while"@) {
        if let Ok((j, c)) = expression(s, k + 5) {
            let k2 = skip_ws(s, j);
            if has_tag(s, k2, "do"@) && i < k2 + 2 <= s.len() {
                lemma_simple_end(s, k2 + 2);
            }
        }
    }
}

pub proof fn lemma_block_end(s: Seq<char>, i: int)
    requires
        0 <= i <= s.len(),
    ensures
        ends_at_token(s, block_cmd(s, i)),
{
    let k = skip_ws(s, i);
    if at_char(s, k, '{') && i <= k {
        let (p, ds) = decl_items(s, k + 1);
        if k < p <= s.len() {
            if let Ok((m, c)) = command(s, p) {
                let q = skip_ws(s, m);
                if at_char(s, q, '}') {
                    lemma_ws(s, q + 1);
                }
            } else if let Ok((m, d)) = declaration(s, p) {
                let q = skip_ws(s, m);
                if at_char(s, q, '}') {
                    lemma_ws(s, q + 1);
                }
            }
        }
    }
}

/// A text that holds one command followed by nothing but whitespace is a whole
/// program, and that command is the program.
pub proof fn lemma_command_then_whitespace(s: Seq<char>)
    requires
        match command(s, 0) {
            Ok((j, _)) => forall|k: int| j <= k < s.len() ==> is_space(#[trigger] s[k]),
            Err(_) => false,
        },
    ensures
        match command(s, 0) {
            Ok((_, c)) => program(s) == Ok::<CmdV, ParseError>(c),
            Err(_) => false,
        },
{
    lemma_command_end(s, 0);
    if let Ok((j, c)) = command(s, 0) {
        if j < s.len() {
            assert(is_space(s[j]));
            lemma_ws(s, j + 1);
            assert(skip_ws(s, j) == skip_ws(s, j + 1));
        }
    }
}

} // verus!
