//! The recursive-descent parser. Each function here computes exactly what the
//! function of the same construct in `grammar` describes.
use vstd::prelude::*;
use vstd::string::*;
use crate::ast::{
    CmdV, Program, Type, decls_view, exprs_view, lemma_decls_view_push, lemma_exprs_view_push, params_view,
    BinaryOperator, CallProcedure, Command, ConcreteValue, DeclV, Declaration, Expression, ExprV,
    IOCommand, ParamV, ProcedureParameter, UnaryOperator, Value, ValueV,
};
use crate::grammar::{
    args_list, args_tail, assignment, atomic, binary_operator, block_cmd, block_end, bool_lit,
    call_body, call_cmd, command, decl_item, decl_items, declaration, expr_bp, expr_loop,
    expression, identifier, if_cmd, int_lit, io_cmd, literal, move_expr, operator_symbol, param,
    param_list, params1, params_tail, parenthesized, prec, primary, proc_decl, simple_command,
    program, skip_cmd, string_lit, type_keyword, unary_expr, unary_operator, var_decl, while_cmd,
    Construct, PRes, ParseError,
};
use crate::text::{
    chars_of, digits_value, is_digit, is_ident_start_char, is_space_char, lemma_digits_value_monotone,
    lemma_skip_digits_bounds, scan_digits, scan_ident, scan_to_quote, scan_ws, skip_digits, skip_ws,
    tag_at,
};

verus! {

/// Source text with its characters unpacked for indexing.
pub struct Src<'a> {
    pub text: &'a str,
    pub chars: Vec<char>,
}

impl<'a> Src<'a> {
    pub open spec fn wf(&self) -> bool {
        self.chars@ == self.text@
    }

    pub open spec fn s(&self) -> Seq<char> {
        self.chars@
    }

    pub fn new(text: &'a str) -> (r: Src<'a>)
        ensures
            r.wf(),
            r.text == text,
    {
        Src { text, chars: chars_of(text) }
    }
}

/// An executable parse outcome and a grammar outcome agree.
pub open spec fn agrees<T: View>(r: Result<(usize, T), ParseError>, sp: PRes<T::V>) -> bool {
    match (r, sp) {
        (Ok((p, v)), Ok((q, w))) => p as int == q && v@ == w,
        (Err(e), Err(f)) => e == f,
        _ => false,
    }
}

/// A successful parse ends after `i` and within the text.
pub open spec fn advances<T>(r: Result<(usize, T), ParseError>, i: int, len: int) -> bool {
    match r {
        Ok((p, _)) => i < p <= len,
        Err(_) => true,
    }
}

pub open spec fn err_at(i: usize, k: Construct) -> ParseError {
    ParseError { position: i, construct: k }
}

fn failure<T>(i: usize, k: Construct) -> (r: Result<(usize, T), ParseError>)
    ensures
        r == Err::<(usize, T), ParseError>(err_at(i, k)),
{
    Err(ParseError { position: i, construct: k })
}

pub fn int_at(src: &Src, i: usize) -> (r: Result<(usize, i64), ParseError>)
    requires
        src.wf(),
        i <= src.s().len(),
    ensures
        agrees(r, int_lit(src.s(), i as int)),
        advances(r, i as int, src.s().len() as int),
{
    let ghost s = src.s();
    let j = scan_digits(&src.chars, i);
    proof {
        lemma_skip_digits_bounds(s, i as int);
    }
    if j == i {
        return failure(i, Construct::Integer);
    }
    let mut v: i64 = 0;
    let mut k: usize = i;
    while k < j
        invariant
            s == src.s(),
            i <= k <= j <= s.len(),
            j == skip_digits(s, i as int),
            forall|m: int| i <= m < j ==> is_digit(#[trigger] s[m]),
            v as int == digits_value(s, i as int, k as int),
            0 <= v,
        decreases j - k,
    {
        assert(is_digit(s[k as int]));
        let c = src.chars[k];
        let d: i64 = (c as u32 - '0' as u32) as i64;
        assert(0 <= d <= 9);
        assert(digits_value(s, i as int, k + 1) == v * 10 + d);
        if v > (i64::MAX - d) / 10 {
            assert(v * 10 + d > i64::MAX) by (nonlinear_arith)
                requires
                    v > (i64::MAX - d) / 10,
                    0 <= d <= 9,
            ;
            proof {
                lemma_digits_value_monotone(s, i as int, k + 1, j as int);
            }
            return failure(i, Construct::Integer);
        }
        assert(v * 10 + d <= i64::MAX) by (nonlinear_arith)
            requires
                v <= (i64::MAX - d) / 10,
                0 <= d <= 9,
        ;
        assert(0 <= v * 10 + d) by (nonlinear_arith)
            requires
                0 <= v,
                0 <= d,
        ;
        v = v * 10 + d;
        k += 1;
    }
    Ok((j, v))
}

pub fn string_at(src: &Src, i: usize) -> (r: Result<(usize, String), ParseError>)
    requires
        src.wf(),
        i <= src.s().len(),
    ensures
        agrees(r, string_lit(src.s(), i as int)),
        advances(r, i as int, src.s().len() as int),
{
    if i < src.chars.len() && src.chars[i] == '"' {
        let j = scan_to_quote(&src.chars, i + 1);
        if j < src.chars.len() && src.chars[j] == '"' {
            let t = String::from_str(src.text.substring_char(i + 1, j));
            return Ok((j + 1, t));
        }
    }
    failure(i, Construct::Text)
}

pub fn bool_at(src: &Src, i: usize) -> (r: Result<(usize, bool), ParseError>)
    requires
        src.wf(),
        i <= src.s().len(),
    ensures
        agrees(r, bool_lit(src.s(), i as int)),
        advances(r, i as int, src.s().len() as int),
{
    proof {
        reveal_strlit("true");
        reveal_strlit("false");
    }
    if tag_at(&src.chars, i, "true") {
        Ok((i + 4, true))
    } else if tag_at(&src.chars, i, "false") {
        Ok((i + 5, false))
    } else {
        failure(i, Construct::Boolean)
    }
}

pub fn identifier_at(src: &Src, i: usize) -> (r: Result<(usize, String), ParseError>)
    requires
        src.wf(),
        i <= src.s().len(),
    ensures
        agrees(r, identifier(src.s(), i as int)),
        advances(r, i as int, src.s().len() as int),
{
    if i < src.chars.len() && is_ident_start_char(src.chars[i]) {
        let j = scan_ident(&src.chars, i + 1);
        let x = String::from_str(src.text.substring_char(i, j));
        Ok((j, x))
    } else {
        failure(i, Construct::Identifier)
    }
}

pub fn type_at(src: &Src, i: usize) -> (r: Result<(usize, crate::ast::Type), ParseError>)
    requires
        src.wf(),
        i <= src.s().len(),
    ensures
        agrees(r, type_keyword(src.s(), i as int)),
        advances(r, i as int, src.s().len() as int),
{
    proof {
        reveal_strlit("int");
        reveal_strlit("string");
        reveal_strlit("bool");
    }
    if tag_at(&src.chars, i, "int") {
        Ok((i + 3, crate::ast::Type::Int))
    } else if tag_at(&src.chars, i, "string") {
        Ok((i + 6, crate::ast::Type::Str))
    } else if tag_at(&src.chars, i, "bool") {
        Ok((i + 4, crate::ast::Type::Bool))
    } else {
        failure(i, Construct::TypeName)
    }
}

pub fn literal_at(src: &Src, i: usize) -> (r: Result<(usize, Value), ParseError>)
    requires
        src.wf(),
        i <= src.s().len(),
    ensures
        agrees(r, literal(src.s(), i as int)),
        advances(r, i as int, src.s().len() as int),
{
    let k = scan_ws(&src.chars, i);
    match int_at(src, k) {
        Ok((j, n)) => {
            return Ok((scan_ws(&src.chars, j), Value::Int(n)));
        },
        Err(_) => {},
    }
    match bool_at(src, k) {
        Ok((j, b)) => {
            return Ok((scan_ws(&src.chars, j), Value::Bool(b)));
        },
        Err(_) => {},
    }
    match string_at(src, k) {
        Ok((j, t)) => Ok((scan_ws(&src.chars, j), Value::Str(t))),
        Err(_) => failure(k, Construct::Literal),
    }
}

pub fn operator_at(src: &Src, k: usize) -> (r: Option<(usize, BinaryOperator)>)
    requires
        src.wf(),
        k <= src.s().len(),
    ensures
        match (r, operator_symbol(src.s(), k as int)) {
            (Some((p, op)), Some((q, op2))) => p as int == q && op == op2 && k < p <= src.s().len(),
            (None, None) => true,
            _ => false,
        },
{
    proof {
        reveal_strlit("++");
        reveal_strlit("+");
        reveal_strlit("-");
        reveal_strlit("and");
        reveal_strlit("or");
        reveal_strlit("==");
        reveal_strlit("<=");
        reveal_strlit(">=");
        reveal_strlit("<");
        reveal_strlit(">");
    }
    let s = &src.chars;
    if tag_at(s, k, "++") {
        Some((k + 2, BinaryOperator::Concat))
    } else if tag_at(s, k, "+") {
        Some((k + 1, BinaryOperator::Add))
    } else if tag_at(s, k, "-") {
        Some((k + 1, BinaryOperator::Sub))
    } else if tag_at(s, k, "and") {
        Some((k + 3, BinaryOperator::And))
    } else if tag_at(s, k, "or") {
        Some((k + 2, BinaryOperator::Or))
    } else if tag_at(s, k, "==") {
        Some((k + 2, BinaryOperator::Equal))
    } else if tag_at(s, k, "<=") {
        Some((k + 2, BinaryOperator::LessEqual))
    } else if tag_at(s, k, ">=") {
        Some((k + 2, BinaryOperator::GreaterEqual))
    } else if tag_at(s, k, "<") {
        Some((k + 1, BinaryOperator::Less))
    } else if tag_at(s, k, ">") {
        Some((k + 1, BinaryOperator::Greater))
    } else {
        None
    }
}

pub fn binary_operator_at(src: &Src, i: usize) -> (r: Result<(usize, BinaryOperator), ParseError>)
    requires
        src.wf(),
        i <= src.s().len(),
    ensures
        agrees(r, binary_operator(src.s(), i as int)),
        advances(r, i as int, src.s().len() as int),
{
    let k = scan_ws(&src.chars, i);
    match operator_at(src, k) {
        Some((j, op)) => Ok((scan_ws(&src.chars, j), op)),
        None => failure(k, Construct::Operator),
    }
}

pub fn unary_operator_at(src: &Src, i: usize) -> (r: Result<(usize, UnaryOperator), ParseError>)
    requires
        src.wf(),
        i <= src.s().len(),
    ensures
        agrees(r, unary_operator(src.s(), i as int)),
        advances(r, i as int, src.s().len() as int),
{
    proof {
        reveal_strlit("-");
        reveal_strlit("not");
        reveal_strlit("length");
    }
    let k = scan_ws(&src.chars, i);
    if tag_at(&src.chars, k, "-") {
        Ok((scan_ws(&src.chars, k + 1), UnaryOperator::Neg))
    } else if tag_at(&src.chars, k, "not") {
        Ok((scan_ws(&src.chars, k + 3), UnaryOperator::Not))
    } else if tag_at(&src.chars, k, "length") {
        Ok((scan_ws(&src.chars, k + 6), UnaryOperator::Length))
    } else {
        failure(k, Construct::UnaryOperator)
    }
}

/// The binding strength of a binary operator.
pub fn precedence(op: &BinaryOperator) -> (r: u8)
    ensures
        r as nat == prec(*op),
{
    match op {
        BinaryOperator::Concat => 5,
        BinaryOperator::Add | BinaryOperator::Sub => 3,
        BinaryOperator::Equal
        | BinaryOperator::Less
        | BinaryOperator::LessEqual
        | BinaryOperator::Greater
        | BinaryOperator::GreaterEqual => 2,
        BinaryOperator::And => 1,
        BinaryOperator::Or => 0,
    }
}

pub fn expr_bp_at(src: &Src, i: usize, min: u8) -> (r: Result<(usize, Expression), ParseError>)
    requires
        src.wf(),
        i <= src.s().len(),
    ensures
        agrees(r, expr_bp(src.s(), i as int, min as nat)),
        advances(r, i as int, src.s().len() as int),
    decreases src.s().len() - i, 3nat,
{
    let ghost s = src.s();
    let (j0, lhs0) = match primary_at(src, i) {
        Ok(x) => x,
        Err(e) => {
            return Err(e);
        },
    };
    let mut j = j0;
    let mut lhs = lhs0;
    loop
        invariant
            s == src.s(),
            src.wf(),
            i < j <= s.len(),
            expr_bp(s, i as int, min as nat) == expr_loop(s, j as int, lhs@, min as nat),
        decreases s.len() - j,
    {
        match binary_operator_at(src, j) {
            Ok((k, op)) => {
                let p = precedence(&op);
                if p < min {
                    return Ok((j, lhs));
                }
                match expr_bp_at(src, k, p + 1) {
                    Ok((m, rhs)) => {
                        lhs = Expression::BinaryExp(op, Box::new(lhs), Box::new(rhs));
                        j = m;
                    },
                    Err(e) => {
                        return Err(e);
                    },
                }
            },
            Err(_) => {
                return Ok((j, lhs));
            },
        }
    }
}

pub fn primary_at(src: &Src, i: usize) -> (r: Result<(usize, Expression), ParseError>)
    requires
        src.wf(),
        i <= src.s().len(),
    ensures
        agrees(r, primary(src.s(), i as int)),
        advances(r, i as int, src.s().len() as int),
    decreases src.s().len() - i, 2nat,
{
    match unary_at(src, i) {
        Ok(r) => Ok(r),
        Err(_) => atomic_at(src, i),
    }
}

pub fn unary_at(src: &Src, i: usize) -> (r: Result<(usize, Expression), ParseError>)
    requires
        src.wf(),
        i <= src.s().len(),
    ensures
        agrees(r, unary_expr(src.s(), i as int)),
        advances(r, i as int, src.s().len() as int),
    decreases src.s().len() - i, 1nat,
{
    let (k, op) = match unary_operator_at(src, i) {
        Ok(x) => x,
        Err(e) => {
            return Err(e);
        },
    };
    match expr_bp_at(src, k, 100) {
        Ok((m, e)) => Ok((m, Expression::UnaryExp(op, Box::new(e)))),
        Err(e) => Err(e),
    }
}

pub fn atomic_at(src: &Src, i: usize) -> (r: Result<(usize, Expression), ParseError>)
    requires
        src.wf(),
        i <= src.s().len(),
    ensures
        agrees(r, atomic(src.s(), i as int)),
        advances(r, i as int, src.s().len() as int),
    decreases src.s().len() - i, 1nat,
{
    let k = scan_ws(&src.chars, i);
    match literal_at(src, k) {
        Ok((j, v)) => {
            return Ok((j, Expression::ConcreteValue(ConcreteValue::Value(v))));
        },
        Err(_) => {},
    }
    match identifier_at(src, k) {
        Ok((j, x)) => {
            return Ok((scan_ws(&src.chars, j), Expression::Identifier(x)));
        },
        Err(_) => {},
    }
    match parenthesized_at(src, i) {
        Ok(r) => Ok(r),
        Err(_) => failure(k, Construct::Atom),
    }
}

pub fn parenthesized_at(src: &Src, i: usize) -> (r: Result<(usize, Expression), ParseError>)
    requires
        src.wf(),
        i <= src.s().len(),
    ensures
        agrees(r, parenthesized(src.s(), i as int)),
        advances(r, i as int, src.s().len() as int),
    decreases src.s().len() - i, 0nat,
{
    let k = scan_ws(&src.chars, i);
    if k < src.chars.len() && src.chars[k] == '(' {
        match expr_bp_at(src, k + 1, 0) {
            Ok((j, e)) => {
                let q = scan_ws(&src.chars, j);
                if q < src.chars.len() && src.chars[q] == ')' {
                    Ok((scan_ws(&src.chars, q + 1), e))
                } else {
                    failure(q, Construct::Symbol)
                }
            },
            Err(e) => Err(e),
        }
    } else {
        failure(k, Construct::Symbol)
    }
}

pub fn expression_at(src: &Src, i: usize) -> (r: Result<(usize, Expression), ParseError>)
    requires
        src.wf(),
        i <= src.s().len(),
    ensures
        agrees(r, expression(src.s(), i as int)),
        advances(r, i as int, src.s().len() as int),
{
    expr_bp_at(src, i, 0)
}

pub fn move_expr_at(src: &Src, i: usize) -> (r: Result<(usize, (Expression, bool)), ParseError>)
    requires
        src.wf(),
        i <= src.s().len(),
    ensures
        agrees(r, move_expr(src.s(), i as int)),
        advances(r, i as int, src.s().len() as int),
{
    proof {
        reveal_strlit("move");
    }
    let k = scan_ws(&src.chars, i);
    if tag_at(&src.chars, k, "move") {
        match expression_at(src, k + 4) {
            Ok((m, e)) => {
                return Ok((m, (e, true)));
            },
            Err(_) => {},
        }
    }
    match expression_at(src, i) {
        Ok((m, e)) => Ok((m, (e, false))),
        Err(e) => Err(e),
    }
}

pub fn args_at(src: &Src, i: usize) -> (r: (usize, Vec<Expression>))
    requires
        src.wf(),
        i <= src.s().len(),
    ensures
        (r.0 as int, exprs_view(r.1@)) == args_list(src.s(), i as int),
        i <= r.0 <= src.s().len(),
{
    let ghost s = src.s();
    let (j0, e0) = match expression_at(src, i) {
        Ok(x) => x,
        Err(_) => {
            assert(exprs_view(Seq::<Expression>::empty()) =~= Seq::<ExprV>::empty());
            return (i, Vec::new());
        },
    };
    let mut j = j0;
    let mut v: Vec<Expression> = Vec::new();
    proof {
        lemma_exprs_view_push(v@, e0);
        assert(exprs_view(v@) =~= Seq::<ExprV>::empty());
        assert(exprs_view(v@).push(e0@) =~= seq![e0@]);
    }
    v.push(e0);
    loop
        invariant
            s == src.s(),
            src.wf(),
            i < j <= s.len(),
            args_list(s, i as int) == args_tail(s, j as int, exprs_view(v@)),
        decreases s.len() - j,
    {
        let k = scan_ws(&src.chars, j);
        if k < src.chars.len() && src.chars[k] == ',' {
            match expression_at(src, k + 1) {
                Ok((m, e)) => {
                    proof {
                        lemma_exprs_view_push(v@, e);
                    }
                    v.push(e);
                    j = m;
                },
                Err(_) => {
                    return (j, v);
                },
            }
        } else {
            return (j, v);
        }
    }
}

pub fn param_at(src: &Src, i: usize) -> (r: Result<(usize, ProcedureParameter), ParseError>)
    requires
        src.wf(),
        i <= src.s().len(),
    ensures
        agrees(r, param(src.s(), i as int)),
        advances(r, i as int, src.s().len() as int),
{
    let k = scan_ws(&src.chars, i);
    let (j, t) = match type_at(src, k) {
        Ok(x) => x,
        Err(e) => {
            return Err(e);
        },
    };
    if j < src.chars.len() && is_space_char(src.chars[j]) {
        match identifier_at(src, scan_ws(&src.chars, j)) {
            Ok((m, x)) => Ok((m, ProcedureParameter { identifier: x, type_: t })),
            Err(e) => Err(e),
        }
    } else {
        failure(j, Construct::Parameter)
    }
}

pub fn params1_at(src: &Src, i: usize) -> (r: Result<(usize, Vec<ProcedureParameter>), ParseError>)
    requires
        src.wf(),
        i <= src.s().len(),
    ensures
        match (r, params1(src.s(), i as int)) {
            (Ok((p, v)), Ok((q, w))) => p as int == q && params_view(v@) == w,
            (Err(e), Err(f)) => e == f,
            _ => false,
        },
        advances(r, i as int, src.s().len() as int),
{
    let ghost s = src.s();
    let (j0, p0) = match param_at(src, i) {
        Ok(x) => x,
        Err(e) => {
            return Err(e);
        },
    };
    let mut j = j0;
    let mut v: Vec<ProcedureParameter> = Vec::new();
    v.push(p0);
    assert(params_view(v@) =~= seq![p0@]);
    loop
        invariant
            s == src.s(),
            src.wf(),
            i < j <= s.len(),
            params1(s, i as int) == Ok::<(int, Seq<ParamV>), ParseError>(
                params_tail(s, j as int, params_view(v@)),
            ),
        decreases s.len() - j,
    {
        let k = scan_ws(&src.chars, j);
        if k < src.chars.len() && src.chars[k] == ',' {
            match param_at(src, k + 1) {
                Ok((m, p)) => {
                    let ghost old_v = v@;
                    v.push(p);
                    assert(params_view(v@) =~= params_view(old_v).push(p@));
                    j = m;
                },
                Err(_) => {
                    return Ok((j, v));
                },
            }
        } else {
            return Ok((j, v));
        }
    }
}

pub fn param_list_at(src: &Src, i: usize) -> (r: (usize, Vec<ProcedureParameter>))
    requires
        src.wf(),
        i <= src.s().len(),
    ensures
        (r.0 as int, params_view(r.1@)) == param_list(src.s(), i as int),
        i <= r.0 <= src.s().len(),
{
    match params1_at(src, i) {
        Ok(r) => r,
        Err(_) => {
            assert(params_view(Seq::<ProcedureParameter>::empty()) =~= Seq::<ParamV>::empty());
            (i, Vec::new())
        },
    }
}

pub fn var_decl_at(src: &Src, i: usize) -> (r: Result<(usize, Declaration), ParseError>)
    requires
        src.wf(),
        i <= src.s().len(),
    ensures
        agrees(r, var_decl(src.s(), i as int)),
        advances(r, i as int, src.s().len() as int),
{
    proof {
        reveal_strlit("var");
    }
    let k = scan_ws(&src.chars, i);
    if !tag_at(&src.chars, k, "var") {
        return failure(k, Construct::Declaration);
    }
    let (j, x) = match identifier_at(src, scan_ws(&src.chars, k + 3)) {
        Ok(r) => r,
        Err(e) => {
            return Err(e);
        },
    };
    let k2 = scan_ws(&src.chars, j);
    if k2 < src.chars.len() && src.chars[k2] == '=' {
        match move_expr_at(src, k2 + 1) {
            Ok((m, (e, mv))) => Ok((m, Declaration::Variable(x, e, mv))),
            Err(e) => Err(e),
        }
    } else {
        failure(k2, Construct::Symbol)
    }
}

pub fn call_body_at(src: &Src, i: usize) -> (r: Result<(usize, CallProcedure), ParseError>)
    requires
        src.wf(),
        i <= src.s().len(),
    ensures
        match (r, call_body(src.s(), i as int)) {
            (Ok((p, c)), Ok((q, w))) => p as int == q && c.id@ == w.id && exprs_view(c.args@)
                == w.args,
            (Err(e), Err(f)) => e == f,
            _ => false,
        },
        advances(r, i as int, src.s().len() as int),
{
    let (j, id) = match identifier_at(src, scan_ws(&src.chars, i)) {
        Ok(r) => r,
        Err(e) => {
            return Err(e);
        },
    };
    let k = scan_ws(&src.chars, j);
    if k < src.chars.len() && src.chars[k] == '(' {
        let (p, args) = args_at(src, k + 1);
        let q = scan_ws(&src.chars, p);
        if q < src.chars.len() && src.chars[q] == ')' {
            Ok((scan_ws(&src.chars, q + 1), CallProcedure { id, args }))
        } else {
            failure(q, Construct::Symbol)
        }
    } else {
        failure(k, Construct::Symbol)
    }
}

pub fn call_at(src: &Src, i: usize) -> (r: Result<(usize, Command), ParseError>)
    requires
        src.wf(),
        i <= src.s().len(),
    ensures
        agrees(r, call_cmd(src.s(), i as int)),
        advances(r, i as int, src.s().len() as int),
{
    proof {
        reveal_strlit("call");
    }
    let k = scan_ws(&src.chars, i);
    if tag_at(&src.chars, k, "call") {
        match call_body_at(src, k + 4) {
            Ok((j, c)) => Ok((j, Command::CallProcedure(c))),
            Err(e) => Err(e),
        }
    } else {
        failure(k, Construct::Command)
    }
}

pub fn assignment_at(src: &Src, i: usize) -> (r: Result<(usize, Command), ParseError>)
    requires
        src.wf(),
        i <= src.s().len(),
    ensures
        agrees(r, assignment(src.s(), i as int)),
        advances(r, i as int, src.s().len() as int),
{
    proof {
        reveal_strlit(":=");
    }
    let (j, x) = match identifier_at(src, scan_ws(&src.chars, i)) {
        Ok(r) => r,
        Err(e) => {
            return Err(e);
        },
    };
    let k = scan_ws(&src.chars, j);
    if tag_at(&src.chars, k, ":=") {
        match move_expr_at(src, k + 2) {
            Ok((m, (e, mv))) => Ok((m, Command::Assignment(x, e, mv))),
            Err(e) => Err(e),
        }
    } else {
        failure(k, Construct::Symbol)
    }
}

pub fn io_at(src: &Src, i: usize) -> (r: Result<(usize, Command), ParseError>)
    requires
        src.wf(),
        i <= src.s().len(),
    ensures
        agrees(r, io_cmd(src.s(), i as int)),
        advances(r, i as int, src.s().len() as int),
{
    proof {
        reveal_strlit("write");
        reveal_strlit("read");
    }
    let s = &src.chars;
    let k = scan_ws(s, i);
    if tag_at(s, k, "write") {
        let k2 = scan_ws(s, k + 5);
        if k2 < s.len() && s[k2] == '(' {
            match expression_at(src, k2 + 1) {
                Ok((j, e)) => {
                    let k3 = scan_ws(s, j);
                    if k3 < s.len() && s[k3] == ')' {
                        Ok((scan_ws(s, k3 + 1), Command::IO(IOCommand::Write(Box::new(e)))))
                    } else {
                        failure(k3, Construct::Symbol)
                    }
                },
                Err(e) => Err(e),
            }
        } else {
            failure(k2, Construct::Symbol)
        }
    } else if tag_at(s, k, "read") {
        let k2 = scan_ws(s, k + 4);
        if k2 < s.len() && s[k2] == '(' {
            match identifier_at(src, scan_ws(s, k2 + 1)) {
                Ok((j, x)) => {
                    let k3 = scan_ws(s, j);
                    if k3 < s.len() && s[k3] == ')' {
                        Ok((scan_ws(s, k3 + 1), Command::IO(IOCommand::Read(x))))
                    } else {
                        failure(k3, Construct::Symbol)
                    }
                },
                Err(e) => Err(e),
            }
        } else {
            failure(k2, Construct::Symbol)
        }
    } else {
        failure(k, Construct::Command)
    }
}

pub fn skip_at(src: &Src, i: usize) -> (r: Result<(usize, Command), ParseError>)
    requires
        src.wf(),
        i <= src.s().len(),
    ensures
        agrees(r, skip_cmd(src.s(), i as int)),
        advances(r, i as int, src.s().len() as int),
{
    proof {
        reveal_strlit("skip");
    }
    let k = scan_ws(&src.chars, i);
    if tag_at(&src.chars, k, "skip") {
        Ok((scan_ws(&src.chars, k + 4), Command::Skip))
    } else {
        failure(k, Construct::Command)
    }
}

pub fn command_at(src: &Src, i: usize) -> (r: Result<(usize, Command), ParseError>)
    requires
        src.wf(),
        i <= src.s().len(),
    ensures
        agrees(r, command(src.s(), i as int)),
        advances(r, i as int, src.s().len() as int),
    decreases src.s().len() - i, 3nat,
{
    let (j, c) = match simple_at(src, i) {
        Ok(x) => x,
        Err(e) => {
            return Err(e);
        },
    };
    let k = scan_ws(&src.chars, j);
    if k < src.chars.len() && src.chars[k] == ';' {
        match command_at(src, k + 1) {
            Ok((m, rest)) => Ok((m, Command::Sequence(Box::new(c), Box::new(rest)))),
            Err(_) => Ok((j, c)),
        }
    } else {
        Ok((j, c))
    }
}

pub fn simple_at(src: &Src, i: usize) -> (r: Result<(usize, Command), ParseError>)
    requires
        src.wf(),
        i <= src.s().len(),
    ensures
        agrees(r, simple_command(src.s(), i as int)),
        advances(r, i as int, src.s().len() as int),
    decreases src.s().len() - i, 2nat,
{
    match assignment_at(src, i) {
        Ok(r) => {
            return Ok(r);
        },
        Err(_) => {},
    }
    match if_at(src, i) {
        Ok(r) => {
            return Ok(r);
        },
        Err(_) => {},
    }
    match while_at(src, i) {
        Ok(r) => {
            return Ok(r);
        },
        Err(_) => {},
    }
    match io_at(src, i) {
        Ok(r) => {
            return Ok(r);
        },
        Err(_) => {},
    }
    match skip_at(src, i) {
        Ok(r) => {
            return Ok(r);
        },
        Err(_) => {},
    }
    match block_at(src, i) {
        Ok(r) => {
            return Ok(r);
        },
        Err(_) => {},
    }
    match call_at(src, i) {
        Ok(r) => Ok(r),
        Err(_) => failure(scan_ws(&src.chars, i), Construct::Command),
    }
}

pub fn if_at(src: &Src, i: usize) -> (r: Result<(usize, Command), ParseError>)
    requires
        src.wf(),
        i <= src.s().len(),
    ensures
        agrees(r, if_cmd(src.s(), i as int)),
        advances(r, i as int, src.s().len() as int),
    decreases src.s().len() - i, 1nat,
{
    proof {
        reveal_strlit("if");
        reveal_strlit("then");
        reveal_strlit("else");
    }
    let k = scan_ws(&src.chars, i);
    if !tag_at(&src.chars, k, "if") {
        return failure(k, Construct::Command);
    }
    let (j, c) = match expression_at(src, k + 2) {
        Ok(x) => x,
        Err(e) => {
            return Err(e);
        },
    };
    let k2 = scan_ws(&src.chars, j);
    if !tag_at(&src.chars, k2, "then") {
        return failure(k2, Construct::Symbol);
    }
    let (m, a) = match command_at(src, k2 + 4) {
        Ok(x) => x,
        Err(e) => {
            return Err(e);
        },
    };
    let k3 = scan_ws(&src.chars, m);
    if !tag_at(&src.chars, k3, "else") {
        return failure(k3, Construct::Symbol);
    }
    match simple_at(src, k3 + 4) {
        Ok((q, b)) => Ok((q, Command::IfElse(c, Box::new(a), Box::new(b)))),
        Err(e) => Err(e),
    }
}

pub fn while_at(src: &Src, i: usize) -> (r: Result<(usize, Command), ParseError>)
    requires
        src.wf(),
        i <= src.s().len(),
    ensures
        agrees(r, while_cmd(src.s(), i as int)),
        advances(r, i as int, src.s().len() as int),
    decreases src.s().len() - i, 1nat,
{
    proof {
        reveal_strlit("while");
        reveal_strlit("do");
    }
    let k = scan_ws(&src.chars, i);
    if !tag_at(&src.chars, k, "while") {
        return failure(k, Construct::Command);
    }
    let (j, c) = match expression_at(src, k + 5) {
        Ok(x) => x,
        Err(e) => {
            return Err(e);
        },
    };
    let k2 = scan_ws(&src.chars, j);
    if !tag_at(&src.chars, k2, "do") {
        return failure(k2, Construct::Symbol);
    }
    match simple_at(src, k2 + 2) {
        Ok((m, b)) => Ok((m, Command::WhileLoop(c, Box::new(b)))),
        Err(e) => Err(e),
    }
}

fn block_end_at(src: &Src, m: usize, ds: Vec<Declaration>, body: Command) -> (r: Result<(usize, Command), ParseError>)
    requires
        src.wf(),
        m <= src.s().len(),
    ensures
        agrees(r, block_end(src.s(), m as int, decls_view(ds@), body@)),
        advances(r, m as int, src.s().len() as int),
{
    let q = scan_ws(&src.chars, m);
    if q < src.chars.len() && src.chars[q] == '}' {
        Ok((scan_ws(&src.chars, q + 1), Command::DeclarationBlock(ds, Box::new(body))))
    } else {
        failure(q, Construct::Symbol)
    }
}

pub fn block_at(src: &Src, i: usize) -> (r: Result<(usize, Command), ParseError>)
    requires
        src.wf(),
        i <= src.s().len(),
    ensures
        agrees(r, block_cmd(src.s(), i as int)),
        advances(r, i as int, src.s().len() as int),
    decreases src.s().len() - i, 1nat,
{
    let k = scan_ws(&src.chars, i);
    if !(k < src.chars.len() && src.chars[k] == '{') {
        return failure(k, Construct::Command);
    }
    let (p, mut ds) = decl_items_at(src, k + 1);
    match command_at(src, p) {
        Ok((m, c)) => block_end_at(src, m, ds, c),
        Err(e) => match declaration_at(src, p) {
            Ok((m, d)) => {
                proof {
                    lemma_decls_view_push(ds@, d);
                }
                ds.push(d);
                block_end_at(src, m, ds, Command::Skip)
            },
            Err(_) => Err(e),
        },
    }
}

pub fn decl_items_at(src: &Src, p: usize) -> (r: (usize, Vec<Declaration>))
    requires
        src.wf(),
        p <= src.s().len(),
    ensures
        (r.0 as int, decls_view(r.1@)) == decl_items(src.s(), p as int),
        p <= r.0 <= src.s().len(),
    decreases src.s().len() - p, 4nat,
{
    let ghost s = src.s();
    let mut v: Vec<Declaration> = Vec::new();
    let mut q = p;
    assert(decls_view(v@) =~= Seq::<DeclV>::empty());
    loop
        invariant
            s == src.s(),
            src.wf(),
            p <= q <= s.len(),
            decl_items(s, p as int) == (
                decl_items(s, q as int).0,
                decls_view(v@) + decl_items(s, q as int).1,
            ),
        decreases s.len() - q,
    {
        match declaration_at(src, q) {
            Ok((j, d)) => {
                let r = scan_ws(&src.chars, j);
                if r < src.chars.len() && src.chars[r] == ';' {
                    let ghost old_v = v@;
                    let ghost tail = decl_items(s, r + 1);
                    proof {
                        lemma_decls_view_push(v@, d);
                        assert(decls_view(old_v) + (seq![d@] + tail.1) =~= decls_view(
                            old_v.push(d),
                        ) + tail.1);
                    }
                    v.push(d);
                    q = r + 1;
                } else {
                    assert(decls_view(v@) + Seq::<DeclV>::empty() =~= decls_view(v@));
                    return (q, v);
                }
            },
            Err(_) => {
                assert(decls_view(v@) + Seq::<DeclV>::empty() =~= decls_view(v@));
                return (q, v);
            },
        }
    }
}

pub fn declaration_at(src: &Src, i: usize) -> (r: Result<(usize, Declaration), ParseError>)
    requires
        src.wf(),
        i <= src.s().len(),
    ensures
        agrees(r, declaration(src.s(), i as int)),
        advances(r, i as int, src.s().len() as int),
    decreases src.s().len() - i, 2nat,
{
    let (j, d) = match decl_item_at(src, i) {
        Ok(x) => x,
        Err(e) => {
            return Err(e);
        },
    };
    let k = scan_ws(&src.chars, j);
    if k < src.chars.len() && src.chars[k] == ',' {
        match declaration_at(src, k + 1) {
            Ok((m, rest)) => Ok((m, Declaration::Compound(Box::new(d), Box::new(rest)))),
            Err(_) => Ok((j, d)),
        }
    } else {
        Ok((j, d))
    }
}

pub fn decl_item_at(src: &Src, i: usize) -> (r: Result<(usize, Declaration), ParseError>)
    requires
        src.wf(),
        i <= src.s().len(),
    ensures
        agrees(r, decl_item(src.s(), i as int)),
        advances(r, i as int, src.s().len() as int),
    decreases src.s().len() - i, 1nat,
{
    match var_decl_at(src, i) {
        Ok(r) => {
            return Ok(r);
        },
        Err(_) => {},
    }
    match proc_decl_at(src, i) {
        Ok(r) => Ok(r),
        Err(_) => failure(scan_ws(&src.chars, i), Construct::Declaration),
    }
}

pub fn proc_decl_at(src: &Src, i: usize) -> (r: Result<(usize, Declaration), ParseError>)
    requires
        src.wf(),
        i <= src.s().len(),
    ensures
        agrees(r, proc_decl(src.s(), i as int)),
        advances(r, i as int, src.s().len() as int),
    decreases src.s().len() - i, 0nat,
{
    proof {
        reveal_strlit("proc");
    }
    let s = &src.chars;
    let k = scan_ws(s, i);
    if !tag_at(s, k, "proc") {
        return failure(k, Construct::Declaration);
    }
    let (j, name) = match identifier_at(src, scan_ws(s, k + 4)) {
        Ok(x) => x,
        Err(e) => {
            return Err(e);
        },
    };
    let k2 = scan_ws(s, j);
    if !(k2 < s.len() && s[k2] == '(') {
        return failure(k2, Construct::Symbol);
    }
    let (p, ps) = param_list_at(src, k2 + 1);
    let k3 = scan_ws(s, p);
    if !(k3 < s.len() && s[k3] == ')') {
        return failure(k3, Construct::Symbol);
    }
    let k4 = scan_ws(s, k3 + 1);
    if !(k4 < s.len() && s[k4] == '{') {
        return failure(k4, Construct::Symbol);
    }
    let (m, body) = match command_at(src, k4 + 1) {
        Ok(x) => x,
        Err(e) => {
            return Err(e);
        },
    };
    let k5 = scan_ws(s, m);
    if k5 < s.len() && s[k5] == '}' {
        Ok((scan_ws(s, k5 + 1), Declaration::Procedure(name, ps, None, Box::new(body))))
    } else {
        failure(k5, Construct::Symbol)
    }
}

/// A parse over a whole text, as the grammar describes it: the rest of the text
/// after the construct, and its value.
pub open spec fn parsed<T: View>(input: Seq<char>, r: Result<(&str, T), ParseError>, sp: PRes<T::V>) -> bool {
    match (r, sp) {
        (Ok((rest, v)), Ok((q, w))) => 0 <= q <= input.len() && rest@ == input.subrange(q, input.len() as int)
            && v@ == w,
        (Err(e), Err(f)) => e == f,
        _ => false,
    }
}

fn finish<'a, T: View>(input: &'a str, r: Result<(usize, T), ParseError>) -> (out: Result<(&'a str, T), ParseError>)
    requires
        r is Ok ==> r->Ok_0.0 <= input@.len(),
    ensures
        match (r, out) {
            (Ok((p, v)), Ok((rest, w))) => w == v && rest@ == input@.subrange(p as int, input@.len() as int),
            (Err(e), Err(f)) => e == f,
            _ => false,
        },
{
    match r {
        Ok((p, v)) => {
            let n = input.unicode_len();
            Ok((input.substring_char(p, n), v))
        },
        Err(e) => Err(e),
    }
}

/// Skips whitespace; returns the rest and the whitespace skipped.
pub fn ws(input: &str) -> (r: Result<(&str, &str), ParseError>)
    ensures
        r is Ok,
        r->Ok_0.0@ == input@.subrange(skip_ws(input@, 0), input@.len() as int),
        r->Ok_0.1@ == input@.subrange(0, skip_ws(input@, 0)),
{
    let src = Src::new(input);
    let k = scan_ws(&src.chars, 0);
    let n = input.unicode_len();
    Ok((input.substring_char(k, n), input.substring_char(0, k)))
}

pub fn parse_identifier(input: &str) -> (r: Result<(&str, String), ParseError>)
    ensures
        parsed(input@, r, identifier(input@, 0)),
{
    let src = Src::new(input);
    finish(input, identifier_at(&src, 0))
}

pub fn parse_type(input: &str) -> (r: Result<(&str, Type), ParseError>)
    ensures
        parsed(input@, r, type_keyword(input@, 0)),
{
    let src = Src::new(input);
    finish(input, type_at(&src, 0))
}

pub fn parse_int(input: &str) -> (r: Result<(&str, ConcreteValue), ParseError>)
    ensures
        parsed(
            input@,
            r,
            match int_lit(input@, 0) {
                Ok((q, n)) => Ok((q, ValueV::Int(n))),
                Err(e) => Err(e),
            },
        ),
{
    let src = Src::new(input);
    let r = match int_at(&src, 0) {
        Ok((p, n)) => Ok((p, ConcreteValue::Value(Value::Int(n)))),
        Err(e) => Err(e),
    };
    finish(input, r)
}

pub fn parse_string(input: &str) -> (r: Result<(&str, ConcreteValue), ParseError>)
    ensures
        parsed(
            input@,
            r,
            match string_lit(input@, 0) {
                Ok((q, t)) => Ok((q, ValueV::Str(t))),
                Err(e) => Err(e),
            },
        ),
{
    let src = Src::new(input);
    let r = match string_at(&src, 0) {
        Ok((p, t)) => Ok((p, ConcreteValue::Value(Value::Str(t)))),
        Err(e) => Err(e),
    };
    finish(input, r)
}

pub fn parse_bool(input: &str) -> (r: Result<(&str, ConcreteValue), ParseError>)
    ensures
        parsed(
            input@,
            r,
            match bool_lit(input@, 0) {
                Ok((q, b)) => Ok((q, ValueV::Bool(b))),
                Err(e) => Err(e),
            },
        ),
{
    let src = Src::new(input);
    let r = match bool_at(&src, 0) {
        Ok((p, b)) => Ok((p, ConcreteValue::Value(Value::Bool(b)))),
        Err(e) => Err(e),
    };
    finish(input, r)
}

pub fn parse_concrete_value(input: &str) -> (r: Result<(&str, Expression), ParseError>)
    ensures
        parsed(
            input@,
            r,
            match literal(input@, 0) {
                Ok((q, v)) => Ok((q, ExprV::Const(v))),
                Err(e) => Err(e),
            },
        ),
{
    let src = Src::new(input);
    let r = match literal_at(&src, 0) {
        Ok((p, v)) => Ok((p, Expression::ConcreteValue(ConcreteValue::Value(v)))),
        Err(e) => Err(e),
    };
    finish(input, r)
}

pub fn parse_parenthesized(input: &str) -> (r: Result<(&str, Expression), ParseError>)
    ensures
        parsed(input@, r, parenthesized(input@, 0)),
{
    let src = Src::new(input);
    finish(input, parenthesized_at(&src, 0))
}

pub fn parse_expression_atomic(input: &str) -> (r: Result<(&str, Expression), ParseError>)
    ensures
        parsed(input@, r, atomic(input@, 0)),
{
    let src = Src::new(input);
    finish(input, atomic_at(&src, 0))
}

pub fn parse_expression(input: &str) -> (r: Result<(&str, Expression), ParseError>)
    ensures
        parsed(input@, r, expression(input@, 0)),
{
    let src = Src::new(input);
    finish(input, expression_at(&src, 0))
}

/// An expression whose top-level binary operators all have precedence at least `min_prec`.
pub fn parse_expr_bp(input: &str, min_prec: u8) -> (r: Result<(&str, Expression), ParseError>)
    ensures
        parsed(input@, r, expr_bp(input@, 0, min_prec as nat)),
{
    let src = Src::new(input);
    finish(input, expr_bp_at(&src, 0, min_prec))
}

pub fn parse_primary(input: &str) -> (r: Result<(&str, Expression), ParseError>)
    ensures
        parsed(input@, r, primary(input@, 0)),
{
    let src = Src::new(input);
    finish(input, primary_at(&src, 0))
}

pub fn parse_unary_expression(input: &str) -> (r: Result<(&str, Expression), ParseError>)
    ensures
        parsed(input@, r, unary_expr(input@, 0)),
{
    let src = Src::new(input);
    finish(input, unary_at(&src, 0))
}

pub fn parse_binary_operator(input: &str) -> (r: Result<(&str, BinaryOperator), ParseError>)
    ensures
        parsed(input@, r, binary_operator(input@, 0)),
{
    let src = Src::new(input);
    finish(input, binary_operator_at(&src, 0))
}

pub fn parse_unary_operator(input: &str) -> (r: Result<(&str, UnaryOperator), ParseError>)
    ensures
        parsed(input@, r, unary_operator(input@, 0)),
{
    let src = Src::new(input);
    finish(input, unary_operator_at(&src, 0))
}

pub fn parse_command(input: &str) -> (r: Result<(&str, Command), ParseError>)
    ensures
        parsed(input@, r, command(input@, 0)),
{
    let src = Src::new(input);
    finish(input, command_at(&src, 0))
}

pub fn parse_call_procedure(input: &str) -> (r: Result<(&str, Command), ParseError>)
    ensures
        parsed(input@, r, call_cmd(input@, 0)),
{
    let src = Src::new(input);
    finish(input, call_at(&src, 0))
}

pub fn parse_declaration(input: &str) -> (r: Result<(&str, Declaration), ParseError>)
    ensures
        parsed(input@, r, declaration(input@, 0)),
{
    let src = Src::new(input);
    finish(input, declaration_at(&src, 0))
}

pub fn parse_procedure_parameter(input: &str) -> (r: Result<(&str, ProcedureParameter), ParseError>)
    ensures
        parsed(input@, r, param(input@, 0)),
{
    let src = Src::new(input);
    finish(input, param_at(&src, 0))
}

pub fn parse_procedure_parameters(input: &str) -> (r: Result<(&str, Vec<ProcedureParameter>), ParseError>)
    ensures
        match (r, params1(input@, 0)) {
            (Ok((rest, v)), Ok((q, w))) => 0 <= q <= input@.len() && rest@ == input@.subrange(q, input@.len() as int)
                && params_view(v@) == w,
            (Err(e), Err(f)) => e == f,
            _ => false,
        },
{
    let src = Src::new(input);
    finish(input, params1_at(&src, 0))
}

pub fn parse_procedure_declaration(input: &str) -> (r: Result<(&str, Declaration), ParseError>)
    ensures
        parsed(input@, r, proc_decl(input@, 0)),
{
    let src = Src::new(input);
    finish(input, proc_decl_at(&src, 0))
}

/// Parses a program; the rest of the text is handed back.
pub fn parse_program(input: &str) -> (r: Result<(&str, Program), ParseError>)
    ensures
        parsed(input@, r, command(input@, 0)),
{
    let src = Src::new(input);
    let r = match command_at(&src, 0) {
        Ok((p, c)) => Ok((p, Program::Command(c))),
        Err(e) => Err(e),
    };
    finish(input, r)
}

/// Parses a whole source text into a program; text left after the program is an error.
pub fn parse(input: &str) -> (r: Result<Program, ParseError>)
    ensures
        match (r, program(input@)) {
            (Ok(p), Ok(c)) => p@ == c,
            (Err(e), Err(f)) => e == f,
            _ => false,
        },
{
    let src = Src::new(input);
    match command_at(&src, 0) {
        Ok((p, c)) => if p == src.chars.len() {
            Ok(Program::Command(c))
        } else {
            Err(ParseError { position: p, construct: Construct::EndOfInput })
        },
        Err(e) => Err(e),
    }
}

/// A text parses as a whole program exactly when the command grammar reads it to its
/// last character: the program is then that command and no input remains. When the
/// command ends early, the failure points at the first character left over.
pub proof fn lemma_full_consumption(s: Seq<char>)
    ensures
        match command(s, 0) {
            Ok((j, c)) => (j == s.len() <==> program(s) == Ok::<CmdV, ParseError>(c)) && (j != s.len()
                ==> program(s) == Err::<CmdV, ParseError>(
                ParseError { position: j as usize, construct: Construct::EndOfInput },
            )),
            Err(e) => program(s) == Err::<CmdV, ParseError>(e),
        },
{
}

} // verus!
