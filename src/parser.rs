//! The recursive-descent parser. Every rule is proved to give what the grammar of
//! `grammar.rs` gives from the same position.
use vstd::prelude::*;
use crate::token::{TokenInfo, TokenType};
use crate::ast::{lemma_block_view, errs_view, stmts_view, ErrView, Expr, ParsingError, ParsingErrorType, Stmt, StmtView, Value};
use crate::grammar::{
    at_end, check, desugar_for, err_line, errs_of, expr_err, g_assignment, g_binary,
    g_binary_rest, g_block, g_block_items, g_clause, g_condition, g_declaration, g_expr_stmt,
    g_expression, g_for, g_for_init, g_if, g_parse, lemma_items_unfold, lemma_program_unfold, g_operand, g_primary, g_print, g_program, g_statement,
    g_unary, g_var, g_var_end, g_while, next_pos, oks_of, rem, starts_statement, stmt_err,
    recover, resumes_at, sync_from, tier_op, tokens_ok,
};

verus! {

pub open spec fn expr_res(r: Result<Expr, ParsingError>) -> Result<Expr, ErrView> {
    match r {
        Ok(e) => Ok(e),
        Err(e) => Err(e@),
    }
}

pub open spec fn stmt_res(r: Result<Stmt, Vec<ParsingError>>) -> Result<StmtView, Seq<ErrView>> {
    match r {
        Ok(s) => Ok(s@),
        Err(v) => Err(errs_view(v@)),
    }
}

fn is_at_end(t: &Vec<TokenInfo>, p: usize) -> (r: bool)
    requires
        t@.len() >= 1,
    ensures
        r == at_end(t@, p as int),
{
    p >= t.len() - 1 || t[p].token_type == TokenType::EOF
}

fn check_at(t: &Vec<TokenInfo>, p: usize, k: TokenType) -> (r: bool)
    requires
        t@.len() >= 1,
    ensures
        r == check(t@, p as int, k),
{
    !is_at_end(t, p) && t[p].token_type == k
}

fn line_before(t: &Vec<TokenInfo>, p: usize) -> (r: usize)
    requires
        t@.len() >= 1,
        p < t@.len(),
    ensures
        r == err_line(t@, p as int),
{
    if p > 0 {
        t[p - 1].line
    } else {
        t[0].line
    }
}

fn new_error(
    t: &Vec<TokenInfo>,
    p: usize,
    kind: ParsingErrorType,
    message: &str,
    expression: Option<Expr>,
) -> (r: ParsingError)
    requires
        t@.len() >= 1,
        p < t@.len(),
    ensures
        r@ == (ErrView { kind, message: message@, line: err_line(t@, p as int), expression }),
{
    ParsingError {
        error_type: kind,
        message: String::from_str(message),
        line: line_before(t, p),
        expression,
    }
}

/// A list that holds one error.
fn one_error(e: ParsingError) -> (r: Vec<ParsingError>)
    ensures
        errs_view(r@) == seq![e@],
        r@.len() == 1,
{
    let v = vec![e];
    assert(errs_view(v@) =~= seq![e@]);
    v
}

fn expr_error(t: &Vec<TokenInfo>, p: usize, message: &str) -> (r: ParsingError)
    requires
        t@.len() >= 1,
        p < t@.len(),
    ensures
        r@ == expr_err(t@, p as int, message@),
{
    new_error(t, p, ParsingErrorType::Expr, message, None)
}

fn stmt_error(t: &Vec<TokenInfo>, p: usize, message: &str) -> (r: ParsingError)
    requires
        t@.len() >= 1,
        p < t@.len(),
    ensures
        r@ == stmt_err(t@, p as int, message@),
{
    new_error(t, p, ParsingErrorType::Stmt, message, None)
}

pub fn expression(t: &Vec<TokenInfo>, p: usize) -> (r: (Result<Expr, ParsingError>, usize))
    requires
        tokens_ok(t@),
        p < t@.len(),
    ensures
        (expr_res(r.0), r.1 as int) == g_expression(t@, p as int),
        p <= r.1 < t@.len(),
    decreases rem(t@, p as int), 17int,
{
    assignment(t, p)
}

fn assignment(t: &Vec<TokenInfo>, p: usize) -> (r: (Result<Expr, ParsingError>, usize))
    requires
        tokens_ok(t@),
        p < t@.len(),
    ensures
        (expr_res(r.0), r.1 as int) == g_assignment(t@, p as int),
        p <= r.1 < t@.len(),
    decreases rem(t@, p as int), 16int,
{
    let (r, q) = binary(t, p, 5);
    match r {
        Err(e) => (Err(e), q),
        Ok(expr) => {
            if check_at(t, q, TokenType::Equal) {
                let line = t[q].line;
                let (v, q2) = assignment(t, q + 1);
                match v {
                    Err(e) => (Err(e), q2),
                    Ok(value) => match expr {
                        Expr::Variable(name) => (
                            Ok(Expr::Assign { name, value: Box::new(value) }),
                            q2,
                        ),
                        _ => (
                            Err(
                                ParsingError {
                                    error_type: ParsingErrorType::Expr,
                                    message: String::from_str("Invalid assignment target."),
                                    line,
                                    expression: None,
                                },
                            ),
                            q2,
                        ),
                    },
                }
            } else {
                (Ok(expr), q)
            }
        },
    }
}

fn tier_op_at(t: &Vec<TokenInfo>, p: usize, k: usize) -> (r: bool)
    requires
        t@.len() >= 1,
    ensures
        r == tier_op(t@, p as int, k as int),
{
    if k == 0 {
        check_at(t, p, TokenType::Star) || check_at(t, p, TokenType::Slash)
    } else if k == 1 {
        check_at(t, p, TokenType::Minus) || check_at(t, p, TokenType::Plus)
    } else if k == 2 {
        check_at(t, p, TokenType::Less) || check_at(t, p, TokenType::LessEqual) || check_at(
            t,
            p,
            TokenType::Greater,
        ) || check_at(t, p, TokenType::GreaterEqual)
    } else if k == 3 {
        check_at(t, p, TokenType::BangEqual) || check_at(t, p, TokenType::EqualEqual)
    } else if k == 4 {
        check_at(t, p, TokenType::And)
    } else {
        check_at(t, p, TokenType::Or)
    }
}

fn operand(t: &Vec<TokenInfo>, p: usize, k: usize) -> (r: (Result<Expr, ParsingError>, usize))
    requires
        tokens_ok(t@),
        p < t@.len(),
        k <= 5,
    ensures
        (expr_res(r.0), r.1 as int) == g_operand(t@, p as int, k as int),
        p <= r.1 < t@.len(),
    decreases rem(t@, p as int), if k <= 0 { 4 } else { 2 * k + 4 },
{
    if k == 0 {
        unary(t, p)
    } else {
        binary(t, p, k - 1)
    }
}

/// A left-associative chain of operators of tier `k` (0: `*` `/`, 1: `-` `+`,
/// 2: comparisons, 3: equality, 4: `and`, 5: `or`), built iteratively.
fn binary(t: &Vec<TokenInfo>, p: usize, k: usize) -> (r: (Result<Expr, ParsingError>, usize))
    requires
        tokens_ok(t@),
        p < t@.len(),
        k <= 5,
    ensures
        (expr_res(r.0), r.1 as int) == g_binary(t@, p as int, k as int),
        p <= r.1 < t@.len(),
    decreases rem(t@, p as int), 2 * k + 5,
{
    let (r, q0) = operand(t, p, k);
    let mut expr = match r {
        Err(e) => {
            return (Err(e), q0);
        },
        Ok(e) => e,
    };
    let mut q = q0;
    while tier_op_at(t, q, k)
        invariant
            tokens_ok(t@),
            k <= 5,
            p <= q < t@.len(),
            g_binary_rest(t@, q as int, expr, k as int) == g_binary(t@, p as int, k as int),
        decreases rem(t@, q as int),
    {
        let op = t[q].clone();
        let (r2, q2) = operand(t, q + 1, k);
        match r2 {
            Err(e) => {
                return (Err(e), q2);
            },
            Ok(right) => {
                expr = if k <= 3 {
                    Expr::Binary { left: Box::new(expr), operator: op, right: Box::new(right) }
                } else {
                    Expr::Logical { left: Box::new(expr), operator: op, right: Box::new(right) }
                };
                q = q2;
            },
        }
    }
    (Ok(expr), q)
}

fn unary(t: &Vec<TokenInfo>, p: usize) -> (r: (Result<Expr, ParsingError>, usize))
    requires
        tokens_ok(t@),
        p < t@.len(),
    ensures
        (expr_res(r.0), r.1 as int) == g_unary(t@, p as int),
        p <= r.1 < t@.len(),
    decreases rem(t@, p as int), 2int,
{
    if check_at(t, p, TokenType::Bang) || check_at(t, p, TokenType::Minus) {
        let operator = t[p].clone();
        let (r, q) = unary(t, p + 1);
        match r {
            Err(e) => (Err(e), q),
            Ok(right) => (Ok(Expr::Unary { operator, right: Box::new(right) }), q),
        }
    } else {
        primary(t, p)
    }
}

fn primary(t: &Vec<TokenInfo>, p: usize) -> (r: (Result<Expr, ParsingError>, usize))
    requires
        tokens_ok(t@),
        p < t@.len(),
    ensures
        (expr_res(r.0), r.1 as int) == g_primary(t@, p as int),
        p <= r.1 < t@.len(),
    decreases rem(t@, p as int), 1int,
{
    if check_at(t, p, TokenType::True) {
        (Ok(Expr::Literal(Value::Boolean(true))), p + 1)
    } else if check_at(t, p, TokenType::False) {
        (Ok(Expr::Literal(Value::Boolean(false))), p + 1)
    } else if check_at(t, p, TokenType::Nil) {
        (Ok(Expr::Literal(Value::Nil)), p + 1)
    } else if check_at(t, p, TokenType::String) {
        (Ok(Expr::Literal(Value::String(t[p].lexeme.clone()))), p + 1)
    } else if check_at(t, p, TokenType::Number) {
        let bits = match t[p].number {
            Some(b) => b,
            None => 0,
        };
        (Ok(Expr::Literal(Value::Number(bits))), p + 1)
    } else if check_at(t, p, TokenType::Identifier) {
        (Ok(Expr::Variable(t[p].clone())), p + 1)
    } else if check_at(t, p, TokenType::LeftParen) {
        let (r, q) = expression(t, p + 1);
        match r {
            Err(e) => (Err(e), q),
            Ok(inner) => {
                if check_at(t, q, TokenType::RightParen) {
                    (Ok(Expr::Grouping(Box::new(inner))), q + 1)
                } else {
                    (Err(expr_error(t, q, "Expect ')' after expression.")), q)
                }
            },
        }
    } else {
        (Err(expr_error(t, p, "Expect expression.")), p)
    }
}

fn print_statement(t: &Vec<TokenInfo>, p: usize) -> (r: (Result<Stmt, Vec<ParsingError>>, usize))
    requires
        tokens_ok(t@),
        p < t@.len(),
    ensures
        r.0 is Err ==> r.0->Err_0@.len() > 0,
        (stmt_res(r.0), r.1 as int) == g_print(t@, p as int),
        p <= r.1 < t@.len(),
    decreases rem(t@, p as int), 20int,
{
    let (r, q) = expression(t, p);
    match r {
        Err(e) => (Err(one_error(e)), q),
        Ok(expr) => {
            if check_at(t, q, TokenType::Semicolon) {
                (Ok(Stmt::Print(expr)), q + 1)
            } else {
                (Err(one_error(stmt_error(t, q, "Expect ';' after value."))), q)
            }
        },
    }
}

fn expression_statement(t: &Vec<TokenInfo>, p: usize) -> (r: (
    Result<Stmt, Vec<ParsingError>>,
    usize,
))
    requires
        tokens_ok(t@),
        p < t@.len(),
    ensures
        r.0 is Err ==> r.0->Err_0@.len() > 0,
        (stmt_res(r.0), r.1 as int) == g_expr_stmt(t@, p as int),
        p <= r.1 < t@.len(),
    decreases rem(t@, p as int), 20int,
{
    let (r, q) = expression(t, p);
    match r {
        Err(e) => (Err(one_error(e)), q),
        Ok(expr) => {
            if check_at(t, q, TokenType::Semicolon) {
                (Ok(Stmt::Expression(expr)), q + 1)
            } else {
                let e = new_error(
                    t,
                    q,
                    ParsingErrorType::Stmt,
                    "Expect ';' after expression.",
                    Some(expr),
                );
                (Err(one_error(e)), q)
            }
        },
    }
}

fn var_end(t: &Vec<TokenInfo>, q: usize, name: TokenInfo, initializer: Option<Expr>) -> (r: (
    Result<Stmt, Vec<ParsingError>>,
    usize,
))
    requires
        tokens_ok(t@),
        q < t@.len(),
    ensures
        r.0 is Err ==> r.0->Err_0@.len() > 0,
        (stmt_res(r.0), r.1 as int) == g_var_end(t@, q as int, name, initializer),
        q <= r.1 < t@.len(),
{
    if check_at(t, q, TokenType::Semicolon) {
        (Ok(Stmt::Var { name, initializer }), q + 1)
    } else {
        (Err(one_error(stmt_error(t, q, "Expect ';' after variable declaration."))), q)
    }
}

fn var_declaration(t: &Vec<TokenInfo>, p: usize) -> (r: (Result<Stmt, Vec<ParsingError>>, usize))
    requires
        tokens_ok(t@),
        p < t@.len(),
    ensures
        r.0 is Err ==> r.0->Err_0@.len() > 0,
        (stmt_res(r.0), r.1 as int) == g_var(t@, p as int),
        p <= r.1 < t@.len(),
    decreases rem(t@, p as int), 20int,
{
    if !check_at(t, p, TokenType::Identifier) {
        return (Err(one_error(stmt_error(t, p, "Expect variable name."))), p);
    }
    let name = t[p].clone();
    if check_at(t, p + 1, TokenType::Equal) {
        let (r, q) = expression(t, p + 2);
        match r {
            Err(e) => (Err(one_error(e)), q),
            Ok(init) => var_end(t, q, name, Some(init)),
        }
    } else {
        var_end(t, p + 1, name, None)
    }
}

fn declaration(t: &Vec<TokenInfo>, p: usize) -> (r: (Result<Stmt, Vec<ParsingError>>, usize))
    requires
        tokens_ok(t@),
        p < t@.len(),
    ensures
        r.0 is Err ==> r.0->Err_0@.len() > 0,
        (stmt_res(r.0), r.1 as int) == g_declaration(t@, p as int),
        p <= r.1 < t@.len(),
        r.0 is Ok && !at_end(t@, p as int) ==> p < r.1,
    decreases rem(t@, p as int), 42int,
{
    if check_at(t, p, TokenType::Var) {
        var_declaration(t, p + 1)
    } else {
        statement(t, p)
    }
}

fn statement(t: &Vec<TokenInfo>, p: usize) -> (r: (Result<Stmt, Vec<ParsingError>>, usize))
    requires
        tokens_ok(t@),
        p < t@.len(),
    ensures
        r.0 is Err ==> r.0->Err_0@.len() > 0,
        (stmt_res(r.0), r.1 as int) == g_statement(t@, p as int),
        p <= r.1 < t@.len(),
        r.0 is Ok ==> p < r.1,
    decreases rem(t@, p as int), 41int,
{
    if check_at(t, p, TokenType::For) {
        for_statement(t, p + 1)
    } else if check_at(t, p, TokenType::While) {
        while_statement(t, p + 1)
    } else if check_at(t, p, TokenType::Print) {
        print_statement(t, p + 1)
    } else if check_at(t, p, TokenType::LeftBrace) {
        block_statement(t, p + 1)
    } else if check_at(t, p, TokenType::If) {
        if_statement(t, p + 1)
    } else {
        expression_statement(t, p)
    }
}

/// Where parsing resumes after a declaration that started at `p` failed at `q`:
/// the first position from `q` (or from `p + 1`, if nothing was consumed) that is
/// at the end, follows a `;`, starts a statement, or is a `}` inside a block.
fn synchronize_at(t: &Vec<TokenInfo>, p: usize, q: usize, in_block: bool) -> (r: usize)
    requires
        tokens_ok(t@),
        p <= q < t@.len(),
    ensures
        r == recover(t@, p as int, q as int, in_block),
        p <= r < t@.len(),
        !at_end(t@, p as int) ==> p < r,
{
    let mut k = q;
    if q == p {
        if is_at_end(t, p) {
            return p;
        }
        k = p + 1;
    }
    while !resumes_here(t, k, in_block)
        invariant
            tokens_ok(t@),
            p < k < t@.len(),
            sync_from(t@, k as int, in_block) == recover(t@, p as int, q as int, in_block),
        decreases rem(t@, k as int),
    {
        k = k + 1;
    }
    k
}

fn resumes_here(t: &Vec<TokenInfo>, q: usize, in_block: bool) -> (r: bool)
    requires
        tokens_ok(t@),
        q < t@.len(),
    ensures
        r == resumes_at(t@, q as int, in_block),
{
    is_at_end(t, q) || q < 1 || t[q - 1].token_type == TokenType::Semicolon || starts_stmt(
        t[q].token_type,
    ) || (in_block && t[q].token_type == TokenType::RightBrace)
}

fn starts_stmt(k: TokenType) -> (r: bool)
    ensures
        r == starts_statement(k),
{
    match k {
        TokenType::Class | TokenType::Fun | TokenType::Var | TokenType::For | TokenType::If
        | TokenType::While | TokenType::Print | TokenType::Return => true,
        _ => false,
    }
}

/// Declarations up to a `}` or the end, recovering after each failed one.
#[verifier::rlimit(40)]
fn block_items(t: &Vec<TokenInfo>, p: usize) -> (r: (Vec<Stmt>, Vec<ParsingError>, usize))
    requires
        tokens_ok(t@),
        p < t@.len(),
    ensures
        (stmts_view(r.0@), errs_view(r.1@), r.2 as int) == g_block_items(t@, p as int),
        p <= r.2 < t@.len(),
    decreases rem(t@, p as int), 45int,
{
    let mut stmts: Vec<Stmt> = Vec::new();
    let mut errors: Vec<ParsingError> = Vec::new();
    let mut q = p;
    while !check_at(t, q, TokenType::RightBrace) && !is_at_end(t, q)
        invariant
            tokens_ok(t@),
            p <= q < t@.len(),
            stmts_view(stmts@) + g_block_items(t@, q as int).0 == g_block_items(t@, p as int).0,
            errs_view(errors@) + g_block_items(t@, q as int).1 == g_block_items(t@, p as int).1,
            g_block_items(t@, q as int).2 == g_block_items(t@, p as int).2,
        decreases rem(t@, q as int),
    {
        let ghost before_s = stmts@;
        let ghost before_e = errors@;
        let ghost q_in = q;
        let (r, q1) = declaration(t, q);
        let ghost gr = stmt_res(r);
        match r {
            Ok(s) => {
                stmts.push(s);
                q = q1;
            },
            Err(mut e) => {
                errors.append(&mut e);
                q = synchronize_at(t, q, q1, true);
            },
        }
        proof {
            let q2 = if gr is Err {
                recover(t@, q_in as int, q1 as int, true)
            } else {
                q1 as int
            };
            assert(q2 == q);
            assert(next_pos(t@, q_in as int, q2) == q);
            lemma_items_unfold(t@, q_in as int);
            let rest = g_block_items(t@, q as int);
            assert(stmts_view(stmts@) =~= stmts_view(before_s) + oks_of(gr));
            assert(errs_view(errors@) =~= errs_view(before_e) + errs_of(gr));
            assert(stmts_view(stmts@) + rest.0 =~= stmts_view(before_s) + (oks_of(gr) + rest.0));
            assert(errs_view(errors@) + rest.1 =~= errs_view(before_e) + (errs_of(gr) + rest.1));
        }
    }
    assert(stmts_view(stmts@) + Seq::empty() =~= stmts_view(stmts@));
    assert(errs_view(errors@) + Seq::empty() =~= errs_view(errors@));
    (stmts, errors, q)
}

fn block_statement(t: &Vec<TokenInfo>, p: usize) -> (r: (Result<Stmt, Vec<ParsingError>>, usize))
    requires
        tokens_ok(t@),
        p < t@.len(),
    ensures
        r.0 is Err ==> r.0->Err_0@.len() > 0,
        (stmt_res(r.0), r.1 as int) == g_block(t@, p as int),
        p <= r.1 < t@.len(),
        r.0 is Ok ==> p < r.1,
    decreases rem(t@, p as int), 46int,
{
    let (stmts, mut errors, q) = block_items(t, p);
    if check_at(t, q, TokenType::RightBrace) {
        if errors.len() == 0 {
            proof {
                lemma_block_view(stmts);
            }
            (Ok(Stmt::Block(stmts)), q + 1)
        } else {
            (Err(errors), q + 1)
        }
    } else {
        let ghost before = errors@;
        errors.push(stmt_error(t, q, "Expect '}' after block."));
        assert(errs_view(errors@) =~= errs_view(before).push(errors@.last()@));
        (Err(errors), q)
    }
}

fn condition(t: &Vec<TokenInfo>, p: usize, close_msg: &str) -> (r: (
    Option<Expr>,
    Vec<ParsingError>,
    usize,
))
    requires
        tokens_ok(t@),
        p < t@.len(),
    ensures
        (r.0, errs_view(r.1@), r.2 as int) == g_condition(t@, p as int, close_msg@),
        p <= r.2 < t@.len(),
    decreases rem(t@, p as int), 25int,
{
    let (c, q) = expression(t, p);
    let mut errors: Vec<ParsingError> = Vec::new();
    let mut cond: Option<Expr> = None;
    match c {
        Err(e) => {
            errors.push(e);
        },
        Ok(expr) => {
            cond = Some(expr);
        },
    }
    assert(errs_view(errors@) =~= (if expr_res(c) is Err {
        seq![expr_res(c)->Err_0]
    } else {
        Seq::<ErrView>::empty()
    }));
    if check_at(t, q, TokenType::RightParen) {
        (cond, errors, q + 1)
    } else {
        let ghost before = errors@;
        errors.push(stmt_error(t, q, close_msg));
        assert(errs_view(errors@) =~= errs_view(before).push(errors@.last()@));
        (cond, errors, q)
    }
}

#[verifier::rlimit(40)]
fn if_statement(t: &Vec<TokenInfo>, p: usize) -> (r: (Result<Stmt, Vec<ParsingError>>, usize))
    requires
        tokens_ok(t@),
        p < t@.len(),
    ensures
        r.0 is Err ==> r.0->Err_0@.len() > 0,
        (stmt_res(r.0), r.1 as int) == g_if(t@, p as int),
        p <= r.1 < t@.len(),
        r.0 is Ok ==> p < r.1,
    decreases rem(t@, p as int), 30int,
{
    if !check_at(t, p, TokenType::LeftParen) {
        return (Err(one_error(stmt_error(t, p, "Expect '(' after 'if'."))), p);
    }
    let (cond, mut errors, q2) = condition(t, p + 1, "Expect ')' after if condition.");
    let (th, q3) = statement(t, q2);
    let ghost e2 = errors@;
    let ghost gth = stmt_res(th);
    let mut then_branch: Option<Stmt> = None;
    match th {
        Err(mut e) => {
            errors.append(&mut e);
        },
        Ok(s) => {
            then_branch = Some(s);
        },
    }
    assert(errs_view(errors@) =~= errs_view(e2) + errs_of(gth));
    let mut q = q3;
    let mut else_branch: Option<Box<Stmt>> = None;
    if check_at(t, q3, TokenType::Else) {
        let (el, q4) = statement(t, q3 + 1);
        let ghost e3 = errors@;
        let ghost gel = stmt_res(el);
        match el {
            Err(mut e) => {
                errors.append(&mut e);
            },
            Ok(s) => {
                else_branch = Some(Box::new(s));
            },
        }
        assert(errs_view(errors@) =~= errs_view(e3) + errs_of(gel));
        q = q4;
    }
    if errors.len() == 0 {
        assert(errs_view(errors@).len() == 0);
        assert(errs_view(e2).len() == 0);
        assert(cond is Some);
        assert(then_branch is Some);
        match (cond, then_branch) {
            (Some(c), Some(th)) => (
                Ok(Stmt::If { condition: c, then_branch: Box::new(th), else_branch }),
                q,
            ),
            _ => (Err(errors), q),
        }
    } else {
        (Err(errors), q)
    }
}

#[verifier::rlimit(40)]
fn while_statement(t: &Vec<TokenInfo>, p: usize) -> (r: (Result<Stmt, Vec<ParsingError>>, usize))
    requires
        tokens_ok(t@),
        p < t@.len(),
    ensures
        r.0 is Err ==> r.0->Err_0@.len() > 0,
        (stmt_res(r.0), r.1 as int) == g_while(t@, p as int),
        p <= r.1 < t@.len(),
        r.0 is Ok ==> p < r.1,
    decreases rem(t@, p as int), 30int,
{
    if !check_at(t, p, TokenType::LeftParen) {
        return (Err(one_error(stmt_error(t, p, "Expect '(' after 'while'."))), p);
    }
    let (cond, mut errors, q2) = condition(t, p + 1, "Expect ')' after condition.");
    let (b, q3) = statement(t, q2);
    let ghost e2 = errors@;
    let ghost gb = stmt_res(b);
    let mut body: Option<Stmt> = None;
    match b {
        Err(mut e) => {
            errors.append(&mut e);
        },
        Ok(s) => {
            body = Some(s);
        },
    }
    assert(errs_view(errors@) =~= errs_view(e2) + errs_of(gb));
    if errors.len() == 0 {
        assert(errs_view(errors@).len() == 0);
        assert(errs_view(e2).len() == 0);
        assert(cond is Some);
        assert(body is Some);
        match (cond, body) {
            (Some(c), Some(b)) => (Ok(Stmt::While { condition: c, body: Box::new(b) }), q3),
            _ => (Err(errors), q3),
        }
    } else {
        (Err(errors), q3)
    }
}

pub open spec fn opt_view(o: Option<Stmt>) -> Option<StmtView> {
    match o {
        Some(s) => Some(s@),
        None => None,
    }
}

fn for_initializer(t: &Vec<TokenInfo>, p: usize) -> (r: (
    Result<Option<Stmt>, Vec<ParsingError>>,
    usize,
))
    requires
        tokens_ok(t@),
        p < t@.len(),
    ensures
        r.0 is Err ==> r.0->Err_0@.len() > 0,
        (match r.0 {
            Ok(o) => Ok(opt_view(o)),
            Err(v) => Err(errs_view(v@)),
        }, r.1 as int) == g_for_init(t@, p as int),
        p <= r.1 < t@.len(),
    decreases rem(t@, p as int), 25int,
{
    if check_at(t, p, TokenType::Var) {
        let (r, q) = var_declaration(t, p + 1);
        match r {
            Err(e) => (Err(e), q),
            Ok(s) => (Ok(Some(s)), q),
        }
    } else if check_at(t, p, TokenType::Semicolon) {
        (Ok(None), p + 1)
    } else {
        let (r, q) = expression_statement(t, p);
        match r {
            Err(e) => (Err(e), q),
            Ok(s) => (Ok(Some(s)), q),
        }
    }
}

fn clause(t: &Vec<TokenInfo>, p: usize, stop: TokenType) -> (r: (
    Option<Expr>,
    Vec<ParsingError>,
    usize,
))
    requires
        tokens_ok(t@),
        p < t@.len(),
    ensures
        (r.0, errs_view(r.1@), r.2 as int) == g_clause(t@, p as int, stop),
        p <= r.2 < t@.len(),
    decreases rem(t@, p as int), 25int,
{
    if check_at(t, p, stop) {
        let v: Vec<ParsingError> = Vec::new();
        assert(errs_view(v@) =~= Seq::empty());
        return (None, v, p);
    }
    let (r, q) = expression(t, p);
    match r {
        Err(e) => {
            let v = one_error(e);
            assert(errs_view(v@) =~= seq![v@[0]@]);
            (None, v, q)
        },
        Ok(expr) => {
            let v: Vec<ParsingError> = Vec::new();
            assert(errs_view(v@) =~= Seq::empty());
            (Some(expr), v, q)
        },
    }
}

fn for_statement(t: &Vec<TokenInfo>, p: usize) -> (r: (Result<Stmt, Vec<ParsingError>>, usize))
    requires
        tokens_ok(t@),
        p < t@.len(),
    ensures
        r.0 is Err ==> r.0->Err_0@.len() > 0,
        (stmt_res(r.0), r.1 as int) == g_for(t@, p as int),
        p <= r.1 < t@.len(),
        r.0 is Ok ==> p < r.1,
    decreases rem(t@, p as int), 30int,
{
    if !check_at(t, p, TokenType::LeftParen) {
        return (Err(one_error(stmt_error(t, p, "Expect '(' after 'for'."))), p);
    }
    let (init, a) = for_initializer(t, p + 1);
    let initializer = match init {
        Err(e) => {
            return (Err(e), a);
        },
        Ok(i) => i,
    };
    let (cond, mut errors, b) = clause(t, a, TokenType::Semicolon);
    if !check_at(t, b, TokenType::Semicolon) {
        let ghost before = errors@;
        errors.push(stmt_error(t, b, "Expect ';' after loop condition."));
        assert(errs_view(errors@) =~= errs_view(before).push(errors@.last()@));
        return (Err(errors), b);
    }
    let (increment, mut e2, d) = clause(t, b + 1, TokenType::RightParen);
    let ghost e1v = errors@;
    let ghost e2v = e2@;
    errors.append(&mut e2);
    assert(errs_view(errors@) =~= errs_view(e1v) + errs_view(e2v));
    let mut e = d;
    if check_at(t, d, TokenType::RightParen) {
        e = d + 1;
    } else {
        let ghost before = errors@;
        errors.push(stmt_error(t, d, "Expect ')' after for clauses."));
        assert(errs_view(errors@) =~= errs_view(before).push(errors@.last()@));
    }
    let (body, f) = statement(t, e);
    match body {
        Err(mut be) => {
            let ghost e4 = errors@;
            let ghost bev = be@;
            errors.append(&mut be);
            assert(errs_view(errors@) =~= errs_view(e4) + errs_view(bev));
            (Err(errors), f)
        },
        Ok(body) => {
            if errors.len() == 0 {
                (Ok(for_loop(initializer, cond, increment, body)), f)
            } else {
                (Err(errors), f)
            }
        },
    }
}

/// Builds the loop that a `for` statement stands for:
/// `{ init; while (cond or true) { body; incr; } }`, leaving out absent parts.
fn for_loop(init: Option<Stmt>, cond: Option<Expr>, incr: Option<Expr>, body: Stmt) -> (r: Stmt)
    ensures
        r@ == desugar_for(opt_view(init), cond, incr, body@),
{
    let inner = match incr {
        Some(i) => {
            let v = vec![body, Stmt::Expression(i)];
            proof {
                lemma_block_view(v);
                assert(stmts_view(v@) =~= seq![v@[0]@, v@[1]@]);
            }
            Stmt::Block(v)
        },
        None => body,
    };
    let condition = match cond {
        Some(c) => c,
        None => Expr::Literal(Value::Boolean(true)),
    };
    let lp = Stmt::While { condition, body: Box::new(inner) };
    match init {
        Some(i) => {
            let v = vec![i, lp];
            proof {
                lemma_block_view(v);
                assert(stmts_view(v@) =~= seq![v@[0]@, v@[1]@]);
            }
            Stmt::Block(v)
        },
        None => lp,
    }
}

/// The declarations of a whole program from `p` on, recovering after each failed one.
#[verifier::rlimit(40)]
fn program(t: &Vec<TokenInfo>, p: usize) -> (r: (Vec<Stmt>, Vec<ParsingError>))
    requires
        tokens_ok(t@),
        p < t@.len(),
    ensures
        (stmts_view(r.0@), errs_view(r.1@)) == g_program(t@, p as int),
{
    let mut stmts: Vec<Stmt> = Vec::new();
    let mut errors: Vec<ParsingError> = Vec::new();
    let mut q = p;
    while !is_at_end(t, q)
        invariant
            tokens_ok(t@),
            p <= q < t@.len(),
            stmts_view(stmts@) + g_program(t@, q as int).0 == g_program(t@, p as int).0,
            errs_view(errors@) + g_program(t@, q as int).1 == g_program(t@, p as int).1,
        decreases rem(t@, q as int),
    {
        let ghost before_s = stmts@;
        let ghost before_e = errors@;
        let ghost q_in = q;
        let (r, q1) = declaration(t, q);
        let ghost gr = stmt_res(r);
        match r {
            Ok(s) => {
                stmts.push(s);
                q = q1;
            },
            Err(mut e) => {
                errors.append(&mut e);
                q = synchronize_at(t, q, q1, false);
            },
        }
        proof {
            let q2 = if gr is Err {
                recover(t@, q_in as int, q1 as int, false)
            } else {
                q1 as int
            };
            assert(next_pos(t@, q_in as int, q2) == q);
            lemma_program_unfold(t@, q_in as int);
            let rest = g_program(t@, q as int);
            assert(stmts_view(stmts@) =~= stmts_view(before_s) + oks_of(gr));
            assert(errs_view(errors@) =~= errs_view(before_e) + errs_of(gr));
            assert(stmts_view(stmts@) + rest.0 =~= stmts_view(before_s) + (oks_of(gr) + rest.0));
            assert(errs_view(errors@) + rest.1 =~= errs_view(before_e) + (errs_of(gr) + rest.1));
        }
    }
    assert(stmts_view(stmts@) + Seq::empty() =~= stmts_view(stmts@));
    assert(errs_view(errors@) + Seq::empty() =~= errs_view(errors@));
    (stmts, errors)
}

/// Parses a token sequence, statement by statement, collecting every error.
pub struct Parser {
    tokens: Vec<TokenInfo>,
    current: usize,
}

impl Parser {
    /// The tokens being parsed.
    pub closed spec fn tokens_view(&self) -> Seq<TokenInfo> {
        self.tokens@
    }

    /// The position of the next token to read.
    pub closed spec fn position(&self) -> int {
        self.current as int
    }

    pub fn new(tokens: Vec<TokenInfo>) -> (r: Parser)
        ensures
            r.tokens_view() == tokens@,
            r.position() == 0,
    {
        Parser { tokens, current: 0 }
    }

    /// Parses every declaration up to the end of input. The result is `Ok` exactly
    /// when no declaration failed; else it holds all errors in order.
    pub fn parse(&mut self) -> (r: Result<Vec<Stmt>, Vec<ParsingError>>)
        requires
            tokens_ok(old(self).tokens_view()),
            old(self).position() < old(self).tokens_view().len(),
        ensures
            final(self).tokens_view() == old(self).tokens_view(),
            match g_parse(old(self).tokens_view(), old(self).position()) {
                Ok(ss) => r is Ok && stmts_view(r->Ok_0@) == ss,
                Err(es) => r is Err && errs_view(r->Err_0@) == es,
            },
    {
        let (stmts, errors) = program(&self.tokens, self.current);
        self.current = self.tokens.len() - 1;
        if errors.len() == 0 {
            Ok(stmts)
        } else {
            Err(errors)
        }
    }

    /// Parses one expression at the current position.
    pub fn expression(&mut self) -> (r: Result<Expr, ParsingError>)
        requires
            tokens_ok(old(self).tokens_view()),
            old(self).position() < old(self).tokens_view().len(),
        ensures
            final(self).tokens_view() == old(self).tokens_view(),
            (expr_res(r), final(self).position()) == g_expression(
                old(self).tokens_view(),
                old(self).position(),
            ),
    {
        let (r, q) = expression(&self.tokens, self.current);
        self.current = q;
        r
    }
}

} // verus!
