//! The grammar with its error recovery, as spec functions over a token sequence.
//! Each rule takes the position where it starts and gives its result together with
//! the position where it stopped, also when it failed.
use vstd::prelude::*;
use crate::token::{TokenInfo, TokenType};
use crate::ast::{ErrView, Expr, ParsingErrorType, StmtView, Value};

verus! {

/// A token sequence that the parser accepts: it ends with the end-of-input token, and
/// every numeric literal carries its value.
pub open spec fn tokens_ok(t: Seq<TokenInfo>) -> bool {
    &&& t.len() >= 1
    &&& t.last().token_type == TokenType::EOF
    &&& t.len() < usize::MAX
    &&& forall|i: int|
        0 <= i < t.len() && #[trigger] t[i].token_type == TokenType::Number ==> t[i].number is Some
}

/// How many tokens lie at or after `p`.
pub open spec fn rem(t: Seq<TokenInfo>, p: int) -> int {
    if 0 <= p < t.len() {
        t.len() - p
    } else {
        0
    }
}

pub open spec fn at_end(t: Seq<TokenInfo>, p: int) -> bool {
    p < 0 || p >= t.len() - 1 || t[p].token_type == TokenType::EOF
}

pub open spec fn check(t: Seq<TokenInfo>, p: int, k: TokenType) -> bool {
    !at_end(t, p) && t[p].token_type == k
}

/// `q` when it lies in `p .. t.len()`, else `p`; rules never move backwards, so this
/// is `q` wherever it is used.
pub open spec fn fwd(t: Seq<TokenInfo>, p: int, q: int) -> int {
    if 0 <= p <= q < t.len() {
        q
    } else {
        p
    }
}

/// The line that an error at position `p` reports: that of the last consumed token.
pub open spec fn err_line(t: Seq<TokenInfo>, p: int) -> int {
    if 0 < p <= t.len() {
        t[p - 1].line as int
    } else if t.len() > 0 {
        t[0].line as int
    } else {
        0
    }
}

pub open spec fn expr_err(t: Seq<TokenInfo>, p: int, msg: Seq<char>) -> ErrView {
    ErrView { kind: ParsingErrorType::Expr, message: msg, line: err_line(t, p), expression: None }
}

pub open spec fn stmt_err(t: Seq<TokenInfo>, p: int, msg: Seq<char>) -> ErrView {
    ErrView { kind: ParsingErrorType::Stmt, message: msg, line: err_line(t, p), expression: None }
}

/// The binary tiers from tightest to loosest: factor, term, comparison, equality,
/// `and`, `or`. Whether the token at `p` is an operator of tier `k`.
pub open spec fn tier_op(t: Seq<TokenInfo>, p: int, k: int) -> bool {
    if k == 0 {
        check(t, p, TokenType::Star) || check(t, p, TokenType::Slash)
    } else if k == 1 {
        check(t, p, TokenType::Minus) || check(t, p, TokenType::Plus)
    } else if k == 2 {
        check(t, p, TokenType::Less) || check(t, p, TokenType::LessEqual) || check(
            t,
            p,
            TokenType::Greater,
        ) || check(t, p, TokenType::GreaterEqual)
    } else if k == 3 {
        check(t, p, TokenType::BangEqual) || check(t, p, TokenType::EqualEqual)
    } else if k == 4 {
        check(t, p, TokenType::And)
    } else {
        check(t, p, TokenType::Or)
    }
}

/// The node that joins two operands at tier `k`.
pub open spec fn tier_node(k: int, left: Expr, op: TokenInfo, right: Expr) -> Expr {
    if k <= 3 {
        Expr::Binary { left: Box::new(left), operator: op, right: Box::new(right) }
    } else {
        Expr::Logical { left: Box::new(left), operator: op, right: Box::new(right) }
    }
}

pub open spec fn g_expression(t: Seq<TokenInfo>, p: int) -> (Result<Expr, ErrView>, int)
    decreases rem(t, p), 17int,
{
    g_assignment(t, p)
}

pub open spec fn g_assignment(t: Seq<TokenInfo>, p: int) -> (Result<Expr, ErrView>, int)
    decreases rem(t, p), 16int,
{
    let (r, q0) = g_binary(t, p, 5);
    let q = fwd(t, p, q0);
    if r is Err {
        (r, q)
    } else if check(t, q, TokenType::Equal) {
        let (v, q2) = g_assignment(t, q + 1);
        if v is Err {
            (v, q2)
        } else {
            match r->Ok_0 {
                Expr::Variable(name) => (
                    Ok(Expr::Assign { name, value: Box::new(v->Ok_0) }),
                    q2,
                ),
                _ => (
                    Err(
                        ErrView {
                            kind: ParsingErrorType::Expr,
                            message: "Invalid assignment target."@,
                            line: t[q].line as int,
                            expression: None,
                        },
                    ),
                    q2,
                ),
            }
        }
    } else {
        (r, q)
    }
}

/// An operand of tier `k`: a unary expression at tier 0, else the tier below.
pub open spec fn g_operand(t: Seq<TokenInfo>, p: int, k: int) -> (Result<Expr, ErrView>, int)
    decreases rem(t, p), if k <= 0 { 4 } else { 2 * k + 4 },
{
    if k <= 0 {
        g_unary(t, p)
    } else {
        g_binary(t, p, k - 1)
    }
}

/// A left-associative chain of tier `k`.
pub open spec fn g_binary(t: Seq<TokenInfo>, p: int, k: int) -> (Result<Expr, ErrView>, int)
    decreases rem(t, p), 2 * k + 5,
{
    if k < 0 || k > 5 {
        (Err(expr_err(t, p, Seq::empty())), p)
    } else {
        let (r, q0) = g_operand(t, p, k);
        let q = fwd(t, p, q0);
        if r is Err {
            (r, q)
        } else {
            g_binary_rest(t, q, r->Ok_0, k)
        }
    }
}

/// The rest of a chain of tier `k` whose operands so far make `left`.
pub open spec fn g_binary_rest(t: Seq<TokenInfo>, p: int, left: Expr, k: int) -> (
    Result<Expr, ErrView>,
    int,
)
    decreases rem(t, p), 2 * k + 4,
{
    if k < 0 || k > 5 || !tier_op(t, p, k) {
        (Ok(left), p)
    } else {
        let (r, q0) = g_operand(t, p + 1, k);
        let q = fwd(t, p + 1, q0);
        if r is Err {
            (r, q)
        } else {
            g_binary_rest(t, q, tier_node(k, left, t[p], r->Ok_0), k)
        }
    }
}

pub open spec fn g_unary(t: Seq<TokenInfo>, p: int) -> (Result<Expr, ErrView>, int)
    decreases rem(t, p), 2int,
{
    if check(t, p, TokenType::Bang) || check(t, p, TokenType::Minus) {
        let (r, q) = g_unary(t, p + 1);
        if r is Err {
            (r, q)
        } else {
            (Ok(Expr::Unary { operator: t[p], right: Box::new(r->Ok_0) }), q)
        }
    } else {
        g_primary(t, p)
    }
}

pub open spec fn g_primary(t: Seq<TokenInfo>, p: int) -> (Result<Expr, ErrView>, int)
    decreases rem(t, p), 1int,
{
    if check(t, p, TokenType::True) {
        (Ok(Expr::Literal(Value::Boolean(true))), p + 1)
    } else if check(t, p, TokenType::False) {
        (Ok(Expr::Literal(Value::Boolean(false))), p + 1)
    } else if check(t, p, TokenType::Nil) {
        (Ok(Expr::Literal(Value::Nil)), p + 1)
    } else if check(t, p, TokenType::String) {
        (Ok(Expr::Literal(Value::String(t[p].lexeme))), p + 1)
    } else if check(t, p, TokenType::Number) {
        (Ok(Expr::Literal(Value::Number(t[p].number->Some_0))), p + 1)
    } else if check(t, p, TokenType::Identifier) {
        (Ok(Expr::Variable(t[p])), p + 1)
    } else if check(t, p, TokenType::LeftParen) {
        let (r, q0) = g_expression(t, p + 1);
        let q = fwd(t, p + 1, q0);
        if r is Err {
            (r, q)
        } else if check(t, q, TokenType::RightParen) {
            (Ok(Expr::Grouping(Box::new(r->Ok_0))), q + 1)
        } else {
            (Err(expr_err(t, q, "Expect ')' after expression."@)), q)
        }
    } else {
        (Err(expr_err(t, p, "Expect expression."@)), p)
    }
}

/// A keyword that starts a statement.
pub open spec fn starts_statement(k: TokenType) -> bool {
    k == TokenType::Class || k == TokenType::Fun || k == TokenType::Var || k == TokenType::For
        || k == TokenType::If || k == TokenType::While || k == TokenType::Print || k
        == TokenType::Return
}

/// Whether recovery stops at `q`: at the end, just after a `;`, at a keyword that
/// starts a statement, or, inside a block, at a `}`.
pub open spec fn resumes_at(t: Seq<TokenInfo>, q: int, in_block: bool) -> bool {
    ||| at_end(t, q)
    ||| q < 1
    ||| t[q - 1].token_type == TokenType::Semicolon
    ||| starts_statement(t[q].token_type)
    ||| in_block && t[q].token_type == TokenType::RightBrace
}

/// The first position from `q` on where recovery stops.
pub open spec fn sync_from(t: Seq<TokenInfo>, q: int, in_block: bool) -> int
    decreases rem(t, q),
{
    if resumes_at(t, q, in_block) {
        q
    } else {
        sync_from(t, q + 1, in_block)
    }
}

/// Where parsing resumes after a declaration that started at `p` failed at `q`:
/// from `q` on if it consumed tokens, else from the token after `p`; in both cases
/// at the first position where recovery stops.
pub open spec fn recover(t: Seq<TokenInfo>, p: int, q: int, in_block: bool) -> int {
    if q > p {
        sync_from(t, q, in_block)
    } else if at_end(t, p) {
        p
    } else {
        sync_from(t, p + 1, in_block)
    }
}

/// `q` when it lies past `p`, else the position after `p`; a declaration always
/// moves forward, so this is `q` wherever it is used.
pub open spec fn next_pos(t: Seq<TokenInfo>, p: int, q: int) -> int {
    if 0 <= p < q < t.len() {
        q
    } else {
        p + 1
    }
}

pub open spec fn errs_of(r: Result<StmtView, Seq<ErrView>>) -> Seq<ErrView> {
    if r is Err {
        r->Err_0
    } else {
        Seq::empty()
    }
}

pub open spec fn oks_of(r: Result<StmtView, Seq<ErrView>>) -> Seq<StmtView> {
    if r is Ok {
        seq![r->Ok_0]
    } else {
        Seq::empty()
    }
}

pub open spec fn g_print(t: Seq<TokenInfo>, p: int) -> (Result<StmtView, Seq<ErrView>>, int)
    decreases rem(t, p), 20int,
{
    let (r, q0) = g_expression(t, p);
    let q = fwd(t, p, q0);
    if r is Err {
        (Err(seq![r->Err_0]), q)
    } else if check(t, q, TokenType::Semicolon) {
        (Ok(StmtView::Print(r->Ok_0)), q + 1)
    } else {
        (Err(seq![stmt_err(t, q, "Expect ';' after value."@)]), q)
    }
}

pub open spec fn g_expr_stmt(t: Seq<TokenInfo>, p: int) -> (Result<StmtView, Seq<ErrView>>, int)
    decreases rem(t, p), 20int,
{
    let (r, q0) = g_expression(t, p);
    let q = fwd(t, p, q0);
    if r is Err {
        (Err(seq![r->Err_0]), q)
    } else if check(t, q, TokenType::Semicolon) {
        (Ok(StmtView::Expression(r->Ok_0)), q + 1)
    } else {
        (
            Err(
                seq![
                    ErrView {
                        kind: ParsingErrorType::Stmt,
                        message: "Expect ';' after expression."@,
                        line: err_line(t, q),
                        expression: Some(r->Ok_0),
                    },
                ],
            ),
            q,
        )
    }
}

/// The end of a `var` declaration, at the `;` that must close it.
pub open spec fn g_var_end(t: Seq<TokenInfo>, q: int, name: TokenInfo, init: Option<Expr>) -> (
    Result<StmtView, Seq<ErrView>>,
    int,
) {
    if check(t, q, TokenType::Semicolon) {
        (Ok(StmtView::Var { name, initializer: init }), q + 1)
    } else {
        (Err(seq![stmt_err(t, q, "Expect ';' after variable declaration."@)]), q)
    }
}

/// A `var` declaration after its keyword.
pub open spec fn g_var(t: Seq<TokenInfo>, p: int) -> (Result<StmtView, Seq<ErrView>>, int)
    decreases rem(t, p), 20int,
{
    if !check(t, p, TokenType::Identifier) {
        (Err(seq![stmt_err(t, p, "Expect variable name."@)]), p)
    } else if check(t, p + 1, TokenType::Equal) {
        let (r, q0) = g_expression(t, p + 2);
        let q = fwd(t, p + 2, q0);
        if r is Err {
            (Err(seq![r->Err_0]), q)
        } else {
            g_var_end(t, q, t[p], Some(r->Ok_0))
        }
    } else {
        g_var_end(t, p + 1, t[p], None)
    }
}

pub open spec fn g_declaration(t: Seq<TokenInfo>, p: int) -> (Result<StmtView, Seq<ErrView>>, int)
    decreases rem(t, p), 42int,
{
    if check(t, p, TokenType::Var) {
        g_var(t, p + 1)
    } else {
        g_statement(t, p)
    }
}

pub open spec fn g_statement(t: Seq<TokenInfo>, p: int) -> (Result<StmtView, Seq<ErrView>>, int)
    decreases rem(t, p), 41int,
{
    if check(t, p, TokenType::For) {
        g_for(t, p + 1)
    } else if check(t, p, TokenType::While) {
        g_while(t, p + 1)
    } else if check(t, p, TokenType::Print) {
        g_print(t, p + 1)
    } else if check(t, p, TokenType::LeftBrace) {
        g_block(t, p + 1)
    } else if check(t, p, TokenType::If) {
        g_if(t, p + 1)
    } else {
        g_expr_stmt(t, p)
    }
}

/// The declarations of a block up to its `}` or the end, with recovery after each
/// failed one: the statements that parsed, all errors, and where it stopped.
pub open spec fn g_block_items(t: Seq<TokenInfo>, p: int) -> (Seq<StmtView>, Seq<ErrView>, int)
    decreases rem(t, p), 45int,
{
    if check(t, p, TokenType::RightBrace) || at_end(t, p) {
        (Seq::empty(), Seq::empty(), p)
    } else {
        let (r, q0) = g_declaration(t, p);
        let q1 = fwd(t, p, q0);
        let q2 = if r is Err {
            recover(t, p, q1, true)
        } else {
            q1
        };
        let (ss, es, qe) = g_block_items(t, next_pos(t, p, q2));
        (oks_of(r) + ss, errs_of(r) + es, qe)
    }
}

/// A block after its `{`.
pub open spec fn g_block(t: Seq<TokenInfo>, p: int) -> (Result<StmtView, Seq<ErrView>>, int)
    decreases rem(t, p), 46int,
{
    let (ss, es, q0) = g_block_items(t, p);
    let q = fwd(t, p, q0);
    if check(t, q, TokenType::RightBrace) {
        if es.len() == 0 {
            (Ok(StmtView::Block(ss)), q + 1)
        } else {
            (Err(es), q + 1)
        }
    } else {
        (Err(es.push(stmt_err(t, q, "Expect '}' after block."@))), q)
    }
}

/// The condition in parentheses of an `if` or a `while`, once its `(` is known:
/// the condition if it parsed, the errors so far, and where it stopped.
pub open spec fn g_condition(t: Seq<TokenInfo>, p: int, close_msg: Seq<char>) -> (
    Option<Expr>,
    Seq<ErrView>,
    int,
)
    decreases rem(t, p), 25int,
{
    let (c, q0) = g_expression(t, p);
    let q1 = fwd(t, p, q0);
    let e1 = if c is Err {
        seq![c->Err_0]
    } else {
        Seq::empty()
    };
    let cond = if c is Ok {
        Some(c->Ok_0)
    } else {
        None
    };
    if check(t, q1, TokenType::RightParen) {
        (cond, e1, q1 + 1)
    } else {
        (cond, e1.push(stmt_err(t, q1, close_msg)), q1)
    }
}

/// An `if` statement after its keyword.
pub open spec fn g_if(t: Seq<TokenInfo>, p: int) -> (Result<StmtView, Seq<ErrView>>, int)
    decreases rem(t, p), 30int,
{
    if !check(t, p, TokenType::LeftParen) {
        (Err(seq![stmt_err(t, p, "Expect '(' after 'if'."@)]), p)
    } else {
        let (cond, e2, q2_0) = g_condition(t, p + 1, "Expect ')' after if condition."@);
        let q2 = fwd(t, p + 1, q2_0);
        let (th, q3_0) = g_statement(t, q2);
        let q3 = fwd(t, q2, q3_0);
        let e3 = e2 + errs_of(th);
        if check(t, q3, TokenType::Else) {
            let (el, q4_0) = g_statement(t, q3 + 1);
            let q4 = fwd(t, q3 + 1, q4_0);
            let e4 = e3 + errs_of(el);
            if e4.len() == 0 {
                (
                    Ok(
                        StmtView::If {
                            condition: cond->Some_0,
                            then_branch: Box::new(th->Ok_0),
                            else_branch: Some(Box::new(el->Ok_0)),
                        },
                    ),
                    q4,
                )
            } else {
                (Err(e4), q4)
            }
        } else if e3.len() == 0 {
            (
                Ok(
                    StmtView::If {
                        condition: cond->Some_0,
                        then_branch: Box::new(th->Ok_0),
                        else_branch: None,
                    },
                ),
                q3,
            )
        } else {
            (Err(e3), q3)
        }
    }
}

/// A `while` statement after its keyword.
pub open spec fn g_while(t: Seq<TokenInfo>, p: int) -> (Result<StmtView, Seq<ErrView>>, int)
    decreases rem(t, p), 30int,
{
    if !check(t, p, TokenType::LeftParen) {
        (Err(seq![stmt_err(t, p, "Expect '(' after 'while'."@)]), p)
    } else {
        let (cond, e2, q2_0) = g_condition(t, p + 1, "Expect ')' after condition."@);
        let q2 = fwd(t, p + 1, q2_0);
        let (body, q3_0) = g_statement(t, q2);
        let q3 = fwd(t, q2, q3_0);
        let e3 = e2 + errs_of(body);
        if e3.len() == 0 {
            (Ok(StmtView::While { condition: cond->Some_0, body: Box::new(body->Ok_0) }), q3)
        } else {
            (Err(e3), q3)
        }
    }
}

/// The loop that a `for` statement stands for.
pub open spec fn desugar_for(
    init: Option<StmtView>,
    cond: Option<Expr>,
    incr: Option<Expr>,
    body: StmtView,
) -> StmtView {
    let inner = if incr is Some {
        StmtView::Block(seq![body, StmtView::Expression(incr->Some_0)])
    } else {
        body
    };
    let lp = StmtView::While {
        condition: if cond is Some {
            cond->Some_0
        } else {
            Expr::Literal(Value::Boolean(true))
        },
        body: Box::new(inner),
    };
    if init is Some {
        StmtView::Block(seq![init->Some_0, lp])
    } else {
        lp
    }
}

/// The initializer clause of a `for` statement, just after its `(`.
pub open spec fn g_for_init(t: Seq<TokenInfo>, p: int) -> (
    Result<Option<StmtView>, Seq<ErrView>>,
    int,
)
    decreases rem(t, p), 25int,
{
    if check(t, p, TokenType::Var) {
        let (r, q0) = g_var(t, p + 1);
        let q = fwd(t, p + 1, q0);
        if r is Err {
            (Err(r->Err_0), q)
        } else {
            (Ok(Some(r->Ok_0)), q)
        }
    } else if check(t, p, TokenType::Semicolon) {
        (Ok(None), p + 1)
    } else {
        let (r, q0) = g_expr_stmt(t, p);
        let q = fwd(t, p, q0);
        if r is Err {
            (Err(r->Err_0), q)
        } else {
            (Ok(Some(r->Ok_0)), q)
        }
    }
}

/// An optional expression that ends before the token `stop`: none if `stop` comes
/// at once, and the error list of a failed one.
pub open spec fn g_clause(t: Seq<TokenInfo>, p: int, stop: TokenType) -> (
    Option<Expr>,
    Seq<ErrView>,
    int,
)
    decreases rem(t, p), 25int,
{
    if check(t, p, stop) {
        (None, Seq::empty(), p)
    } else {
        let (r, q0) = g_expression(t, p);
        let q = fwd(t, p, q0);
        if r is Err {
            (None, seq![r->Err_0], q)
        } else {
            (Some(r->Ok_0), Seq::empty(), q)
        }
    }
}

/// A `for` statement after its keyword, desugared into a `while` loop.
pub open spec fn g_for(t: Seq<TokenInfo>, p: int) -> (Result<StmtView, Seq<ErrView>>, int)
    decreases rem(t, p), 30int,
{
    if !check(t, p, TokenType::LeftParen) {
        (Err(seq![stmt_err(t, p, "Expect '(' after 'for'."@)]), p)
    } else {
        let (init, a0) = g_for_init(t, p + 1);
        let a = fwd(t, p + 1, a0);
        if init is Err {
            (Err(init->Err_0), a)
        } else {
            let (cond, e1, b0) = g_clause(t, a, TokenType::Semicolon);
            let b = fwd(t, a, b0);
            if !check(t, b, TokenType::Semicolon) {
                (Err(e1.push(stmt_err(t, b, "Expect ';' after loop condition."@))), b)
            } else {
                let (incr, e2, d0) = g_clause(t, b + 1, TokenType::RightParen);
                let d = fwd(t, b + 1, d0);
                let e3 = e1 + e2;
                let e4 = if check(t, d, TokenType::RightParen) {
                    e3
                } else {
                    e3.push(stmt_err(t, d, "Expect ')' after for clauses."@))
                };
                let e = if check(t, d, TokenType::RightParen) {
                    d + 1
                } else {
                    d
                };
                let (body, f0) = g_statement(t, e);
                let f = fwd(t, e, f0);
                if body is Err {
                    (Err(e4 + body->Err_0), f)
                } else if e4.len() == 0 {
                    (Ok(desugar_for(init->Ok_0, cond, incr, body->Ok_0)), f)
                } else {
                    (Err(e4), f)
                }
            }
        }
    }
}

/// The declarations of a whole program from `p` on, with recovery after each failed
/// one: the statements that parsed and all errors.
pub open spec fn g_program(t: Seq<TokenInfo>, p: int) -> (Seq<StmtView>, Seq<ErrView>)
    decreases rem(t, p),
{
    if at_end(t, p) {
        (Seq::empty(), Seq::empty())
    } else {
        let (r, q0) = g_declaration(t, p);
        let q1 = fwd(t, p, q0);
        let q2 = if r is Err {
            recover(t, p, q1, false)
        } else {
            q1
        };
        let (ss, es) = g_program(t, next_pos(t, p, q2));
        (oks_of(r) + ss, errs_of(r) + es)
    }
}

/// The parse of a token sequence from `p` to its end: the statements if no
/// declaration failed, else every error in order.
pub open spec fn g_parse(t: Seq<TokenInfo>, p: int) -> Result<Seq<StmtView>, Seq<ErrView>> {
    let (ss, es) = g_program(t, p);
    if es.len() == 0 {
        Ok(ss)
    } else {
        Err(es)
    }
}

/// One step of the declarations of a block.
pub proof fn lemma_items_unfold(t: Seq<TokenInfo>, p: int)
    requires
        !(check(t, p, TokenType::RightBrace) || at_end(t, p)),
    ensures
        g_block_items(t, p) == ({
            let (r, q0) = g_declaration(t, p);
            let q1 = fwd(t, p, q0);
            let q2 = if r is Err {
                recover(t, p, q1, true)
            } else {
                q1
            };
            let (ss, es, qe) = g_block_items(t, next_pos(t, p, q2));
            (oks_of(r) + ss, errs_of(r) + es, qe)
        }),
{
}

/// One step of the declarations of a program.
pub proof fn lemma_program_unfold(t: Seq<TokenInfo>, p: int)
    requires
        !at_end(t, p),
    ensures
        g_program(t, p) == ({
            let (r, q0) = g_declaration(t, p);
            let q1 = fwd(t, p, q0);
            let q2 = if r is Err {
                recover(t, p, q1, false)
            } else {
                q1
            };
            let (ss, es) = g_program(t, next_pos(t, p, q2));
            (oks_of(r) + ss, errs_of(r) + es)
        }),
{
}

} // verus!
