//! Facts that relate several parts of the library.
use vstd::prelude::*;
use crate::token::{TokenInfo, TokenType};
use crate::ast::{Expr, StmtView, Value, ValueView};
use crate::scanner::{
    digit_run, eof_token, is_digit, is_white, lex_one, number_end, scan_from, scan_spec, TokenView,
};
use crate::grammar::{g_binary, g_binary_rest, g_expression, g_operand, g_primary, g_unary};
use crate::interpreter::{
    binary_spec, exec_spec, rev_execs, step_spec, MachineView, Outcome, StepView, WorkView,
};
use crate::environment::{env_assign, lemma_innermost_bounds};

verus! {

pub open spec fn all_digits(s: Seq<char>) -> bool {
    forall|i: int| 0 <= i < s.len() ==> is_digit(#[trigger] s[i])
}

/// A numeric literal: digits, and optionally a `.` followed by digits.
pub open spec fn number_literal(s: Seq<char>) -> bool {
    ||| s.len() > 0 && all_digits(s)
    ||| exists|k: int|
        0 < k < s.len() - 1 && #[trigger] s[k] == '.' && all_digits(s.subrange(0, k))
            && all_digits(s.subrange(k + 1, s.len() as int))
}

proof fn lemma_digit_run(s: Seq<char>, i: int, j: int)
    requires
        0 <= i <= j <= s.len(),
        forall|k: int| i <= k < j ==> is_digit(#[trigger] s[k]),
        j == s.len() || !is_digit(s[j]),
    ensures
        digit_run(s, i) == j - i,
    decreases j - i,
{
    if i < j {
        lemma_digit_run(s, i + 1, j);
    }
}

proof fn lemma_number_end(s: Seq<char>)
    requires
        number_literal(s),
    ensures
        number_end(s, 0) == s.len(),
        is_digit(s[0]),
{
    if s.len() > 0 && all_digits(s) {
        lemma_digit_run(s, 0, s.len() as int);
    } else {
        let k = choose|k: int|
            0 < k < s.len() - 1 && #[trigger] s[k] == '.' && all_digits(s.subrange(0, k))
                && all_digits(s.subrange(k + 1, s.len() as int));
        assert forall|m: int| 0 <= m < k implies is_digit(#[trigger] s[m]) by {
            assert(s.subrange(0, k)[m] == s[m]);
        }
        assert forall|m: int| k + 1 <= m < s.len() implies is_digit(#[trigger] s[m]) by {
            assert(s.subrange(k + 1, s.len() as int)[m - k - 1] == s[m]);
        }
        lemma_digit_run(s, 0, k);
        lemma_digit_run(s, k + 1, s.len() as int);
        assert(s.subrange(0, k)[0] == s[0]);
    }
}

/// A numeric literal scans to one number token that holds the whole literal, then
/// the end of input; parsing the two tokens once the number carries its value `b`
/// gives the literal `b`; evaluating that literal on any machine pushes exactly `b`
/// and leaves the scopes and the pending work as they were; and where no other work
/// is pending, the machine then hands out exactly `b`.
pub proof fn number_literal_round_trip(
    s: Seq<char>,
    b: u64,
    num: TokenInfo,
    end: TokenInfo,
    m: MachineView,
)
    requires
        number_literal(s),
        num@ == (TokenView { kind: TokenType::Number, line: 1, text: s, number: Some(b) }),
        end@ == eof_token(1),
    ensures
        scan_spec(s).tokens == seq![
            TokenView { kind: TokenType::Number, line: 1, text: s, number: None },
            eof_token(1),
        ],
        scan_spec(s).strays.len() == 0,
        scan_spec(s).unterminated is None,
        g_expression(seq![num, end], 0) == (Ok::<Expr, crate::ast::ErrView>(
            Expr::Literal(Value::Number(b)),
        ), 1int),
        ({
            let first = step_spec(
                MachineView {
                    work: m.work.push(WorkView::Eval(Expr::Literal(Value::Number(b)))),
                    ..m
                },
            );
            &&& first.1 == StepView::Continue
            &&& first.0 == (MachineView {
                scopes: m.scopes,
                work: m.work,
                values: m.values.push(ValueView::Number(b)),
            })
            &&& m.work.len() == 0 ==> step_spec(first.0).1 == StepView::Done(
                Some(ValueView::Number(b)),
            )
        }),
{
    lemma_number_end(s);
    assert(!is_white(s[0]));
    assert(s.subrange(0, s.len() as int) =~= s);
    let l = lex_one(s, 0, 1);
    assert(l.next == s.len());
    assert(scan_from(s, s.len() as int, 1).tokens == seq![eof_token(1)]);
    assert(scan_spec(s).tokens =~= seq![
        TokenView { kind: TokenType::Number, line: 1, text: s, number: None },
        eof_token(1),
    ]);
    assert(scan_spec(s).strays =~= Seq::<(char, int)>::empty());
    let t = seq![num, end];
    assert(t.len() == 2 && t[0] == num && t[1] == end);
    assert(t[0].token_type == TokenType::Number && t[0].number == Some(b));
    assert(g_primary(t, 0) == (Ok::<Expr, crate::ast::ErrView>(Expr::Literal(Value::Number(b))), 1int));
    assert(g_unary(t, 0) == (Ok::<Expr, crate::ast::ErrView>(Expr::Literal(Value::Number(b))), 1int));
    let lit = Expr::Literal(Value::Number(b));
    assert(g_operand(t, 0, 0) == (Ok::<Expr, crate::ast::ErrView>(lit), 1int));
    assert(g_binary_rest(t, 1, lit, 0) == (Ok::<Expr, crate::ast::ErrView>(lit), 1int));
    assert(g_binary(t, 0, 0) == (Ok::<Expr, crate::ast::ErrView>(lit), 1int));
    assert(g_binary(t, 0, 1) == (Ok::<Expr, crate::ast::ErrView>(lit), 1int));
    assert(g_binary(t, 0, 2) == (Ok::<Expr, crate::ast::ErrView>(lit), 1int));
    assert(g_binary(t, 0, 3) == (Ok::<Expr, crate::ast::ErrView>(lit), 1int));
    assert(g_binary(t, 0, 4) == (Ok::<Expr, crate::ast::ErrView>(lit), 1int));
    assert(g_binary(t, 0, 5) == (Ok::<Expr, crate::ast::ErrView>(lit), 1int));
    let first = step_spec(
        MachineView { work: m.work.push(WorkView::Eval(Expr::Literal(Value::Number(b)))), ..m },
    );
    assert(first.0.work =~= m.work);
}

/// How many pending work items leave a scope.
pub open spec fn count_ends(w: Seq<WorkView>) -> nat
    decreases w.len(),
{
    if w.len() == 0 {
        0
    } else {
        count_ends(w.drop_last()) + if w.last() is EndScope {
            1nat
        } else {
            0nat
        }
    }
}

proof fn lemma_count_push(w: Seq<WorkView>, x: WorkView)
    ensures
        count_ends(w.push(x)) == count_ends(w) + if x is EndScope {
            1nat
        } else {
            0nat
        },
{
    assert(w.push(x).drop_last() =~= w);
}

proof fn lemma_count_concat(a: Seq<WorkView>, b: Seq<WorkView>)
    ensures
        count_ends(a + b) == count_ends(a) + count_ends(b),
    decreases b.len(),
{
    if b.len() == 0 {
        assert(a + b =~= a);
    } else {
        lemma_count_concat(a, b.drop_last());
        assert((a + b).drop_last() =~= a + b.drop_last());
    }
}

proof fn lemma_count_execs(ss: Seq<StmtView>)
    ensures
        count_ends(rev_execs(ss)) == 0,
    decreases ss.len(),
{
    if ss.len() > 0 {
        lemma_count_execs(ss.subrange(1, ss.len() as int));
        assert(rev_execs(ss).drop_last() =~= rev_execs(ss.subrange(1, ss.len() as int)));
    }
}

proof fn lemma_assign_len(e: Seq<Map<Seq<char>, ValueView>>, n: Seq<char>, v: ValueView)
    ensures
        env_assign(e, n, v) matches Some(r) ==> r.len() == e.len(),
{
    lemma_innermost_bounds(e, n);
}

/// Every scope that a block enters is left again: where the depth of the scope
/// stack is one more than the number of pending scope exits, it stays so after a
/// step. So when no work is left, the global scope alone remains, and a variable
/// declared in a block never outlives it.
pub proof fn scope_balance(m: MachineView)
    requires
        m.scopes.len() == 1 + count_ends(m.work),
    ensures
        step_spec(m).0.scopes.len() == 1 + count_ends(step_spec(m).0.work),
{
    if m.work.len() > 0 {
        let rest = m.work.drop_last();
        let mm = MachineView { scopes: m.scopes, work: rest, values: m.values };
        assert(m.work == rest.push(m.work.last()));
        lemma_count_push(rest, m.work.last());
        assert(count_ends(Seq::<WorkView>::empty()) == 0);
        match m.work.last() {
            WorkView::Exec(st) => {
                match st {
                    StmtView::Expression(e) => {
                        lemma_count_push(rest, WorkView::Discard);
                        lemma_count_push(rest.push(WorkView::Discard), WorkView::Eval(e));
                    },
                    StmtView::Print(e) => {
                        lemma_count_push(rest, WorkView::Print);
                        lemma_count_push(rest.push(WorkView::Print), WorkView::Eval(e));
                    },
                    StmtView::Var { name, initializer } => {
                        if initializer is Some {
                            let d = WorkView::Define(name.lexeme@);
                            lemma_count_push(rest, d);
                            lemma_count_push(rest.push(d), WorkView::Eval(initializer->Some_0));
                        }
                    },
                    StmtView::Block(ss) => {
                        lemma_count_push(rest, WorkView::EndScope);
                        lemma_count_concat(rest.push(WorkView::EndScope), rev_execs(ss));
                        lemma_count_execs(ss);
                    },
                    StmtView::If { condition, then_branch, else_branch } => {
                        let br = exec_spec(mm, st).0.work;
                        lemma_count_push(rest, br[br.len() - 2]);
                        lemma_count_push(rest.push(br[br.len() - 2]), WorkView::Eval(condition));
                        assert(br == rest.push(br[br.len() - 2]).push(WorkView::Eval(condition)));
                    },
                    StmtView::While { condition, body } => {
                        let lp = WorkView::Loop(condition, *body);
                        lemma_count_push(rest, lp);
                        lemma_count_push(rest.push(lp), WorkView::Eval(condition));
                    },
                }
            },
            WorkView::Eval(e) => {
                match e {
                    Expr::Grouping(inner) => {
                        lemma_count_push(rest, WorkView::Eval(*inner));
                    },
                    Expr::Assign { name, value } => {
                        let a = WorkView::Assign(name.lexeme@);
                        lemma_count_push(rest, a);
                        lemma_count_push(rest.push(a), WorkView::Eval(*value));
                    },
                    Expr::Unary { operator, right } => {
                        let u = WorkView::Unary(operator.token_type);
                        lemma_count_push(rest, u);
                        lemma_count_push(rest.push(u), WorkView::Eval(*right));
                    },
                    Expr::Binary { left, operator, right } => {
                        let bi = WorkView::Binary(operator.token_type);
                        lemma_count_push(rest, bi);
                        lemma_count_push(rest.push(bi), WorkView::Eval(*right));
                        lemma_count_push(
                            rest.push(bi).push(WorkView::Eval(*right)),
                            WorkView::Eval(*left),
                        );
                    },
                    Expr::Logical { left, operator, right } => {
                        let lo = WorkView::Logical(operator.token_type, *right);
                        lemma_count_push(rest, lo);
                        lemma_count_push(rest.push(lo), WorkView::Eval(*left));
                    },
                    _ => {},
                }
            },
            WorkView::EndScope => {},
            WorkView::Binary(op) => {},
            w => {
                if m.values.len() > 0 {
                    lemma_assign_len(m.scopes, if w is Assign {
                        w->Assign_0
                    } else {
                        Seq::empty()
                    }, m.values.last());
                    match w {
                        WorkView::Logical(op, right) => {
                            lemma_count_push(rest, WorkView::Eval(right));
                        },
                        WorkView::Branch(th, el) => {
                            lemma_count_push(rest, WorkView::Exec(th));
                            if el is Some {
                                lemma_count_push(rest, WorkView::Exec(el->Some_0));
                            }
                        },
                        WorkView::Loop(c, body) => {
                            let lp = WorkView::Loop(c, body);
                            lemma_count_push(rest, lp);
                            lemma_count_push(rest.push(lp), WorkView::Eval(c));
                            lemma_count_push(
                                rest.push(lp).push(WorkView::Eval(c)),
                                WorkView::Exec(body),
                            );
                        },
                        _ => {},
                    }
                }
            },
        }
    }
}

/// `and` and `or` decide on their left operand alone when it settles the result:
/// a falsy left operand of `and`, or a truthy one of `or`, stays as the value and
/// the right operand is never scheduled.
pub proof fn short_circuit(m: MachineView, op: TokenType, right: Expr)
    requires
        m.work.len() > 0,
        m.work.last() == WorkView::Logical(op, right),
        m.values.len() > 0,
        (op == TokenType::And && !m.values.last().truthy()) || (op == TokenType::Or
            && m.values.last().truthy()),
    ensures
        step_spec(m) == (
            MachineView { scopes: m.scopes, work: m.work.drop_last(), values: m.values },
            StepView::Continue,
        ),
{
}

/// `+` on two strings gives their concatenation, and concatenating three strings
/// gives the same text whichever pair is joined first.
pub proof fn concatenation_associative(a: Seq<char>, b: Seq<char>, c: Seq<char>)
    ensures
        binary_spec(TokenType::Plus, ValueView::String(a), ValueView::String(b)) == Outcome::Value(
            ValueView::String(a + b),
        ),
        binary_spec(TokenType::Plus, ValueView::String(a + b), ValueView::String(c))
            == binary_spec(TokenType::Plus, ValueView::String(a), ValueView::String(b + c)),
{
    assert((a + b) + c =~= a + (b + c));
}

} // verus!
