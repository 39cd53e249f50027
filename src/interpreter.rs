//! The interpreter: a step machine that walks statements and expressions with an
//! explicit stack of pending work and a stack of computed values. The host runs
//! the machine, prints what it is told to print, and computes the arithmetic of
//! numbers when asked.
use vstd::prelude::*;
use crate::token::TokenType;
use crate::ast::{lemma_block_view, stmts_view, Expr, Stmt, StmtView, Value, ValueView};
use crate::environment::{env_assign, env_define, env_get, Environment};
use crate::number::{equal, less, less_equal, negate, negated, num_eq, num_le, num_lt};

verus! {

/// A pending piece of work.
#[derive(Debug)]
pub enum Work {
    /// Execute a statement.
    Exec(Stmt),
    /// Evaluate an expression and push its value.
    Eval(Expr),
    /// Leave the innermost scope.
    EndScope,
    /// Pop a value and print it.
    Print,
    /// Pop a value and drop it.
    Discard,
    /// Pop a value and bind it to the name in the innermost scope.
    Define(String),
    /// Set the name to the value on top, which stays.
    Assign(String),
    /// Apply a unary operator to the value on top.
    Unary(TokenType),
    /// Pop the right and then the left operand and apply the operator.
    Binary(TokenType),
    /// Decide on the left operand on top whether the right one is evaluated.
    Logical(TokenType, Expr),
    /// Pop a condition and execute one branch.
    Branch(Stmt, Option<Stmt>),
    /// Pop a loop condition; if it holds, run the body and test again.
    Loop(Expr, Stmt),
}

pub enum WorkView {
    Exec(StmtView),
    Eval(Expr),
    EndScope,
    Print,
    Discard,
    Define(Seq<char>),
    Assign(Seq<char>),
    Unary(TokenType),
    Binary(TokenType),
    Logical(TokenType, Expr),
    Branch(StmtView, Option<StmtView>),
    Loop(Expr, StmtView),
}

impl View for Work {
    type V = WorkView;

    open spec fn view(&self) -> WorkView {
        match self {
            Work::Exec(s) => WorkView::Exec(s@),
            Work::Eval(e) => WorkView::Eval(*e),
            Work::EndScope => WorkView::EndScope,
            Work::Print => WorkView::Print,
            Work::Discard => WorkView::Discard,
            Work::Define(n) => WorkView::Define(n@),
            Work::Assign(n) => WorkView::Assign(n@),
            Work::Unary(op) => WorkView::Unary(*op),
            Work::Binary(op) => WorkView::Binary(*op),
            Work::Logical(op, e) => WorkView::Logical(*op, *e),
            Work::Branch(t, e) => WorkView::Branch(
                t@,
                match e {
                    Some(s) => Some(s@),
                    None => None,
                },
            ),
            Work::Loop(c, b) => WorkView::Loop(*c, b@),
        }
    }
}

pub open spec fn works_view(v: Seq<Work>) -> Seq<WorkView> {
    v.map_values(|w: Work| w@)
}

pub open spec fn values_view(v: Seq<Value>) -> Seq<ValueView> {
    v.map_values(|x: Value| x@)
}

/// What one step of the machine asks of the host.
#[derive(Debug)]
pub enum Step {
    /// Nothing; step again.
    Continue,
    /// Print this value, then step again.
    Print(Value),
    /// Compute `left operator right` on binary64 numbers, hand the result to
    /// `resume`, then step again.
    Arithmetic { operator: TokenType, left: u64, right: u64 },
    /// No work is left; the value is that of an evaluated expression.
    Done(Option<Value>),
    /// A runtime error; the pending work was dropped and every scope but the
    /// global one left.
    Failed(String),
}

pub enum StepView {
    Continue,
    Print(ValueView),
    Arithmetic { operator: TokenType, left: u64, right: u64 },
    Done(Option<ValueView>),
    Failed(Seq<char>),
}

impl View for Step {
    type V = StepView;

    open spec fn view(&self) -> StepView {
        match self {
            Step::Continue => StepView::Continue,
            Step::Print(v) => StepView::Print(v@),
            Step::Arithmetic { operator, left, right } => StepView::Arithmetic {
                operator: *operator,
                left: *left,
                right: *right,
            },
            Step::Done(v) => StepView::Done(
                match v {
                    Some(x) => Some(x@),
                    None => None,
                },
            ),
            Step::Failed(m) => StepView::Failed(m@),
        }
    }
}

/// The whole state of the machine as plain values.
pub struct MachineView {
    pub scopes: Seq<Map<Seq<char>, ValueView>>,
    pub work: Seq<WorkView>,
    pub values: Seq<ValueView>,
}

pub open spec fn cont(
    scopes: Seq<Map<Seq<char>, ValueView>>,
    work: Seq<WorkView>,
    values: Seq<ValueView>,
) -> (MachineView, StepView) {
    (MachineView { scopes, work, values }, StepView::Continue)
}

/// A runtime error drops all pending work and values and leaves every scope but
/// the global one.
pub open spec fn failed(m: MachineView, msg: Seq<char>) -> (MachineView, StepView) {
    (
        MachineView { scopes: m.scopes.subrange(0, 1), work: Seq::empty(), values: Seq::empty() },
        StepView::Failed(msg),
    )
}

pub open spec fn undefined_msg(name: Seq<char>) -> Seq<char> {
    "Undefined variable '"@ + name + "'."@
}

pub open spec fn missing_msg() -> Seq<char> {
    "Missing operand."@
}

/// Work that executes `ss` in order, the first statement on top.
pub open spec fn rev_execs(ss: Seq<StmtView>) -> Seq<WorkView> {
    Seq::new(ss.len(), |i: int| WorkView::Exec(ss[ss.len() - 1 - i]))
}

/// Structural equality of values, with IEEE-754 equality on numbers.
pub open spec fn values_equal(l: ValueView, r: ValueView) -> bool {
    match l {
        ValueView::String(a) => r is String && r->String_0 == a,
        ValueView::Number(a) => r is Number && num_eq(a, r->Number_0),
        ValueView::Boolean(a) => r is Boolean && r->Boolean_0 == a,
        ValueView::Nil => r is Nil,
    }
}

pub open spec fn unary_spec(op: TokenType, v: ValueView) -> Result<ValueView, Seq<char>> {
    if op == TokenType::Minus {
        if v is Number {
            Ok(ValueView::Number(negated(v->Number_0)))
        } else {
            Err("Operand must be a number."@)
        }
    } else if op == TokenType::Bang {
        Ok(ValueView::Boolean(!v.truthy()))
    } else {
        Err("Invalid unary operator."@)
    }
}

/// The result of a binary operator: a value, a request to the host, or an error.
pub enum Outcome {
    Value(ValueView),
    Arithmetic(TokenType, u64, u64),
    Error(Seq<char>),
}

pub open spec fn is_arithmetic(op: TokenType) -> bool {
    op == TokenType::Plus || op == TokenType::Minus || op == TokenType::Star || op
        == TokenType::Slash
}

pub open spec fn is_comparison(op: TokenType) -> bool {
    op == TokenType::Less || op == TokenType::LessEqual || op == TokenType::Greater || op
        == TokenType::GreaterEqual
}

pub open spec fn compare(op: TokenType, a: u64, b: u64) -> bool {
    if op == TokenType::Less {
        num_lt(a, b)
    } else if op == TokenType::LessEqual {
        num_le(a, b)
    } else if op == TokenType::Greater {
        num_lt(b, a)
    } else {
        num_le(b, a)
    }
}

pub open spec fn binary_spec(op: TokenType, l: ValueView, r: ValueView) -> Outcome {
    if is_arithmetic(op) {
        if l is Number && r is Number {
            Outcome::Arithmetic(op, l->Number_0, r->Number_0)
        } else if op == TokenType::Plus && l is String && r is String {
            Outcome::Value(ValueView::String(l->String_0 + r->String_0))
        } else if op == TokenType::Plus {
            Outcome::Error("Operands must be two numbers or two strings."@)
        } else {
            Outcome::Error("Operands must be numbers."@)
        }
    } else if is_comparison(op) {
        if l is Number && r is Number {
            Outcome::Value(ValueView::Boolean(compare(op, l->Number_0, r->Number_0)))
        } else {
            Outcome::Error("Operands must be numbers."@)
        }
    } else if op == TokenType::EqualEqual {
        Outcome::Value(ValueView::Boolean(values_equal(l, r)))
    } else if op == TokenType::BangEqual {
        Outcome::Value(ValueView::Boolean(!values_equal(l, r)))
    } else {
        Outcome::Error("Invalid binary operator."@)
    }
}

/// Executing statement `s`, with `m.work` already without it.
pub open spec fn exec_spec(m: MachineView, s: StmtView) -> (MachineView, StepView) {
    match s {
        StmtView::Expression(e) => cont(
            m.scopes,
            m.work.push(WorkView::Discard).push(WorkView::Eval(e)),
            m.values,
        ),
        StmtView::Print(e) => cont(
            m.scopes,
            m.work.push(WorkView::Print).push(WorkView::Eval(e)),
            m.values,
        ),
        StmtView::Var { name, initializer } => match initializer {
            Some(e) => cont(
                m.scopes,
                m.work.push(WorkView::Define(name.lexeme@)).push(WorkView::Eval(e)),
                m.values,
            ),
            None => cont(env_define(m.scopes, name.lexeme@, ValueView::Nil), m.work, m.values),
        },
        StmtView::Block(ss) => cont(
            m.scopes.push(Map::empty()),
            m.work.push(WorkView::EndScope) + rev_execs(ss),
            m.values,
        ),
        StmtView::If { condition, then_branch, else_branch } => cont(
            m.scopes,
            m.work.push(
                WorkView::Branch(
                    *then_branch,
                    match else_branch {
                        Some(b) => Some(*b),
                        None => None,
                    },
                ),
            ).push(WorkView::Eval(condition)),
            m.values,
        ),
        StmtView::While { condition, body } => cont(
            m.scopes,
            m.work.push(WorkView::Loop(condition, *body)).push(WorkView::Eval(condition)),
            m.values,
        ),
    }
}

/// Evaluating expression `e`, with `m.work` already without it.
pub open spec fn eval_spec(m: MachineView, e: Expr) -> (MachineView, StepView) {
    match e {
        Expr::Literal(v) => cont(m.scopes, m.work, m.values.push(v@)),
        Expr::Grouping(inner) => cont(m.scopes, m.work.push(WorkView::Eval(*inner)), m.values),
        Expr::Variable(tok) => match env_get(m.scopes, tok.lexeme@) {
            Some(v) => cont(m.scopes, m.work, m.values.push(v)),
            None => failed(m, undefined_msg(tok.lexeme@)),
        },
        Expr::Assign { name, value } => cont(
            m.scopes,
            m.work.push(WorkView::Assign(name.lexeme@)).push(WorkView::Eval(*value)),
            m.values,
        ),
        Expr::Unary { operator, right } => cont(
            m.scopes,
            m.work.push(WorkView::Unary(operator.token_type)).push(WorkView::Eval(*right)),
            m.values,
        ),
        Expr::Binary { left, operator, right } => cont(
            m.scopes,
            m.work.push(WorkView::Binary(operator.token_type)).push(WorkView::Eval(*right)).push(
                WorkView::Eval(*left),
            ),
            m.values,
        ),
        Expr::Logical { left, operator, right } => cont(
            m.scopes,
            m.work.push(WorkView::Logical(operator.token_type, *right)).push(
                WorkView::Eval(*left),
            ),
            m.values,
        ),
    }
}

/// Carrying out work item `w` that needs the value on top, with `m.work` already
/// without it.
pub open spec fn apply_spec(m: MachineView, w: WorkView) -> (MachineView, StepView) {
    let top = m.values.last();
    let below = m.values.drop_last();
    match w {
        WorkView::Print => (
            MachineView { scopes: m.scopes, work: m.work, values: below },
            StepView::Print(top),
        ),
        WorkView::Discard => cont(m.scopes, m.work, below),
        WorkView::Define(n) => cont(env_define(m.scopes, n, top), m.work, below),
        WorkView::Assign(n) => match env_assign(m.scopes, n, top) {
            Some(sc) => cont(sc, m.work, m.values),
            None => failed(m, undefined_msg(n)),
        },
        WorkView::Unary(op) => match unary_spec(op, top) {
            Ok(v) => cont(m.scopes, m.work, below.push(v)),
            Err(msg) => failed(m, msg),
        },
        WorkView::Logical(op, right) => if op == TokenType::And {
            if !top.truthy() {
                cont(m.scopes, m.work, m.values)
            } else {
                cont(m.scopes, m.work.push(WorkView::Eval(right)), below)
            }
        } else if op == TokenType::Or {
            if top.truthy() {
                cont(m.scopes, m.work, m.values)
            } else {
                cont(m.scopes, m.work.push(WorkView::Eval(right)), below)
            }
        } else {
            failed(m, "Invalid logical operator."@)
        },
        WorkView::Branch(th, el) => if top.truthy() {
            cont(m.scopes, m.work.push(WorkView::Exec(th)), below)
        } else {
            match el {
                Some(e) => cont(m.scopes, m.work.push(WorkView::Exec(e)), below),
                None => cont(m.scopes, m.work, below),
            }
        },
        WorkView::Loop(c, body) => if top.truthy() {
            cont(
                m.scopes,
                m.work.push(WorkView::Loop(c, body)).push(WorkView::Eval(c)).push(
                    WorkView::Exec(body),
                ),
                below,
            )
        } else {
            cont(m.scopes, m.work, below)
        },
        _ => (m, StepView::Continue),
    }
}

/// Applying binary operator `op` to the two values on top, with `m.work` already
/// without it.
pub open spec fn binary_step(m: MachineView, op: TokenType) -> (MachineView, StepView) {
    let n = m.values.len();
    let rest = m.values.subrange(0, n - 2);
    match binary_spec(op, m.values[n - 2], m.values[n - 1]) {
        Outcome::Value(v) => cont(m.scopes, m.work, rest.push(v)),
        Outcome::Arithmetic(o, a, b) => (
            MachineView { scopes: m.scopes, work: m.work, values: rest },
            StepView::Arithmetic { operator: o, left: a, right: b },
        ),
        Outcome::Error(msg) => failed(m, msg),
    }
}

/// One step of the machine.
pub open spec fn step_spec(m: MachineView) -> (MachineView, StepView) {
    if m.work.len() == 0 {
        if m.values.len() > 0 {
            (
                MachineView { scopes: m.scopes, work: m.work, values: m.values.drop_last() },
                StepView::Done(Some(m.values.last())),
            )
        } else {
            (m, StepView::Done(None))
        }
    } else {
        let mm = MachineView { scopes: m.scopes, work: m.work.drop_last(), values: m.values };
        match m.work.last() {
            WorkView::Exec(s) => exec_spec(mm, s),
            WorkView::Eval(e) => eval_spec(mm, e),
            WorkView::EndScope => cont(
                if m.scopes.len() > 1 {
                    m.scopes.drop_last()
                } else {
                    m.scopes
                },
                mm.work,
                m.values,
            ),
            WorkView::Binary(op) => if m.values.len() < 2 {
                failed(m, missing_msg())
            } else {
                binary_step(mm, op)
            },
            w => if m.values.len() == 0 {
                failed(m, missing_msg())
            } else {
                apply_spec(mm, w)
            },
        }
    }
}

/// A copy of a statement tree.
pub fn copy_stmt(s: &Stmt) -> (r: Stmt)
    ensures
        r@ == s@,
    decreases s,
{
    match s {
        Stmt::Expression(e) => Stmt::Expression(e.clone()),
        Stmt::Print(e) => Stmt::Print(e.clone()),
        Stmt::Var { name, initializer } => Stmt::Var {
            name: name.clone(),
            initializer: match initializer {
                Some(e) => Some(e.clone()),
                None => None,
            },
        },
        Stmt::Block(v) => {
            let mut out: Vec<Stmt> = Vec::new();
            let mut i: usize = 0;
            while i < v.len()
                invariant
                    *s == Stmt::Block(*v),
                    i <= v@.len(),
                    stmts_view(out@) == stmts_view(v@.subrange(0, i as int)),
                decreases v@.len() - i,
            {
                proof {
                    vstd::std_specs::vec::axiom_vec_index_decreases(*v, i as int);
                    assert(decreases_to!(*s => (*s)->Block_0));
                    assert(decreases_to!(*v => v[i as int]));
                }
                let c = copy_stmt(&v[i]);
                let ghost before = out@;
                out.push(c);
                assert(stmts_view(out@) =~= stmts_view(before).push(c@));
                assert(stmts_view(v@.subrange(0, i + 1)) =~= stmts_view(v@.subrange(0, i as int)).push(
                    v@[i as int]@,
                ));
                i = i + 1;
            }
            proof {
                assert(v@.subrange(0, v@.len() as int) =~= v@);
                lemma_block_view(out);
                lemma_block_view(*v);
            }
            Stmt::Block(out)
        },
        Stmt::If { condition, then_branch, else_branch } => Stmt::If {
            condition: condition.clone(),
            then_branch: Box::new(copy_stmt(then_branch)),
            else_branch: match else_branch {
                Some(b) => Some(Box::new(copy_stmt(b))),
                None => None,
            },
        },
        Stmt::While { condition, body } => Stmt::While {
            condition: condition.clone(),
            body: Box::new(copy_stmt(body)),
        },
    }
}

fn values_eq(l: &Value, r: &Value) -> (b: bool)
    ensures
        b == values_equal(l@, r@),
{
    match (l, r) {
        (Value::String(a), Value::String(c)) => *a == *c,
        (Value::Number(a), Value::Number(c)) => equal(*a, *c),
        (Value::Boolean(a), Value::Boolean(c)) => *a == *c,
        (Value::Nil, Value::Nil) => true,
        _ => false,
    }
}

/// The message for a name that no scope binds.
fn undefined(name: &String) -> (r: String)
    ensures
        r@ == undefined_msg(name@),
{
    let mut m = String::from_str("Undefined variable '");
    m.append(name.as_str());
    m.append("'.");
    m
}

fn is_arith_op(op: TokenType) -> (r: bool)
    ensures
        r == is_arithmetic(op),
{
    op == TokenType::Plus || op == TokenType::Minus || op == TokenType::Star || op
        == TokenType::Slash
}

fn is_compare_op(op: TokenType) -> (r: bool)
    ensures
        r == is_comparison(op),
{
    op == TokenType::Less || op == TokenType::LessEqual || op == TokenType::Greater || op
        == TokenType::GreaterEqual
}

/// Executes a tree of statements and evaluates expressions against a persistent
/// environment, one step at a time.
pub struct Interpreter {
    environment: Environment,
    work: Vec<Work>,
    values: Vec<Value>,
}

impl View for Interpreter {
    type V = MachineView;

    closed spec fn view(&self) -> MachineView {
        MachineView {
            scopes: self.environment@,
            work: works_view(self.work@),
            values: values_view(self.values@),
        }
    }
}

impl Interpreter {
    pub closed spec fn wf(&self) -> bool {
        self.environment.wf()
    }

    /// An idle machine whose environment holds the empty global scope alone.
    pub fn new() -> (r: Self)
        ensures
            r.wf(),
            r@ == (MachineView {
                scopes: seq![Map::empty()],
                work: Seq::empty(),
                values: Seq::empty(),
            }),
    {
        let r = Interpreter { environment: Environment::new(), work: Vec::new(), values: Vec::new() };
        assert(r@.work =~= Seq::<WorkView>::empty());
        assert(r@.values =~= Seq::<ValueView>::empty());
        r
    }

    /// Queues statements to execute in order, before any work already pending.
    pub fn interpret(&mut self, statements: Vec<Stmt>)
        requires
            old(self).wf(),
        ensures
            final(self).wf(),
            final(self)@ == (MachineView {
                work: old(self)@.work + rev_execs(stmts_view(statements@)),
                ..old(self)@
            }),
    {
        let mut v = statements;
        let ghost orig = stmts_view(v@);
        let ghost n = v@.len();
        let ghost base = self@.work;
        assert(base + Seq::new(0, |i: int| WorkView::Exec(orig[n - 1 - i])) =~= base);
        while v.len() > 0
            invariant
                self.wf(),
                v@.len() <= n,
                n == orig.len(),
                stmts_view(v@) == orig.subrange(0, v@.len() as int),
                self@.scopes == old(self)@.scopes,
                self@.values == old(self)@.values,
                self@.work == base + Seq::new(
                    (n - v@.len()) as nat,
                    |i: int| WorkView::Exec(orig[n - 1 - i]),
                ),
            decreases v@.len(),
        {
            let ghost before = self@.work;
            let ghost k = v@.len();
            let ghost v_old = v@;
            match v.pop() {
                Some(s) => {
                    assert(stmts_view(v_old)[k - 1] == v_old[k - 1]@);
                    assert(orig.subrange(0, k as int)[k - 1] == orig[k - 1]);
                    assert(s@ == orig[k - 1]);
                    self.work.push(Work::Exec(s));
                    assert(works_view(self.work@) =~= before.push(WorkView::Exec(s@)));
                    assert(stmts_view(v@) =~= orig.subrange(0, v@.len() as int));
                    assert(self@.work =~= base + Seq::new(
                        (n - v@.len()) as nat,
                        |i: int| WorkView::Exec(orig[n - 1 - i]),
                    ));
                },
                None => {},
            }
        }
        assert(Seq::new((n - 0) as nat, |i: int| WorkView::Exec(orig[n - 1 - i])) =~= rev_execs(
            orig,
        ));
    }

    /// Queues an expression to evaluate; its value is handed out by the step that
    /// finds no work left.
    pub fn evaluate(&mut self, expr: Expr)
        requires
            old(self).wf(),
        ensures
            final(self).wf(),
            final(self)@ == (MachineView {
                work: old(self)@.work.push(WorkView::Eval(expr)),
                ..old(self)@
            }),
    {
        self.work.push(Work::Eval(expr));
        assert(works_view(self.work@) =~= works_view(old(self).work@).push(WorkView::Eval(expr)));
    }

    /// Hands back the result of the arithmetic that the last step asked for.
    pub fn resume(&mut self, bits: u64)
        requires
            old(self).wf(),
        ensures
            final(self).wf(),
            final(self)@ == (MachineView {
                values: old(self)@.values.push(ValueView::Number(bits)),
                ..old(self)@
            }),
    {
        self.values.push(Value::Number(bits));
        assert(values_view(self.values@) =~= values_view(old(self).values@).push(
            ValueView::Number(bits),
        ));
    }

    /// Drops all pending work and values and leaves every scope but the global one.
    fn fail(&mut self, message: String) -> (r: Step)
        requires
            old(self).wf(),
        ensures
            final(self).wf(),
            (final(self)@, r@) == failed(old(self)@, message@),
    {
        self.environment.unwind();
        self.work.clear();
        self.values.clear();
        assert(works_view(self.work@) =~= Seq::empty());
        assert(values_view(self.values@) =~= Seq::empty());
        Step::Failed(message)
    }

    /// Runs one step: takes the work item on top and carries it out.
    pub fn step(&mut self) -> (r: Step)
        requires
            old(self).wf(),
        ensures
            final(self).wf(),
            (final(self)@, r@) == step_spec(old(self)@),
    {
        let ghost m = self@;
        match self.work.pop() {
            None => {
                match self.values.pop() {
                    Some(v) => {
                        assert(values_view(self.values@) =~= m.values.drop_last());
                        Step::Done(Some(v))
                    },
                    None => Step::Done(None),
                }
            },
            Some(w) => {
                assert(works_view(self.work@) =~= m.work.drop_last());
                match w {
                    Work::Exec(s) => self.execute(s),
                    Work::Eval(e) => self.eval(e),
                    Work::EndScope => {
                        self.environment.pop_scope();
                        Step::Continue
                    },
                    Work::Binary(op) => {
                        if self.values.len() < 2 {
                            self.fail(String::from_str("Missing operand."))
                        } else {
                            self.binary(op)
                        }
                    },
                    w => {
                        if self.values.len() == 0 {
                            self.fail(String::from_str("Missing operand."))
                        } else {
                            self.apply(w)
                        }
                    },
                }
            },
        }
    }

    fn push_work(&mut self, w: Work)
        requires
            old(self).wf(),
        ensures
            final(self).wf(),
            final(self)@ == (MachineView { work: old(self)@.work.push(w@), ..old(self)@ }),
    {
        self.work.push(w);
        assert(works_view(self.work@) =~= works_view(old(self).work@).push(w@));
    }

    fn push_value(&mut self, v: Value)
        requires
            old(self).wf(),
        ensures
            final(self).wf(),
            final(self)@ == (MachineView { values: old(self)@.values.push(v@), ..old(self)@ }),
    {
        self.values.push(v);
        assert(values_view(self.values@) =~= values_view(old(self).values@).push(v@));
    }

    /// Executes a statement: schedules its parts.
    fn execute(&mut self, s: Stmt) -> (r: Step)
        requires
            old(self).wf(),
        ensures
            final(self).wf(),
            (final(self)@, r@) == exec_spec(old(self)@, s@),
    {
        match s {
            Stmt::Expression(e) => {
                self.push_work(Work::Discard);
                self.push_work(Work::Eval(e));
            },
            Stmt::Print(e) => {
                self.push_work(Work::Print);
                self.push_work(Work::Eval(e));
            },
            Stmt::Var { name, initializer } => match initializer {
                Some(e) => {
                    self.push_work(Work::Define(name.lexeme));
                    self.push_work(Work::Eval(e));
                },
                None => {
                    self.environment.define(name.lexeme, Value::Nil);
                },
            },
            Stmt::Block(v) => {
                proof {
                    lemma_block_view(v);
                }
                self.environment.push_scope();
                self.push_work(Work::EndScope);
                self.interpret(v);
            },
            Stmt::If { condition, then_branch, else_branch } => {
                let el = match else_branch {
                    Some(b) => Some(*b),
                    None => None,
                };
                self.push_work(Work::Branch(*then_branch, el));
                self.push_work(Work::Eval(condition));
            },
            Stmt::While { condition, body } => {
                let c = condition.clone();
                self.push_work(Work::Loop(condition, *body));
                self.push_work(Work::Eval(c));
            },
        }
        Step::Continue
    }

    /// Evaluates an expression: pushes its value or schedules its parts.
    fn eval(&mut self, e: Expr) -> (r: Step)
        requires
            old(self).wf(),
        ensures
            final(self).wf(),
            (final(self)@, r@) == eval_spec(old(self)@, e),
    {
        match e {
            Expr::Literal(v) => {
                self.push_value(v);
            },
            Expr::Grouping(inner) => {
                self.push_work(Work::Eval(*inner));
            },
            Expr::Variable(tok) => match self.environment.get(&tok.lexeme) {
                Some(v) => {
                    self.push_value(v);
                },
                None => {
                    return self.fail(undefined(&tok.lexeme));
                },
            },
            Expr::Assign { name, value } => {
                self.push_work(Work::Assign(name.lexeme));
                self.push_work(Work::Eval(*value));
            },
            Expr::Unary { operator, right } => {
                self.push_work(Work::Unary(operator.token_type));
                self.push_work(Work::Eval(*right));
            },
            Expr::Binary { left, operator, right } => {
                self.push_work(Work::Binary(operator.token_type));
                self.push_work(Work::Eval(*right));
                self.push_work(Work::Eval(*left));
            },
            Expr::Logical { left, operator, right } => {
                self.push_work(Work::Logical(operator.token_type, *right));
                self.push_work(Work::Eval(*left));
            },
        }
        Step::Continue
    }

    /// Applies a binary operator to the two values on top.
    fn binary(&mut self, op: TokenType) -> (r: Step)
        requires
            old(self).wf(),
            old(self)@.values.len() >= 2,
        ensures
            final(self).wf(),
            (final(self)@, r@) == binary_step(old(self)@, op),
    {
        let ghost m = self@;
        let right = match self.values.pop() {
            Some(v) => v,
            None => Value::Nil,
        };
        let left = match self.values.pop() {
            Some(v) => v,
            None => Value::Nil,
        };
        assert(values_view(self.values@) =~= m.values.subrange(0, m.values.len() - 2));
        assert(left@ == m.values[m.values.len() - 2]);
        assert(right@ == m.values[m.values.len() - 1]);
        if is_arith_op(op) {
            match (left, right) {
                (Value::Number(a), Value::Number(b)) => Step::Arithmetic {
                    operator: op,
                    left: a,
                    right: b,
                },
                (Value::String(mut a), Value::String(b)) => {
                    if op == TokenType::Plus {
                        a.append(b.as_str());
                        self.push_value(Value::String(a));
                        Step::Continue
                    } else {
                        self.fail(String::from_str("Operands must be numbers."))
                    }
                },
                _ => {
                    if op == TokenType::Plus {
                        self.fail(String::from_str("Operands must be two numbers or two strings."))
                    } else {
                        self.fail(String::from_str("Operands must be numbers."))
                    }
                },
            }
        } else if is_compare_op(op) {
            match (left, right) {
                (Value::Number(a), Value::Number(b)) => {
                    let c = if op == TokenType::Less {
                        less(a, b)
                    } else if op == TokenType::LessEqual {
                        less_equal(a, b)
                    } else if op == TokenType::Greater {
                        less(b, a)
                    } else {
                        less_equal(b, a)
                    };
                    self.push_value(Value::Boolean(c));
                    Step::Continue
                },
                _ => self.fail(String::from_str("Operands must be numbers.")),
            }
        } else if op == TokenType::EqualEqual {
            let b = values_eq(&left, &right);
            self.push_value(Value::Boolean(b));
            Step::Continue
        } else if op == TokenType::BangEqual {
            let b = values_eq(&left, &right);
            self.push_value(Value::Boolean(!b));
            Step::Continue
        } else {
            self.fail(String::from_str("Invalid binary operator."))
        }
    }

    /// Carries out a work item that needs the value on top.
    fn apply(&mut self, w: Work) -> (r: Step)
        requires
            old(self).wf(),
            old(self)@.values.len() >= 1,
        ensures
            final(self).wf(),
            (final(self)@, r@) == apply_spec(old(self)@, w@),
    {
        let ghost m = self@;
        let top = match self.values.pop() {
            Some(v) => v,
            None => Value::Nil,
        };
        assert(values_view(self.values@) =~= m.values.drop_last());
        assert(top@ == m.values.last());
        match w {
            Work::Print => Step::Print(top),
            Work::Discard => Step::Continue,
            Work::Define(n) => {
                self.environment.define(n, top);
                Step::Continue
            },
            Work::Assign(n) => {
                let keep = top.clone();
                if self.environment.assign(&n, top) {
                    self.push_value(keep);
                    assert(values_view(self.values@) =~= m.values);
                    Step::Continue
                } else {
                    self.fail(undefined(&n))
                }
            },
            Work::Unary(op) => {
                if op == TokenType::Minus {
                    match top {
                        Value::Number(b) => {
                            self.push_value(Value::Number(negate(b)));
                            Step::Continue
                        },
                        _ => self.fail(String::from_str("Operand must be a number.")),
                    }
                } else if op == TokenType::Bang {
                    let t = top.is_truthy();
                    self.push_value(Value::Boolean(!t));
                    Step::Continue
                } else {
                    self.fail(String::from_str("Invalid unary operator."))
                }
            },
            Work::Logical(op, right) => {
                let t = top.is_truthy();
                if op == TokenType::And {
                    if !t {
                        self.push_value(top);
                        assert(values_view(self.values@) =~= m.values);
                    } else {
                        self.push_work(Work::Eval(right));
                    }
                    Step::Continue
                } else if op == TokenType::Or {
                    if t {
                        self.push_value(top);
                        assert(values_view(self.values@) =~= m.values);
                    } else {
                        self.push_work(Work::Eval(right));
                    }
                    Step::Continue
                } else {
                    self.fail(String::from_str("Invalid logical operator."))
                }
            },
            Work::Branch(th, el) => {
                if top.is_truthy() {
                    self.push_work(Work::Exec(th));
                } else {
                    match el {
                        Some(e) => {
                            self.push_work(Work::Exec(e));
                        },
                        None => {},
                    }
                }
                Step::Continue
            },
            Work::Loop(c, body) => {
                if top.is_truthy() {
                    let again = c.clone();
                    let b = copy_stmt(&body);
                    self.push_work(Work::Loop(c, body));
                    self.push_work(Work::Eval(again));
                    self.push_work(Work::Exec(b));
                }
                Step::Continue
            },
            _ => {
                self.push_value(top);
                assert(values_view(self.values@) =~= m.values);
                Step::Continue
            },
        }
    }
}

} // verus!
