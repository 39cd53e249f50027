//! The syntax tree, runtime values, and parse errors.
use vstd::prelude::*;
use crate::token::TokenInfo;

verus! {

/// A runtime value. A number is held as its IEEE-754 binary64 encoding.
#[derive(Debug)]
pub enum Value {
    String(String),
    Number(u64),
    Boolean(bool),
    Nil,
}

/// A runtime value as plain data: a string as its characters.
pub enum ValueView {
    String(Seq<char>),
    Number(u64),
    Boolean(bool),
    Nil,
}

impl ValueView {
    /// `nil` and `false` are falsy; every other value is truthy.
    pub open spec fn truthy(&self) -> bool {
        match self {
            ValueView::Nil => false,
            ValueView::Boolean(b) => *b,
            _ => true,
        }
    }
}

impl View for Value {
    type V = ValueView;

    open spec fn view(&self) -> ValueView {
        match self {
            Value::String(s) => ValueView::String(s@),
            Value::Number(n) => ValueView::Number(*n),
            Value::Boolean(b) => ValueView::Boolean(*b),
            Value::Nil => ValueView::Nil,
        }
    }
}

/// How a value other than a number prints; a number's text is the host's to write.
pub open spec fn display_text(v: ValueView) -> Option<Seq<char>> {
    match v {
        ValueView::String(s) => Some(s),
        ValueView::Number(_) => None,
        ValueView::Boolean(b) => Some(if b { "true"@ } else { "false"@ }),
        ValueView::Nil => Some("nil"@),
    }
}

impl Value {
    /// The printed form of a string, boolean or `nil`; `None` for a number.
    pub fn display(&self) -> (r: Option<String>)
        ensures
            match r {
                Some(t) => display_text(self@) == Some(t@),
                None => display_text(self@) is None,
            },
    {
        match self {
            Value::String(s) => Some(s.clone()),
            Value::Number(_) => None,
            Value::Boolean(b) => Some(
                if *b {
                    String::from_str("true")
                } else {
                    String::from_str("false")
                },
            ),
            Value::Nil => Some(String::from_str("nil")),
        }
    }

    pub fn is_truthy(&self) -> (r: bool)
        ensures
            r == self@.truthy(),
    {
        match self {
            Value::Nil => false,
            Value::Boolean(b) => *b,
            _ => true,
        }
    }
}

impl Clone for Value {
    fn clone(&self) -> (r: Self)
        ensures
            r == *self,
    {
        match self {
            Value::String(s) => Value::String(s.clone()),
            Value::Number(n) => Value::Number(*n),
            Value::Boolean(b) => Value::Boolean(*b),
            Value::Nil => Value::Nil,
        }
    }
}

/// An expression node; each node owns its children.
#[derive(Debug)]
pub enum Expr {
    Binary { left: Box<Expr>, operator: TokenInfo, right: Box<Expr> },
    Unary { operator: TokenInfo, right: Box<Expr> },
    Grouping(Box<Expr>),
    Literal(Value),
    Variable(TokenInfo),
    Assign { name: TokenInfo, value: Box<Expr> },
    Logical { left: Box<Expr>, operator: TokenInfo, right: Box<Expr> },
}

impl Clone for Expr {
    fn clone(&self) -> (r: Self)
        ensures
            r == *self,
        decreases self,
    {
        match self {
            Expr::Binary { left, operator, right } => Expr::Binary {
                left: Box::new((**left).clone()),
                operator: operator.clone(),
                right: Box::new((**right).clone()),
            },
            Expr::Unary { operator, right } => Expr::Unary {
                operator: operator.clone(),
                right: Box::new((**right).clone()),
            },
            Expr::Grouping(e) => Expr::Grouping(Box::new((**e).clone())),
            Expr::Literal(v) => Expr::Literal(v.clone()),
            Expr::Variable(t) => Expr::Variable(t.clone()),
            Expr::Assign { name, value } => Expr::Assign {
                name: name.clone(),
                value: Box::new((**value).clone()),
            },
            Expr::Logical { left, operator, right } => Expr::Logical {
                left: Box::new((**left).clone()),
                operator: operator.clone(),
                right: Box::new((**right).clone()),
            },
        }
    }
}

/// A statement node; each node owns its expressions and nested statements.
#[derive(Debug)]
pub enum Stmt {
    Expression(Expr),
    Print(Expr),
    Var { name: TokenInfo, initializer: Option<Expr> },
    Block(Vec<Stmt>),
    If { condition: Expr, then_branch: Box<Stmt>, else_branch: Option<Box<Stmt>> },
    While { condition: Expr, body: Box<Stmt> },
}

/// A statement as a mathematical tree: a block holds a sequence.
pub enum StmtView {
    Expression(Expr),
    Print(Expr),
    Var { name: TokenInfo, initializer: Option<Expr> },
    Block(Seq<StmtView>),
    If { condition: Expr, then_branch: Box<StmtView>, else_branch: Option<Box<StmtView>> },
    While { condition: Expr, body: Box<StmtView> },
}

pub open spec fn stmt_view(s: Stmt) -> StmtView
    decreases s,
{
    match s {
        Stmt::Expression(e) => StmtView::Expression(e),
        Stmt::Print(e) => StmtView::Print(e),
        Stmt::Var { name, initializer } => StmtView::Var { name, initializer },
        Stmt::Block(v) => StmtView::Block(
            Seq::new(
                v@.len(),
                |i: int|
                    if 0 <= i < v@.len() {
                        stmt_view(v[i])
                    } else {
                        StmtView::Block(Seq::empty())
                    },
            ),
        ),
        Stmt::If { condition, then_branch, else_branch } => StmtView::If {
            condition,
            then_branch: Box::new(stmt_view(*then_branch)),
            else_branch: match else_branch {
                Some(b) => Some(Box::new(stmt_view(*b))),
                None => None,
            },
        },
        Stmt::While { condition, body } => StmtView::While {
            condition,
            body: Box::new(stmt_view(*body)),
        },
    }
}

impl View for Stmt {
    type V = StmtView;

    open spec fn view(&self) -> StmtView {
        stmt_view(*self)
    }
}

/// The views of a sequence of statements.
pub open spec fn stmts_view(v: Seq<Stmt>) -> Seq<StmtView> {
    v.map_values(|s: Stmt| s@)
}

/// Whether a parse error arose in an expression rule or in a statement rule.
#[derive(Debug, Clone, Copy, PartialEq, Eq, Structural)]
pub enum ParsingErrorType {
    Expr,
    Stmt,
}

impl ParsingErrorType {
    /// The word a diagnostic uses for this kind.
    pub fn name(&self) -> (r: String)
        ensures
            r@ == (match self {
                ParsingErrorType::Expr => "expression"@,
                ParsingErrorType::Stmt => "statement"@,
            }),
    {
        match self {
            ParsingErrorType::Expr => String::from_str("expression"),
            ParsingErrorType::Stmt => String::from_str("statement"),
        }
    }
}

/// A syntax error. `expression` is set only for an expression statement that parsed
/// completely but lacks its `;`.
#[derive(Debug)]
pub struct ParsingError {
    pub error_type: ParsingErrorType,
    pub message: String,
    pub line: usize,
    pub expression: Option<Expr>,
}

/// What a parse error holds, as plain values.
pub struct ErrView {
    pub kind: ParsingErrorType,
    pub message: Seq<char>,
    pub line: int,
    pub expression: Option<Expr>,
}

impl View for ParsingError {
    type V = ErrView;

    open spec fn view(&self) -> ErrView {
        ErrView {
            kind: self.error_type,
            message: self.message@,
            line: self.line as int,
            expression: self.expression,
        }
    }
}

pub open spec fn errs_view(v: Seq<ParsingError>) -> Seq<ErrView> {
    v.map_values(|e: ParsingError| e@)
}

/// A block's view holds the views of its statements in order.
pub proof fn lemma_block_view(v: Vec<Stmt>)
    ensures
        Stmt::Block(v)@ == StmtView::Block(stmts_view(v@)),
{
    assert(Stmt::Block(v)@->Block_0 =~= stmts_view(v@));
}

} // verus!
