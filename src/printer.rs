//! A prefix rendering of expression trees, as in `(+ 1 (* 2 3))`.
use vstd::prelude::*;
use crate::ast::{Expr, Value};
use crate::scanner::{chars_of, text_of};

verus! {

/// How a character of a string literal is written inside quotes.
pub open spec fn escape_char(c: char) -> Seq<char> {
    if c == '"' {
        seq!['\\', '"']
    } else if c == '\\' {
        seq!['\\', '\\']
    } else if c == '\n' {
        seq!['\\', 'n']
    } else if c == '\r' {
        seq!['\\', 'r']
    } else if c == '\t' {
        seq!['\\', 't']
    } else {
        seq![c]
    }
}

pub open spec fn escaped(s: Seq<char>) -> Seq<char>
    decreases s.len(),
{
    if s.len() == 0 {
        Seq::empty()
    } else {
        escaped(s.drop_last()) + escape_char(s.last())
    }
}

/// The text of a literal; a number is written as `num` renders it.
pub open spec fn literal_text(v: Value, num: spec_fn(u64) -> Seq<char>) -> Seq<char> {
    match v {
        Value::String(s) => seq!['"'] + escaped(s@) + seq!['"'],
        Value::Number(b) => num(b),
        Value::Boolean(b) => if b {
            seq!['t', 'r', 'u', 'e']
        } else {
            seq!['f', 'a', 'l', 's', 'e']
        },
        Value::Nil => seq!['n', 'i', 'l'],
    }
}

/// `(name part part ...)`
pub open spec fn wrap(name: Seq<char>, parts: Seq<char>) -> Seq<char> {
    seq!['('] + name + parts + seq![')']
}

/// The prefix rendering of an expression: an operator node as `(op left right)` or
/// `(op right)`, a grouping as `(group inner)`, an assignment as
/// `(assign name to value)`, a variable as its name, and a literal by `literal_text`.
pub open spec fn prefix(e: Expr, num: spec_fn(u64) -> Seq<char>) -> Seq<char>
    decreases e,
{
    match e {
        Expr::Binary { left, operator, right } => wrap(
            operator.lexeme@,
            seq![' '] + prefix(*left, num) + seq![' '] + prefix(*right, num),
        ),
        Expr::Logical { left, operator, right } => wrap(
            operator.lexeme@,
            seq![' '] + prefix(*left, num) + seq![' '] + prefix(*right, num),
        ),
        Expr::Unary { operator, right } => wrap(operator.lexeme@, seq![' '] + prefix(*right, num)),
        Expr::Grouping(inner) => wrap(seq!['g', 'r', 'o', 'u', 'p'], seq![' '] + prefix(*inner, num)),
        Expr::Assign { name, value } => wrap(
            seq!['a', 's', 's', 'i', 'g', 'n', ' '] + name.lexeme@ + seq![' ', 't', 'o'],
            seq![' '] + prefix(*value, num),
        ),
        Expr::Variable(tok) => tok.lexeme@,
        Expr::Literal(v) => literal_text(v, num),
    }
}

/// The renderer `f` gives the text `num(b)` for each number `b`.
pub open spec fn renders_as<F: Fn(u64) -> String>(f: F, num: spec_fn(u64) -> Seq<char>) -> bool {
    forall|b: u64, s: String| f.ensures((b,), s) ==> s@ == num(b)
}

fn append_str(out: &mut Vec<char>, s: &String)
    ensures
        final(out)@ == old(out)@ + s@,
{
    let mut cs = chars_of(s);
    out.append(&mut cs);
}

fn append_escaped(out: &mut Vec<char>, s: &String)
    ensures
        final(out)@ == old(out)@ + escaped(s@),
{
    let cs = chars_of(s);
    let mut i: usize = 0;
    assert(cs@.subrange(0, 0) =~= Seq::<char>::empty());
    while i < cs.len()
        invariant
            i <= cs@.len(),
            cs@ == s@,
            out@ == old(out)@ + escaped(cs@.subrange(0, i as int)),
        decreases cs@.len() - i,
    {
        let c = cs[i];
        let ghost before = out@;
        if c == '"' {
            out.push('\\');
            out.push('"');
        } else if c == '\\' {
            out.push('\\');
            out.push('\\');
        } else if c == '\n' {
            out.push('\\');
            out.push('n');
        } else if c == '\r' {
            out.push('\\');
            out.push('r');
        } else if c == '\t' {
            out.push('\\');
            out.push('t');
        } else {
            out.push(c);
        }
        assert(out@ =~= before + escape_char(c));
        assert(cs@.subrange(0, i + 1).drop_last() =~= cs@.subrange(0, i as int));
        assert(out@ =~= old(out)@ + escaped(cs@.subrange(0, i + 1)));
        i = i + 1;
    }
    assert(cs@.subrange(0, cs@.len() as int) =~= cs@);
}

fn write_prefix<F: Fn(u64) -> String>(e: &Expr, number: &F, out: &mut Vec<char>)
    requires
        forall|b: u64| number.requires((b,)),
    ensures
        forall|num: spec_fn(u64) -> Seq<char>|
            renders_as(*number, num) ==> final(out)@ == old(out)@ + prefix(*e, num),
    decreases e,
{
    let ghost start = out@;
    match e {
        Expr::Binary { left, operator, right } | Expr::Logical { left, operator, right } => {
            out.push('(');
            append_str(out, &operator.lexeme);
            out.push(' ');
            let ghost a = out@;
            write_prefix(left, number, out);
            let ghost b = out@;
            out.push(' ');
            let ghost c = out@;
            write_prefix(right, number, out);
            let ghost d = out@;
            out.push(')');
            assert forall|num: spec_fn(u64) -> Seq<char>| renders_as(*number, num) implies out@
                == start + prefix(*e, num) by {
                assert(out@ =~= start + prefix(*e, num));
            }
        },
        Expr::Unary { operator, right } => {
            out.push('(');
            append_str(out, &operator.lexeme);
            out.push(' ');
            let ghost a = out@;
            write_prefix(right, number, out);
            out.push(')');
            assert forall|num: spec_fn(u64) -> Seq<char>| renders_as(*number, num) implies out@
                == start + prefix(*e, num) by {
                assert(out@ =~= start + prefix(*e, num));
            }
        },
        Expr::Grouping(inner) => {
            out.push('(');
            out.push('g');
            out.push('r');
            out.push('o');
            out.push('u');
            out.push('p');
            out.push(' ');
            let ghost a = out@;
            write_prefix(inner, number, out);
            out.push(')');
            assert forall|num: spec_fn(u64) -> Seq<char>| renders_as(*number, num) implies out@
                == start + prefix(*e, num) by {
                assert(out@ =~= start + prefix(*e, num));
            }
        },
        Expr::Assign { name, value } => {
            out.push('(');
            out.push('a');
            out.push('s');
            out.push('s');
            out.push('i');
            out.push('g');
            out.push('n');
            out.push(' ');
            append_str(out, &name.lexeme);
            out.push(' ');
            out.push('t');
            out.push('o');
            out.push(' ');
            let ghost a = out@;
            write_prefix(value, number, out);
            out.push(')');
            assert forall|num: spec_fn(u64) -> Seq<char>| renders_as(*number, num) implies out@
                == start + prefix(*e, num) by {
                assert(out@ =~= start + prefix(*e, num));
            }
        },
        Expr::Variable(tok) => {
            append_str(out, &tok.lexeme);
        },
        Expr::Literal(v) => match v {
            Value::String(s) => {
                out.push('"');
                append_escaped(out, s);
                out.push('"');
                assert forall|num: spec_fn(u64) -> Seq<char>| renders_as(*number, num) implies out@
                    == start + prefix(*e, num) by {
                    assert(out@ =~= start + prefix(*e, num));
                }
            },
            Value::Number(b) => {
                let s = number(*b);
                append_str(out, &s);
            },
            Value::Boolean(b) => {
                if *b {
                    out.push('t');
                    out.push('r');
                    out.push('u');
                    out.push('e');
                } else {
                    out.push('f');
                    out.push('a');
                    out.push('l');
                    out.push('s');
                    out.push('e');
                }
                assert forall|num: spec_fn(u64) -> Seq<char>| renders_as(*number, num) implies out@
                    == start + prefix(*e, num) by {
                    assert(out@ =~= start + prefix(*e, num));
                }
            },
            Value::Nil => {
                out.push('n');
                out.push('i');
                out.push('l');
                assert(out@ =~= start + seq!['n', 'i', 'l']);
            },
        },
    }
}

impl Expr {
    /// The prefix rendering of this expression, with each number written by
    /// `number` from its binary64 encoding: for every `num` that `number` agrees
    /// with, the text is `prefix(self, num)`.
    pub fn to_prefix<F: Fn(u64) -> String>(&self, number: &F) -> (r: String)
        requires
            forall|b: u64| number.requires((b,)),
        ensures
            forall|num: spec_fn(u64) -> Seq<char>|
                renders_as(*number, num) ==> r@ == prefix(*self, num),
    {
        let mut out: Vec<char> = Vec::new();
        write_prefix(self, number, &mut out);
        assert forall|num: spec_fn(u64) -> Seq<char>| renders_as(*number, num) implies out@
            == prefix(*self, num) by {
            assert(out@ =~= Seq::<char>::empty() + prefix(*self, num));
        }
        text_of(&out, 0, out.len())
    }
}

} // verus!
