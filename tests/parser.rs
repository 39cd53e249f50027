use rlox::ast::{Expr, ParsingError, ParsingErrorType, Stmt, Value};
use rlox::parser::Parser;
use rlox::scanner::Scanner;
use rlox::token::{TokenInfo, TokenType};

fn tokens(src: &str) -> Vec<TokenInfo> {
    let mut sc = Scanner::new(&src.to_string());
    sc.scan_tokens().expect("the source scans");
    let mut toks = sc.tokens;
    for t in toks.iter_mut() {
        if t.token_type == TokenType::Number {
            t.number = Some(t.lexeme.parse::<f64>().unwrap().to_bits());
        }
    }
    toks
}

fn parse(src: &str) -> Result<Vec<Stmt>, Vec<ParsingError>> {
    Parser::new(tokens(src)).parse()
}

fn number(e: &Expr) -> f64 {
    match e {
        Expr::Literal(Value::Number(b)) => f64::from_bits(*b),
        other => panic!("not a number literal: {:?}", other),
    }
}

#[test]
fn invalid_assignment_target_is_one_expression_error() {
    let errs = parse("1 = 2;").unwrap_err();
    assert_eq!(errs.len(), 1);
    assert_eq!(errs[0].error_type, ParsingErrorType::Expr);
    assert!(errs[0].message.contains("assignment target"));
    assert_eq!(errs[0].line, 1);
}

#[test]
fn block_with_two_malformed_statements_gives_two_errors() {
    let errs = parse("{ var = 1; print ; }").unwrap_err();
    assert_eq!(errs.len(), 2);
    assert_eq!(errs[0].message, "Expect variable name.");
    assert_eq!(errs[1].message, "Expect expression.");
}

#[test]
fn recovery_stops_at_the_closing_brace() {
    let errs = parse("{ print 1 }").unwrap_err();
    assert_eq!(errs.len(), 1);
    assert_eq!(errs[0].message, "Expect ';' after value.");
}

#[test]
fn block_with_two_missing_semicolons_gives_two_errors() {
    let errs = parse("{ print 1 print 2 }").unwrap_err();
    assert_eq!(errs.len(), 2);
    for e in errs.iter() {
        assert_eq!(e.error_type, ParsingErrorType::Stmt);
        assert_eq!(e.message, "Expect ';' after value.");
    }
}

#[test]
fn recovery_resumes_at_the_next_statement_keyword() {
    let errs = parse("print 1 print 2 x").unwrap_err();
    assert_eq!(errs.len(), 2);
    assert_eq!(errs[0].message, "Expect ';' after value.");
    assert_eq!(errs[1].message, "Expect ';' after value.");
}

#[test]
fn statements_after_a_recovered_block_still_parse() {
    let errs = parse("{ print 1 } print ; var x = 1;").unwrap_err();
    assert_eq!(errs.len(), 2);
    assert_eq!(errs[1].message, "Expect expression.");
}

#[test]
fn errors_are_collected_across_statements() {
    let errs = parse("print 1;\nvar = 2;\nprint 3;\n(4;").unwrap_err();
    assert_eq!(errs.len(), 2);
    assert_eq!(errs[0].message, "Expect variable name.");
    assert_eq!(errs[0].error_type, ParsingErrorType::Stmt);
    assert_eq!(errs[0].line, 2);
    assert_eq!(errs[1].message, "Expect ')' after expression.");
    assert_eq!(errs[1].error_type, ParsingErrorType::Expr);
    assert_eq!(errs[1].line, 4);
}

#[test]
fn missing_semicolon_after_print() {
    let errs = parse("print 1").unwrap_err();
    assert_eq!(errs.len(), 1);
    assert_eq!(errs[0].message, "Expect ';' after value.");
    assert_eq!(errs[0].error_type, ParsingErrorType::Stmt);
}

#[test]
fn missing_semicolon_keeps_the_expression() {
    let errs = parse("1 + 2").unwrap_err();
    assert_eq!(errs.len(), 1);
    assert_eq!(errs[0].error_type, ParsingErrorType::Stmt);
    assert_eq!(errs[0].message, "Expect ';' after expression.");
    match &errs[0].expression {
        Some(Expr::Binary { operator, .. }) => assert_eq!(operator.token_type, TokenType::Plus),
        other => panic!("unexpected {:?}", other),
    }
}

#[test]
fn other_errors_carry_no_expression() {
    let errs = parse("print 1").unwrap_err();
    assert!(errs[0].expression.is_none());
}

#[test]
fn multiplication_binds_tighter_than_addition() {
    let stmts = parse("1 + 2 * 3;").unwrap();
    assert_eq!(stmts.len(), 1);
    match &stmts[0] {
        Stmt::Expression(Expr::Binary { left, operator, right }) => {
            assert_eq!(operator.token_type, TokenType::Plus);
            assert_eq!(number(left), 1.0);
            match right.as_ref() {
                Expr::Binary { left, operator, right } => {
                    assert_eq!(operator.token_type, TokenType::Star);
                    assert_eq!(number(left), 2.0);
                    assert_eq!(number(right), 3.0);
                }
                other => panic!("unexpected {:?}", other),
            }
        }
        other => panic!("unexpected {:?}", other),
    }
}

#[test]
fn subtraction_is_left_associative() {
    let stmts = parse("5 - 2 - 1;").unwrap();
    match &stmts[0] {
        Stmt::Expression(Expr::Binary { left, right, .. }) => {
            assert_eq!(number(right), 1.0);
            match left.as_ref() {
                Expr::Binary { left, right, .. } => {
                    assert_eq!(number(left), 5.0);
                    assert_eq!(number(right), 2.0);
                }
                other => panic!("unexpected {:?}", other),
            }
        }
        other => panic!("unexpected {:?}", other),
    }
}

#[test]
fn assignment_is_right_associative() {
    let stmts = parse("a = b = 1;").unwrap();
    match &stmts[0] {
        Stmt::Expression(Expr::Assign { name, value }) => {
            assert_eq!(name.lexeme, "a");
            match value.as_ref() {
                Expr::Assign { name, value } => {
                    assert_eq!(name.lexeme, "b");
                    assert_eq!(number(value), 1.0);
                }
                other => panic!("unexpected {:?}", other),
            }
        }
        other => panic!("unexpected {:?}", other),
    }
}

#[test]
fn logical_operators_build_logical_nodes() {
    let stmts = parse("a or b and c;").unwrap();
    match &stmts[0] {
        Stmt::Expression(Expr::Logical { operator, right, .. }) => {
            assert_eq!(operator.token_type, TokenType::Or);
            assert!(matches!(right.as_ref(), Expr::Logical { .. }));
        }
        other => panic!("unexpected {:?}", other),
    }
}

#[test]
fn for_is_desugared_into_a_while_loop() {
    let stmts = parse("for (var i = 0; i < 3; i = i + 1) print i;").unwrap();
    assert_eq!(stmts.len(), 1);
    match &stmts[0] {
        Stmt::Block(items) => {
            assert_eq!(items.len(), 2);
            assert!(matches!(&items[0], Stmt::Var { .. }));
            match &items[1] {
                Stmt::While { condition, body } => {
                    assert!(matches!(condition, Expr::Binary { .. }));
                    match body.as_ref() {
                        Stmt::Block(inner) => {
                            assert_eq!(inner.len(), 2);
                            assert!(matches!(&inner[0], Stmt::Print(_)));
                            assert!(matches!(&inner[1], Stmt::Expression(Expr::Assign { .. })));
                        }
                        other => panic!("unexpected {:?}", other),
                    }
                }
                other => panic!("unexpected {:?}", other),
            }
        }
        other => panic!("unexpected {:?}", other),
    }
}

#[test]
fn for_without_clauses_loops_on_true() {
    let stmts = parse("for (;;) print 1;").unwrap();
    match &stmts[0] {
        Stmt::While { condition, body } => {
            assert!(matches!(condition, Expr::Literal(Value::Boolean(true))));
            assert!(matches!(body.as_ref(), Stmt::Print(_)));
        }
        other => panic!("unexpected {:?}", other),
    }
}

#[test]
fn else_binds_to_the_nearest_if() {
    let stmts = parse("if (a) if (b) print 1; else print 2;").unwrap();
    match &stmts[0] {
        Stmt::If { then_branch, else_branch, .. } => {
            assert!(else_branch.is_none());
            assert!(matches!(then_branch.as_ref(), Stmt::If { else_branch: Some(_), .. }));
        }
        other => panic!("unexpected {:?}", other),
    }
}

#[test]
fn unclosed_block_is_an_error() {
    let errs = parse("{ print 1;").unwrap_err();
    assert_eq!(errs.len(), 1);
    assert_eq!(errs[0].message, "Expect '}' after block.");
}

#[test]
fn if_without_parenthesis_is_an_error() {
    let errs = parse("if x print 1;").unwrap_err();
    assert_eq!(errs[0].message, "Expect '(' after 'if'.");
    let errs = parse("while (x print 1;").unwrap_err();
    assert_eq!(errs[0].message, "Expect ')' after condition.");
    let errs = parse("for x").unwrap_err();
    assert_eq!(errs[0].message, "Expect '(' after 'for'.");
}

#[test]
fn stray_token_does_not_loop_forever() {
    let errs = parse(") ; print 1;").unwrap_err();
    assert_eq!(errs.len(), 1);
    assert_eq!(errs[0].message, "Expect expression.");
}

#[test]
fn var_declaration_with_and_without_initializer() {
    let stmts = parse("var a = \"s\"; var b;").unwrap();
    match &stmts[0] {
        Stmt::Var { name, initializer: Some(Expr::Literal(Value::String(s))) } => {
            assert_eq!(name.lexeme, "a");
            assert_eq!(s, "s");
        }
        other => panic!("unexpected {:?}", other),
    }
    assert!(matches!(&stmts[1], Stmt::Var { initializer: None, .. }));
}

#[test]
fn expression_entry_point_parses_one_expression() {
    let mut p = Parser::new(tokens("-(1) == !true"));
    let e = p.expression().unwrap();
    match e {
        Expr::Binary { left, operator, right } => {
            assert_eq!(operator.token_type, TokenType::EqualEqual);
            assert!(matches!(left.as_ref(), Expr::Unary { .. }));
            assert!(matches!(right.as_ref(), Expr::Unary { .. }));
        }
        other => panic!("unexpected {:?}", other),
    }
}

#[test]
fn error_kind_names() {
    assert_eq!(ParsingErrorType::Expr.name(), "expression");
    assert_eq!(ParsingErrorType::Stmt.name(), "statement");
}

fn render(src: &str) -> String {
    let e = Parser::new(tokens(src)).expression().unwrap();
    e.to_prefix(&|b: u64| format!("{}", f64::from_bits(b)))
}

#[test]
fn prefix_rendering_of_operators() {
    assert_eq!(render("-(1) == !true"), "(== (- (group 1)) (! true))");
    assert_eq!(render("1 + 2 * 3.5"), "(+ 1 (* 2 3.5))");
}

#[test]
fn prefix_rendering_of_assignment_and_strings() {
    assert_eq!(render("a = \"x\ny\" or nil"), "(assign a to (or \"x\\ny\" nil))");
    assert_eq!(render("b and false"), "(and b false)");
}
