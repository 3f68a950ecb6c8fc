use new_parser::error::{Failure, ParseError};
use new_parser::span::Span;
use new_parser::statement::{statement, statement_let, statement_reassignment, Statement};
use new_parser::syntax::Expr;
use new_parser::token::{Token, TokenKind};

fn lex(src: &str) -> Vec<Token> {
    let bytes = src.as_bytes();
    let mut out = Vec::new();
    let mut i: usize = 0;
    while i < bytes.len() {
        let start = i;
        let c = bytes[i];
        let kind = if c.is_ascii_whitespace() {
            while i < bytes.len() && bytes[i].is_ascii_whitespace() {
                i += 1;
            }
            TokenKind::Whitespace
        } else if c.is_ascii_alphabetic() || c == b'_' {
            while i < bytes.len() && (bytes[i].is_ascii_alphanumeric() || bytes[i] == b'_') {
                i += 1;
            }
            match &src[start..i] {
                "let" => TokenKind::Let,
                "struct" => TokenKind::Struct,
                _ => TokenKind::Ident,
            }
        } else if c.is_ascii_digit() {
            while i < bytes.len() && bytes[i].is_ascii_digit() {
                i += 1;
            }
            TokenKind::Int
        } else {
            i += 1;
            match c {
                b':' => TokenKind::Colon,
                b'=' => TokenKind::Eq,
                b';' => TokenKind::Semicolon,
                b'+' => TokenKind::Plus,
                b'(' => TokenKind::LParen,
                b')' => TokenKind::RParen,
                _ => panic!("no token starts with {}", c as char),
            }
        };
        out.push(Token::new(kind, start, i));
    }
    out
}

fn text(src: &str, span: Span) -> &str {
    &src[span.start..span.end]
}

fn parse(src: &str) -> Result<(Statement, usize), Failure> {
    let toks = lex(src);
    statement(&toks, 0)
}

#[test]
fn let_without_type_is_let_spanning_keyword_to_semicolon() {
    let src = "let x = 1;";
    let toks = lex(src);
    let (s, end) = statement(&toks, 0).unwrap();
    assert_eq!(end, toks.len());
    assert_eq!(s.span(), Span::new(0, 10));
    match s {
        Statement::Let(l) => {
            assert!(l.ty.is_none());
            assert_eq!(text(src, l.pattern.span()), "x");
            assert_eq!(text(src, l.expr.span()), "1");
        },
        other => panic!("expected a let statement, got {:?}", other),
    }
}

#[test]
fn let_with_type_and_call_initializer() {
    let src = "let x: u64 = foo();";
    let toks = lex(src);
    let (s, end) = statement(&toks, 0).unwrap();
    assert_eq!(end, toks.len());
    assert_eq!(s.span(), Span::new(0, src.len()));
    match s {
        Statement::Let(l) => {
            let (colon, ty) = l.ty.expect("type annotation");
            assert_eq!(colon.kind, TokenKind::Colon);
            assert_eq!(text(src, ty.span()), "u64");
            match l.expr {
                Expr::Operand(o) => {
                    assert!(o.call.is_some());
                    assert_eq!(text(src, o.span()), "foo()");
                },
                other => panic!("expected a call, got {:?}", other),
            }
            assert_eq!(text(src, l.span()), src);
        },
        other => panic!("expected a let statement, got {:?}", other),
    }
}

#[test]
fn let_with_spaced_annotation() {
    let src = "let  y : T =  a + 2 ;";
    let (s, end) = parse(src).unwrap();
    assert_eq!(end, lex(src).len());
    assert_eq!(s.span(), Span::new(0, src.len()));
    assert!(matches!(s, Statement::Let(_)));
}

#[test]
fn reassignment_with_binary_addition() {
    let src = "counter = counter + 1;";
    let (s, _) = parse(src).unwrap();
    assert_eq!(s.span(), Span::new(0, src.len()));
    match s {
        Statement::Reassignment(r) => {
            assert_eq!(text(src, r.assignable.span()), "counter");
            match r.expr {
                Expr::Add { lhs, plus_token, rhs } => {
                    assert_eq!(text(src, lhs.span()), "counter");
                    assert_eq!(plus_token.kind, TokenKind::Plus);
                    assert_eq!(text(src, rhs.span()), "1");
                },
                other => panic!("expected an addition, got {:?}", other),
            }
        },
        other => panic!("expected a reassignment, got {:?}", other),
    }
}

#[test]
fn reassignment_wins_over_expression_statement() {
    let (s, end) = parse("x = 1;").unwrap();
    assert_eq!(end, 6);
    assert!(matches!(s, Statement::Reassignment(_)));
    assert_eq!(s.span(), Span::new(0, 6));
}

#[test]
fn addition_is_left_associative() {
    let src = "a + b() + 3;";
    let (s, _) = parse(src).unwrap();
    match s {
        Statement::Expr { expr: Expr::Add { lhs, rhs, .. }, semicolon_token } => {
            assert_eq!(text(src, lhs.span()), "a + b()");
            assert_eq!(text(src, rhs.span()), "3");
            assert_eq!(semicolon_token.span, Span::new(11, 12));
        },
        other => panic!("expected an addition statement, got {:?}", other),
    }
}

#[test]
fn call_is_expression_statement() {
    let src = "foo();";
    let (s, end) = parse(src).unwrap();
    assert_eq!(end, 4);
    assert_eq!(s.span(), Span::new(0, 6));
    assert!(matches!(s, Statement::Expr { .. }));
}

#[test]
fn expression_without_semicolon_is_expected_statement() {
    let r = parse("foo()");
    assert_eq!(
        r.unwrap_err(),
        Failure { error: ParseError::ExpectedStatement { span: Span::new(0, 3) }, committed: false }
    );
}

#[test]
fn committed_expression_failure_is_masked_at_top_level() {
    let r = parse("foo(;");
    assert_eq!(
        r.unwrap_err(),
        Failure { error: ParseError::ExpectedStatement { span: Span::new(0, 3) }, committed: false }
    );
    let r = parse("a + ;");
    assert_eq!(r.unwrap_err().error, ParseError::ExpectedStatement { span: Span::new(0, 1) });
}

#[test]
fn let_with_bad_pattern_is_committed_pattern_error() {
    let r = parse("let 1 = ;");
    assert_eq!(
        r.unwrap_err(),
        Failure { error: ParseError::ExpectedPattern { span: Span::new(4, 5) }, committed: true }
    );
}

#[test]
fn bare_let_is_committed_pattern_error() {
    let r = parse("let");
    assert_eq!(
        r.unwrap_err(),
        Failure { error: ParseError::ExpectedPattern { span: Span::new(3, 3) }, committed: true }
    );
}

#[test]
fn let_errors_after_commit_name_the_failing_part() {
    assert_eq!(
        parse("let x 1;").unwrap_err(),
        Failure { error: ParseError::ExpectedToken { kind: TokenKind::Eq, span: Span::new(6, 7) }, committed: true }
    );
    assert_eq!(
        parse("let x: 1 = 2;").unwrap_err(),
        Failure { error: ParseError::ExpectedType { span: Span::new(7, 8) }, committed: true }
    );
    assert_eq!(
        parse("let x = ;").unwrap_err(),
        Failure { error: ParseError::ExpectedExpr { span: Span::new(8, 9) }, committed: true }
    );
    assert_eq!(
        parse("let x = 1").unwrap_err(),
        Failure { error: ParseError::ExpectedToken { kind: TokenKind::Semicolon, span: Span::new(9, 9) }, committed: true }
    );
    assert_eq!(
        parse("let x = f(;").unwrap_err(),
        Failure { error: ParseError::ExpectedToken { kind: TokenKind::RParen, span: Span::new(10, 11) }, committed: true }
    );
}

#[test]
fn reassignment_commits_after_equals() {
    assert_eq!(
        parse("x = ;").unwrap_err(),
        Failure { error: ParseError::ExpectedExpr { span: Span::new(4, 5) }, committed: true }
    );
    assert_eq!(
        parse("x = 1 + ;").unwrap_err(),
        Failure { error: ParseError::ExpectedExpr { span: Span::new(8, 9) }, committed: true }
    );
    assert_eq!(
        parse("x = 1").unwrap_err(),
        Failure { error: ParseError::ExpectedToken { kind: TokenKind::Semicolon, span: Span::new(5, 5) }, committed: true }
    );
}

#[test]
fn keyword_glued_to_paren_does_not_commit() {
    let toks = lex("let(x);");
    assert_eq!(
        statement_let(&toks, 0).unwrap_err(),
        Failure { error: ParseError::ExpectedToken { kind: TokenKind::Whitespace, span: Span::new(3, 4) }, committed: false }
    );
    assert_eq!(
        statement(&toks, 0).unwrap_err(),
        Failure { error: ParseError::ExpectedStatement { span: Span::new(0, 3) }, committed: false }
    );
}

#[test]
fn item_statement() {
    let src = "struct Unit ;";
    let (s, end) = parse(src).unwrap();
    assert_eq!(end, 5);
    assert_eq!(s.span(), Span::new(0, src.len()));
    match s {
        Statement::Item(i) => assert_eq!(text(src, i.name.span), "Unit"),
        other => panic!("expected an item, got {:?}", other),
    }
    assert_eq!(
        parse("struct 1;").unwrap_err(),
        Failure { error: ParseError::ExpectedToken { kind: TokenKind::Ident, span: Span::new(7, 8) }, committed: true }
    );
}

#[test]
fn empty_input_is_expected_statement() {
    let toks: Vec<Token> = Vec::new();
    assert_eq!(
        statement(&toks, 0).unwrap_err(),
        Failure { error: ParseError::ExpectedStatement { span: Span::new(0, 0) }, committed: false }
    );
}

#[test]
fn parses_from_a_later_position() {
    let src = "a; b = c;";
    let toks = lex(src);
    let (first, next) = statement(&toks, 0).unwrap();
    assert!(matches!(first, Statement::Expr { .. }));
    assert_eq!(next, 2);
    let (second, end) = statement(&toks, 3).unwrap();
    assert_eq!(end, toks.len());
    assert_eq!(text(src, second.span()), "b = c;");
    assert!(matches!(second, Statement::Reassignment(_)));
}

#[test]
fn direct_form_parsers_fail_without_committing_on_other_forms() {
    let toks = lex("1 = 2;");
    assert_eq!(
        statement_reassignment(&toks, 0).unwrap_err(),
        Failure { error: ParseError::ExpectedAssignable { span: Span::new(0, 1) }, committed: false }
    );
    let toks = lex("x = 1;");
    assert_eq!(
        statement_let(&toks, 0).unwrap_err(),
        Failure { error: ParseError::ExpectedToken { kind: TokenKind::Let, span: Span::new(0, 1) }, committed: false }
    );
    let toks = lex("x + 1;");
    assert_eq!(
        statement_reassignment(&toks, 0).unwrap_err(),
        Failure { error: ParseError::ExpectedToken { kind: TokenKind::Eq, span: Span::new(2, 3) }, committed: false }
    );
    assert!(matches!(statement(&toks, 0).unwrap().0, Statement::Expr { .. }));
}

#[test]
fn span_joins_first_and_last_parts() {
    assert_eq!(Span::join(Span::new(2, 5), Span::new(9, 10)), Span::new(2, 10));
    let src = "let v = w;";
    let toks = lex(src);
    let (l, end) = statement_let(&toks, 0).unwrap();
    assert_eq!(l.span(), Span::join(toks[0].span, toks[end - 1].span));
    let src = "v = w ;";
    let toks = lex(src);
    let (r, end) = statement_reassignment(&toks, 0).unwrap();
    assert_eq!(r.span(), Span::new(0, 7));
    assert_eq!(end, toks.len());
}
