use illusio::analyzer::Analyzer;
use illusio::ast::{Expr, ExprKind, Type};
use illusio::compiler::{Compiler, Handler};
use illusio::token::Span;
use illusio::ir;
use illusio::ir::{BinOp, IrType};
use illusio::lexer::Lexer;
use illusio::lower::{is_lowerable_program, Lower};
use illusio::parser::Parser;
use illusio::string_spliter::split_string;
use illusio::token::TokenKind;
use illusio::typechecker::{is_supported_program, TypeChecker};

#[test]
fn binop_inverse() {
    assert_eq!(BinOp::Eq.inverse(), BinOp::Neq);
    assert_eq!(BinOp::Gt.inverse(), BinOp::Lt);
}

#[test]
fn escape_decoding_round_trips() {
    // An input literal containing a backslash-n decodes to an actual
    // newline byte, byte for byte.
    assert_eq!(split_string(b"a\\nb".to_vec()), b"a\nb".to_vec());
    assert_eq!(split_string(b"tab\\there".to_vec()), b"tab\there".to_vec());
    assert_eq!(split_string(b"back\\\\slash".to_vec()), b"back\\slash".to_vec());
    assert_eq!(split_string(b"plain".to_vec()), b"plain".to_vec());
}

#[test]
fn lexer_basic_tokens() {
    let mut lx = Lexer::new("x int = 10;", "t");
    let kinds: Vec<TokenKind> = (0..6).map(|_| lx.next().kind).collect();
    assert_eq!(
        kinds,
        vec![
            TokenKind::Identifier,
            TokenKind::IntTy,
            TokenKind::Equal,
            TokenKind::Int,
            TokenKind::SemiColon,
            TokenKind::Eof,
        ]
    );
}

#[test]
fn lexer_operators_and_keywords() {
    let mut lx = Lexer::new("if a >= 2 do end", "t");
    let kinds: Vec<TokenKind> = (0..7).map(|_| lx.next().kind).collect();
    assert_eq!(
        kinds,
        vec![
            TokenKind::IfKw,
            TokenKind::Identifier,
            TokenKind::GreaterThanEqual,
            TokenKind::Int,
            TokenKind::Do,
            TokenKind::End,
            TokenKind::Eof,
        ]
    );
}

#[test]
fn lexer_double_quoted_literal_decodes_escapes() {
    // A double-quoted literal keeps its backslashes for decoding: the
    // two input bytes backslash-n become one newline byte.
    let mut lx = Lexer::new("\"a\\nb\"", "t");
    let tok = lx.next();
    assert_eq!(tok.kind, TokenKind::String);
    assert_eq!(tok.literal, "a\nb");
}

#[test]
fn lexer_single_quoted_literal_drops_bare_backslashes() {
    // The single-quote path consumes a backslash while looking for an
    // escaped quote, so only the escaped byte itself remains.
    let mut lx = Lexer::new("'a\\nb'", "t");
    let tok = lx.next();
    assert_eq!(tok.kind, TokenKind::String);
    assert_eq!(tok.literal, "anb");
}

#[test]
fn lexer_unterminated_string_reports() {
    let mut lx = Lexer::new("'abc", "t");
    let tok = lx.next();
    assert_eq!(tok.kind, TokenKind::String);
    assert_eq!(lx.errors.len(), 1);
    assert_eq!(lx.errors[0].message, "Unterminated String");
}

#[test]
fn lexer_comments_are_skipped() {
    let mut lx = Lexer::new("# line\n1 #* block *# hmm", "t");
    assert_eq!(lx.next().kind, TokenKind::Int);
    // The block comment's closing byte opens a line comment, which eats
    // the rest of the line.
    assert_eq!(lx.next().kind, TokenKind::Eof);
}

#[test]
fn parser_variable_declaration() {
    let mut p = Parser::new("x int = 10;", "t");
    let ast = p.parse();
    assert!(!p.finish());
    assert_eq!(ast.len(), 2);
    match &ast[0].inner {
        ExprKind::Var(name, value, ty) => {
            assert_eq!(name, "x");
            assert_eq!(*ty, Type::Int);
            assert_eq!(value.inner, ExprKind::Int(10));
        }
        other => panic!("not a declaration: {other:?}"),
    }
    assert_eq!(ast[1].inner, ExprKind::Eof);
}

#[test]
fn parser_precedence() {
    let mut p = Parser::new("1 + 2 * 3;", "t");
    let ast = p.parse();
    match &ast[0].inner {
        ExprKind::Binary(l, op, r) => {
            assert_eq!(*op, TokenKind::Plus);
            assert_eq!(l.inner, ExprKind::Int(1));
            match &r.inner {
                ExprKind::Binary(rl, rop, rr) => {
                    assert_eq!(*rop, TokenKind::Asterisk);
                    assert_eq!(rl.inner, ExprKind::Int(2));
                    assert_eq!(rr.inner, ExprKind::Int(3));
                }
                other => panic!("not a product: {other:?}"),
            }
        }
        other => panic!("not a sum: {other:?}"),
    }
}

#[test]
fn parser_hex_and_overflow_literals() {
    let mut p = Parser::new("0xff;", "t");
    let ast = p.parse();
    assert_eq!(ast[0].inner, ExprKind::Int(255));

    let mut p2 = Parser::new("99999999999999999999;", "t");
    let ast2 = p2.parse();
    assert_eq!(ast2[0].inner, ExprKind::Error);
    assert!(p2.finish());
    assert_eq!(p2.errors[0].message, "Int parsing error: Positive Overflow");
}

#[test]
fn parser_float_literal_keeps_text() {
    let mut p = Parser::new("3.25;", "t");
    let ast = p.parse();
    assert_eq!(ast[0].inner, ExprKind::Float("3.25".to_owned(), 0));

    // A radix point after a hexadecimal literal is not a float.
    let mut p2 = Parser::new("0x1.5;", "t");
    let ast2 = p2.parse();
    assert_eq!(ast2[0].inner, ExprKind::Error);
    assert_eq!(p2.errors[0].message, "Error while parsing float.");
}

#[test]
fn parser_if_block() {
    let mut p = Parser::new("if x > 5 puts; end", "t");
    let ast = p.parse();
    match &ast[0].inner {
        ExprKind::If(cond, body) => {
            assert!(matches!(cond.inner, ExprKind::Binary(_, TokenKind::GreaterThan, _)));
            assert_eq!(body.len(), 1);
        }
        other => panic!("not a conditional: {other:?}"),
    }
}

#[test]
fn typechecker_counts_mismatches() {
    let mut p = Parser::new("x int = 'oops';", "t");
    let ast = p.parse();
    assert!(is_supported_program(&ast));
    let mut tc = TypeChecker::new(&ast, "x int = 'oops';", "t");
    assert!(tc.check());
    assert_eq!(tc.errors.len(), 1);
    assert_eq!(
        tc.errors[0].message,
        "Expected type int found type string"
    );
}

#[test]
fn typechecker_accepts_well_typed() {
    let src = "x int = 2 + 3;";
    let mut p = Parser::new(src, "t");
    let ast = p.parse();
    assert!(is_supported_program(&ast));
    let mut tc = TypeChecker::new(&ast, src, "t");
    assert!(!tc.check());
}

#[test]
fn lowering_a_declaration() {
    let src = "x int = 2 + 3;";
    let mut p = Parser::new(src, "t");
    let ast = p.parse();
    // The end-of-input marker is not lowerable; the statements before it
    // are.
    assert!(is_lowerable_program(&ast) == false);
    let stmts: Vec<illusio::ast::Expr> = ast
        .into_iter()
        .filter(|e| !matches!(e.inner, ExprKind::Eof))
        .collect();
    assert!(is_lowerable_program(&stmts));
    let tc = TypeChecker::new(&stmts, src, "t");
    let mut lower = Lower::new(&stmts, tc);
    lower.translate();
    assert_eq!(lower.builder.code.len(), 1);
    match &lower.builder.code[0] {
        ir::Stmt::Var(name, value, ty) => {
            assert_eq!(name, "x");
            assert_eq!(*ty, IrType::Int);
            match value {
                ir::Expr::Value(ir::IrValue::Binary(l, op, r), vty) => {
                    assert_eq!(*op, BinOp::Add);
                    assert_eq!(*vty, IrType::Int);
                    assert_eq!(
                        **l,
                        ir::Expr::Value(ir::IrValue::Literal(ir::Literal::Int(2)), IrType::Int)
                    );
                    assert_eq!(
                        **r,
                        ir::Expr::Value(ir::IrValue::Literal(ir::Literal::Int(3)), IrType::Int)
                    );
                }
                other => panic!("not a sum: {other:?}"),
            }
        }
        other => panic!("not a declaration: {other:?}"),
    }
}

#[test]
fn unary_minus_is_not_yet_lowerable() {
    let mut p = Parser::new("-1;", "t");
    let ast = p.parse();
    assert!(matches!(ast[0].inner, ExprKind::Unary(TokenKind::Minus, _)));
    assert!(!is_supported_program(&ast));
}

fn sp(inner: ExprKind) -> Expr {
    Expr { inner, span: Span::new(0, 0) }
}

#[test]
fn end_to_end_scenario_lowers_and_compiles() {
    // The checked statement sequence: x int = 10, then a conditional on
    // x > 5 whose arm performs one output call with "big". Lowering
    // yields exactly a declaration and a conditional with an empty else
    // arm; the condition's recorded IR type is its left operand's
    // checked type (an integer), per the lowering rule. The code
    // generator places one "big" blob, emits one output call, and the
    // program compiles to native code.
    let decl = sp(ExprKind::Var(
        "x".to_owned(),
        Box::new(sp(ExprKind::Int(10))),
        Type::Int,
    ));
    let cond = sp(ExprKind::Binary(
        Box::new(sp(ExprKind::Ident("x".to_owned()))),
        TokenKind::GreaterThan,
        Box::new(sp(ExprKind::Int(5))),
    ));
    let body = sp(ExprKind::Puts(vec![sp(ExprKind::Str("big".to_owned()))]));
    let iff = sp(ExprKind::If(Box::new(cond), vec![body]));
    let ast = vec![decl, iff];

    assert!(is_supported_program(&ast));
    let mut tc = TypeChecker::new(&ast, "", "t");
    assert!(!tc.check());
    assert!(is_lowerable_program(&ast));

    let tc2 = TypeChecker::new(&ast, "", "t");
    let mut lower = Lower::new(&ast, tc2);
    lower.translate();
    let code = lower.builder.code;
    assert_eq!(code.len(), 2);
    assert!(matches!(&code[0], ir::Stmt::Var(n, _, IrType::Int) if n == "x"));
    match &code[1] {
        ir::Stmt::If(c, then_arm, else_arm) => {
            assert!(matches!(
                c,
                ir::Expr::Value(ir::IrValue::Binary(_, BinOp::Gt, _), IrType::Int)
            ));
            assert_eq!(then_arm.len(), 1);
            assert!(else_arm.is_empty());
            assert!(matches!(&then_arm[0], ir::Stmt::ExprStmt(ir::Expr::PrintStr(_))));
        }
        other => panic!("not a conditional: {other:?}"),
    }

    let mut h = Handler::new();
    h.translate(&code);
    let puts_calls = h
        .acts
        .iter()
        .filter(|a| matches!(a, illusio::acts::Act::CallPuts(_, _)))
        .count();
    assert_eq!(puts_calls, 1);
    assert_eq!(h.strs, vec![b"big\0".to_vec()]);

    let compiler = Compiler::new().expect("host unsupported");
    assert!(compiler.compile(&code).is_ok());
}

#[test]
fn typechecker_rejects_mixed_binary() {
    let src = "1 + 'a';";
    let mut p = Parser::new(src, "t");
    let ast = p.parse();
    assert!(is_supported_program(&ast));
    let mut tc = TypeChecker::new(&ast, src, "t");
    assert!(tc.check());
    assert_eq!(
        tc.errors[0].message,
        "Cannot do binary operations, with different types"
    );
}

#[test]
fn analyzer_reports_unbound_reads() {
    let src = "x int = 1; y;";
    let mut p = Parser::new(src, "t");
    let ast = p.parse();
    let mut an = Analyzer::new(&ast, src.to_owned(), "t".to_owned());
    assert!(an.analyze());
    assert_eq!(an.errors.len(), 1);
    assert_eq!(an.errors[0].message, "Variable not found in the current scope");

    let src2 = "x int = 1; x;";
    let mut p2 = Parser::new(src2, "t");
    let ast2 = p2.parse();
    let mut an2 = Analyzer::new(&ast2, src2.to_owned(), "t".to_owned());
    assert!(!an2.analyze());
}

#[test]
fn lexer_peek_next_sees_the_coming_byte() {
    let lx = Lexer::new("ab", "t");
    assert_eq!(lx.peek_next(), Some(b'b'));
    let lx2 = Lexer::new("a", "t");
    assert_eq!(lx2.peek_next(), None);
}

#[test]
fn token_kind_text() {
    assert_eq!(TokenKind::Plus.text(), "+");
    assert_eq!(TokenKind::GreaterThanEqual.text(), ">=");
    assert_eq!(TokenKind::Eof.text(), "<eof>");
    assert_eq!(TokenKind::Bool(true).text(), "true");
}
