use cplus::ast::{Expression, Span, Statement};
use cplus::lexer::{Lexer, Token, TokenData};
use cplus::parser::{ParseError, Parser};

fn tok(data: TokenData, line: usize, col: usize) -> Token {
    Token { data, span: Span { line, col } }
}

#[test]
fn lexer_reads_a_declaration() {
    let mut lx = Lexer::new("let x = 10;");
    assert_eq!(lx.next_token(), tok(TokenData::Keyword("let".to_string()), 1, 1));
    assert_eq!(lx.next_token(), tok(TokenData::Identifier("x".to_string()), 1, 5));
    assert_eq!(lx.next_token(), tok(TokenData::Operator("=".to_string()), 1, 7));
    assert_eq!(lx.next_token(), tok(TokenData::Number("10".to_string()), 1, 9));
    assert_eq!(lx.next_token(), tok(TokenData::Symbol(';'), 1, 11));
    assert_eq!(lx.next_token(), tok(TokenData::EOF, 1, 12));
    assert_eq!(lx.next_token(), tok(TokenData::EOF, 1, 12));
}

#[test]
fn lexer_operators_comments_and_lines() {
    let mut lx = Lexer::new("a->b // note\n  i += 2;\n#include <x.h>\n\"s t\"");
    assert_eq!(lx.next_token(), tok(TokenData::Identifier("a".to_string()), 1, 1));
    assert_eq!(lx.next_token(), tok(TokenData::Operator("->".to_string()), 1, 2));
    assert_eq!(lx.next_token(), tok(TokenData::Identifier("b".to_string()), 1, 4));
    assert_eq!(lx.next_token(), tok(TokenData::Identifier("i".to_string()), 2, 3));
    assert_eq!(lx.next_token(), tok(TokenData::Operator("+=".to_string()), 2, 5));
    assert_eq!(lx.next_token(), tok(TokenData::Number("2".to_string()), 2, 8));
    assert_eq!(lx.next_token(), tok(TokenData::Symbol(';'), 2, 9));
    assert_eq!(lx.next_token(), tok(TokenData::RawC("#include <x.h>".to_string()), 3, 1));
    assert_eq!(lx.next_token(), tok(TokenData::StringLiteral("s t".to_string()), 4, 1));
    assert_eq!(lx.next_token(), tok(TokenData::EOF, 4, 6));
}

#[test]
fn lexer_skips_unknown_characters() {
    let mut lx = Lexer::new("@ x");
    assert_eq!(lx.next_token(), tok(TokenData::Identifier("x".to_string()), 1, 3));
}

#[test]
fn parser_reads_a_function_with_declarations() {
    let mut p = Parser::new("int main() {\n    let int a = 1;\n    return a;\n}");
    let ast = p.parse().unwrap();
    assert_eq!(ast.len(), 1);
    match &ast[0].data {
        Statement::FunctionDef(f) => {
            assert_eq!(f.name, "main");
            assert_eq!(f.return_ty, "int");
            assert!(f.params.is_empty());
            match &f.body.data {
                Statement::Block(stmts) => {
                    assert_eq!(stmts.len(), 2);
                    assert_eq!(stmts[0].span, Span { line: 2, col: 5 });
                    match &stmts[0].data {
                        Statement::LetDeclaration(d) => {
                            assert_eq!(d.ty, "int");
                            assert_eq!(d.name, "a");
                            match &d.init {
                                Some(e) => assert!(matches!(&e.data, Expression::Number(n) if n == "1")),
                                None => panic!("missing initializer"),
                            }
                        }
                        _ => panic!("expected a let declaration"),
                    }
                    assert!(matches!(&stmts[1].data, Statement::Return(Some(_))));
                }
                _ => panic!("expected a block"),
            }
        }
        _ => panic!("expected a function"),
    }
}

#[test]
fn parser_reads_struct_bind_and_fork() {
    let src = "struct A { int x = 2; char* s; }\nbind A { A(v) { host.x = v; } void destroy() { } }\nfork A as B { + int z; - x; } bind B { - destroy(); }";
    let mut p = Parser::new(src);
    let ast = p.parse().unwrap();
    assert_eq!(ast.len(), 3);
    match &ast[0].data {
        Statement::StructDef(d) => {
            assert_eq!(d.name, "A");
            assert_eq!(d.fields.len(), 2);
            assert_eq!(d.fields[1].ty, "char*");
            assert_eq!(d.fields[1].name, "s");
        }
        _ => panic!("expected a struct"),
    }
    match &ast[1].data {
        Statement::BindBlock(b) => {
            assert_eq!(b.functions.len(), 2);
            assert_eq!(b.functions[0].name, "A");
            assert_eq!(b.functions[0].return_ty, "void");
            assert_eq!(b.functions[0].params, vec![("int".to_string(), "v".to_string())]);
            assert_eq!(b.functions[1].name, "destroy");
        }
        _ => panic!("expected a bind block"),
    }
    match &ast[2].data {
        Statement::ForkBlock(f) => {
            assert_eq!(f.base_name, "A");
            assert_eq!(f.new_name, "B");
            assert_eq!(f.operations.len(), 2);
            assert_eq!(f.bind_ops.len(), 1);
        }
        _ => panic!("expected a fork"),
    }
}

#[test]
fn parser_error_expected_identifier() {
    let mut p = Parser::new("let 5;");
    match p.parse() {
        Err(ParseError::ExpectedIdentifier { span, found }) => {
            assert_eq!(span, Span { line: 1, col: 5 });
            assert_eq!(found, TokenData::Number("5".to_string()));
        }
        other => panic!("unexpected result {:?}", other),
    }
}

#[test]
fn parser_error_expected_symbol() {
    let mut p = Parser::new("let int a = 1");
    match p.parse() {
        Err(ParseError::ExpectedSymbol { span, expected, found }) => {
            assert_eq!(span, Span { line: 1, col: 14 });
            assert_eq!(expected, ';');
            assert_eq!(found, TokenData::EOF);
        }
        other => panic!("unexpected result {:?}", other),
    }
}

#[test]
fn parser_error_keyword_as_identifier() {
    let mut p = Parser::new("let int return;");
    match p.parse() {
        Err(ParseError::KeywordAsIdentifier { span, keyword }) => {
            assert_eq!(span, Span { line: 1, col: 9 });
            assert_eq!(keyword, "return");
        }
        other => panic!("unexpected result {:?}", other),
    }
}

#[test]
fn parser_error_expected_operator() {
    let mut p = Parser::new("alias T a r;");
    match p.parse() {
        Err(ParseError::ExpectedOperator { span, expected, found }) => {
            assert_eq!(span, Span { line: 1, col: 11 });
            assert_eq!(expected, "=");
            assert_eq!(found, TokenData::Identifier("r".to_string()));
        }
        other => panic!("unexpected result {:?}", other),
    }
}

#[test]
fn parser_error_unexpected_token() {
    let mut p = Parser::new("x = );");
    match p.parse() {
        Err(ParseError::UnexpectedToken { span, found }) => {
            assert_eq!(span, Span { line: 1, col: 5 });
            assert_eq!(found, TokenData::Symbol(')'));
        }
        other => panic!("unexpected result {:?}", other),
    }
}

#[test]
fn parser_error_missing_branches() {
    let mut p = Parser::new("if (x) ;");
    assert!(matches!(p.parse(), Err(ParseError::MissingThenBranch)));
    let mut q = Parser::new("if (x) y; else ;");
    assert!(matches!(q.parse(), Err(ParseError::MissingElseBranch)));
}

#[test]
fn parser_reads_a_cast() {
    let mut p = Parser::new("y = (int) x;");
    let ast = p.parse().unwrap();
    match &ast[0].data {
        Statement::Expression(e) => match &e.data {
            Expression::BinaryOp(l, op, r) => {
                assert!(matches!(&l.data, Expression::Identifier(n) if n == "y"));
                assert_eq!(op, "=");
                match &r.data {
                    Expression::BinaryOp(c, op2, x) => {
                        assert!(matches!(&c.data, Expression::Identifier(n) if n == "(int)"));
                        assert_eq!(op2, "");
                        assert!(matches!(&x.data, Expression::Identifier(n) if n == "x"));
                    }
                    _ => panic!("expected a cast"),
                }
            }
            _ => panic!("expected an assignment"),
        },
        _ => panic!("expected an expression"),
    }
}
