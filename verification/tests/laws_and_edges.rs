use cplus::ast::{Expression, Span, Statement};
use cplus::checker::OwnershipChecker;
use cplus::config::{Config, Profile};
use cplus::codegen::Generator;
use cplus::lexer::{Lexer, Token, TokenData};
use cplus::parser::Parser;
use cplus::report::error_position;
use cplus::transpiler::{transpile_source, TranspileError};

fn generate(src: &str) -> String {
    let mut p = Parser::new(src);
    let ast = p.parse().unwrap();
    let mut g = Generator::new();
    g.generate(&ast)
}

fn tok(data: TokenData, line: usize, col: usize) -> Token {
    Token { data, span: Span { line, col } }
}

#[test]
fn lexer_classifies_unicode_characters() {
    let mut lx = Lexer::new("let é1 = \u{663};\u{3000}x");
    assert_eq!(lx.next_token(), tok(TokenData::Keyword("let".to_string()), 1, 1));
    assert_eq!(lx.next_token(), tok(TokenData::Identifier("é1".to_string()), 1, 5));
    assert_eq!(lx.next_token(), tok(TokenData::Operator("=".to_string()), 1, 8));
    assert_eq!(lx.next_token(), tok(TokenData::Number("\u{663}".to_string()), 1, 10));
    assert_eq!(lx.next_token(), tok(TokenData::Symbol(';'), 1, 11));
    assert_eq!(lx.next_token(), tok(TokenData::Identifier("x".to_string()), 1, 13));
}

#[test]
fn generator_clones_nested_structs_deeply() {
    let out = generate("struct A { int x; }\nstruct B { A a; int n; }");
    assert!(out.contains("B B_clone(const B* source) {\n    B dest;\n    dest.a = A_clone(&source->a);\n    dest.n = source->n;\n    return dest;\n}\n"));
}

#[test]
fn generator_fork_inherits_renames_and_patches_functions() {
    let src = "struct A { int x; }\nbind A { A(v) { host.x = v; } void show() { } }\nfork A as B { + int y; } bind B { patch show as void show() { } void destroy() { } }";
    let out = generate(src);
    assert!(out.contains("void A_init(A* host, int v) {\n    host->x = v;\n}\n\n"));
    assert!(out.contains("void A_show(A* host) {\n}\n\n"));
    assert!(out.contains("void B_init(B* host, int v) {\n    host->x = v;\n}\n\nvoid B_show(B* host) {\n}\n\nvoid B_destroy(B* host) {\n}\n\n"));
    assert!(out.contains("typedef struct B {\n    int x;\n    int y;\n} B;\n"));
}

#[test]
fn generator_return_destroys_innermost_first() {
    let src = "struct R { int id; }\nbind R { void destroy() { } }\nint f() { let R a; { let R b; return 0; } }";
    let out = generate(src);
    assert!(out.contains("int f() {\n    R a = {0};\n{\n        R b = {0};\n        R_destroy(&b);\n        R_destroy(&a);\n        return 0;\n    }}\n\n"));
}

#[test]
fn generator_moved_value_is_destroyed_once() {
    let src = "struct R { int id; }\nbind R { void destroy() { } }\nint main() { { let R a; let R b = a; } }";
    let out = generate(src);
    assert!(out.contains("{\n        R a = {0};\n        R b = a;\n        R_destroy(&b);\n    }"));
    assert!(!out.contains("R_destroy(&a)"));
}

#[test]
fn generator_spawn_with_pointer_and_owned_arguments() {
    let src = "struct R { int id; }\nbind R { void destroy() { } }\nvoid use(R* p, R r) { }\nint main() { let R r; alias R p = r; spawn use(p, r); spawn use(q); }";
    let out = generate(src);
    assert!(out.contains("typedef struct _spawn_args_0 {\n    R* arg0;\n    R arg1;\n} _spawn_args_0;\nvoid* _spawn_wrapper_0(void* raw_arg);\n\n"));
    assert!(out.contains("    R* val0 = args->arg0;\n    R val1 = args->arg1;\n    free(args);\n\n    use(val0, val1);\n\n    R_destroy(val0);\n    R_destroy(&val1);\n    return NULL;\n}\n\n"));
    assert!(out.contains("typedef struct _spawn_args_1 {\n    q arg0;\n} _spawn_args_1;\n"));
}

#[test]
fn ownership_error_location_reads_back() {
    let src = "int main() {\n  let T a;\n  let T b = a;\n  let T c = a;\n}";
    match transpile_source(src) {
        Err(TranspileError::Ownership(m)) => {
            assert_eq!(m, "[4:13] Use of moved value: 'a'");
            assert_eq!(error_position(&m), Some((4, 13)));
        }
        other => panic!("unexpected {:?}", other),
    }
}

#[test]
fn statements_after_an_ownership_error_are_not_checked() {
    let src = "int main() { let T a; let T b = a; let T c = a; x = 1; }";
    match transpile_source(src) {
        Err(TranspileError::Ownership(m)) => assert!(m.contains("Use of moved value")),
        other => panic!("unexpected {:?}", other),
    }
}

#[test]
fn while_loop_parses() {
    let mut p = Parser::new("while (i < 3) { i = i + 1; }");
    let ast = p.parse().unwrap();
    assert_eq!(ast.len(), 1);
    match &ast[0].data {
        Statement::While { condition, body } => {
            match &condition.data {
                Expression::BinaryOp(l, op, r) => {
                    assert!(matches!(&l.data, Expression::Identifier(n) if n == "i"));
                    assert_eq!(op, "<");
                    assert!(matches!(&r.data, Expression::Number(n) if n == "3"));
                }
                other => panic!("unexpected {:?}", other),
            }
            match &body.data {
                Statement::Block(stmts) => {
                    assert_eq!(stmts.len(), 1);
                    match &stmts[0].data {
                        Statement::Expression(e) => match &e.data {
                            Expression::BinaryOp(l, op, r) => {
                                assert!(matches!(&l.data, Expression::Identifier(n) if n == "i"));
                                assert_eq!(op, "=");
                                assert!(matches!(&r.data, Expression::BinaryOp(_, o, _) if o == "+"));
                            }
                            other => panic!("unexpected {:?}", other),
                        },
                        other => panic!("unexpected {:?}", other),
                    }
                }
                other => panic!("unexpected {:?}", other),
            }
        }
        other => panic!("unexpected {:?}", other),
    }
}

#[test]
fn while_loop_generates_c() {
    let out = generate("int main() { unsafe int i = 0; while (i < 3) { i = i + 1; } }");
    assert!(out.contains("    int i = 0;\n    while ((i) < (3)) {\n        i = (i) + (1);\n    }\n"));
}

#[test]
fn for_loop_generates_c() {
    let out = generate("int main() { for (let int i = 0; i < 3; i = i + 1) { f(i); } }");
    assert!(out.contains("    for (int i = 0; (i) < (3); i = (i) + (1)) {\n        f(i);\n    }\n"));
}

#[test]
fn for_loop_clauses_may_be_empty() {
    let mut p = Parser::new("for (;;) ;");
    let ast = p.parse().unwrap();
    match &ast[0].data {
        Statement::For { init, condition, step, body } => {
            assert!(init.is_none() && condition.is_none() && step.is_none());
            assert!(matches!(&body.data, Statement::Block(v) if v.is_empty()));
        }
        other => panic!("unexpected {:?}", other),
    }
    let out = generate("int main() { for (;;) { } }");
    assert!(out.contains("    for (; ; ) {\n    }\n"));
}

#[test]
fn for_loop_with_expression_init() {
    let mut p = Parser::new("for (i = 0; i < n; i = i + 1) x = x + i;");
    let ast = p.parse().unwrap();
    match &ast[0].data {
        Statement::For { init: Some(init), condition: Some(_), step: Some(_), body } => {
            assert!(matches!(&init.data, Statement::Expression(_)));
            assert!(matches!(&body.data, Statement::Expression(_)));
        }
        other => panic!("unexpected {:?}", other),
    }
}

#[test]
fn for_loop_head_needs_semicolons() {
    let mut p = Parser::new("for (i = 0 i < n) { }");
    match p.parse() {
        Err(cplus::parser::ParseError::ExpectedSymbol { expected, .. }) => assert_eq!(expected, ';'),
        other => panic!("unexpected {:?}", other),
    }
}

#[test]
fn address_of_parses_as_prefix_operator() {
    let mut p = Parser::new("unsafe int* p = &some_c_val;");
    let ast = p.parse().unwrap();
    assert_eq!(ast.len(), 1);
    assert_eq!(ast[0].span, Span { line: 1, col: 1 });
    match &ast[0].data {
        Statement::UnsafeDeclaration(d) => {
            assert_eq!(d.ty, "int*");
            assert_eq!(d.name, "p");
            assert!(d.constructor_call.is_none());
            match &d.init {
                Some(e) => match &e.data {
                    Expression::UnaryOp(op, x, postfix) => {
                        assert_eq!(op, "&");
                        assert!(!postfix);
                        assert!(matches!(&x.data, Expression::Identifier(n) if n == "some_c_val"));
                    }
                    other => panic!("unexpected {:?}", other),
                },
                None => panic!("no initializer"),
            }
        }
        other => panic!("unexpected {:?}", other),
    }
}

#[test]
fn prefix_operators_bind_tighter_than_products() {
    let out = generate("int main() { unsafe int a = -b * c; unsafe int* q = &v; *q = !a; }");
    assert!(out.contains("    int a = (-b) * (c);\n"));
    assert!(out.contains("    int* q = &v;\n"));
    assert!(out.contains("    *q = !a;\n"));
}

#[test]
fn unsafe_variable_is_not_move_checked() {
    let mut p = Parser::new("unsafe int x = 5;\nf(x);\nf(x);");
    let ast = p.parse().unwrap();
    let mut c = OwnershipChecker::new();
    assert_eq!(c.check(&ast), Ok(()));
    assert!(transpile_source("int main() { unsafe int x = 5; f(x); f(x); let int y = x; g(x); return 0; }").is_ok());
}

#[test]
fn unsafe_variable_can_be_written_while_aliased() {
    assert!(transpile_source("int main() { unsafe int x = 5; alias mut int m = x; x = 6; f(x); return 0; }").is_ok());
}

#[test]
fn unsafe_variable_is_never_destroyed() {
    let out = generate("struct R { int id; }\nbind R { void destroy() { } }\nint main() { { unsafe R u; let R r; } }");
    assert!(out.contains("{\n        R u = {0};\n        R r = {0};\n        R_destroy(&r);\n    }"));
    assert!(!out.contains("R_destroy(&u)"));
}

#[test]
fn checking_in_parts_is_checking_the_whole() {
    let mut p1 = Parser::new("let T a; let T b = a;");
    let a = p1.parse().unwrap();
    let mut p2 = Parser::new("let T c = b; let T d = a;");
    let b = p2.parse().unwrap();
    let mut p3 = Parser::new("let T a; let T b = a;\nlet T c = b; let T d = a;");
    let whole = p3.parse().unwrap();
    let mut c1 = OwnershipChecker::new();
    assert_eq!(c1.check(&a), Ok(()));
    let second = c1.check(&b);
    let mut c2 = OwnershipChecker::new();
    let all = c2.check(&whole);
    assert!(second.is_err());
    assert_eq!(second.unwrap_err().split("] ").nth(1), all.unwrap_err().split("] ").nth(1));
}

#[test]
fn words_lex_whole() {
    let mut lx = Lexer::new("letter");
    assert_eq!(lx.next_token(), tok(TokenData::Identifier("letter".to_string()), 1, 1));
    let mut lx = Lexer::new("while");
    assert_eq!(lx.next_token(), tok(TokenData::Keyword("while".to_string()), 1, 1));
    let mut lx = Lexer::new("_x9");
    assert_eq!(lx.next_token(), tok(TokenData::Identifier("_x9".to_string()), 1, 1));
}

#[test]
fn lexer_skips_unicode_white_space() {
    let mut lx = Lexer::new("\u{85}\u{a0}\u{2009}x\u{200b}");
    assert_eq!(lx.next_token(), tok(TokenData::Identifier("x".to_string()), 1, 4));
    assert_eq!(lx.next_token(), tok(TokenData::EOF, 1, 6));
}

#[test]
fn configuration_defaults_are_empty() {
    let c = Config::default();
    assert_eq!(c.package.name, "");
    assert_eq!(c.package._type, "");
    assert!(c.build.flags.is_empty() && c.build.libs.is_empty());
    assert!(c.profile.is_empty() && c.dependencies.is_empty());
    let p = Profile::default();
    assert!(p.flags.is_empty() && p.opt_level.is_none());
}

#[test]
fn unsafe_declaration_does_not_move() {
    let src = "int main() { let T a; unsafe T b = a; let T c = a; return 0; }";
    assert!(transpile_source(src).is_ok());
}

#[test]
fn mutable_alias_is_a_plain_pointer() {
    let out = generate("int main() { let T d; alias mut T m = d; m.x = 1; }");
    assert!(out.contains("    T* m = &d;\n"));
    assert!(out.contains("    m->x = 1;\n"));
}

#[test]
fn generator_keeps_earlier_text() {
    let mut p1 = Parser::new("struct P { int x; }");
    let ast1 = p1.parse().unwrap();
    let mut p2 = Parser::new("int main() { return 0; }");
    let ast2 = p2.parse().unwrap();
    let mut g = Generator::new();
    let first = g.generate(&ast1);
    let second = g.generate(&ast2);
    assert!(second.starts_with(&first[..first.len() - 1]));
    assert!(second.ends_with("int main() {\n    return 0;\n}\n\n\n"));
}

#[test]
fn moves_inside_a_while_body_are_checked() {
    let src = "int main() { let T a; unsafe int c = 1; while (c) { let T b = a; } let T d = a; return 0; }";
    match transpile_source(src) {
        Err(TranspileError::Ownership(m)) => assert_eq!(m, "[1:78] Use of moved value: 'a'"),
        other => panic!("unexpected {:?}", other),
    }
}

#[test]
fn moves_inside_a_for_body_are_checked() {
    let src = "int main() { unsafe int n = 3; for (unsafe int i = 0; i < n; i = i + 1) { let T t; let T u = t; let T v = t; } return 0; }";
    match transpile_source(src) {
        Err(TranspileError::Ownership(m)) => assert_eq!(m, "[1:107] Use of moved value: 't'"),
        other => panic!("unexpected {:?}", other),
    }
    assert!(transpile_source("int main() { unsafe int n = 3; for (unsafe int i = 0; i < n; i = i + 1) { f(i); } return 0; }").is_ok());
}

#[test]
fn generated_program_layout() {
    let src = "struct R { int id; }\nbind R { void destroy() { } }\nvoid work(R r) { }\nint main() { let R r; spawn work(r); return 0; }";
    let out = generate(src);
    let typedef = out.find("typedef struct R {").unwrap();
    let args = out.find("typedef struct _spawn_args_0 {").unwrap();
    let code = out.find("void work(R r) {").unwrap();
    let main = out.find("int main() {").unwrap();
    let wrapper = out.find("void* _spawn_wrapper_0(void* raw_arg) {").unwrap();
    assert!(out.starts_with("#include <stdio.h>\n"));
    assert!(typedef < args && args < code && code < main && main < wrapper);
    assert!(!out.contains("/*SPAWN_DECLS*/"));
    assert!(out.ends_with("    return NULL;\n}\n\n"));
}

#[test]
fn cloned_program_generates_the_same_text() {
    let src = "struct A { int x = 1; }\nbind A { A(v) { host.x = v; } }\nfork A as B { + int y; }\nint main() { let A a.init(2); alias A r = a; if (a.x) { return 1; } else { while (a.x) { a.x = a.x - 1; } } for (;;) { } return 0; }";
    let mut p = Parser::new(src);
    let ast = p.parse().unwrap();
    let copy: Vec<cplus::ast::Node<Statement>> = ast.iter().map(|n| n.clone()).collect();
    let mut g1 = Generator::new();
    let mut g2 = Generator::new();
    assert_eq!(g1.generate(&ast), g2.generate(&copy));
}

#[test]
fn top_level_semicolon_loses_no_token() {
    let mut p = Parser::new("struct A { int x; };\nstruct B { int y; }");
    let ast = p.parse().unwrap();
    assert_eq!(ast.len(), 2);
    match (&ast[0].data, &ast[1].data) {
        (Statement::StructDef(a), Statement::StructDef(b)) => {
            assert_eq!(a.name, "A");
            assert_eq!(a.fields.len(), 1);
            assert_eq!(a.fields[0].name, "x");
            assert_eq!(a.fields[0].ty, "int");
            assert!(a.fields[0].default_value.is_none());
            assert_eq!(b.name, "B");
            assert_eq!(b.fields.len(), 1);
            assert_eq!(b.fields[0].name, "y");
        }
        other => panic!("unexpected {:?}", other),
    }
    assert_eq!(ast[1].span, Span { line: 2, col: 1 });
    let mut p = Parser::new(";;int main() { return 0; }");
    assert_eq!(p.parse().unwrap().len(), 1);
}

#[test]
fn returned_value_is_not_destroyed() {
    let src = "struct R { int id; }\nbind R { void destroy() { } }\nR make() { let R r; let R s; return s; }";
    let out = generate(src);
    assert!(out.contains("R make() {\n    R r = {0};\n    R s = {0};\n    R_destroy(&r);\n    return s;\n}"));
    assert!(!out.contains("R_destroy(&s)"));
}

#[test]
fn end_of_input_repeats() {
    let mut lx = Lexer::new("a\n  ");
    assert_eq!(lx.next_token(), tok(TokenData::Identifier("a".to_string()), 1, 1));
    assert_eq!(lx.next_token(), tok(TokenData::EOF, 2, 3));
    assert_eq!(lx.next_token(), tok(TokenData::EOF, 2, 3));
}
