//! Negative scenarios: each rejected condition is reported as its
//! typed error, and the compilation continues with the other targets.

use scuff::compiler::Compiler;
use scuff::error::{CompileError, ResolutionError, ShapeError};
use scuff::lexer::{LexError, Lexer};
use scuff::makefile::TargetData;
use scuff::parser::Parser;

fn compile_errors(src: &str) -> Vec<(usize, CompileError)> {
    let mut lx = Lexer::new(&src.to_string());
    let toks = lx.lex().expect("lexing failed");
    let mut p = Parser::new(toks);
    let ast = p.parse().expect("parsing failed");
    let meta = TargetData {
        name: "Stage".to_string(),
        is_stage: true,
        script: src.to_string(),
        costumes: vec![],
        sounds: vec![],
    };
    let c = Compiler::new(vec![(meta, ast)]);
    c.compile().errors
}

#[test]
fn return_not_in_final_position() {
    let errors = compile_errors(
        "function f() -> number { return 1; say(\"after\"); }",
    );
    assert_eq!(errors.len(), 1);
    assert_eq!(errors[0].0, 0);
    assert_eq!(errors[0].1, CompileError::Shape(ShapeError::ReturnNotFinal));
}

#[test]
fn call_to_undeclared_function() {
    let errors = compile_errors("event flag_clicked() { nope(1); }");
    assert_eq!(
        errors,
        vec![(
            0usize,
            CompileError::Resolution(ResolutionError::UnboundFunction("nope".to_string()))
        )]
    );
}

#[test]
fn bare_literal_condition() {
    let errors = compile_errors("event flag_clicked() { if 1 { say(\"x\"); } }");
    assert_eq!(
        errors,
        vec![(0usize, CompileError::Shape(ShapeError::ConditionNotComparison))]
    );
}

#[test]
fn arithmetic_condition_root() {
    let errors = compile_errors(
        "event flag_clicked() { let x: number = 0; if (x + 1) { say(\"x\"); } }",
    );
    assert_eq!(
        errors,
        vec![(0usize, CompileError::Shape(ShapeError::ConditionNotComparison))]
    );
}

#[test]
fn return_in_void_function() {
    let errors = compile_errors("function f() -> void { return 1; }");
    assert_eq!(
        errors,
        vec![(0usize, CompileError::Shape(ShapeError::ReturnInVoidFunction))]
    );
}

#[test]
fn wrong_argument_count_at_call_site() {
    let errors = compile_errors(
        "function add(a: number, b: number) -> number { return (a + b); }\n\
         event flag_clicked() { add(1); }",
    );
    assert_eq!(
        errors,
        vec![(0usize, CompileError::Shape(ShapeError::WrongArgumentCount))]
    );
}

#[test]
fn unbound_variable_read() {
    let errors = compile_errors("event flag_clicked() { y = 1; }");
    assert_eq!(
        errors,
        vec![(
            0usize,
            CompileError::Resolution(ResolutionError::UnboundVariable("y".to_string()))
        )]
    );
}

#[test]
fn redeclaration_in_same_scope() {
    let errors = compile_errors(
        "event flag_clicked() { let x: number = 1; let x: number = 2; }",
    );
    assert_eq!(
        errors,
        vec![(
            0usize,
            CompileError::Resolution(ResolutionError::Redeclaration("x".to_string()))
        )]
    );
}

#[test]
fn sibling_scope_read_fails() {
    let errors = compile_errors(
        "event flag_clicked() {\n\
           let c: number = 0;\n\
           if (c == 0) { let y: number = 1; }\n\
           if (c == 0) { y = 2; }\n\
         }",
    );
    assert_eq!(
        errors,
        vec![(
            0usize,
            CompileError::Resolution(ResolutionError::UnboundVariable("y".to_string()))
        )]
    );
}

#[test]
fn nested_scope_read_succeeds() {
    let errors = compile_errors(
        "event flag_clicked() {\n\
           let x: number = 0;\n\
           if (x == 0) { x = 1; }\n\
         }",
    );
    assert!(errors.is_empty());
}

#[test]
fn unsupported_comparison_operator() {
    let errors = compile_errors(
        "event flag_clicked() { let x: number = 0; if (x < 1) { x = 1; } }",
    );
    assert_eq!(errors, vec![(0usize, CompileError::Shape(ShapeError::Unsupported))]);
}

#[test]
fn failing_target_does_not_stop_the_next() {
    let src_bad = "event flag_clicked() { nope(); }";
    let src_good = "event flag_clicked() { say(\"ok\"); }";
    let mk = |s: &str, n: &str| TargetData {
        name: n.to_string(),
        is_stage: false,
        script: s.to_string(),
        costumes: vec![],
        sounds: vec![],
    };
    let parse = |s: &str| {
        let mut lx = Lexer::new(&s.to_string());
        let mut p = Parser::new(lx.lex().unwrap());
        p.parse().unwrap()
    };
    let c = Compiler::new(vec![
        (mk(src_bad, "one"), parse(src_bad)),
        (mk(src_good, "two"), parse(src_good)),
    ]);
    let out = c.compile();
    assert_eq!(out.project.targets.len(), 2);
    assert_eq!(out.errors.len(), 1);
    assert_eq!(out.errors[0].0, 0);
    // The failing target keeps its metadata but carries no graph.
    assert!(out.project.targets[0].blocks.is_empty());
    assert_eq!(out.project.targets[1].blocks.len(), 2);
}

#[test]
fn unterminated_string_is_a_lex_error() {
    let mut lx = Lexer::new(&"say(\"oops".to_string());
    match lx.lex() {
        Err(LexError::UnterminatedString(line)) => assert_eq!(line, 1),
        other => panic!("expected an unterminated string error, got {:?}", other),
    }
}

#[test]
fn unexpected_character_is_a_lex_error() {
    let mut lx = Lexer::new(&"let x = #;".to_string());
    match lx.lex() {
        Err(LexError::UnexpectedCharacter(c, line)) => {
            assert_eq!(c, '#');
            assert_eq!(line, 1);
        }
        other => panic!("expected an unexpected character error, got {:?}", other),
    }
}

#[test]
fn error_messages_name_the_condition() {
    let e = CompileError::Shape(ShapeError::ReturnNotFinal);
    assert_eq!(e.message(), "return must be the final statement of its body");
    let e = CompileError::Resolution(ResolutionError::UnboundVariable("v".to_string()));
    assert_eq!(e.message(), "unbound variable");
}
