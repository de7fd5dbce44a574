//! Unit tests of the supporting pieces: tokens, the lexer's token
//! stream, the manifest helpers, the content-addressed costume
//! records, and the fixed constructors.

use scuff::compiler::Compiler;
use scuff::lexer::Lexer;
use scuff::makefile::{AssetData, Extension, MakefileData, TargetData};
use scuff::parser::Parser;
use scuff::project::{Costume, Meta, Project, Target};
use scuff::token::{Operator, Token, TokenType};

#[test]
fn lexer_reads_keywords_and_operators() {
    let mut lx = Lexer::new(&"let x: number = (1 + 2); // note\nwhile".to_string());
    let toks = lx.lex().unwrap();
    let kinds: Vec<TokenType> = toks.into_iter().map(|t| t.token_type).collect();
    assert_eq!(
        kinds,
        vec![
            TokenType::Let,
            TokenType::Ident("x".to_string()),
            TokenType::Colon,
            TokenType::Type(scuff::token::Type::Number),
            TokenType::Equal,
            TokenType::LeftParen,
            TokenType::Number("1".to_string()),
            TokenType::Operator(Operator::Plus),
            TokenType::Number("2".to_string()),
            TokenType::RightParen,
            TokenType::Semicolon,
            TokenType::While,
            TokenType::EOF,
        ]
    );
}

#[test]
fn lexer_reads_compound_and_logical_operators() {
    let mut lx = Lexer::new(&"+= -= *= /= && || != == -> & < >=".to_string());
    let toks = lx.lex().unwrap();
    let kinds: Vec<TokenType> = toks.into_iter().map(|t| t.token_type).collect();
    assert_eq!(
        kinds,
        vec![
            TokenType::Operator(Operator::PlusEqual),
            TokenType::Operator(Operator::MinusEqual),
            TokenType::Operator(Operator::StarEqual),
            TokenType::Operator(Operator::SlashEqual),
            TokenType::Operator(Operator::And),
            TokenType::Operator(Operator::Or),
            TokenType::Operator(Operator::BangEqual),
            TokenType::Operator(Operator::EqualEqual),
            TokenType::Arrow,
            TokenType::Operator(Operator::Ampersand),
            TokenType::Operator(Operator::Less),
            TokenType::Operator(Operator::GreaterEqual),
            TokenType::EOF,
        ]
    );
}

#[test]
fn lexer_tracks_lines_and_decimal_numbers() {
    let mut lx = Lexer::new(&"\"a\nb\"\n3.25".to_string());
    let toks = lx.lex().unwrap();
    assert_eq!(toks[0].token_type, TokenType::String("a\nb".to_string()));
    assert_eq!(toks[1].token_type, TokenType::Number("3.25".to_string()));
    assert_eq!(toks[1].line, 3);
}

#[test]
fn token_to_string_names_the_kind() {
    let t = Token::new(TokenType::Ident("abc".to_string()), 4);
    assert_eq!(t.to_string(), "Ident");
    assert_eq!(t.line, 4);
    let t = Token::new(TokenType::EOF, 9);
    assert_eq!(t.to_string(), "EOF");
}

#[test]
fn parser_reads_an_if_else_tree() {
    let mut lx = Lexer::new(
        &"event flag_clicked() { if (1 == 1) { say(\"y\"); } else { say(\"n\"); } }"
            .to_string(),
    );
    let mut p = Parser::new(lx.lex().unwrap());
    let ast = p.parse().unwrap();
    assert_eq!(ast.len(), 1);
    match &ast[0] {
        scuff::parser::Stmt::EventHandler(scuff::parser::Event::FlagClicked, body) => {
            assert_eq!(body.len(), 1);
            match &body[0] {
                scuff::parser::Stmt::If(_, tb, fb) => {
                    assert_eq!(tb.len(), 1);
                    assert_eq!(fb.as_ref().unwrap().len(), 1);
                }
                other => panic!("unexpected statement: {:?}", other),
            }
        }
        other => panic!("unexpected statement: {:?}", other),
    }
}

#[test]
fn costume_records_are_content_addressed() {
    let meta = TargetData {
        name: "Sprite".to_string(),
        is_stage: false,
        script: "".to_string(),
        costumes: vec![
            AssetData {
                name: "one".to_string(),
                path: "art/one.svg".to_string(),
                content: b"abc".to_vec(),
            },
            AssetData {
                name: "two".to_string(),
                path: "art/two.svg".to_string(),
                content: b"abc".to_vec(),
            },
        ],
        sounds: vec![],
    };
    let c = Compiler::new(vec![(meta, vec![])]);
    let out = c.compile();
    let t = &out.project.targets[0];
    assert_eq!(t.costumes.len(), 2);
    // The MD5 of "abc", in lowercase hexadecimal.
    assert_eq!(t.costumes[0].asset_id, "900150983cd24fb0d6963f7d28e17f72");
    assert_eq!(t.costumes[0].md5ext, "900150983cd24fb0d6963f7d28e17f72.svg");
    assert_eq!(t.costumes[0].data_format, "svg");
    // Identical bytes yield identical, deduplicable entries.
    assert_eq!(t.costumes[0].asset_id, t.costumes[1].asset_id);
    assert_eq!(t.costumes[0].md5ext, t.costumes[1].md5ext);
}

#[test]
fn makefile_get_path_joins_or_keeps_absolute() {
    assert_eq!(MakefileData::get_path("proj", "art/a.svg"), "proj/art/a.svg");
    assert_eq!(MakefileData::get_path("proj", "/tmp/a.svg"), "/tmp/a.svg");
}

#[test]
fn makefile_assemble_orders_stages_first() {
    let t = |n: &str| TargetData {
        name: n.to_string(),
        is_stage: false,
        script: "".to_string(),
        costumes: vec![],
        sounds: vec![],
    };
    let m = MakefileData::assemble(
        "demo".to_string(),
        vec![t("stage")],
        vec![t("cat"), t("dog")],
        vec![Extension::Pen],
    );
    assert_eq!(m.project_name, "demo");
    assert_eq!(m.extensions, vec![Extension::Pen]);
    assert_eq!(m.targets.len(), 3);
    assert!(m.targets[0].is_stage);
    assert_eq!(m.targets[0].name, "stage");
    assert!(!m.targets[1].is_stage);
    assert!(!m.targets[2].is_stage);
}

#[test]
fn fixed_constructors() {
    let p = Project::new();
    assert!(p.targets.is_empty());
    assert_eq!(p.meta.semver, "3.0.0");
    assert_eq!(p.meta.vm, "0.2.0");
    assert_eq!(p.meta.agent, "scuff");
    let m = Meta::new();
    assert_eq!(m, p.meta);
    let t = Target::default();
    assert!(t.is_stage);
    assert_eq!(t.name, "Stage");
    assert!(t.blocks.is_empty());
    let c = Costume::default();
    assert_eq!(c.name, "backdrop1");
    assert_eq!(c.data_format, "svg");
    assert_eq!(c.asset_id, "cd21514d0531fdffb22204e0ec5ed84a");
    assert_eq!(c.md5ext, "cd21514d0531fdffb22204e0ec5ed84a.svg");
}

#[test]
fn empty_extension_when_path_has_no_dot() {
    let meta = TargetData {
        name: "Sprite".to_string(),
        is_stage: false,
        script: "".to_string(),
        costumes: vec![AssetData {
            name: "raw".to_string(),
            path: "art/raw".to_string(),
            content: vec![1, 2, 3],
        }],
        sounds: vec![],
    };
    let c = Compiler::new(vec![(meta, vec![])]);
    let out = c.compile();
    assert_eq!(out.project.targets[0].costumes[0].data_format, "");
}

#[test]
fn parser_reports_unexpected_tokens() {
    let mut lx = Lexer::new(&"let 5 = 1;".to_string());
    let mut p = Parser::new(lx.lex().unwrap());
    match p.parse() {
        Err(scuff::parser::ParseError::UnexpectedToken(line)) => assert_eq!(line, 1),
        other => panic!("expected a parse error, got {:?}", other),
    }
}

#[test]
fn parser_reports_early_end() {
    let mut lx = Lexer::new(&"let x".to_string());
    let toks: Vec<Token> = lx
        .lex()
        .unwrap()
        .into_iter()
        .filter(|t| t.token_type != TokenType::EOF)
        .collect();
    let mut p = Parser::new(toks);
    assert_eq!(p.parse(), Err(scuff::parser::ParseError::UnexpectedEnd));
}

#[test]
fn empty_source_compiles_to_an_empty_target() {
    let mut lx = Lexer::new(&"".to_string());
    let toks = lx.lex().unwrap();
    assert_eq!(toks.len(), 1);
    let mut p = Parser::new(toks);
    let ast = p.parse().unwrap();
    assert!(ast.is_empty());
    let meta = TargetData {
        name: "Stage".to_string(),
        is_stage: true,
        script: "".to_string(),
        costumes: vec![],
        sounds: vec![],
    };
    let out = Compiler::new(vec![(meta, ast)]).compile();
    assert!(out.errors.is_empty());
    assert!(out.project.targets[0].blocks.is_empty());
}
