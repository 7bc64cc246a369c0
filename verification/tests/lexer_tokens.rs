//! Tokens of small sources.
use akrs::lexer::Lexer;
use akrs::token::{Token, TokenKind};

fn lex(src: &str) -> Vec<Token> {
    Lexer::new(src).tokenize().unwrap_or_else(|e| panic!("lex error: {:?}", e))
}

#[test]
fn test_section_header() {
    let tokens = lex("# Prologue\n");
    assert!(tokens.iter().any(|t| t.kind == TokenKind::SectionMark));
    assert!(tokens.iter().any(|t| matches!(&t.kind, TokenKind::Ident(s) if s == "Prologue")));
}

#[test]
fn test_flow_arrow() {
    let tokens = lex("-> NextDay\n");
    assert!(tokens.iter().any(|t| t.kind == TokenKind::FlowArrow));
}

#[test]
fn test_visit_return() {
    let tokens = lex("=> Greeting\n<=\n");
    assert!(tokens.iter().any(|t| t.kind == TokenKind::VisitArrow));
    // <= is lexed as LtEq; parser disambiguates at statement level
    assert!(tokens.iter().any(|t| t.kind == TokenKind::LtEq));
}

#[test]
fn test_story_end() {
    let tokens = lex("~~\n");
    assert!(tokens.iter().any(|t| t.kind == TokenKind::StoryEnd));
}

#[test]
fn test_choice_block() {
    let tokens = lex("? \"prompt\"\n| \"opt\"\n?\n");
    assert!(tokens.iter().any(|t| t.kind == TokenKind::Question));
    assert!(tokens.iter().any(|t| t.kind == TokenKind::Pipe));
}

#[test]
fn test_dialogue() {
    let tokens = lex("Aki: \"hello\"\n");
    assert!(tokens.iter().any(|t| matches!(&t.kind, TokenKind::Ident(s) if s == "Aki")));
    assert!(tokens.iter().any(|t| t.kind == TokenKind::Colon));
    assert!(tokens.iter().any(|t| matches!(&t.kind, TokenKind::String(s) if s == "hello")));
}

#[test]
fn test_stage_commands() {
    let tokens = lex("@bg school\n+ Aki enters\n$affection = 5\n");
    assert!(tokens.iter().any(|t| t.kind == TokenKind::At));
    assert!(tokens.iter().any(|t| t.kind == TokenKind::Plus));
    assert!(tokens.iter().any(|t| t.kind == TokenKind::Dollar));
}

#[test]
fn test_character_exit_syntax() {
    let tokens = lex("- Aki\n");
    assert!(tokens.iter().any(|t| t.kind == TokenKind::Minus2));
    assert!(tokens.iter().any(|t| matches!(&t.kind, TokenKind::Ident(s) if s == "Aki")));
}

#[test]
fn test_operators() {
    let tokens = lex("$x += 1\n$y -= 2\n$a == $b\n");
    assert!(tokens.iter().any(|t| t.kind == TokenKind::PlusEq));
    assert!(tokens.iter().any(|t| t.kind == TokenKind::MinusEq));
    assert!(tokens.iter().any(|t| t.kind == TokenKind::EqEq));
}

#[test]
fn test_linecol_tracking() {
    let src = "line1\nline2\n";
    let tokens = lex(src);
    // First token should be at line 1
    assert_eq!(tokens[0].span.start_linecol.line, 1);
    // Find newline token
    let nl = tokens.iter().find(|t| t.kind == TokenKind::Newline).unwrap();
    assert_eq!(nl.span.start_linecol.line, 1);
}
