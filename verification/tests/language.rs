//! The language: errors of every stage, and how stories run.
use akrs::ast::BinOp;
use akrs::checker::Severity;
use akrs::compile::{compile, compile_and_create_vm, compile_with_resources, ErrSeverity};
use akrs::eval::FloatRequest;
use akrs::lexer::Lexer;
use akrs::parser::Parser;
use akrs::token::TokenKind;
use akrs::value::{Operand, Type, Value};
use akrs::vm::{StepOutcome, Vm, VmEvent};

fn lex_errors(src: &str) -> Vec<String> {
    match Lexer::new(src).tokenize() {
        Ok(_) => vec![],
        Err(errors) => errors.into_iter().map(|e| e.message).collect(),
    }
}

fn findings(src: &str) -> Vec<(ErrSeverity, String, Option<String>)> {
    compile(src).1.into_iter().map(|e| (e.severity, e.message, e.hint)).collect()
}

fn messages(src: &str) -> Vec<String> {
    findings(src).into_iter().map(|f| f.1).collect()
}

#[test]
fn lexical_errors() {
    assert_eq!(lex_errors("\"abc"), vec!["unterminated string literal"]);
    assert_eq!(lex_errors("\"abc\\"), vec!["unterminated escape sequence"]);
    assert_eq!(lex_errors("\"a\nb"), vec!["unterminated string (newline in string)"]);
    assert_eq!(lex_errors("99999999999999999999"), vec!["invalid integer: 99999999999999999999"]);
    assert_eq!(lex_errors("~x"), vec!["unexpected '~' followed by Some('x') (only '~~' is valid)"]);
    assert_eq!(lex_errors("~"), vec!["unexpected '~' followed by None (only '~~' is valid)"]);
    assert_eq!(lex_errors("%"), vec!["unexpected character: '%'"]);
    assert_eq!(lex_errors("\u{7f}"), vec!["unexpected character: '\\u{7f}'"]);
    assert_eq!(lex_errors("秋: \"ok\""), Vec::<String>::new());
}

#[test]
fn tokens_and_their_texts() {
    let tokens = Lexer::new("$x += 1.50 -- rest\n\n\n").tokenize().expect("lex");
    let kinds: Vec<&TokenKind> = tokens.iter().map(|t| &t.kind).collect();
    assert_eq!(kinds.len(), 6);
    assert_eq!(kinds[0], &TokenKind::Dollar);
    assert_eq!(kinds[2], &TokenKind::PlusEq);
    assert_eq!(kinds[4], &TokenKind::Newline);
    assert_eq!(kinds[5], &TokenKind::Eof);
    assert_eq!(TokenKind::<String>::PlusEq.text(), "+=");
    assert!(tokens[1].span.start < tokens[2].span.start);
}

#[test]
fn syntax_errors() {
    assert_eq!(messages("\"x\"\n"), vec!["nodes must be inside a section (# Name)"]);
    assert_eq!(messages("# S\nwait soon\n"), vec!["expected a number after 'wait'"]);
    let all = findings("# S\n@bg room with swirl\n");
    assert_eq!(all[0].1, "unknown transition: 'swirl'");
    assert!(all[0].2.as_ref().is_some_and(|h| h.starts_with("valid: fade")));
    assert!(messages("# S\n+ Aki at nowhere\n")[0].starts_with("unknown position: 'nowhere'"));
    assert!(messages("# S\n$x * 1\n")[0].contains("expected"));
    assert!(messages("# S\n$x = )\n")[0].starts_with("expected expression, found"));
    let r = Parser::new(Lexer::new("# S\nAki \"x\"\n").tokenize().unwrap()).parse();
    assert!(r.is_err());
}

#[test]
fn findings_of_the_checker() {
    assert_eq!(messages("# Start\n-> Strat\n"), vec!["undefined section: 'Strat'"]);
    assert!(findings("# Start\n-> Strat\n")[0].2.as_ref().is_some_and(|h| h.contains("Start")));
    let twice = findings("# A\n\"x\"\n# A\n\"y\"\n");
    assert_eq!(twice[0].1, "duplicate section name: 'A'");
    assert_eq!(twice[1].0, ErrSeverity::Note);
    assert_eq!(messages("# A\n$x += 1\n"), vec!["undefined variable: 'x'"]);
    assert_eq!(messages("# A\n$x = 1\nif $x\n\"y\"\nend\n"), vec!["if condition must be bool, found int"]);
    assert_eq!(
        messages("# A\n$x = \"s\"\n$x -= 1\n"),
        vec!["type mismatch: cannot apply -= to x (string) and int"]
    );
    assert_eq!(
        messages("# A\n+ A\n+ B\n+ C\n"),
        vec!["too many characters on stage: 'C' would be the 3rd (limit is 2)"]
    );
    assert_eq!(messages("# A\n+ A\n+ B\n- A\n+ C\n"), Vec::<String>::new());
    assert_eq!(messages(""), vec!["no sections defined"]);
    let (program, errors) = compile_with_resources("# A\n@bg room\n", vec!["bg/hall.png".to_string()]);
    assert!(program.is_some());
    assert_eq!(errors.len(), 1);
    assert_eq!(errors[0].severity, ErrSeverity::Warning);
    assert_eq!(errors[0].message, "resource 'room' not found");
    assert_ne!(Severity::Error, Severity::Warning);
}

fn machine(src: &str) -> Vm {
    match compile_and_create_vm(src) {
        Ok(mut vm) => {
            let _ = vm.start();
            vm
        }
        Err(errors) => panic!("{:?}", errors),
    }
}

/// Answers floating-point requests as the host does.
fn answer(vm: &mut Vm, request: &FloatRequest) {
    let value = |o: &Operand| match o {
        Operand::Int(n) => *n as f64,
        Operand::Float(bits) => f64::from_bits(*bits),
    };
    let result = match request {
        FloatRequest::Literal(s) => s.parse::<f64>().unwrap(),
        FloatRequest::Calc { op, left, right } => match op {
            BinOp::Add => value(left) + value(right),
            BinOp::Sub => value(left) - value(right),
            BinOp::Mul => value(left) * value(right),
            BinOp::Div => value(left) / value(right),
            _ => panic!("not arithmetic"),
        },
    };
    vm.answer(request, result.to_bits());
}

fn next(vm: &mut Vm) -> Result<VmEvent, String> {
    loop {
        match vm.step() {
            Ok(VmEvent::Compute { request }) => answer(vm, &request),
            Ok(e) => return Ok(e),
            Err(e) => return Err(e.message),
        }
    }
}

fn said(e: &VmEvent) -> String {
    match e {
        VmEvent::Narration { text } => text.clone(),
        other => panic!("{:?}", other),
    }
}

#[test]
fn floating_point_is_asked_for() {
    let mut vm = machine("# S\n$x = 1.5 * 2\n$x += 1\n$y = $x / 3\nif $y > 1.3\n\"big\"\nelse\n\"small\"\nend\n");
    assert_eq!(said(&next(&mut vm).unwrap()), "big");
    match vm.get_variable("y") {
        Some(Value::Float(bits)) => assert_eq!(f64::from_bits(*bits), 4.0 / 3.0),
        other => panic!("{:?}", other),
    }
    assert!(vm.get_variable("z").is_none());
}

#[test]
fn faults_while_running() {
    let mut vm = machine("# S\n$x = 1 / 0\n");
    assert_eq!(next(&mut vm).unwrap_err(), "division by zero");
    let mut vm = machine("# S\n<=\n");
    assert_eq!(next(&mut vm).unwrap_err(), "return without visit");
    let mut vm = machine("# S\n$x = 1\nif $x == \"a\"\n\"y\"\nend\n\"n\"\n");
    assert_eq!(said(&next(&mut vm).unwrap()), "n");
    let program = Parser::new(Lexer::new("").tokenize().unwrap()).parse().unwrap();
    let mut empty = Vm::new(&program);
    assert_eq!(empty.start().unwrap_err().message, "no sections to run");
}

#[test]
fn choices_open_and_close() {
    let src = "# S\n$k = 0\n? \"Go?\"\n| \"yes\"\n\"Y\"\n| \"no\" if $k > 0\n\"N\"\n?\n\"after\"\n";
    let mut vm = machine(src);
    assert_eq!(vm.choose_option(0).unwrap_err().message, "no pending choice");
    match next(&mut vm).unwrap() {
        VmEvent::Choice { prompt, options } => {
            assert_eq!(prompt, Some("Go?".to_string()));
            assert_eq!(options.len(), 2);
            assert!(options[0].available && !options[1].available);
        }
        other => panic!("{:?}", other),
    }
    assert!(matches!(vm.step(), Ok(VmEvent::Choice { .. })));
    let saved = vm.save_state();
    assert_eq!(vm.choose_option(1).unwrap_err().message, "choice 1 not available");
    vm.load_state(saved);
    let _ = next(&mut vm);
    assert_eq!(vm.choose_option(9).unwrap_err().message, "invalid choice index: 9");
    let mut vm = machine(src);
    let _ = next(&mut vm);
    assert!(matches!(vm.choose_option(0), Ok(None)));
    assert_eq!(said(&next(&mut vm).unwrap()), "Y");
    vm.advance();
    assert_eq!(said(&next(&mut vm).unwrap()), "after");
}

#[test]
fn visits_come_back() {
    let mut vm = machine("# A\n=> B\n\"home\"\n# B\n\"away\"\n<=\n");
    let mut heard = vec![];
    loop {
        match next(&mut vm).unwrap() {
            VmEvent::Narration { text } => {
                heard.push(text);
                vm.advance();
            }
            VmEvent::StoryEnd => break,
            _ => {}
        }
    }
    assert_eq!(heard, vec!["away", "home"]);
    assert!(matches!(vm.step(), Ok(VmEvent::StoryEnd)));
}

#[test]
fn endless_stories_stop_at_a_limit() {
    let mut vm = machine("# A\n$x = 1\n-> A\n");
    assert!(matches!(vm.step_within(1), StepOutcome::Running));
    let mut vm = machine("# A\n$x = 9223372036854775807\n$x += 1\n");
    assert!(matches!(vm.step_within(10), StepOutcome::Overflow));
}

#[test]
fn values_and_types() {
    let one: Value = Value::Int(1);
    assert_eq!(one.type_label(), "int");
    assert!(one.is_truthy());
    let text: Value = Value::Str("x".to_string());
    assert_eq!(text.as_int(), Err("cannot convert string to int".to_string()));
    assert_eq!(text.as_float(), Err("cannot convert string to float".to_string()));
    let half: Value = Value::Float(2.75f64.to_bits());
    assert_eq!(half.as_int(), Ok(2));
    assert_eq!(half.text(&format!("{:.1}", 2.75)), "2.8");
    assert!(Type::Int.compatible(&Type::Float));
    assert!(!Type::Int.compatible(&Type::Str));
    assert_eq!(Type::Bool.name(), "bool");
}
