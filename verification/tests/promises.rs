//! What holds of the library as a whole, on chosen scripts.
use akrs::ast::{BinOp, DirectionAction, DirectionKind, Expr, Node, Number, Position, Transition, VarOpKind};
use akrs::blueprint::{BlueprintState, NodeKind, Spot};
use akrs::compile::{compile, compile_and_create_vm, compile_with_resources, ErrSeverity};
use akrs::lexer::Lexer;
use akrs::migrate::convert_rpy_to_akrs;
use akrs::parser::Parser;
use akrs::pointer::PointerFrame;
use akrs::previews::sprite_syntax;
use akrs::templates::{node_template, NODE_TEMPLATE_COUNT};
use akrs::token::TokenKind;
use akrs::value::Value;
use akrs::vm::{Vm, VmEvent};

fn kinds(src: &str) -> Result<Vec<TokenKind>, Vec<String>> {
    match Lexer::new(src).tokenize() {
        Ok(tokens) => Ok(tokens.into_iter().map(|t| t.kind).collect()),
        Err(errors) => Err(errors.into_iter().map(|e| e.message).collect()),
    }
}

fn first_node(src: &str) -> Node {
    let tokens = Lexer::new(src).tokenize().expect("lex failed");
    let program = Parser::new(tokens).parse().expect("parse failed");
    program.sections.into_iter().next().unwrap().nodes.into_iter().next().unwrap()
}

fn action(line: &str) -> DirectionAction {
    match first_node(&format!("# S\n{}\n", line)) {
        Node::Direction { action, .. } => action,
        other => panic!("{:?}", other),
    }
}

fn decimal(s: &str) -> Number {
    Number::Decimal(s.to_string())
}

fn machine(src: &str) -> Vm {
    let mut vm = compile_and_create_vm(src).expect("compiles");
    vm.start().expect("starts");
    vm
}

fn narrated(vm: &mut Vm) -> String {
    match vm.step() {
        Ok(VmEvent::Narration { text }) => text,
        other => panic!("{:?}", other),
    }
}

#[test]
fn indentation_changes_no_token() {
    let flat = "# S\nif $x > 1\nAki: \"a b\"\n\nelse\n-- note\n@bg room\nend\n~~\n";
    let deep = "\t# S\n  if $x > 1\n\t\t  Aki: \"a b\"\n   \nelse\n -- note\n\t@bg room\n end\n  ~~\n\t";
    assert_eq!(kinds(flat), kinds(deep));
    assert!(kinds(flat).is_ok());
    let bad = "~x\n\"open\n%\n";
    let bad_deep = "  ~x\n\t\"open\n %\n";
    assert_eq!(kinds(bad), kinds(bad_deep));
    assert_eq!(kinds(bad).unwrap_err().len(), 3);
    assert_ne!(kinds("a b\n"), kinds("ab\n"));
}

#[test]
fn additions_are_expressions() {
    match first_node("# S\n$x = 1 + 2\n") {
        Node::VarOp { name, op, expr, .. } => {
            assert_eq!(name, "x");
            assert_eq!(op, VarOpKind::Assign);
            match expr {
                Expr::Binary { op, left, right, .. } => {
                    assert_eq!(op, BinOp::Add);
                    assert!(matches!(*left, Expr::Int(1)));
                    assert!(matches!(*right, Expr::Int(2)));
                }
                other => panic!("{:?}", other),
            }
        }
        other => panic!("{:?}", other),
    }
    let mut vm = machine("# S\n$x = 1 + 2 * 3 - 4 + 5\n\"done\"\n");
    assert_eq!(narrated(&mut vm), "done");
    assert_eq!(vm.get_variable("x"), Some(&Value::Int(8)));
    let mut vm = machine("# S\n$s = \"a\" + \"b\"\n\"done\"\n");
    assert_eq!(narrated(&mut vm), "done");
    assert_eq!(vm.get_variable("s"), Some(&Value::Str("ab".to_string())));
}

#[test]
fn numbers_are_positions() {
    let a = action("+ Aki at 0.3");
    assert_eq!(a.position, Some(Position::Custom(decimal("0.3"))));
    assert_eq!((a.y, a.size), (None, None));
    let a = action("+ 角色 at 0.5,1.0 size 1.0");
    assert_eq!(a.kind, DirectionKind::Enter);
    assert_eq!(a.character, "角色");
    assert_eq!(a.position, Some(Position::Custom(decimal("0.5"))));
    assert_eq!(a.y, Some(decimal("1.0")));
    assert_eq!(a.size, Some(decimal("1.0")));
    let a = action("+ Aki at 1 with fade");
    assert_eq!(a.position, Some(Position::Custom(Number::Int(1))));
    assert_eq!(a.transition, Some(Transition::Fade));
    let a = action(&sprite_syntax("Aki", "0.25", "0.90", "1.50"));
    assert_eq!(a.position, Some(Position::Custom(decimal("0.25"))));
    assert_eq!(a.y, Some(decimal("0.90")));
    assert_eq!(a.size, Some(decimal("1.50")));
    assert!(compile("# S\n+ Aki at nowhere\n").0.is_none());
    let (program, errors) = compile("# S\n+ Aki at 0.5,\n");
    assert!(program.is_none());
    assert_eq!(errors[0].message, "unexpected token: ,");
}

#[test]
fn the_sprite_template_compiles() {
    let mut seen = 0;
    for i in 0..NODE_TEMPLATE_COUNT {
        let t = node_template(i).expect("a template");
        if t.text.starts_with("+ ") {
            assert_eq!(compile(&format!("# S\n{}\n", t.text)).1.len(), 0);
            seen += 1;
        }
    }
    assert!(seen > 0);
}

#[test]
fn leaving_needs_no_word() {
    for with in ["", " with fade"] {
        let bare = action(&format!("- Aki{}", with));
        for word in ["exits", "exit", "leaves", "leave"] {
            let said = action(&format!("- Aki {}{}", word, with));
            assert_eq!(said.kind, DirectionKind::Exit);
            assert_eq!(said.kind, bare.kind);
            assert_eq!(said.character, bare.character);
            assert_eq!(said.pose, bare.pose);
            assert_eq!(said.position, bare.position);
            assert_eq!(said.transition, bare.transition);
        }
    }
}

#[test]
fn resources_add_warnings_only() {
    let src = "# A\n@bg room\n@music tune\n-> B\n";
    let (plain, before) = compile(src);
    let (checked, after) = compile_with_resources(src, vec!["assets/bg/room.png".to_string()]);
    assert_eq!(plain.is_some(), checked.is_some());
    assert_eq!(after.len(), before.len() + 1);
    let added: Vec<&str> = after
        .iter()
        .filter(|e| e.severity == ErrSeverity::Warning)
        .map(|e| e.message.as_str())
        .collect();
    assert_eq!(added, vec!["resource 'tune' not found"]);
}

#[test]
fn a_line_stays_until_the_reader_goes_on() {
    let mut vm = machine("# S\n$x = 1\n\"one\"\n\"two\"\n");
    assert_eq!(narrated(&mut vm), "one");
    let at = vm.save_state();
    assert_eq!(narrated(&mut vm), "one");
    let again = vm.save_state();
    assert_eq!((at.ip, at.section), (again.ip, again.section));
    vm.advance();
    assert_eq!(narrated(&mut vm), "two");
    vm.advance();
    assert!(matches!(vm.step(), Ok(VmEvent::StoryEnd)));
    assert!(matches!(vm.step(), Ok(VmEvent::StoryEnd)));
}

#[test]
fn exactly_the_available_options_are_taken() {
    let src = "# S\n$k = 1\n? \"Go?\"\n| \"a\" if $k > 0\n\"A\"\n| \"b\" if $k > 1\n\"B\"\n?\n";
    for index in 0..3 {
        let mut vm = machine(src);
        let offered = match vm.step() {
            Ok(VmEvent::Choice { options, .. }) => options,
            other => panic!("{:?}", other),
        };
        match vm.step() {
            Ok(VmEvent::Choice { options, .. }) => {
                let told = |all: &[akrs::vm::ChoiceInfo]| {
                    all.iter().map(|o| (o.text.clone(), o.available)).collect::<Vec<_>>()
                };
                assert_eq!(told(&options), told(&offered));
            }
            other => panic!("{:?}", other),
        }
        let available = index < offered.len() && offered[index].available;
        assert_eq!(vm.choose_option(index).is_ok(), available);
        assert_eq!(available, index == 0);
        assert_eq!(vm.choose_option(0).unwrap_err().message, "no pending choice");
    }
}

#[test]
fn conditions_on_doubles_are_asked_for_once() {
    let src = "# S\n$k = 1\n? \"Go?\"\n| \"a\" if $k > 0\n\"A\"\n| \"b\" if 0.5 > 0.25\n\"B\"\n\
               | \"c\" if 0.5 == 0.25\n\"C\"\n?\n";
    for (index, available) in [true, true, false].into_iter().enumerate() {
        let mut vm = machine(src);
        let mut asked = 0;
        let offered = loop {
            match vm.step() {
                Ok(VmEvent::Compute { request }) => {
                    asked += 1;
                    let value: f64 = match &request {
                        akrs::eval::FloatRequest::Literal(s) => s.parse().unwrap(),
                        akrs::eval::FloatRequest::Calc { .. } => 0.25,
                    };
                    vm.answer(&request, value.to_bits());
                }
                Ok(VmEvent::Choice { options, .. }) => break options,
                other => panic!("{:?}", other),
            }
        };
        assert_eq!(asked, 3);
        assert_eq!(offered[index].available, available);
        assert!(matches!(vm.step(), Ok(VmEvent::Choice { .. })));
        let save = vm.save_state();
        match vm.choose_option(index) {
            Ok(None) => assert!(available),
            Err(e) => {
                assert!(!available);
                assert_eq!(e.message, format!("choice {} not available", index));
            }
            other => panic!("{:?}", other),
        }
        vm.load_state(save);
        assert!(matches!(vm.step(), Ok(VmEvent::Choice { .. })));
    }
}

#[test]
fn a_loaded_story_goes_on_from_its_save() {
    let mut vm = machine("# S\n$x = 1\n\"one\"\n$x = 2\n=> T\n# T\n\"two\"\n<=\n");
    assert_eq!(narrated(&mut vm), "one");
    let save = vm.save_state();
    vm.advance();
    while !matches!(vm.step(), Ok(VmEvent::Narration { .. })) {}
    assert_eq!(vm.get_variable("x"), Some(&Value::Int(2)));
    vm.load_state(save);
    assert_eq!(vm.get_variable("x"), Some(&Value::Int(1)));
    assert_eq!(narrated(&mut vm), "one");
}

#[test]
fn a_save_keeps_an_answer_that_is_not_used() {
    let mut vm = machine("# S\n$x = 1.5 * 2\n\"done\"\n");
    let x: f64 = 1.5;
    match vm.step() {
        Ok(VmEvent::Compute { request }) => vm.answer(&request, x.to_bits()),
        other => panic!("{:?}", other),
    }
    let save = vm.save_state();
    vm.load_state(save);
    match vm.step() {
        Ok(VmEvent::Compute { request }) => {
            let left = akrs::value::Operand::Float(x.to_bits());
            let right = akrs::value::Operand::Int(2);
            match request {
                akrs::eval::FloatRequest::Calc { op, left: a, right: b } => {
                    assert_eq!((op, a, b), (BinOp::Mul, left, right));
                }
                other => panic!("{:?}", other),
            }
        }
        other => panic!("{:?}", other),
    }
}

#[test]
fn suggestions_are_within_the_distance() {
    let hint = |target: &str| {
        compile(&format!("# Start\n-> {}\n# Finish\n~~\n", target)).1[0].hint.clone()
    };
    assert!(hint("Strat").is_some_and(|h| h.contains("Start")));
    assert!(hint("Fnish").is_some_and(|h| h.contains("Finish")));
    assert!(hint("Zzzzzzzzzz").map_or(true, |h| !h.contains("Start") && !h.contains("Finish")));
}

#[test]
fn joined_sources_give_joined_scripts() {
    let a = "label start:\n    \"Hello.\"\n    jump next\n";
    let b = "label next:\n    e \"Hi.\"\n    renpy.pause()\n    return\n";
    let (first, second) = (convert_rpy_to_akrs(a), convert_rpy_to_akrs(b));
    let whole = convert_rpy_to_akrs(&format!("{}{}", a, b));
    assert_eq!(whole.akrs_script, format!("{}{}", first.akrs_script, second.akrs_script));
    assert_eq!(whole.warnings.len(), first.warnings.len() + second.warnings.len());
    assert_eq!(first.akrs_script, "# start\n\"Hello.\"\n-> next\n");
}

#[test]
fn lines_convert_alike_in_blocks() {
    for line in ["jump a", "call b", "return", "scene bg room with dissolve", "stop music"] {
        let alone = convert_rpy_to_akrs(line).akrs_script;
        let block = convert_rpy_to_akrs(&format!("if x == 1:\n    {}\n", line)).akrs_script;
        assert!(!alone.is_empty());
        assert!(block.contains(alone.trim_end()), "{} / {}", block, alone);
    }
}

#[test]
fn converted_transitions_stay() {
    for name in ["fade", "dissolve", "blur", "wipe_left", "slide_up", "instant"] {
        let once = convert_rpy_to_akrs(&format!("scene bg room with {}\n", name)).akrs_script;
        assert_eq!(once, format!("@bg room with {}\n", name));
    }
    assert_eq!(convert_rpy_to_akrs("scene bg room with swirl\n").akrs_script, "@bg room with fade\n");
}

#[test]
fn the_pointer_takes_a_node_by_its_edges() {
    let frame = |x: i64, y: i64| PointerFrame {
        at: Spot { x, y },
        screen: Spot { x, y },
        delta: Spot { x: 0, y: 0 },
        in_canvas: true,
        primary_pressed: true,
        primary_down: true,
        primary_released: false,
        secondary_pressed: false,
        secondary_down: false,
        secondary_released: false,
        double_clicked: false,
        delete_key: false,
        escape_key: false,
        touched: false,
        pinching: false,
    };
    let size = BlueprintState::node_size("x");
    let grabbed = |x: i64, y: i64| {
        let mut b = BlueprintState::default();
        b.add_node(NodeKind::Narration, Spot { x: 0, y: 0 }, "x".to_string());
        b.handle_frame(&frame(x, y));
        b.selected
    };
    assert_eq!(grabbed(size.width, 20_000), Some(0));
    assert_eq!(grabbed(0, size.height), Some(0));
    assert_eq!(grabbed(size.width + 1, 20_000), None);
    let mut b = BlueprintState::default();
    b.add_node(NodeKind::Narration, Spot { x: 0, y: 0 }, "x".to_string());
    assert_eq!(b.node_at(Spot { x: size.width, y: 20_000 }), None);
    assert_eq!(b.node_under(Spot { x: size.width, y: 20_000 }, true), Some(0));
}
