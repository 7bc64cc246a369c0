//! Trees of small sources.
use akrs::ast::{DirectionKind, Node, Position, Program, Transition, VarOpKind};
use akrs::lexer::Lexer;
use akrs::parser::Parser;

fn parse(src: &str) -> Program {
    let tokens = Lexer::new(src).tokenize().expect("lex failed");
    Parser::new(tokens).parse().expect("parse failed")
}

#[test]
fn test_basic_section() {
    let p = parse("# Start\nAki: \"Hello!\"\n\"Narration.\"\n");
    assert_eq!(p.sections.len(), 1);
    assert_eq!(p.sections[0].name, "Start");
    assert_eq!(p.sections[0].nodes.len(), 2);
}

#[test]
fn test_dialogue_with_pose() {
    let p = parse("# S\nAki (happy): \"Hi!\"\n");
    match &p.sections[0].nodes[0] {
        Node::Dialogue { speaker, pose, text, .. } => {
            assert_eq!(speaker, "Aki");
            assert_eq!(pose.as_deref(), Some("happy"));
            assert_eq!(text, "Hi!");
        }
        _ => panic!("expected Dialogue"),
    }
}

#[test]
fn test_command() {
    let p = parse("# S\n@bg school with fade\n");
    match &p.sections[0].nodes[0] {
        Node::Command { cmd, args, transition, .. } => {
            assert_eq!(cmd, "bg");
            assert_eq!(args, &vec!["school"]);
            assert_eq!(*transition, Some(Transition::Fade));
        }
        _ => panic!("expected Command"),
    }
}

#[test]
fn test_direction() {
    let p = parse("# S\n+ Aki enters from left with fade\n");
    match &p.sections[0].nodes[0] {
        Node::Direction { action, .. } => {
            assert_eq!(action.character, "Aki");
            assert_eq!(action.kind, DirectionKind::Enter);
            assert_eq!(action.position, Some(Position::Left));
            assert_eq!(action.transition, Some(Transition::Fade));
        }
        _ => panic!("expected Direction"),
    }
}

#[test]
fn test_exit_direction() {
    let p = parse("# S\n- Aki\n");
    match &p.sections[0].nodes[0] {
        Node::Direction { action, .. } => {
            assert_eq!(action.character, "Aki");
            assert_eq!(action.kind, DirectionKind::Exit);
            assert_eq!(action.transition, None);
        }
        _ => panic!("expected Direction (exit)"),
    }
}

#[test]
fn test_exit_direction_with_transition() {
    let p = parse("# S\n- Aki with dissolve\n");
    match &p.sections[0].nodes[0] {
        Node::Direction { action, .. } => {
            assert_eq!(action.character, "Aki");
            assert_eq!(action.kind, DirectionKind::Exit);
            assert_eq!(action.transition, Some(Transition::Dissolve));
        }
        _ => panic!("expected Direction (exit with transition)"),
    }
}

#[test]
fn test_choice() {
    let src = "# S\n? \"Pick one:\"\n| \"Option A\"\nAki: \"A\"\n| \"Option B\"\nAki: \"B\"\n?\n";
    let p = parse(src);
    match &p.sections[0].nodes[0] {
        Node::Choice { prompt, options, .. } => {
            assert_eq!(prompt.as_deref(), Some("Pick one:"));
            assert_eq!(options.len(), 2);
            assert_eq!(options[0].text, "Option A");
            assert_eq!(options[1].text, "Option B");
        }
        _ => panic!("expected Choice"),
    }
}

#[test]
fn test_conditional() {
    let src = "# S\nif $affection > 5\nAki: \"High!\"\nelse\nAki: \"Low...\"\nend\n";
    let p = parse(src);
    match &p.sections[0].nodes[0] {
        Node::Conditional { branches, else_branch, .. } => {
            assert_eq!(branches.len(), 1);
            assert!(else_branch.is_some());
        }
        _ => panic!("expected Conditional"),
    }
}

#[test]
fn test_flow_and_visit() {
    let p = parse("# S\n-> Next\n# T\n=> Sub\n<=\n");
    assert!(matches!(p.sections[0].nodes[0], Node::Flow { .. }));
    assert!(matches!(p.sections[1].nodes[0], Node::Visit { .. }));
    assert!(matches!(p.sections[1].nodes[1], Node::Return { .. }));
}

#[test]
fn test_varop() {
    let p = parse("# S\n$affection = 10\n$score += 5\n");
    assert!(matches!(p.sections[0].nodes[0], Node::VarOp { op: VarOpKind::Assign, .. }));
    assert!(matches!(p.sections[0].nodes[1], Node::VarOp { op: VarOpKind::PlusEq, .. }));
}

#[test]
fn test_direction_pose_and_chinese_position() {
    let p = parse("# S\n+ 心夏 (kokonabody1) 居中\n");
    match &p.sections[0].nodes[0] {
        Node::Direction { action, .. } => {
            assert_eq!(action.character, "心夏");
            assert_eq!(action.kind, DirectionKind::Enter);
            assert_eq!(action.pose.as_deref(), Some("kokonabody1"));
            assert_eq!(action.position, Some(Position::Center));
            assert_eq!(action.transition, None);
        }
        _ => panic!("expected Direction"),
    }
}

#[test]
fn test_direction_chinese_position_only() {
    let p = parse("# S\n+ 心夏 居左\n");
    match &p.sections[0].nodes[0] {
        Node::Direction { action, .. } => {
            assert_eq!(action.character, "心夏");
            assert_eq!(action.pose, None);
            assert_eq!(action.position, Some(Position::Left));
        }
        _ => panic!("expected Direction"),
    }
}

#[test]
fn test_direction_default_center_no_position() {
    let p = parse("# S\n+ 心夏\n");
    match &p.sections[0].nodes[0] {
        Node::Direction { action, .. } => {
            assert_eq!(action.character, "心夏");
            assert_eq!(action.position, None);
            assert_eq!(action.transition, None);
        }
        _ => panic!("expected Direction"),
    }
}

#[test]
fn test_direction_pose_english_position_with_transition() {
    let p = parse("# S\n+ Aki (happy) left with fade\n");
    match &p.sections[0].nodes[0] {
        Node::Direction { action, .. } => {
            assert_eq!(action.character, "Aki");
            assert_eq!(action.pose.as_deref(), Some("happy"));
            assert_eq!(action.position, Some(Position::Left));
            assert_eq!(action.transition, Some(Transition::Fade));
        }
        _ => panic!("expected Direction"),
    }
}
