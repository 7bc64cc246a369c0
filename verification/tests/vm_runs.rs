//! Runs of small scripts.
use akrs::vm::{Vm, VmEvent};
use akrs::lexer::Lexer;
use akrs::parser::Parser;

fn run(src: &str) -> Vec<VmEvent> {
    let tokens = Lexer::new(src).tokenize().expect("lex");
    let prog = Parser::new(tokens).parse().expect("parse");
    let mut vm = Vm::new(&prog);
    vm.start().unwrap();
    let mut events = Vec::new();
    loop {
        match vm.step() {
            Ok(VmEvent::StoryEnd) => { events.push(VmEvent::StoryEnd); break; }
            Ok(VmEvent::Dialogue { .. }) | Ok(VmEvent::Narration { .. }) => {
                let e = vm.step().unwrap();
                events.push(e);
                vm.advance();
            }
            Ok(VmEvent::Choice { .. }) => {
                events.push(VmEvent::Choice { prompt: None, options: vec![] });
                let _ = vm.choose_option(0);
            }
            Ok(e) => events.push(e),
            Err(_) => break,
        }
    }
    events
}

#[test]
fn test_dialogue_execution() {
    let src = "# Start\nAki: \"Hello!\"\n\"Narration.\"\n";
    let events = run(src);
    assert!(events.iter().any(|e| matches!(e, VmEvent::Dialogue { text, .. } if text == "Hello!")));
    assert!(events.iter().any(|e| matches!(e, VmEvent::Narration { text } if text == "Narration.")));
}

#[test]
fn test_flow_between_sections() {
    let src = "# Start\nAki: \"First.\"\n-> Second\n# Second\nAki: \"Second.\"\n";
    let events = run(src);
    assert!(events.iter().any(|e| matches!(e, VmEvent::Dialogue { text, .. } if text == "First.")));
    assert!(events.iter().any(|e| matches!(e, VmEvent::Dialogue { text, .. } if text == "Second.")));
}

#[test]
fn test_choice_execution() {
    let src = "# S\n? \"Pick:\"\n| \"A\"\nAki: \"A!\"\n| \"B\"\nAki: \"B!\"\n?\n";
    let events = run(src);
    assert!(events.iter().any(|e| matches!(e, VmEvent::Dialogue { text, .. } if text == "A!")));
}

#[test]
fn test_variables_and_conditionals() {
    let src = "# S\n$affection = 10\nif $affection > 5\nAki: \"High!\"\nelse\nAki: \"Low.\"\nend\n";
    let events = run(src);
    assert!(events.iter().any(|e| matches!(e, VmEvent::Dialogue { text, .. } if text == "High!")));
}

#[test]
fn test_visit_and_return() {
    let src = "# Main\nAki: \"Before.\"\n=> Sub\nAki: \"After.\"\n# Sub\nAki: \"In sub.\"\n<=\n";
    let events = run(src);
    assert!(events.iter().any(|e| matches!(e, VmEvent::Dialogue { text, .. } if text == "Before.")));
    assert!(events.iter().any(|e| matches!(e, VmEvent::Dialogue { text, .. } if text == "In sub.")));
    assert!(events.iter().any(|e| matches!(e, VmEvent::Dialogue { text, .. } if text == "After.")));
}

#[test]
fn test_save_load() {
    let src = "# S\n$x = 42\nAki: \"First.\"\nAki: \"Second.\"\n";
    let tokens = Lexer::new(src).tokenize().unwrap();
    let prog = Parser::new(tokens).parse().unwrap();
    let mut vm = Vm::new(&prog);
    vm.start().unwrap();
    // Step to first dialogue
    let _ = vm.step(); // VarOp (no event, continues)
    let _ = vm.step(); // Dialogue "First."
    let state = vm.save_state();
    vm.advance();
    let _ = vm.step(); // Dialogue "Second."
    // Load back
    vm.load_state(state);
    let e = vm.step().unwrap();
    assert!(matches!(e, VmEvent::Dialogue { text, .. } if text == "First."));
}
