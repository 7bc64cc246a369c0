//! The command line, and the icon file.
use akrs::cli::{
    check_report, migration_report, parse_arguments, print_event, skeleton_report, start_report,
    take_turn, EngineEvent, Invocation, Turn, HELP,
};
use akrs::compile::compile;
use akrs::icon::{editor_icon, write_ico};
use akrs::migrate::convert_rpy_to_akrs;
use akrs::parse::EnginePhase;
use akrs::translation::extract_translatable_lines;
use akrs::vm::ChoiceInfo;

fn args(words: &[&str]) -> Vec<String> {
    words.iter().map(|w| w.to_string()).collect()
}

#[test]
fn arguments() {
    assert_eq!(parse_arguments(&args(&["akrs"])), Invocation::Help { wanted: false });
    assert_eq!(parse_arguments(&args(&["akrs", "-h"])), Invocation::Help { wanted: true });
    assert_eq!(
        parse_arguments(&args(&["akrs", "check", "a"])),
        Invocation::Check { file: "a".to_string(), assets: None }
    );
    assert_eq!(
        parse_arguments(&args(&["akrs", "check", "a", "b"])),
        Invocation::Check { file: "a".to_string(), assets: Some("b".to_string()) }
    );
    assert_eq!(
        parse_arguments(&args(&["akrs", "run"])),
        Invocation::Misused { usage: "Usage: akrs run <file.akrs>".to_string() }
    );
    assert_eq!(parse_arguments(&args(&["akrs", "pack"])), Invocation::Pack);
    assert_eq!(
        parse_arguments(&args(&["akrs", "migrate", "x.rpy", "y"])),
        Invocation::Migrate { input: "x.rpy".to_string(), output: Some("y".to_string()) }
    );
    assert_eq!(
        parse_arguments(&args(&["akrs", "translate", "init", "f", "en-US"])),
        Invocation::TranslateInit { file: "f".to_string(), lang: "en-US".to_string() }
    );
    assert!(matches!(
        parse_arguments(&args(&["akrs", "translate", "init", "f"])),
        Invocation::Misused { usage } if usage.starts_with("Usage: akrs translate init")
    ));
    assert_eq!(
        parse_arguments(&args(&["akrs", "translate", "x"])),
        Invocation::UnknownTranslate { name: "x".to_string() }
    );
    assert_eq!(
        parse_arguments(&args(&["akrs", "fly"])),
        Invocation::UnknownCommand { name: "fly".to_string() }
    );
    assert!(HELP.starts_with("Akizuki*Rustgal CLI v1.0\n"));
}

#[test]
fn valid_and_invalid_scripts() {
    let (program, errors) = compile("# S\n\"x\"\n-> T\n# T\n~~\n");
    let r = check_report("s.akrs", &program, &errors);
    assert!(r.ok);
    assert_eq!(
        r.out,
        vec![
            "\n✓ Script is valid (0 warning(s))",
            "  Sections: 2",
            "    - S (2 nodes)",
            "    - T (1 nodes)"
        ]
    );
    let (program, errors) = compile("# Start\n-> Strat\n");
    let r = check_report("s.akrs", &program, &errors);
    assert!(!r.ok);
    assert_eq!(r.out.len(), 1);
    assert!(r.out[0].starts_with("error: s.akrs:2:"));
    assert!(r.out[0].ends_with(")"));
    assert_eq!(r.err, vec!["\n1 error(s), 0 warning(s)"]);
    assert_eq!(start_report("s.akrs", &errors), r.out);
}

#[test]
fn events_are_printed() {
    let said = print_event(&EngineEvent::DialogueShown {
        speaker: "Aki".to_string(),
        text: "Hi".to_string(),
    });
    assert_eq!(said.out, vec!["Aki: Hi"]);
    let told = print_event(&EngineEvent::DialogueShown {
        speaker: String::new(),
        text: "Hi".to_string(),
    });
    assert_eq!(told.out, vec!["Hi"]);
    let n = || "n".to_string();
    assert_eq!(print_event(&EngineEvent::NarrationShown { text: n() }).out, vec!["n"]);
    assert_eq!(print_event(&EngineEvent::BackgroundChanged { name: n() }).out, vec!["[Background: n]"]);
    assert_eq!(print_event(&EngineEvent::CharacterEntered { name: n() }).out, vec!["[n entered]"]);
    assert_eq!(print_event(&EngineEvent::CharacterExited { name: n() }).out, vec!["[n exited]"]);
    assert_eq!(print_event(&EngineEvent::MusicChanged { name: n() }).out, vec!["[Music: n]"]);
    assert_eq!(
        print_event(&EngineEvent::MusicChanged { name: String::new() }).out,
        vec!["[Music stopped]"]
    );
    assert_eq!(print_event(&EngineEvent::SoundPlayed { name: n() }).out, vec!["[Sound: n]"]);
    assert_eq!(
        print_event(&EngineEvent::VoicePlayed { name: String::new() }).out,
        vec!["[Voice stopped]"]
    );
    assert_eq!(
        print_event(&EngineEvent::TransitionStarted { kind: "Fade".to_string() }).out,
        vec!["[Transition: Fade]"]
    );
    assert_eq!(print_event(&EngineEvent::StoryEnded).out, vec!["\n=== Story End ==="]);
    let warned = print_event(&EngineEvent::Warning { message: n() });
    assert!(warned.out.is_empty());
    assert_eq!(warned.err, vec!["[Warning: n]"]);
    assert_eq!(print_event(&EngineEvent::Error { message: n() }).err, vec!["[Error: n]"]);
    let offered = print_event(&EngineEvent::ChoicesShown {
        prompt: Some("Go?".to_string()),
        options: vec![
            ChoiceInfo { text: "yes".to_string(), available: true },
            ChoiceInfo { text: "no".to_string(), available: false },
        ],
    });
    assert_eq!(offered.out, vec!["Go?", "  [0] yes", "  [1] no (locked)"]);
    assert!(print_event(&EngineEvent::Other).out.is_empty());
}

#[test]
fn input_decides_the_turn() {
    assert_eq!(take_turn(EnginePhase::StoryEnded, "1"), Turn::Stop);
    assert_eq!(take_turn(EnginePhase::Running, "1"), Turn::Advance);
    for input in ["0", " 12 \n", "+7", "007", "18446744073709551615", "18446744073709551616", "-1",
        "", "+", "1x", "１", "99999999999999999999999999999999999999999999"]
    {
        let expected = match input.trim().parse::<usize>() {
            Ok(i) => Turn::Pick(i),
            Err(_) => Turn::AskForNumber,
        };
        assert_eq!(take_turn(EnginePhase::ChoicePending, input), expected, "{:?}", input);
    }
}

#[test]
fn conversion_is_reported() {
    let result = convert_rpy_to_akrs("define e = Character(\"Eileen\")\nlabel start:\n    e \"Hi\"\n    return\n");
    let r = migration_report("a.rpy", "a.akrs", &result);
    assert_eq!(r.out[0], "Migration complete: a.rpy → a.akrs");
    assert_eq!(r.out[1], format!("  Output: {} lines", result.akrs_script.lines().count()));
    assert_eq!(r.err[0], "\nCharacter name mappings:");
    assert_eq!(r.err[1], "  e → Eileen");
    assert!(r.ok);
}

#[test]
fn skeletons_are_counted() {
    let lines = extract_translatable_lines("# A\nAki: \"1\"\nAki: \"2\"\n\"n\"\n? \"q\"\n| \"o\" -> B\n");
    let r = skeleton_report("f", "en-US", &lines);
    assert_eq!(
        r,
        vec![
            "",
            "✓ Generated translation skeleton for 'en-US'",
            "  Sections: 1",
            "  Dialogue: 2",
            "  Narration: 1",
            "  Choices: 1",
            "  Choice prompts: 1",
            "  Characters: 1",
            "",
            "  Save to file: akrs translate init f en-US > en-US.json"
        ]
    );
}

#[test]
fn icon_of_two_pixels() {
    let rgba = [1u8, 2, 3, 4, 5, 6, 7, 8];
    let out = write_ico(&rgba, 1, 2);
    assert_eq!(out.len(), 22 + 40 + 8);
    assert_eq!(out[..8], [0, 0, 1, 0, 1, 0, 1, 2]);
    assert_eq!(out[14..18], [48, 0, 0, 0]);
    assert_eq!(out[18..22], [22, 0, 0, 0]);
    assert_eq!(out[26..34], [1, 0, 0, 0, 4, 0, 0, 0]);
    assert_eq!(out[62..], [7, 6, 5, 8, 3, 2, 1, 4]);
}

#[test]
fn icon_of_the_editor() {
    let rgba = vec![9u8; 64 * 64 * 4];
    let out = editor_icon(&rgba).expect("right size");
    assert_eq!(out.len(), 62 + 16384 + 512);
    assert!(out[62 + 16384..].iter().all(|b| *b == 0));
    assert_eq!(
        editor_icon(&rgba[1..]),
        Err("图标数据大小不匹配 (16383 != 16384), 跳过 exe 图标嵌入".to_string())
    );
}
