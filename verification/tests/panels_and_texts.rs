//! Previews, reports, translations, outlines, steps and imported scripts.
use akrs::ast::Position;
use akrs::checker::Severity;
use akrs::history::History;
use akrs::lexer::Lexer;
use akrs::outline::{outline, outline_note};
use akrs::parse::{parse_command_line, parse_sprite_line, sprite_numbers, EnginePhase};
use akrs::previews::{
    bg_syntax, hide_syntax, list_assets, music_syntax, selected_after, sprite_label, sprite_syntax,
};
use akrs::reporter::Reporter;
use akrs::rpy::convert_rpy_to_akrs;
use akrs::scene::{
    findings_shown, line_color, node_card, node_preview, show_preview, Stage, StageCharacter,
    StageChoices, StageDialogue,
};
use akrs::templates::{UNDO_IDLE_MS, UNDO_LIMIT};
use akrs::translation::{
    display_name, extract_translatable_lines, read_text, show_text, TranslatableKind,
};
use akrs::vm::ChoiceInfo;

fn strings(words: &[&str]) -> Vec<String> {
    words.iter().map(|w| w.to_string()).collect()
}

#[test]
fn assets_of_a_folder() {
    let files = strings(&["b.png", "A.PNG", "c.jpg", ".png", "noext", "x.y.Png", "d.png.bak"]);
    assert_eq!(list_assets(&files, &strings(&["png"])), vec!["A", "b", "x.y"]);
    assert_eq!(list_assets(&files, &strings(&["jpg", "png"])), vec!["A", "b", "c", "x.y"]);
    assert_eq!(selected_after("", &strings(&["a", "b"])), "a");
    assert_eq!(selected_after("z", &strings(&["a", "b"])), "z");
    assert_eq!(selected_after("", &vec![]), "");
}

#[test]
fn lines_for_the_script_read_back() {
    let line = sprite_syntax("秋", "0.50", "1.00", "1.25");
    assert_eq!(line, "+ 秋 at 0.50,1.00 size 1.25");
    let numbers: Vec<Option<u32>> = sprite_numbers(&line)
        .iter()
        .map(|t| t.parse::<f32>().ok().map(|x| x.to_bits()))
        .collect();
    let parsed = parse_sprite_line(&line, &numbers).expect("sprite");
    assert_eq!(parsed.character_name, "秋");
    assert_eq!(parsed.selected, "秋");
    assert_eq!(f32::from_bits(parsed.scale), 1.25);
    assert_eq!(sprite_label("  ", "pic"), "pic");
    assert_eq!(sprite_label("Aki", "pic"), "Aki");
    assert_eq!(hide_syntax("Aki"), "- Aki");
    let bg = bg_syntax("room", "fade");
    assert_eq!(bg, "@bg room with fade");
    assert_eq!(parse_command_line(&bg).expect("bg").resource, "room");
    assert_eq!(bg_syntax("", "fade"), "（未选择背景）");
    assert_eq!(music_syntax("song"), "@music song");
    assert_eq!(music_syntax(""), "（未选择音乐）");
}

#[test]
fn sprite_lines() {
    let one = |s: &str| -> Vec<Option<u32>> {
        sprite_numbers(s).iter().map(|t| t.parse::<f32>().ok().map(|x| x.to_bits())).collect()
    };
    let parse = |s: &str| parse_sprite_line(s, &one(s));
    assert_eq!(f32::from_bits(parse("+ Aki left").unwrap().x), 0.25);
    assert_eq!(f32::from_bits(parse("+ Aki 居右").unwrap().x), 0.75);
    assert_eq!(f32::from_bits(parse("+ Aki").unwrap().y), 1.0);
    assert_eq!(f32::from_bits(parse("+ Aki size -2").unwrap().scale), 1.0);
    assert!(parse("- Aki").is_none());
    assert!(parse("+ Aki at").is_none());
    assert!(parse("+ Aki at x").is_none());
    assert!(parse("+ Aki (pose").is_none());
    assert_eq!(parse("+ Aki (happy)").unwrap().selected, "happy");
    assert!(parse_command_line("@bg").is_none());
    assert!(parse_command_line("@bg \"open").is_none());
}

#[test]
fn a_running_story_is_shown() {
    let stage = Stage {
        background: Some("room".to_string()),
        characters: vec![StageCharacter {
            name: "Aki".to_string(),
            position: Position::Right,
            fraction: String::new(),
        }],
        dialogue: Some(StageDialogue {
            speaker: String::new(),
            full_text: "你好吗".to_string(),
            displayed_chars: 2,
            complete: false,
        }),
        choices: Some(StageChoices {
            prompt: Some("去？".to_string()),
            options: vec![ChoiceInfo { text: "好".to_string(), available: false }],
        }),
        story_ended: true,
    };
    assert_eq!(
        show_preview(EnginePhase::Running, &stage),
        vec![
            "状态：运行中",
            "背景",
            "名称 = room",
            "角色",
            "- Aki [右侧]",
            "对话",
            "（旁白）",
            "你好",
            "（2/3 字，完成=false）",
            "选项",
            "提示：去？",
            "1. 好（禁用）",
            "故事已结束。"
        ]
    );
    let empty =
        Stage { background: None, characters: vec![], dialogue: None, choices: None, story_ended: false };
    assert_eq!(
        show_preview(EnginePhase::Title, &empty),
        vec!["状态：标题", "背景", "（无）", "角色", "（舞台上无角色）", "对话", "（无）", "选项", "（无）"]
    );
}

#[test]
fn findings_in_the_status_bar() {
    assert_eq!(line_color("[错误] x"), 0xff7878);
    assert_eq!(line_color("[警告] x"), 0xdcc878);
    assert_eq!(line_color("[提示] x"), 0x96aac8);
    assert_eq!(findings_shown(&strings(&["a"; 8])), (8, None));
    assert_eq!(findings_shown(&strings(&["a"; 10])), (8, Some("……还有 2 条".to_string())));
}

#[test]
fn nodes_are_cut_to_fit() {
    assert_eq!(node_preview("abcdef\nxy", 4), "abc…\nxy");
    assert_eq!(node_preview("1\n2\n3\n4\n5\n6\n7", 9), "1\n2\n3\n4\n5\n6");
    assert_eq!(node_preview("ab", 0), "…");
    let card = node_card(&format!("{}\n2\n3\n4\n5", "字".repeat(20)));
    assert_eq!(card.len(), 4);
    assert_eq!(card[0], "字".repeat(16));
    assert_eq!(node_card(&"a".repeat(49))[0], "a".repeat(48));
}

#[test]
fn findings_are_reported() {
    let mut r = Reporter::new();
    assert_eq!(r.add_file("a.akrs".to_string(), "~x".to_string()), 0);
    let id = r.add_file("b.akrs".to_string(), "\"".to_string());
    assert_eq!(id, 1);
    assert_eq!(r.files().get(1).map(|f| f.source().clone()).ok(), Some("\"".to_string()));
    assert_eq!(r.files().get(0).map(|f| f.name().clone()).ok(), Some("a.akrs".to_string()));
    let errors = Lexer::new("~x").tokenize().unwrap_err();
    let found = r.emit_lex_errors(id, &errors);
    assert_eq!(found.len(), 1);
    assert_eq!(found[0].severity, Severity::Error);
    assert_eq!(found[0].file_id, 1);
    assert_eq!((found[0].start, found[0].end), (errors[0].span.start, errors[0].span.end));
    assert_eq!(found[0].note, None);
    assert_eq!(r.format_errors(0, "", &strings(&["x", "y"])), "x\ny");
}

#[test]
fn notes_stand_below_findings() {
    let r = Reporter::default();
    let tokens = Lexer::new("\"x\"\n").tokenize().unwrap();
    let errors = akrs::parser::Parser::new(tokens).parse().unwrap_err();
    let found = r.emit_parse_errors(0, &errors);
    assert_eq!(found[0].message, "nodes must be inside a section (# Name)");
    assert_eq!(
        found[0].note,
        Some("hint: add a section header like '# Start' before this".to_string())
    );
    let tokens = Lexer::new("").tokenize().unwrap();
    let program = akrs::parser::Parser::new(tokens).parse().unwrap();
    let errors = akrs::checker::Checker::new().check(&program);
    assert_eq!(r.emit_check_errors(0, &errors)[0].severity, Severity::Warning);
}

#[test]
fn texts_to_translate() {
    let lines = extract_translatable_lines("# 开始\n秋(笑): \"你好\"\n秋: \"再见\"\n\"旁白\"\n? \"去\"\n| \"好\" -> A\n|\n");
    let kinds: Vec<(TranslatableKind, &str, usize)> =
        lines.iter().map(|l| (l.kind, l.original.as_str(), l.line_number)).collect();
    assert_eq!(
        kinds,
        vec![
            (TranslatableKind::Section, "开始", 1),
            (TranslatableKind::Character, "秋", 2),
            (TranslatableKind::Dialogue, "你好", 2),
            (TranslatableKind::Dialogue, "再见", 3),
            (TranslatableKind::Narration, "旁白", 4),
            (TranslatableKind::ChoicePrompt, "去", 5),
            (TranslatableKind::Choice, "好", 6),
        ]
    );
    for kind in [
        TranslatableKind::Section,
        TranslatableKind::Dialogue,
        TranslatableKind::Narration,
        TranslatableKind::Choice,
        TranslatableKind::ChoicePrompt,
        TranslatableKind::Character,
    ] {
        assert_eq!(read_text(kind, &show_text(kind, "Hello")), "Hello");
    }
    assert_eq!(display_name("en-US"), "English");
    assert_eq!(display_name("xx"), "xx");
}

#[test]
fn outlines_nest_visits() {
    let rows = outline("# A\n=> B\n<=\n");
    assert_eq!(rows.len(), 3);
    assert_eq!(rows[1].indent, rows[2].indent);
    assert_eq!(rows[1].text, "=> B");
    assert_eq!(rows[2].text, "<=");
    assert!(outline_note("").is_some() || outline("").is_empty());
}

#[test]
fn steps_are_bounded_and_made_at_rest() {
    let mut h = History::new();
    h.reset_history("0");
    for i in 1..=(UNDO_LIMIT + 20) {
        h.commit_history(&i.to_string());
    }
    assert_eq!(h.undo_stack.len(), UNDO_LIMIT);
    let last = (UNDO_LIMIT + 20).to_string();
    let before = h.undo(&last).expect("a step");
    assert_eq!(before, (UNDO_LIMIT + 19).to_string());
    assert_eq!(h.redo(), Some(last.clone()));
    assert_eq!(h.redo(), None);
    let mut h = History::new();
    h.reset_history("a");
    h.track("ab", 1000);
    h.track("ab", 1000 + UNDO_IDLE_MS);
    assert!(h.undo_stack.is_empty());
    h.track("ab", 1001 + UNDO_IDLE_MS);
    assert_eq!(h.undo_stack, vec!["a"]);
}

#[test]
fn quick_conversion() {
    let (script, warnings) =
        convert_rpy_to_akrs("label start:\n    \"Hi\"\n\n    jump next\n    return\n");
    assert_eq!(script, "# start\n\"Hi\"\n-> next\n~~");
    assert_eq!(warnings, vec!["转换完成，无警告"]);
    let (script, warnings) = convert_rpy_to_akrs("strange words\n");
    assert!(script.contains("// 未转换: strange words"));
    assert!(warnings.iter().any(|w| w == "未识别的行：strange words"));
    assert!(warnings.iter().any(|w| w.contains("label start:")));
}
