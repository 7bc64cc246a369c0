//! Positions, transitions, resources, and what the editor says about visits.
use akrs::ast::{Number, Position, Transition};
use akrs::compile::compile_and_create_vm_with_resources;
use akrs::editor::{EditorApp, ExitAction, ExitChoice};
use akrs::flow::{flow_hint, marked_ranges};
use akrs::picker::{read_picker_entries, PickerEntry};
use akrs::translation::{kind_label, TranslatableKind};

#[test]
fn positions_are_fractions() {
    let fraction = |p: Position| match p.x_fraction() {
        Number::Decimal(s) => s.parse::<f32>().unwrap(),
        Number::Int(n) => n as f32,
    };
    assert_eq!(fraction(Position::Left), 0.25);
    assert_eq!(fraction(Position::Center), 0.5);
    assert_eq!(fraction(Position::Right), 0.75);
    assert_eq!(fraction(Position::Custom(Number::Decimal("0.3".to_string()))), 0.3);
    assert_eq!(fraction(Position::Custom(Number::Int(1))), 1.0);
}

#[test]
fn transitions_take_their_time() {
    assert_eq!(Transition::Fade.default_duration(), 600);
    assert_eq!(Transition::FadeWhite.default_duration(), 800);
    assert_eq!(Transition::Dissolve.default_duration(), 800);
    assert_eq!(Transition::WipeLeft.default_duration(), 500);
    assert_eq!(Transition::Instant.default_duration(), 0);
}

#[test]
fn missing_resources_do_not_stop_a_script() {
    let source = "# Start\n@bg school\n~~\n";
    let known = vec!["school.png".to_string()];
    assert!(compile_and_create_vm_with_resources(source, known).is_ok());
    assert!(compile_and_create_vm_with_resources("# Start\n-> Nowhere\n", vec![]).is_err());
}

#[test]
fn visits_point_at_their_returns() {
    let text = "=> Shop\nHi\n<=\n";
    assert_eq!(
        flow_hint(text, 0),
        Some("跳转到目标：Shop\n返回点在第 3 行".to_string())
    );
    assert_eq!(flow_hint(text, 11), Some("返回到上一个拜访点".to_string()));
    assert_eq!(flow_hint(text, 9), None);
    assert_eq!(
        flow_hint("=> Shop\n", 0),
        Some("跳转到目标：Shop\n返回点未找到".to_string())
    );
    assert_eq!(marked_ranges(text, 0), vec![(0, 2), (11, 13)]);
    assert_eq!(marked_ranges(text, 9), vec![]);
}

#[test]
fn leaving_waits_for_the_save() {
    let mut app = EditorApp::default();
    app.new_file();
    app.editor_content.push_str("more\n");
    assert!(!app.on_close_event());
    assert!(app.pending_exit);
    assert_eq!(app.answer_exit(ExitChoice::Save), ExitAction::Save);
    assert!(!app.exit_after_save());
    assert!(app.pending_exit);
    app.finish_save("/tmp/a.akrs".to_string(), "a.akrs", &None);
    assert!(app.exit_after_save());
    assert!(!app.pending_exit);
    assert!(app.on_close_event());
}

#[test]
fn backgrounds_need_a_choice() {
    let mut app = EditorApp::default();
    assert!(!app.can_edit());
    app.new_file();
    assert!(app.can_edit());
    let before = app.editor_content.clone();
    app.add_background("school", "@bg school with fade");
    assert_eq!(app.editor_content, format!("{}@bg school with fade\n", before));
    assert_eq!(app.status, "语法已追加到脚本末尾");
    app.blueprint_mode = true;
    app.add_background("", "（未选择背景）");
    assert_eq!(app.status, "请先选择背景");
    assert!(app.blueprint.nodes.is_empty());
    app.add_background("school", "@bg school with fade");
    assert_eq!(app.blueprint.nodes.len(), 1);
    assert_eq!(app.blueprint.nodes[0].text, "@bg school with fade");
}

#[test]
fn stopping_a_preview() {
    let mut app = EditorApp::default();
    app.load_sample();
    assert!(app.run_script().is_some());
    assert!(app.running);
    app.stop_preview();
    assert!(!app.running);
    assert_eq!(app.status, "预览已停止");
}

#[test]
fn texts_have_kinds() {
    assert_eq!(kind_label(TranslatableKind::Section), "章节");
    assert_eq!(kind_label(TranslatableKind::ChoicePrompt), "选项提示");
    assert_eq!(kind_label(TranslatableKind::Character), "角色");
}

#[test]
fn pickers_ignore_case() {
    let entry = |name: &str, is_dir: bool| PickerEntry { name: name.to_string(), is_dir };
    let all = vec![
        entry("Zeta.akrs", false),
        entry("alpha.akrs", false),
        entry("Scripts", true),
        entry("notes.TXT", false),
    ];
    let names = |list: Vec<PickerEntry>| list.into_iter().map(|e| e.name).collect::<Vec<_>>();
    assert_eq!(
        names(read_picker_entries(&all, "")),
        vec!["Scripts", "alpha.akrs", "notes.TXT", "Zeta.akrs"]
    );
    assert_eq!(names(read_picker_entries(&all, "txt")), vec!["notes.TXT"]);
    assert_eq!(names(read_picker_entries(&all, "ÀZ")), Vec::<String>::new());
}
