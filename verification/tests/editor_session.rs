//! The editor: scripts, saving, modes, commands and the replace dialog.
use akrs::actions::Request;
use akrs::ast::{Number, Position};
use akrs::blueprint::Spot;
use akrs::commands::{shortcut, shortcuts, Command, Key, KeyPress};
use akrs::editor::{EditorApp, ExitAction, ExitChoice, PreviewTab};
use akrs::panels::{
    insert_entry, is_animating, line_at, CanvasAction, CentralView, Jump, INSERT_COUNT,
};
use akrs::parse::{phase_label, sprite_numbers, EnginePhase};
use akrs::scene::position_label;
use akrs::templates::{MAX_CHAPTER_TITLE_CHARS, SAMPLE_SCRIPT};

#[test]
fn phase_and_position_labels() {
    assert_eq!(phase_label(EnginePhase::ChoicePending), "等待选择");
    assert_eq!(position_label(&Position::Left, ""), "左侧");
    let x: f32 = 0.25;
    let custom = Position::Custom(Number::Decimal("0.25".to_string()));
    assert_eq!(position_label(&custom, &format!("{:.2}", x)), "自定义(0.25)");
}

#[test]
fn run_script_compiles_sample() {
    let mut app = EditorApp::default();
    app.editor_content = SAMPLE_SCRIPT.to_string();
    app.show_welcome = false;
    let program = app.run_script();
    assert!(program.is_some(), "sample script should compile");
    assert!(app.running);
    assert!(
        app.diagnostics.iter().all(|d| !d.starts_with("[错误]")),
        "no errors expected for the sample"
    );
}

#[test]
fn welcome_shown_by_default() {
    let app = EditorApp::default();
    assert!(app.show_welcome, "welcome panel should show on first launch");
    assert!(app.editor_content.is_empty(), "editor should be empty on first launch");
}

#[test]
fn load_sample_hides_welcome() {
    let mut app = EditorApp::default();
    app.load_sample();
    assert!(!app.show_welcome, "welcome panel should hide after loading sample");
    assert!(!app.editor_content.is_empty(), "editor should have content after loading sample");
}

#[test]
fn new_file_hides_welcome() {
    let mut app = EditorApp::default();
    app.new_file();
    assert!(!app.show_welcome, "welcome panel should hide after new file");
}

#[test]
fn run_reports_errors() {
    let mut app = EditorApp::default();
    app.editor_content = "# S\n-> Nowhere\n".to_string();
    assert!(app.run_script().is_none());
    assert!(!app.running);
    assert_eq!(app.status, "编译失败（1 个错误）");
    assert!(app.diagnostics[0].starts_with("[错误] undefined section: 'Nowhere'"));
}

#[test]
fn long_section_names_are_told() {
    let name = "字".repeat(MAX_CHAPTER_TITLE_CHARS + 1);
    let mut app = EditorApp::default();
    app.editor_content = format!("# {}\n\"x\"\n", name);
    assert!(app.run_script().is_some());
    assert_eq!(app.diagnostics.len(), 1);
    assert_eq!(app.status, "运行中（1 条诊断）");
}

#[test]
fn saving_leaves_no_changes() {
    let mut app = EditorApp::default();
    app.new_file();
    assert!(!app.is_dirty());
    app.editor_content.push_str("more\n");
    app.file_name_input = "my/story".to_string();
    assert!(app.is_dirty());
    let name = app.begin_save();
    assert_eq!(name, "mystory.akrs");
    app.finish_save("/tmp/mystory.akrs".to_string(), &name, &Some("main.akrs".to_string()));
    assert!(!app.is_dirty());
    assert_eq!(
        app.status,
        "已保存 mystory.akrs ｜ 提示：当前文件不是 project.json 的 main_script（main.akrs），直接启动游戏将运行 main.akrs；编辑器预览不受影响"
    );
    app.finish_save("/tmp/main.akrs".to_string(), "main.akrs", &Some("main.akrs".to_string()));
    assert_eq!(app.status, "已保存 main.akrs");
    app.save_failed("main.akrs", "disk full");
    assert_eq!(app.status, "保存失败：main.akrs - disk full");
}

#[test]
fn opening_resets_the_steps() {
    let mut app = EditorApp::default();
    app.new_file();
    app.editor_content.push_str("x");
    app.track_edits(0);
    app.file_opened("/a/b.akrs".to_string(), "b.akrs", "# B\n");
    app.undo();
    assert_eq!(app.editor_content, "# B\n");
    assert_eq!(app.status, "没有可撤销的操作");
    app.redo();
    assert_eq!(app.status, "没有可重做的操作");
    app.open_failed("no such file");
    assert_eq!(app.status, "打开失败：no such file");
}

#[test]
fn undo_and_redo_return() {
    let mut app = EditorApp::default();
    app.file_opened("/a".to_string(), "a.akrs", "one");
    app.editor_content = "two".to_string();
    app.undo();
    assert_eq!(app.editor_content, "one");
    assert_eq!(app.status, "已撤销");
    app.redo();
    assert_eq!(app.editor_content, "two");
    assert_eq!(app.status, "已重做");
}

#[test]
fn leaving_with_changes_asks() {
    let mut app = EditorApp::default();
    app.new_file();
    assert!(app.on_close_event());
    app.editor_content.push('x');
    assert!(!app.on_close_event());
    assert!(app.pending_exit);
    assert!(matches!(app.answer_exit(ExitChoice::Cancel), ExitAction::Stay));
    assert!(!app.pending_exit);
    assert!(!app.on_close_event());
    assert!(matches!(app.answer_exit(ExitChoice::Discard), ExitAction::Close));
    assert!(app.on_close_event());
}

fn press(key: Key, ctrl: bool, shift: bool) -> KeyPress {
    KeyPress { key, ctrl, shift }
}

#[test]
fn keys_have_commands() {
    assert_eq!(shortcut(press(Key::Z, true, false)), Some(Command::Undo));
    assert_eq!(shortcut(press(Key::Z, true, true)), Some(Command::Redo));
    assert_eq!(shortcut(press(Key::Y, true, false)), Some(Command::Redo));
    assert_eq!(shortcut(press(Key::S, true, true)), None);
    assert_eq!(shortcut(press(Key::S, false, false)), None);
    let all = shortcuts(&vec![press(Key::S, true, false), press(Key::Z, true, false)]);
    assert_eq!(all, vec![Command::Undo, Command::Save]);
}

#[test]
fn commands_act_on_the_script() {
    let mut app = EditorApp::default();
    assert!(matches!(app.perform(Command::Save, ""), Request::Nothing));
    assert!(matches!(app.perform(Command::Open, ""), Request::Nothing));
    assert!(!app.show_welcome);
    assert_eq!(app.status, "请从左侧文件列表选择文件");
    assert!(matches!(app.perform(Command::Open, ""), Request::Open(n) if n == "untitled.akrs"));
    app.perform(Command::InsertExit, "");
    assert_eq!(app.editor_content, "");
    app.new_file();
    let before = app.editor_content.clone();
    app.perform(Command::InsertBackground, "");
    assert_eq!(app.editor_content, format!("{}@bg 背景\n", before));
    assert_eq!(app.status, "已插入：@bg 背景（背景指令）");
    assert!(matches!(app.perform(Command::Run, ""), Request::Run));
    assert!(matches!(app.perform(Command::Save, ""), Request::Save));
    app.perform(Command::Help, "");
    assert!(app.show_shortcuts);
}

#[test]
fn modes_exclude_each_other() {
    let mut app = EditorApp::default();
    app.file_opened("/a".to_string(), "a.akrs", "# A\n\nAki: \"Hi\"\n// end\n");
    app.perform(Command::ToggleTranslation, "/a");
    assert!(app.translation_mode);
    assert_eq!(app.translatable_lines.len(), 3);
    assert_eq!(app.central_view(), CentralView::Translation);
    app.perform(Command::ToggleBlueprint, "/a");
    assert!(app.blueprint_mode && !app.translation_mode);
    assert_eq!(app.status, "已切换到蓝图模式（首次自动整理布局）");
    assert_eq!(app.layout_done, vec!["/a".to_string()]);
    assert_eq!(app.central_view(), CentralView::Blueprint);
    app.perform(Command::ToggleTranslation, "/a");
    assert!(!app.blueprint_mode && app.translation_mode);
    assert_eq!(app.editor_content, "# A\nAki: \"Hi\"\n// end");
}

#[test]
fn inserting_a_line_or_a_node() {
    let mut app = EditorApp::default();
    app.file_opened("/a".to_string(), "a.akrs", "# A\n");
    app.insert_syntax("$变量");
    assert_eq!(app.editor_content, "# A\n$变量\n");
    assert_eq!(app.status, "已插入：$变量");
    app.toggle_blueprint_mode("/a");
    app.insert_syntax("? 选项");
    assert_eq!(app.blueprint.nodes.len(), 3);
    assert_eq!(app.blueprint.nodes[2].text, "? 选项");
    assert_eq!(app.status, "已添加节点：? 选项");
    assert_eq!(insert_entry(0), Some(("立绘上场", "+ 角色")));
    assert_eq!(insert_entry(INSERT_COUNT), None);
    assert!(insert_entry(INSERT_COUNT - 1).is_some());
}

#[test]
fn replacing_a_text() {
    let mut app = EditorApp::default();
    app.file_opened("/a".to_string(), "a.akrs", "aXbXc\n");
    app.request_replace("@bg x");
    assert!(app.show_find_replace_dialog);
    assert_eq!(app.find_replace_syntax, "@bg x");
    app.find_replace_target = "X".to_string();
    app.confirm_replace();
    assert_eq!(app.editor_content, "a@bg xb@bg xc\n");
    assert_eq!(app.status, "已将「X」替换为生成的语法");
    assert!(!app.show_find_replace_dialog && app.find_replace_syntax.is_empty());
    app.request_replace("end");
    app.find_replace_target = "missing".to_string();
    app.confirm_replace();
    assert_eq!(app.editor_content, "a@bg xb@bg xc\nend\n");
    assert_eq!(app.status, "未找到「missing」，已追加到脚本末尾");
    assert!(!app.find_and_replace("", "y"));
    assert!(app.find_and_replace("end", "end"));
    assert_eq!(app.editor_content, "a@bg xb@bg xc\nend\n");
}

#[test]
fn the_canvas_toolbar() {
    let mut app = EditorApp::default();
    app.file_opened("/a".to_string(), "a.akrs", "# A\n\"x\"\n");
    app.canvas_action(CanvasAction::Import);
    assert_eq!(app.blueprint.nodes.len(), 2);
    assert_eq!(app.status, "已从脚本导入蓝图");
    app.drag_template = Some(12);
    app.drop_template(Spot { x: 5_000, y: 7_000 }, true);
    assert_eq!(app.blueprint.nodes[2].text, "end");
    assert_eq!(app.blueprint.nodes[2].pos.x, 5_000);
    assert_eq!(app.status, "已添加节点：结局");
    assert_eq!(app.drag_template, None);
    app.blueprint.selected = Some(1);
    app.menu_action(CanvasAction::DeleteSelected);
    assert_eq!(app.blueprint.nodes.len(), 2);
    app.canvas_action(CanvasAction::Export);
    assert_eq!(app.editor_content, "# A\nend");
    app.canvas_action(CanvasAction::Clear);
    assert!(app.blueprint.nodes.is_empty());
    assert_eq!(app.status, "已清空蓝图");
    app.menu_template(0, Spot { x: 0, y: 0 });
    assert_eq!(app.blueprint.nodes[0].text, "# NewSection 章节标题");
}

#[test]
fn lost_comments_are_told() {
    let mut app = EditorApp::default();
    app.file_opened("/a".to_string(), "a.akrs", "// only\n");
    app.canvas_action(CanvasAction::Import);
    app.canvas_action(CanvasAction::Export);
    assert_eq!(app.editor_content, "");
    assert!(app.show_comment_warning);
    assert_eq!(app.comment_warning_list, vec!["// only".to_string()]);
    app.dismiss_comment_warning();
    assert!(!app.show_comment_warning && app.comment_warning_list.is_empty());
}

#[test]
fn jumping_to_a_preview() {
    let mut app = EditorApp::default();
    let line = line_at("first\n+ 秋 (smile) at 0.25,0.5 size 2\n@bg room with fade\n", 10);
    assert_eq!(line, "+ 秋 (smile) at 0.25,0.5 size 2");
    let texts = sprite_numbers(&line);
    assert_eq!(texts, vec!["0.25", "0.5", "2"]);
    let numbers: Vec<Option<u32>> =
        texts.iter().map(|t| t.parse::<f32>().ok().map(|x| x.to_bits())).collect();
    match app.jump(&line, &numbers) {
        Jump::Sprite(p) => {
            assert_eq!(p.character_name, "秋");
            assert_eq!(p.selected, "smile");
            assert_eq!(f32::from_bits(p.x), 0.25);
            assert_eq!(f32::from_bits(p.y), 0.5);
            assert_eq!(f32::from_bits(p.scale), 2.0);
        }
        other => panic!("{:?}", other),
    }
    assert_eq!(app.preview_tab, PreviewTab::Sprite);
    assert_eq!(app.status, "已跳转到立绘预览：秋 (smile)");
    assert!(matches!(app.jump("@bg room with fade", &vec![]), Jump::Background(n) if n == "room"));
    assert_eq!(app.status, "已跳转到背景预览：room");
    assert!(matches!(app.jump("@music \"my song\"", &vec![]), Jump::Music(n) if n == "my song"));
    assert_eq!(app.preview_tab, PreviewTab::Music);
    assert!(matches!(app.jump("@sound x", &vec![]), Jump::Nowhere));
    assert_eq!(line_at("ab", 99), "ab");
    assert_eq!(line_at("", 0), "");
}

#[test]
fn tabs_and_home() {
    let mut app = EditorApp::default();
    app.new_file();
    assert_eq!(app.central_view(), CentralView::Script);
    app.preview_tab = PreviewTab::Blocks;
    app.settle_tab();
    assert_eq!(app.preview_tab, PreviewTab::Outline);
    app.go_home();
    assert!(app.show_welcome && !app.running);
    assert_eq!(app.status, "就绪");
    assert!(is_animating(EnginePhase::Waiting, false));
    assert!(is_animating(EnginePhase::Running, true));
    assert!(!is_animating(EnginePhase::Running, false));
}
