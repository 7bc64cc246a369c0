//! Projects, dialogs and the files that the editor keeps.
use akrs::editor::EditorApp;
use akrs::picker::{
    entry_label, import_entries, read_picker_entries, script_list, FilePickerState, PickerEntry,
};
use akrs::project::{ProjectConfig, RecentProjects};
use akrs::rpy::import_notes;
use akrs::workspace::{
    read_layout_done, save_status, write_layout_done, GameEvent, PreviewGate, TranslationEvent,
    Workspace,
};

fn workspace() -> Workspace {
    Workspace {
        config: ProjectConfig::default(),
        loaded: false,
        project_dir: None,
        work_dir: "/work".to_string(),
        recent: RecentProjects::default(),
        title_warning: None,
        show_warning: false,
    }
}

#[test]
fn widths_match_single_precision() {
    for ascii in 0..24usize {
        for wide in 0..14usize {
            for order in 0..3usize {
                let text = match order {
                    0 => "a".repeat(ascii) + &"字".repeat(wide),
                    1 => "字".repeat(wide) + &"a".repeat(ascii),
                    _ => {
                        let mut t = String::new();
                        for i in 0..ascii.max(wide) {
                            if i < ascii {
                                t.push('a');
                            }
                            if i < wide {
                                t.push('字');
                            }
                        }
                        t
                    }
                };
                let mut width = 0.0f32;
                for c in text.chars() {
                    width += if c.is_ascii() { 0.55 } else { 1.0 };
                }
                let config = ProjectConfig { title: text, ..ProjectConfig::default() };
                assert_eq!(config.is_title_too_long(), width > 12.0);
            }
        }
    }
}

#[test]
fn window_titles() {
    let mut config = ProjectConfig::default();
    assert_eq!(config.effective_window_title(), "Akizuki*Rustgal");
    config.window_title = "W".to_string();
    assert_eq!(config.effective_window_title(), "W");
}

#[test]
fn long_titles_are_confirmed() {
    let mut w = workspace();
    assert!(w.try_set_title("短标题".to_string()));
    assert_eq!(w.config.title, "短标题");
    let long = "长".repeat(13);
    assert!(!w.try_set_title(long.clone()));
    assert_eq!(w.config.title, "短标题");
    w.cancel_title_warning();
    assert!(!w.confirm_title_warning());
    assert!(!w.try_set_subtitle(long.clone()));
    assert!(w.confirm_title_warning());
    assert_eq!(w.config.subtitle, long);
    assert_eq!(w.config.title, "短标题");
    assert!(w.title_warning.is_none());
}

#[test]
fn opening_a_project() {
    let mut w = workspace();
    assert_eq!(w.project_root(), "/work");
    let status = w.open_project("/p", Some("P".to_string()), ProjectConfig::default(), 7, " ", false);
    assert_eq!(status, "已打开项目：P");
    assert!(!w.show_warning && w.loaded);
    assert_eq!(w.project_root(), "/p");
    assert_eq!(w.recent.projects[0].last_opened, 7);
    let status = w.open_project("/q", None, ProjectConfig::default(), 9, "note", false);
    assert_eq!(status, "已打开项目：未命名项目");
    assert!(w.show_warning);
    w.open_project("/p", Some("P".to_string()), ProjectConfig::default(), 11, "", true);
    assert_eq!(w.recent.projects.len(), 2);
    assert_eq!(w.recent.projects[0].path, "/p");
    for i in 0..12u64 {
        w.recent.add_project(&format!("/r{}", i), "r", i);
    }
    assert_eq!(w.recent.projects.len(), 10);
    assert_eq!(save_status(&None), "项目配置已保存");
    assert_eq!(save_status(&Some("x".to_string())), "保存项目配置失败：x");
}

#[test]
fn window_sizes() {
    let mut w = workspace();
    w.set_resolution("+800", "600");
    assert_eq!(w.config.default_resolution, (800, 600));
    w.set_resolution("800", "six");
    assert_eq!(w.config.default_resolution, (800, 600));
    w.set_resolution("4294967296", "1");
    assert_eq!(w.config.default_resolution, (800, 600));
    w.set_resolution("", "1");
    assert_eq!(w.config.default_resolution, (800, 600));
    w.set_resolution("4294967295", "0");
    assert_eq!(w.config.default_resolution, (4294967295, 0));
}

#[test]
fn list_of_laid_out_scripts() {
    let files = vec!["/a b/c.akrs".to_string(), "/中.akrs".to_string()];
    assert_eq!(read_layout_done(&write_layout_done(&files)), files);
    assert_eq!(read_layout_done("  /x \r\n\n /y\n"), vec!["/x", "/y"]);
    assert_eq!(write_layout_done(&vec![]), "");
}

#[test]
fn previews_of_the_game() {
    let mut app = EditorApp::default();
    assert_eq!(app.start_game_preview(false), PreviewGate::NoCargo);
    assert!(app.show_cargo_guide);
    assert_eq!(app.start_game_preview(true), PreviewGate::NotSaved);
    assert!(app.show_save_reminder);
    app.file_opened("/a.akrs".to_string(), "a.akrs", "x");
    assert_eq!(app.start_game_preview(true), PreviewGate::Open);
    app.on_game(&GameEvent::Started { script: "/a.akrs".to_string(), folder: "/".to_string() });
    assert_eq!(app.status, "游戏预览已启动（/a.akrs，CWD=/）");
    app.on_game(&GameEvent::Running);
    assert_eq!(app.status, "游戏预览已启动（/a.akrs，CWD=/）");
    app.on_game(&GameEvent::Ended);
    assert_eq!(app.status, "游戏预览已结束");
    app.on_game(&GameEvent::Broken);
    assert_eq!(app.status, "游戏预览进程异常");
    app.on_game(&GameEvent::NotStarted("e".to_string()));
    assert_eq!(app.status, "启动预览失败: e");
}

#[test]
fn translations_and_imports() {
    let mut app = EditorApp::default();
    app.on_translation(&TranslationEvent::Loaded("ja-JP".to_string()));
    assert_eq!(app.status, "已加载翻译：ja-JP");
    assert_eq!(app.translation_target_lang, "ja-JP");
    app.on_translation(&TranslationEvent::NothingToSave);
    assert_eq!(app.status, "无翻译数据可保存");
    app.on_translation(&TranslationEvent::Saved("p".to_string()));
    assert_eq!(app.status, "翻译已保存：p");
    app.on_translation(&TranslationEvent::NoFolder("e".to_string()));
    assert_eq!(app.status, "创建目录失败：e");
    app.on_translation(&TranslationEvent::NotWritten("e".to_string()));
    assert_eq!(app.status, "保存失败：e");
    app.on_translation(&TranslationEvent::NotSerialized("e".to_string()));
    assert_eq!(app.status, "序列化失败：e");
    app.imported("a.rpy", "/b.akrs".to_string(), None, "# S".to_string());
    assert_eq!(app.status, "已导入 a.rpy -> /b.akrs");
    assert_eq!(app.file_name_input, "imported.akrs");
    assert_eq!(app.editor_content, "# S");
    assert_eq!(import_notes(vec![]), vec!["转换完成，无警告"]);
    assert_eq!(import_notes(vec!["w".to_string()]), vec!["w"]);
}

fn entry(name: &str, is_dir: bool) -> PickerEntry {
    PickerEntry { name: name.to_string(), is_dir }
}

fn names(entries: &[PickerEntry]) -> Vec<&str> {
    entries.iter().map(|e| e.name.as_str()).collect()
}

#[test]
fn entries_are_filtered_and_sorted() {
    let all = vec![
        entry("b.akrs", false),
        entry("Zoo", true),
        entry("A.AKRS", false),
        entry("", false),
        entry("apple", true),
        entry("a.akrs", false),
    ];
    let shown = read_picker_entries(&all, "");
    assert_eq!(names(&shown), vec!["apple", "Zoo", "A.AKRS", "a.akrs", "b.akrs"]);
    assert_eq!(names(&read_picker_entries(&all, "AKRS")), vec!["A.AKRS", "a.akrs", "b.akrs"]);
    let import = import_entries(&all);
    assert_eq!(names(&import), vec!["Zoo", "apple", "", "A.AKRS", "a.akrs", "b.akrs"]);
    assert_eq!(entry_label(&all[1]), "▸  Zoo");
    assert_eq!(entry_label(&all[0]), "📄  b.akrs");
}

#[test]
fn scripts_of_a_folder() {
    let files: Vec<String> =
        ["z.akrs", "a.AKRS", ".akrs", "b.txt", "m.x.akrs", "akrs"].iter().map(|s| s.to_string()).collect();
    assert_eq!(script_list(&files), vec!["m.x.akrs", "z.akrs"]);
}

#[test]
fn choosing_a_file() {
    let all = vec![entry("f", false), entry("g", false), entry("sub", true)];
    let mut p = FilePickerState::new("/d".to_string(), &all);
    assert_eq!(names(&p.entries), vec!["sub", "f", "g"]);
    assert_eq!(p.click(0), Some("sub".to_string()));
    assert_eq!(p.click(1), None);
    assert_eq!(p.selected, Some("f".to_string()));
    p.set_filter("G".to_string(), &all);
    assert_eq!(names(&p.entries), vec!["g"]);
    assert_eq!(p.selected, Some("f".to_string()));
    p.enter("/d/sub".to_string(), &vec![entry("x", false), entry("dog", false)]);
    assert_eq!(names(&p.entries), vec!["dog"]);
    assert_eq!(p.selected, None);
    assert_eq!(p.filter, "G");
    p.go_up("/d".to_string(), &all);
    assert_eq!(names(&p.entries), vec!["sub", "f", "g"]);
    assert_eq!(p.filter, "");
    assert_eq!(p.current_dir, "/d");
}

#[test]
fn choosing_a_folder() {
    let mut p = FilePickerState::new("/".to_string(), &vec![entry("src", true)]);
    p.set_filter("s".to_string(), &vec![entry("src", true), entry("bin", true)]);
    assert_eq!(names(&p.entries), vec!["src"]);
    p.enter_folder("/src".to_string(), &vec![entry("b", true), entry("tests", true)]);
    assert_eq!(names(&p.entries), vec!["tests"]);
    assert_eq!(p.filter, "");
    assert_eq!(p.current_dir, "/src");
}
