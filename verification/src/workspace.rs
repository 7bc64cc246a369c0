//! The open project: its settings and titles, what is remembered of it, and the
//! files that the editor keeps for itself.

use crate::diagnostic;
use crate::diagnostic::join_strings;
use crate::editor;
use crate::editor::{blank, EditorApp};
use crate::project;
use crate::project::{ProjectConfig, RecentProject, RecentProjects};
use crate::slices;
use crate::slices::{lines_of, read_number, trim_of};
use crate::text;
use crate::text::{concat2, concat4, concat5, from_chars, to_chars};
use vstd::prelude::*;

verus! {

/// Titles that wait for an answer because they are too long.
#[derive(Debug)]
pub struct TitleWarningState<S = String> {
    pub new_title: S,
    pub new_subtitle: S,
}

impl View for TitleWarningState<String> {
    type V = TitleWarningState<Seq<char>>;

    open spec fn view(&self) -> TitleWarningState<Seq<char>> {
        TitleWarningState { new_title: self.new_title@, new_subtitle: self.new_subtitle@ }
    }
}

pub open spec fn warning_view(w: Option<TitleWarningState>) -> Option<
    TitleWarningState<Seq<char>>,
> {
    match w {
        Some(t) => Some(t@),
        None => None,
    }
}

/// The open project.
#[derive(Debug)]
pub struct Workspace {
    pub config: ProjectConfig,
    /// Whether the settings are those of a project.
    pub loaded: bool,
    pub project_dir: Option<String>,
    /// The folder whose files are listed.
    pub work_dir: String,
    pub recent: RecentProjects,
    pub title_warning: Option<TitleWarningState>,
    /// Whether the note of the project's author is shown.
    pub show_warning: bool,
}

/// The settings, but for the titles.
pub open spec fn same_but_titles(a: ProjectConfig, b: ProjectConfig) -> bool {
    a == (ProjectConfig { title: a.title, subtitle: a.subtitle, ..b })
}

/// A workspace with other titles.
pub open spec fn has_titles(
    w: Workspace,
    before: Workspace,
    title: Seq<char>,
    subtitle: Seq<char>,
) -> bool {
    &&& w.config.title@ == title
    &&& w.config.subtitle@ == subtitle
    &&& same_but_titles(w.config, before.config)
    &&& w == (Workspace { config: w.config, title_warning: w.title_warning, ..before })
}

/// A workspace that waits for an answer about titles.
pub open spec fn asks_about(
    w: Workspace,
    before: Workspace,
    title: Seq<char>,
    subtitle: Seq<char>,
) -> bool {
    &&& warning_view(w.title_warning) == Some(
        TitleWarningState { new_title: title, new_subtitle: subtitle },
    )
    &&& w == (Workspace { title_warning: w.title_warning, ..before })
}

/// The name of a project whose folder has none.
pub open spec fn project_name(folder: Option<Seq<char>>) -> Seq<char> {
    match folder {
        Some(name) => name,
        None => "未命名项目"@,
    }
}

impl Workspace {
    /// Sets the title. One that is too long has to be confirmed first; else the
    /// result is `true`, and the host is to write the settings.
    pub fn try_set_title(&mut self, new_title: String) -> (written: bool)
        ensures
            written == !project::too_long(new_title@),
            written ==> has_titles(
                *final(self),
                *old(self),
                new_title@,
                old(self).config.subtitle@,
            ) && final(self).title_warning == old(self).title_warning,
            !written ==> asks_about(
                *final(self),
                *old(self),
                new_title@,
                old(self).config.subtitle@,
            ),
    {
        let mut wanted: ProjectConfig = self.config.clone();
        wanted.title = new_title;
        if wanted.is_title_too_long() {
            self.title_warning = Some(
                TitleWarningState {
                    new_title: wanted.title,
                    new_subtitle: self.config.subtitle.clone(),
                },
            );
            false
        } else {
            self.config = wanted;
            true
        }
    }

    /// Sets the subtitle. One that is too long has to be confirmed first; else
    /// the result is `true`, and the host is to write the settings.
    pub fn try_set_subtitle(&mut self, new_subtitle: String) -> (written: bool)
        ensures
            written == !project::too_long(new_subtitle@),
            written ==> has_titles(
                *final(self),
                *old(self),
                old(self).config.title@,
                new_subtitle@,
            ) && final(self).title_warning == old(self).title_warning,
            !written ==> asks_about(
                *final(self),
                *old(self),
                old(self).config.title@,
                new_subtitle@,
            ),
    {
        let mut wanted: ProjectConfig = self.config.clone();
        wanted.subtitle = new_subtitle;
        if wanted.is_subtitle_too_long() {
            self.title_warning = Some(
                TitleWarningState {
                    new_title: self.config.title.clone(),
                    new_subtitle: wanted.subtitle,
                },
            );
            false
        } else {
            self.config = wanted;
            true
        }
    }

    /// Sets the titles that wait for an answer. The result tells whether there
    /// were any; the host is to write the settings then.
    pub fn confirm_title_warning(&mut self) -> (written: bool)
        ensures
            written == old(self).title_warning is Some,
            written ==> has_titles(
                *final(self),
                *old(self),
                (old(self).title_warning->0).new_title@,
                (old(self).title_warning->0).new_subtitle@,
            ) && final(self).title_warning is None,
            !written ==> *final(self) == *old(self),
    {
        match self.title_warning.take() {
            Some(w) => {
                self.config.title = w.new_title;
                self.config.subtitle = w.new_subtitle;
                true
            },
            None => false,
        }
    }

    /// Drops the titles that wait for an answer.
    pub fn cancel_title_warning(&mut self)
        ensures
            final(self).title_warning is None,
            *final(self) == (Workspace { title_warning: None, ..*old(self) }),
    {
        self.title_warning = None;
    }

    /// Opens a project with its settings. `folder` is the name of its folder,
    /// `now` the time, `warning` the note of its author, and `dismissed` tells
    /// whether the user does not want to see it again. The result is the new
    /// status.
    pub fn open_project(
        &mut self,
        dir: &str,
        folder: Option<String>,
        config: ProjectConfig,
        now: u64,
        warning: &str,
        dismissed: bool,
    ) -> (status: String)
        ensures
            status@ == "已打开项目："@ + project_name(text::opt_view(folder)),
            final(self).config == config,
            final(self).loaded,
            text::opt_view(final(self).project_dir) == Some(dir@),
            final(self).work_dir@ == dir@,
            final(self).recent@ == project::reopened(
                old(self).recent@,
                (RecentProject {
                    path: dir@,
                    name: project_name(text::opt_view(folder)),
                    last_opened: now,
                }),
            ),
            final(self).title_warning == old(self).title_warning,
            final(self).show_warning == (old(self).show_warning || (!editor::is_blank(warning@)
                && !dismissed)),
    {
        let name: String = match folder {
            Some(name) => name,
            None => "未命名项目".to_owned(),
        };
        self.config = config;
        self.loaded = true;
        self.project_dir = Some(dir.to_owned());
        self.work_dir = dir.to_owned();
        self.recent.add_project(dir, name.as_str(), now);
        if !blank(warning) && !dismissed {
            self.show_warning = true;
        }
        concat2("已打开项目：", name.as_str())
    }
}

/// What the status says after the settings were written.
pub open spec fn config_status(error: Option<Seq<char>>) -> Seq<char> {
    match error {
        Some(e) => "保存项目配置失败："@ + e,
        None => "项目配置已保存"@,
    }
}

/// What the status says after titles that are too long were written.
pub const LONG_TITLE_STATUS: &'static str =
    "已应用标题更改（标题较长，可能影响显示效果）";

/// What the status says after the settings were written, or could not be.
pub fn save_status(error: &Option<String>) -> (r: String)
    ensures
        r@ == config_status(text::opt_view(*error)),
{
    match error {
        Some(e) => concat2("保存项目配置失败：", e.as_str()),
        None => "项目配置已保存".to_owned(),
    }
}

// ---------------------------------------------------------------------------
// The list of scripts whose blueprint was laid out
// ---------------------------------------------------------------------------

/// The lines that are not blank, without white space at their ends.
pub open spec fn filled(lines: Seq<Seq<char>>) -> Seq<Seq<char>>
    decreases lines.len(),
{
    if lines.len() == 0 {
        lines
    } else {
        let front = filled(lines.drop_last());
        let last = slices::trim(lines.last());
        if last.len() == 0 {
            front
        } else {
            front.push(last)
        }
    }
}

/// The list as it is read from its file.
pub open spec fn list_in(content: Seq<char>) -> Seq<Seq<char>> {
    filled(slices::lines(content))
}

/// Reads the list from its file.
pub fn read_layout_done(content: &str) -> (r: Vec<String>)
    ensures
        text::views(r@) == list_in(content@),
{
    let cs: Vec<char> = to_chars(content);
    let lines: Vec<&[char]> = lines_of(cs.as_slice());
    let ghost all = slices::slice_views(lines@);
    let n: usize = lines.len();
    let mut r: Vec<String> = Vec::new();
    let mut i: usize = 0;
    assert(text::views(r@) =~= filled(all.take(0)));
    while i < n
        invariant
            i <= n,
            n == lines@.len(),
            all == slices::slice_views(lines@),
            text::views(r@) == filled(all.take(i as int)),
        decreases n - i,
    {
        proof {
            assert(all.take(i + 1).drop_last() =~= all.take(i as int));
            assert(all.take(i + 1).last() == lines@[i as int]@);
        }
        let line: &[char] = trim_of(lines[i]);
        if line.len() > 0 {
            let ghost before = text::views(r@);
            r.push(from_chars(line));
            assert(text::views(r@) =~= before.push(line@));
        }
        i = i + 1;
    }
    assert(all.take(n as int) =~= all);
    r
}

/// The list as it is written to its file.
pub fn write_layout_done(files: &Vec<String>) -> (r: String)
    ensures
        r@ == diagnostic::joined(text::views(files@), "\n"@),
{
    join_strings(files, "\n")
}

/// Whether a name keeps on a line of its own: it has no line break, and no
/// white space at its ends.
pub open spec fn fits_line(s: Seq<char>) -> bool {
    s.len() > 0 && !s.contains('\n') && !slices::is_space(s[0]) && !slices::is_space(s.last())
}

proof fn lemma_index_none(s: Seq<char>, i: int)
    requires
        0 <= i <= s.len(),
        !s.contains('\n'),
    ensures
        slices::index_of(s, '\n', i) == s.len(),
    decreases s.len() - i,
{
    if i < s.len() {
        assert(s.contains(s[i]));
        lemma_index_none(s, i + 1);
    }
}

proof fn lemma_index_shift(a: Seq<char>, b: Seq<char>, i: int)
    requires
        0 <= i,
    ensures
        slices::index_of(a + b, '\n', a.len() + i) == a.len() + slices::index_of(b, '\n', i),
    decreases b.len() - i,
{
    if i < b.len() {
        assert((a + b)[a.len() + i] == b[i]);
        if b[i] != '\n' {
            lemma_index_shift(a, b, i + 1);
        }
    }
}

proof fn lemma_index_front(a: Seq<char>, b: Seq<char>, i: int)
    requires
        0 <= i <= a.len(),
        b.len() > 0,
        b[0] == '\n',
    ensures
        slices::index_of(a + b, '\n', i) == slices::index_of(a, '\n', i),
    decreases a.len() - i,
{
    if i < a.len() {
        assert((a + b)[i] == a[i]);
        if a[i] != '\n' {
            lemma_index_front(a, b, i + 1);
        }
    } else {
        assert((a + b)[i] == b[0]);
    }
}

/// A line behind a text is one line more.
proof fn lemma_line_more(a: Seq<char>, f: Seq<char>, i: int)
    requires
        0 <= i < a.len(),
        a.last() != '\n',
        a.last() != '\r',
        fits_line(f),
    ensures
        slices::lines_from(a + ("\n"@ + f), i) == slices::lines_from(a, i) + seq![f],
    decreases a.len() - i,
{
    reveal_strlit("\n");
    let b = "\n"@ + f;
    let s = a + b;
    lemma_index_front(a, b, i);
    slices::lemma_index_of(a, '\n', i);
    let e = slices::index_of(a, '\n', i);
    if e < a.len() {
        assert(e != a.len() - 1);
        lemma_line_more(a, f, e + 1);
        assert(slices::line_text(s, i, e) =~= slices::line_text(a, i, e));
        assert(slices::lines_from(s, i) =~= slices::lines_from(a, i) + seq![f]);
    } else {
        assert(s[e - 1] == a.last());
        assert(slices::line_text(s, i, e) =~= a.subrange(i, e));
        assert(slices::line_text(a, i, e) =~= a.subrange(i, e));
        let front = a + "\n"@;
        assert(s =~= front + f);
        lemma_index_shift(front, f, 0);
        lemma_index_none(f, 0);
        assert(slices::line_text(s, e + 1, s.len() as int) =~= f);
        assert(slices::lines_from(s, (s.len() + 1) as int) =~= Seq::empty());
        assert(slices::lines_from(s, e + 1) =~= seq![f]);
        assert(slices::lines_from(a, e + 1) =~= Seq::empty());
        assert(slices::lines_from(s, i) =~= slices::lines_from(a, i) + seq![f]);
    }
}

proof fn lemma_joined_lines(files: Seq<Seq<char>>)
    requires
        forall|i: int| 0 <= i < files.len() ==> fits_line(#[trigger] files[i]),
    ensures
        slices::lines(diagnostic::joined(files, "\n"@)) == files,
        files.len() > 0 ==> diagnostic::joined(files, "\n"@).len() > 0 && !slices::is_space(
            diagnostic::joined(files, "\n"@).last(),
        ),
    decreases files.len(),
{
    let s = diagnostic::joined(files, "\n"@);
    if files.len() == 0 {
        assert(slices::lines(s) =~= files);
    } else if files.len() == 1 {
        let f = files[0];
        assert(fits_line(f));
        lemma_index_none(f, 0);
        assert(slices::line_text(f, 0, f.len() as int) =~= f);
        assert(slices::lines_from(f, (f.len() + 1) as int) =~= Seq::empty());
        assert(slices::lines(s) =~= files);
    } else {
        let front = files.drop_last();
        let f = files.last();
        assert(fits_line(files[files.len() - 1]));
        assert forall|i: int| 0 <= i < front.len() implies fits_line(#[trigger] front[i]) by {
            assert(front[i] == files[i]);
        }
        lemma_joined_lines(front);
        let a = diagnostic::joined(front, "\n"@);
        assert(s =~= a + ("\n"@ + f));
        lemma_line_more(a, f, 0);
        assert(s.last() == f.last());
        assert(front + seq![f] =~= files);
    }
}

proof fn lemma_filled(files: Seq<Seq<char>>)
    requires
        forall|i: int| 0 <= i < files.len() ==> fits_line(#[trigger] files[i]),
    ensures
        filled(files) == files,
    decreases files.len(),
{
    if files.len() > 0 {
        let front = files.drop_last();
        assert forall|i: int| 0 <= i < front.len() implies fits_line(#[trigger] front[i]) by {
            assert(front[i] == files[i]);
        }
        lemma_filled(front);
        assert(fits_line(files[files.len() - 1]));
        assert(front.push(files.last()) =~= files);
    }
}

/// The list of scripts is read back as it was written.
pub proof fn law_layout_done_reads_back(files: Seq<Seq<char>>)
    requires
        forall|i: int| 0 <= i < files.len() ==> fits_line(#[trigger] files[i]),
    ensures
        list_in(diagnostic::joined(files, "\n"@)) == files,
{
    lemma_joined_lines(files);
    lemma_filled(files);
}

// ---------------------------------------------------------------------------
// The game in its own window, and imported scripts
// ---------------------------------------------------------------------------

/// What stands in the way of a preview.
#[derive(Debug, Clone, Copy, PartialEq, Eq, Structural)]
pub enum PreviewGate {
    /// The build tool is missing.
    NoCargo,
    /// The script has never been saved.
    NotSaved,
    Open,
}

/// How the preview of the game went.
#[derive(Debug)]
pub enum GameEvent<S = String> {
    /// It runs a script in a folder.
    Started { script: S, folder: S },
    NotStarted(S),
    Running,
    Ended,
    Broken,
}

impl View for GameEvent<String> {
    type V = GameEvent<Seq<char>>;

    open spec fn view(&self) -> GameEvent<Seq<char>> {
        match *self {
            GameEvent::Started { script, folder } => GameEvent::Started {
                script: script@,
                folder: folder@,
            },
            GameEvent::NotStarted(error) => GameEvent::NotStarted(error@),
            GameEvent::Running => GameEvent::Running,
            GameEvent::Ended => GameEvent::Ended,
            GameEvent::Broken => GameEvent::Broken,
        }
    }
}

/// The editor after a preview was asked for.
pub open spec fn after_gate(e: editor::Session, gate: PreviewGate) -> editor::Session {
    match gate {
        PreviewGate::NoCargo => editor::Session { cargo_guide: true, ..e },
        PreviewGate::NotSaved => editor::Session { save_reminder: true, ..e },
        PreviewGate::Open => e,
    }
}

/// What stands in the way of a preview.
pub open spec fn gate_of(e: editor::Session, cargo: bool) -> PreviewGate {
    if !cargo {
        PreviewGate::NoCargo
    } else if e.file is None {
        PreviewGate::NotSaved
    } else {
        PreviewGate::Open
    }
}

/// What the status says of the preview of the game.
pub open spec fn game_status(event: GameEvent<Seq<char>>) -> Option<Seq<char>> {
    match event {
        GameEvent::Started { script, folder } => Some(
            "游戏预览已启动（"@ + script + "，CWD="@ + folder + "）"@,
        ),
        GameEvent::NotStarted(error) => Some("启动预览失败: "@ + error),
        GameEvent::Running => None,
        GameEvent::Ended => Some("游戏预览已结束"@),
        GameEvent::Broken => Some("游戏预览进程异常"@),
    }
}

fn game_text(event: &GameEvent) -> (r: Option<String>)
    ensures
        text::opt_view(r) == game_status(event@),
{
    match event {
        GameEvent::Started { script, folder } => Some(
            concat5(
                "游戏预览已启动（",
                script.as_str(),
                "，CWD=",
                folder.as_str(),
                "）",
            ),
        ),
        GameEvent::NotStarted(error) => Some(concat2("启动预览失败: ", error.as_str())),
        GameEvent::Running => None,
        GameEvent::Ended => Some("游戏预览已结束".to_owned()),
        GameEvent::Broken => Some("游戏预览进程异常".to_owned()),
    }
}

/// The editor after an imported script was written.
pub open spec fn after_import(
    e: editor::Session,
    source: Seq<char>,
    target: Seq<char>,
    name: Option<Seq<char>>,
    script: Seq<char>,
) -> editor::Session {
    editor::Session {
        status: "已导入 "@ + source + " -> "@ + target,
        content: script,
        file: Some(target),
        name: match name {
            Some(n) => n,
            None => "imported.akrs"@,
        },
        ..e
    }
}

impl EditorApp {
    /// Whether the game can be previewed. `cargo` tells whether the build tool
    /// was found. Where it can, the host saves the script and starts the game.
    pub fn start_game_preview(&mut self, cargo: bool) -> (r: PreviewGate)
        ensures
            r == gate_of(old(self)@, cargo),
            final(self)@ == after_gate(old(self)@, r),
    {
        if !cargo {
            self.show_cargo_guide = true;
            PreviewGate::NoCargo
        } else if self.current_file.is_none() {
            self.show_save_reminder = true;
            PreviewGate::NotSaved
        } else {
            PreviewGate::Open
        }
    }

    /// Takes note of how the preview of the game went.
    pub fn on_game(&mut self, event: &GameEvent)
        ensures
            final(self)@ == (match game_status(event@) {
                Some(status) => editor::Session { status, ..old(self)@ },
                None => old(self)@,
            }),
    {
        match game_text(event) {
            Some(status) => {
                self.status = status;
            },
            None => {},
        }
    }

    /// Shows an imported script that was written to `target`, whose file name is
    /// `name`.
    pub fn imported(
        &mut self,
        source: &str,
        target: String,
        name: Option<String>,
        script: String,
    )
        ensures
            final(self)@ == after_import(
                old(self)@,
                source@,
                target@,
                text::opt_view(name),
                script@,
            ),
    {
        self.status = concat4("已导入 ", source, " -> ", target.as_str());
        self.editor_content = script;
        self.current_file = Some(target);
        self.file_name_input = match name {
            Some(n) => n,
            None => "imported.akrs".to_owned(),
        };
    }
}

// ---------------------------------------------------------------------------
// Translations and the window's size
// ---------------------------------------------------------------------------

/// How saving a translation went.
#[derive(Debug)]
pub enum TranslationEvent<S = String> {
    Loaded(S),
    NothingToSave,
    NoFolder(S),
    Saved(S),
    NotWritten(S),
    NotSerialized(S),
}

impl View for TranslationEvent<String> {
    type V = TranslationEvent<Seq<char>>;

    open spec fn view(&self) -> TranslationEvent<Seq<char>> {
        match *self {
            TranslationEvent::Loaded(lang) => TranslationEvent::Loaded(lang@),
            TranslationEvent::NothingToSave => TranslationEvent::NothingToSave,
            TranslationEvent::NoFolder(e) => TranslationEvent::NoFolder(e@),
            TranslationEvent::Saved(path) => TranslationEvent::Saved(path@),
            TranslationEvent::NotWritten(e) => TranslationEvent::NotWritten(e@),
            TranslationEvent::NotSerialized(e) => TranslationEvent::NotSerialized(e@),
        }
    }
}

/// What the status says of a translation.
pub open spec fn translation_status(event: TranslationEvent<Seq<char>>) -> Seq<char> {
    match event {
        TranslationEvent::Loaded(lang) => "已加载翻译："@ + lang,
        TranslationEvent::NothingToSave => "无翻译数据可保存"@,
        TranslationEvent::NoFolder(e) => "创建目录失败："@ + e,
        TranslationEvent::Saved(path) => "翻译已保存："@ + path,
        TranslationEvent::NotWritten(e) => "保存失败："@ + e,
        TranslationEvent::NotSerialized(e) => "序列化失败："@ + e,
    }
}

/// The editor after a translation was loaded or saved.
pub open spec fn after_translation(
    e: editor::Session,
    event: TranslationEvent<Seq<char>>,
) -> editor::Session {
    editor::Session {
        status: translation_status(event),
        language: match event {
            TranslationEvent::Loaded(lang) => lang,
            _ => e.language,
        },
        ..e
    }
}

fn translation_text(event: &TranslationEvent) -> (r: String)
    ensures
        r@ == translation_status(event@),
{
    match event {
        TranslationEvent::Loaded(lang) => concat2("已加载翻译：", lang.as_str()),
        TranslationEvent::NothingToSave => "无翻译数据可保存".to_owned(),
        TranslationEvent::NoFolder(e) => concat2("创建目录失败：", e.as_str()),
        TranslationEvent::Saved(path) => concat2("翻译已保存：", path.as_str()),
        TranslationEvent::NotWritten(e) => concat2("保存失败：", e.as_str()),
        TranslationEvent::NotSerialized(e) => concat2("序列化失败：", e.as_str()),
    }
}

impl EditorApp {
    /// Takes note of how loading or saving a translation went.
    pub fn on_translation(&mut self, event: &TranslationEvent)
        ensures
            final(self)@ == after_translation(old(self)@, event@),
    {
        self.status = translation_text(event);
        match event {
            TranslationEvent::Loaded(lang) => {
                self.translation_target_lang = lang.clone();
            },
            _ => {},
        }
    }
}

/// A width or height that was entered, where it is a number that fits.
pub open spec fn side_in(s: Seq<char>) -> Option<nat> {
    match slices::number_in(s) {
        Some(n) => if n <= u32::MAX {
            Some(n)
        } else {
            None
        },
        None => None,
    }
}

fn read_side(s: &str) -> (r: Option<u32>)
    ensures
        match side_in(s@) {
            Some(n) => r is Some && r->0 == n,
            None => r is None,
        },
{
    let cs: Vec<char> = to_chars(s);
    match read_number(cs.as_slice()) {
        Some(n) => if n <= 0xffff_ffff {
            Some(n as u32)
        } else {
            None
        },
        None => None,
    }
}

impl Workspace {
    /// Sets the size of the window from what was entered; it stays as it was
    /// where either is no number.
    pub fn set_resolution(&mut self, width: &str, height: &str)
        ensures
            match (side_in(width@), side_in(height@)) {
                (Some(w), Some(h)) => *final(self) == (Workspace {
                    config: ProjectConfig {
                        default_resolution: (w as u32, h as u32),
                        ..old(self).config
                    },
                    ..*old(self)
                }),
                _ => *final(self) == *old(self),
            },
    {
        match (read_side(width), read_side(height)) {
            (Some(w), Some(h)) => {
                self.config.default_resolution = (w, h);
            },
            _ => {},
        }
    }

    /// The folder of the project: that of the files where none is open.
    pub fn project_root(&self) -> (r: &str)
        ensures
            r@ == (match text::opt_view(self.project_dir) {
                Some(dir) => dir,
                None => self.work_dir@,
            }),
    {
        match &self.project_dir {
            Some(dir) => dir.as_str(),
            None => self.work_dir.as_str(),
        }
    }
}

} // verus!
