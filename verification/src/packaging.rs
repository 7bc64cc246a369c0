//! Building the game for several platforms: which are built, in what order, and
//! what the log says. The builds themselves are run by the host, which reports
//! how each of them went.

use crate::order;
use crate::order::sort_strings;
use crate::slices;
use crate::slices::{finishes_with, lines_of};
use crate::text;
use crate::text::{concat2, concat3, concat4, concat5, format_usize, from_chars, to_chars};
use vstd::prelude::*;

verus! {

// ---------------------------------------------------------------------------
// Platforms
// ---------------------------------------------------------------------------

/// A platform that the game can be built for.
#[derive(Debug, Clone, Copy, PartialEq, Eq, Hash, Structural)]
pub enum BuildPlatform {
    Windows,
    Linux,
    MacOS,
    Android,
}

/// The name of a platform.
pub open spec fn platform_label(p: BuildPlatform) -> Seq<char> {
    match p {
        BuildPlatform::Windows => "Windows (.exe)"@,
        BuildPlatform::Linux => "Linux"@,
        BuildPlatform::MacOS => "macOS"@,
        BuildPlatform::Android => "Android (.apk)"@,
    }
}

/// The compiler's name for a platform.
pub open spec fn platform_target(p: BuildPlatform) -> Seq<char> {
    match p {
        BuildPlatform::Windows => "x86_64-pc-windows-gnu"@,
        BuildPlatform::Linux => "x86_64-unknown-linux-gnu"@,
        BuildPlatform::MacOS => "x86_64-apple-darwin"@,
        BuildPlatform::Android => "aarch64-linux-android"@,
    }
}

/// The folder for what is built for a platform.
pub open spec fn platform_folder(p: BuildPlatform) -> Seq<char> {
    match p {
        BuildPlatform::Windows => "akrs-game-windows"@,
        BuildPlatform::Linux => "akrs-game-linux"@,
        BuildPlatform::MacOS => "akrs-game-macos"@,
        BuildPlatform::Android => "akrs-game-android"@,
    }
}

/// All platforms, in the order in which they are built.
pub open spec fn platforms() -> Seq<BuildPlatform> {
    seq![
        BuildPlatform::Windows,
        BuildPlatform::Linux,
        BuildPlatform::MacOS,
        BuildPlatform::Android,
    ]
}

impl BuildPlatform {
    /// The name shown to the user.
    pub fn label(&self) -> (r: &'static str)
        ensures
            r@ == platform_label(*self),
    {
        match self {
            BuildPlatform::Windows => "Windows (.exe)",
            BuildPlatform::Linux => "Linux",
            BuildPlatform::MacOS => "macOS",
            BuildPlatform::Android => "Android (.apk)",
        }
    }

    /// The compiler's name for the platform.
    pub fn target(&self) -> (r: &'static str)
        ensures
            r@ == platform_target(*self),
    {
        match self {
            BuildPlatform::Windows => "x86_64-pc-windows-gnu",
            BuildPlatform::Linux => "x86_64-unknown-linux-gnu",
            BuildPlatform::MacOS => "x86_64-apple-darwin",
            BuildPlatform::Android => "aarch64-linux-android",
        }
    }

    /// The folder for what is built.
    pub fn folder(&self) -> (r: &'static str)
        ensures
            r@ == platform_folder(*self),
    {
        match self {
            BuildPlatform::Windows => "akrs-game-windows",
            BuildPlatform::Linux => "akrs-game-linux",
            BuildPlatform::MacOS => "akrs-game-macos",
            BuildPlatform::Android => "akrs-game-android",
        }
    }

    /// All platforms.
    pub fn all() -> (r: [Self; 4])
        ensures
            r@ == platforms(),
    {
        let r: [BuildPlatform; 4] = [
            BuildPlatform::Windows,
            BuildPlatform::Linux,
            BuildPlatform::MacOS,
            BuildPlatform::Android,
        ];
        assert(r@ =~= platforms());
        r
    }
}

// ---------------------------------------------------------------------------
// The state
// ---------------------------------------------------------------------------

/// The platforms that are ticked.
#[derive(Debug, Clone, Copy, PartialEq, Eq, Structural)]
pub struct Selection {
    pub windows: bool,
    pub linux: bool,
    pub macos: bool,
    pub android: bool,
}

/// Whether a platform is ticked.
pub open spec fn is_ticked(s: Selection, p: BuildPlatform) -> bool {
    match p {
        BuildPlatform::Windows => s.windows,
        BuildPlatform::Linux => s.linux,
        BuildPlatform::MacOS => s.macos,
        BuildPlatform::Android => s.android,
    }
}

/// A platform whose build failed, and why.
#[derive(Debug)]
pub struct Failure<S = String> {
    pub platform: BuildPlatform,
    pub reason: S,
}

impl View for Failure<String> {
    type V = Failure<Seq<char>>;

    open spec fn view(&self) -> Failure<Seq<char>> {
        Failure { platform: self.platform, reason: self.reason@ }
    }
}

pub open spec fn failure_views(v: Seq<Failure>) -> Seq<Failure<Seq<char>>> {
    Seq::new(v.len(), |i: int| v[i]@)
}

/// How far the builds are.
#[derive(Debug)]
pub struct BuildState {
    /// Whether the dialog is open.
    pub show: bool,
    pub selected: Selection,
    pub log: String,
    /// The platform that is being built.
    pub building: Option<BuildPlatform>,
    /// The platforms that are still to be built.
    pub queue: Vec<BuildPlatform>,
    /// Whether all builds are over.
    pub done: bool,
    pub output_dir: String,
    pub succeeded: Vec<BuildPlatform>,
    pub failed: Vec<Failure>,
    /// The copy of the scripts that is built from.
    pub snapshot_dir: Option<String>,
    /// Whether the log is to be shown from its end.
    pub log_follow: bool,
}

/// What a `BuildState` holds.
pub struct Builds {
    pub show: bool,
    pub selected: Selection,
    pub log: Seq<char>,
    pub building: Option<BuildPlatform>,
    pub queue: Seq<BuildPlatform>,
    pub done: bool,
    pub output_dir: Seq<char>,
    pub succeeded: Seq<BuildPlatform>,
    pub failed: Seq<Failure<Seq<char>>>,
    pub snapshot: Option<Seq<char>>,
    pub follow: bool,
}

impl View for BuildState {
    type V = Builds;

    open spec fn view(&self) -> Builds {
        Builds {
            show: self.show,
            selected: self.selected,
            log: self.log@,
            building: self.building,
            queue: self.queue@,
            done: self.done,
            output_dir: self.output_dir@,
            succeeded: self.succeeded@,
            failed: failure_views(self.failed@),
            snapshot: text::opt_view(self.snapshot_dir),
            follow: self.log_follow,
        }
    }
}

/// The state before the first build: the platform that the editor runs on is
/// ticked.
pub open spec fn idle(current: BuildPlatform) -> Builds {
    Builds {
        show: false,
        selected: Selection {
            windows: current is Windows,
            linux: current is Linux,
            macos: current is MacOS,
            android: current is Android,
        },
        log: Seq::empty(),
        building: None,
        queue: Seq::empty(),
        done: false,
        output_dir: "build"@,
        succeeded: Seq::empty(),
        failed: Seq::empty(),
        snapshot: None,
        follow: true,
    }
}

/// A log with a line more; the line is ended where it does not end itself.
pub open spec fn logged(log: Seq<char>, line: Seq<char>) -> Seq<char> {
    if slices::finishes(line, '\n') {
        log + line
    } else {
        log + line + "\n"@
    }
}

/// The platforms that are ticked, in order.
pub open spec fn ticked(s: Selection) -> Seq<BuildPlatform> {
    let none = Seq::<BuildPlatform>::empty();
    (if s.windows {
        seq![BuildPlatform::Windows]
    } else {
        none
    }) + (if s.linux {
        seq![BuildPlatform::Linux]
    } else {
        none
    }) + (if s.macos {
        seq![BuildPlatform::MacOS]
    } else {
        none
    }) + (if s.android {
        seq![BuildPlatform::Android]
    } else {
        none
    })
}

/// Every platform is in the list exactly when it is ticked.
pub proof fn law_ticked(s: Selection, p: BuildPlatform)
    ensures
        ticked(s).contains(p) <==> is_ticked(s, p),
        ticked(s).no_duplicates(),
{
    let t = ticked(s);
    if is_ticked(s, p) {
        let w: int = if s.windows {
            1
        } else {
            0
        };
        let l: int = w + if s.linux {
            1int
        } else {
            0int
        };
        let m: int = l + if s.macos {
            1int
        } else {
            0int
        };
        match p {
            BuildPlatform::Windows => assert(t[0] == p),
            BuildPlatform::Linux => assert(t[w] == p),
            BuildPlatform::MacOS => assert(t[l] == p),
            BuildPlatform::Android => assert(t[m] == p),
        }
    }
}

impl BuildState {
    /// The state before the first build. `current` is the platform that the
    /// editor runs on.
    pub fn new(current: BuildPlatform) -> (r: Self)
        ensures
            r@ == idle(current),
    {
        let r: BuildState = BuildState {
            show: false,
            selected: Selection {
                windows: matches!(current, BuildPlatform::Windows),
                linux: matches!(current, BuildPlatform::Linux),
                macos: matches!(current, BuildPlatform::MacOS),
                android: matches!(current, BuildPlatform::Android),
            },
            log: String::new(),
            building: None,
            queue: Vec::new(),
            done: false,
            output_dir: "build".to_owned(),
            succeeded: Vec::new(),
            failed: Vec::new(),
            snapshot_dir: None,
            log_follow: true,
        };
        assert(r@.failed =~= Seq::empty());
        assert(r@.log =~= Seq::empty());
        r
    }

    /// Whether a build is running or waiting.
    pub fn is_building(&self) -> (r: bool)
        ensures
            r == (self@.building is Some || self@.queue.len() > 0),
    {
        self.building.is_some() || self.queue.len() > 0
    }

    /// Closes the dialog, unless a build is running or waiting.
    pub fn close(&mut self)
        ensures
            final(self)@ == (Builds {
                show: old(self)@.show && (old(self)@.building is Some || old(self)@.queue.len() > 0),
                ..old(self)@
            }),
    {
        if !self.is_building() {
            self.show = false;
        }
    }

    /// Appends a line to the log.
    pub fn log_line(&mut self, line: &str)
        ensures
            final(self)@ == (Builds { log: logged(old(self)@.log, line@), ..old(self)@ }),
    {
        let cs: Vec<char> = to_chars(line);
        self.log.append(line);
        if !finishes_with(cs.as_slice(), '\n') {
            self.log.append("\n");
        }
    }
}

// ---------------------------------------------------------------------------
// Starting
// ---------------------------------------------------------------------------

/// The state with everything cleared for a new run.
pub open spec fn cleared(b: Builds, snapshot: Option<Seq<char>>) -> Builds {
    Builds {
        log: Seq::empty(),
        done: false,
        succeeded: Seq::empty(),
        failed: Seq::empty(),
        follow: true,
        snapshot,
        ..b
    }
}

/// The state with the ticked platforms waiting. Android fails at once where it
/// is not ready.
pub open spec fn queued(b: Builds, android_ready: bool) -> Builds {
    Builds {
        queue: if b.selected.android && !android_ready {
            ticked((Selection { android: false, ..b.selected }))
        } else {
            ticked(b.selected)
        },
        failed: if b.selected.android && !android_ready {
            b.failed.push(
                Failure {
                    platform: BuildPlatform::Android,
                    reason: "Android 工具链缺失或资产暂存失败（见上方日志）"@,
                },
            )
        } else {
            b.failed
        },
        log: logged(b.log, "开始打包流程..."@),
        ..b
    }
}

fn ticked_list(s: Selection) -> (r: Vec<BuildPlatform>)
    ensures
        r@ == ticked(s),
{
    let mut r: Vec<BuildPlatform> = Vec::new();
    if s.windows {
        r.push(BuildPlatform::Windows);
    }
    if s.linux {
        r.push(BuildPlatform::Linux);
    }
    if s.macos {
        r.push(BuildPlatform::MacOS);
    }
    if s.android {
        r.push(BuildPlatform::Android);
    }
    assert(r@ =~= ticked(s));
    r
}

impl BuildState {
    fn fail(&mut self, platform: BuildPlatform, reason: String)
        ensures
            final(self)@ == (Builds {
                failed: old(self)@.failed.push(Failure { platform, reason: reason@ }),
                ..old(self)@
            }),
    {
        let ghost before = self@.failed;
        let ghost why = reason@;
        self.failed.push(Failure { platform, reason });
        assert(self@.failed =~= before.push(Failure { platform, reason: why }));
    }

    /// Whether a run can start: some platform has to be ticked, and the log says
    /// so where none is.
    pub fn can_start(&mut self) -> (r: bool)
        ensures
            r == (ticked(old(self)@.selected).len() > 0),
            final(self)@ == (if r {
                old(self)@
            } else {
                Builds { log: logged(old(self)@.log, "请至少选择一个平台"@), ..old(self)@ }
            }),
    {
        let list: Vec<BuildPlatform> = ticked_list(self.selected);
        if list.len() == 0 {
            self.log_line("请至少选择一个平台");
            false
        } else {
            true
        }
    }

    /// Clears the outcome of the last run. `snapshot` is the copy of the scripts
    /// that is built from.
    pub fn begin(&mut self, snapshot: Option<String>)
        ensures
            final(self)@ == cleared(old(self)@, text::opt_view(snapshot)),
    {
        self.log = String::new();
        self.done = false;
        self.succeeded = Vec::new();
        self.failed = Vec::new();
        self.log_follow = true;
        self.snapshot_dir = snapshot;
        assert(self@.log =~= Seq::empty());
        assert(self@.failed =~= Seq::empty());
    }

    /// Lines the ticked platforms up. `android_ready` tells whether Android can
    /// be built.
    pub fn enqueue(&mut self, android_ready: bool)
        ensures
            final(self)@ == queued(old(self)@, android_ready),
    {
        let mut wanted: Selection = self.selected;
        if wanted.android && !android_ready {
            wanted.android = false;
            self.fail(
                BuildPlatform::Android,
                "Android 工具链缺失或资产暂存失败（见上方日志）".to_owned(),
            );
        }
        self.queue = ticked_list(wanted);
        self.log_line("开始打包流程...");
    }
}

/// The log after the tools for Android were looked for.
pub open spec fn toolchain_log(
    log: Seq<char>,
    cargo_apk: bool,
    ndk: Option<Seq<char>>,
    sdk: Option<Seq<char>>,
) -> Seq<char> {
    let first = logged(
        log,
        if cargo_apk {
            "✓ cargo-apk 已安装"@
        } else {
            "✗ cargo-apk 未安装 —— 运行: cargo install cargo-apk"@
        },
    );
    let second = logged(
        first,
        match ndk {
            Some(path) => "✓ Android NDK: "@ + path,
            None => "✗ 未找到 Android NDK —— 请安装 NDK 并设置环境变量 ANDROID_NDK_HOME"@,
        },
    );
    let third = logged(
        second,
        match sdk {
            Some(path) => "✓ Android SDK: "@ + path,
            None => "✗ 未找到 Android SDK —— 请安装 Android Studio/cmdline-tools 并设置 ANDROID_HOME"@,
        },
    );
    if cargo_apk && ndk is Some && sdk is Some {
        logged(third, "✓ Android 工具链就绪（构建时还会自动安装 rustup 目标）"@)
    } else {
        logged(
            logged(
                third,
                "→ 安装指引: 1) Android Studio 安装 SDK+NDK 2) 设置环境变量 ANDROID_HOME/ANDROID_NDK_HOME 3) cargo install cargo-apk 4) rustup target add aarch64-linux-android"@,
            ),
            "→ 如构建报错 Platform N is not installed，运行: sdkmanager \"platforms;android-N\""@,
        )
    }
}

impl BuildState {
    fn log_tool(&mut self, path: &Option<String>, found: &str, missing: &str)
        ensures
            final(self)@ == (Builds {
                log: logged(
                    old(self)@.log,
                    match text::opt_view(*path) {
                        Some(p) => found@ + p,
                        None => missing@,
                    },
                ),
                ..old(self)@
            }),
    {
        match path {
            Some(p) => {
                let line: String = concat2(found, p.as_str());
                self.log_line(line.as_str());
            },
            None => self.log_line(missing),
        }
    }

    /// Logs which of the tools for Android were found, and tells whether all
    /// were.
    pub fn check_android_toolchain(
        &mut self,
        cargo_apk: bool,
        ndk: &Option<String>,
        sdk: &Option<String>,
    ) -> (r: bool)
        ensures
            r == (cargo_apk && ndk is Some && sdk is Some),
            final(self)@ == (Builds {
                log: toolchain_log(
                    old(self)@.log,
                    cargo_apk,
                    text::opt_view(*ndk),
                    text::opt_view(*sdk),
                ),
                ..old(self)@
            }),
    {
        if cargo_apk {
            self.log_line("✓ cargo-apk 已安装");
        } else {
            self.log_line("✗ cargo-apk 未安装 —— 运行: cargo install cargo-apk");
        }
        self.log_tool(
            ndk,
            "✓ Android NDK: ",
            "✗ 未找到 Android NDK —— 请安装 NDK 并设置环境变量 ANDROID_NDK_HOME",
        );
        self.log_tool(
            sdk,
            "✓ Android SDK: ",
            "✗ 未找到 Android SDK —— 请安装 Android Studio/cmdline-tools 并设置 ANDROID_HOME",
        );
        let ok: bool = cargo_apk && ndk.is_some() && sdk.is_some();
        if ok {
            self.log_line("✓ Android 工具链就绪（构建时还会自动安装 rustup 目标）");
        } else {
            self.log_line(
                "→ 安装指引: 1) Android Studio 安装 SDK+NDK 2) 设置环境变量 ANDROID_HOME/ANDROID_NDK_HOME 3) cargo install cargo-apk 4) rustup target add aarch64-linux-android",
            );
            self.log_line(
                "→ 如构建报错 Platform N is not installed，运行: sdkmanager \"platforms;android-N\"",
            );
        }
        ok
    }
}

// ---------------------------------------------------------------------------
// Running
// ---------------------------------------------------------------------------

/// What the host found when it looked at the build that is running.
#[derive(Debug)]
pub enum ProcessEvent<S = String> {
    Running,
    Succeeded,
    /// The exit code as text, and what the build wrote.
    Failed { code: S, output: S },
    /// The build could not be looked at.
    Broken(S),
}

impl View for ProcessEvent<String> {
    type V = ProcessEvent<Seq<char>>;

    open spec fn view(&self) -> ProcessEvent<Seq<char>> {
        match *self {
            ProcessEvent::Running => ProcessEvent::Running,
            ProcessEvent::Succeeded => ProcessEvent::Succeeded,
            ProcessEvent::Failed { code, output } => ProcessEvent::Failed {
                code: code@,
                output: output@,
            },
            ProcessEvent::Broken(reason) => ProcessEvent::Broken(reason@),
        }
    }
}

/// A log with lines behind it, each with a line break.
pub open spec fn with_lines(log: Seq<char>, lines: Seq<Seq<char>>) -> Seq<char>
    decreases lines.len(),
{
    if lines.len() == 0 {
        log
    } else {
        with_lines(log, lines.drop_last()) + lines.last() + "\n"@
    }
}

/// The last ten of the lines.
pub open spec fn last_ten(lines: Seq<Seq<char>>) -> Seq<Seq<char>> {
    if lines.len() > 10 {
        lines.subrange(lines.len() - 10, lines.len() as int)
    } else {
        lines
    }
}

/// The state with a build that failed.
pub open spec fn broken_off(
    b: Builds,
    log: Seq<char>,
    platform: BuildPlatform,
    reason: Seq<char>,
) -> Builds {
    Builds { log, building: None, failed: b.failed.push(Failure { platform, reason }), ..b }
}

/// The state after the host looked at the build of a platform.
pub open spec fn after_event(
    b: Builds,
    platform: BuildPlatform,
    event: ProcessEvent<Seq<char>>,
) -> Builds {
    match event {
        ProcessEvent::Running => b,
        ProcessEvent::Succeeded => Builds {
            log: logged(b.log, "✓ "@ + platform_label(platform) + " 构建成功"@),
            building: None,
            succeeded: b.succeeded.push(platform),
            ..b
        },
        ProcessEvent::Failed { code, output } => broken_off(
            b,
            logged(
                with_lines(b.log, last_ten(slices::lines(output))),
                "✗ "@ + platform_label(platform) + " 构建失败 ("@ + ("exit code: "@ + code)
                    + ")"@,
            ),
            platform,
            "exit code: "@ + code,
        ),
        ProcessEvent::Broken(reason) => broken_off(
            b,
            logged(b.log, "✗ "@ + platform_label(platform) + " 构建异常: "@ + reason),
            platform,
            reason,
        ),
    }
}

/// The line that announces a build.
pub open spec fn announcement(platform: BuildPlatform) -> Seq<char> {
    if platform is Android {
        "→ 正在构建 Android (cargo apk, target: "@ + platform_target(platform) + ")..."@
    } else {
        "→ 正在构建 "@ + platform_label(platform) + " (target: "@ + platform_target(platform)
            + ")..."@
    }
}

/// The state with the next platform being built.
pub open spec fn advanced(b: Builds) -> Builds {
    Builds {
        building: Some(b.queue[0]),
        queue: b.queue.subrange(1, b.queue.len() as int),
        log: logged(b.log, announcement(b.queue[0])),
        ..b
    }
}

/// The state after a build could not be started.
pub open spec fn not_started(b: Builds, platform: BuildPlatform, error: Seq<char>) -> Builds {
    let reason = "无法启动构建进程: "@ + error;
    broken_off(
        b,
        logged(b.log, "✗ "@ + platform_label(platform) + " "@ + reason),
        platform,
        reason,
    )
}

/// The log with a line for each failure.
pub open spec fn with_failures(log: Seq<char>, failed: Seq<Failure<Seq<char>>>) -> Seq<char>
    decreases failed.len(),
{
    if failed.len() == 0 {
        log
    } else {
        let f = failed.last();
        logged(
            with_failures(log, failed.drop_last()),
            "  · "@ + platform_label(f.platform) + ": "@ + f.reason,
        )
    }
}

/// The log with the summary.
pub open spec fn summary(b: Builds) -> Seq<char> {
    let head = logged(
        logged(b.log, "\n========== 打包汇总 =========="@),
        "成功: "@ + text::nat_text(b.succeeded.len()) + " 个平台"@,
    );
    let body = if b.failed.len() > 0 {
        with_failures(
            logged(head, "失败: "@ + text::nat_text(b.failed.len()) + " 个平台"@),
            b.failed,
        )
    } else {
        head
    };
    logged(body, "=============================="@)
}

/// The state after the last build.
pub open spec fn finished(b: Builds) -> Builds {
    Builds {
        done: true,
        log: if b.snapshot is Some {
            logged(summary(b), "脚本快照已清理。"@)
        } else {
            summary(b)
        },
        snapshot: None,
        ..b
    }
}

/// What the status says after the last build.
pub open spec fn outcome(b: Builds) -> Seq<char> {
    "打包完成（成功 "@ + text::nat_text(b.succeeded.len()) + "，失败 "@ + text::nat_text(
        b.failed.len(),
    ) + "）"@
}

/// Whether nothing is left to build, and the summary is still to be written.
pub open spec fn is_over(b: Builds) -> bool {
    b.building is None && b.queue.len() == 0 && !b.done
}

fn push_last_lines(log: &mut String, output: &str)
    ensures
        final(log)@ == with_lines(old(log)@, last_ten(slices::lines(output@))),
{
    let cs: Vec<char> = to_chars(output);
    let lines: Vec<&[char]> = lines_of(cs.as_slice());
    let ghost all = slices::slice_views(lines@);
    let ghost tail = last_ten(all);
    let n: usize = lines.len();
    let start: usize = if n > 10 {
        n - 10
    } else {
        0
    };
    let mut i: usize = start;
    assert(tail.take(0) =~= Seq::empty());
    while i < n
        invariant
            start <= i <= n,
            n == lines@.len(),
            all == slices::slice_views(lines@),
            tail == last_ten(all),
            start == (if n > 10 {
                n - 10
            } else {
                0
            }),
            log@ == with_lines(old(log)@, tail.take(i - start)),
        decreases n - i,
    {
        proof {
            assert(tail.take(i - start + 1).drop_last() =~= tail.take(i - start));
            assert(tail.take(i - start + 1).last() == lines@[i as int]@);
        }
        let line: String = from_chars(lines[i]);
        log.append(line.as_str());
        log.append("\n");
        i = i + 1;
    }
    assert(tail.take(n - start) =~= tail);
}

impl BuildState {
    /// Takes note of what the host found. The result tells whether the build is
    /// over.
    pub fn on_process(&mut self, event: &ProcessEvent) -> (over: bool)
        requires
            old(self)@.building is Some,
        ensures
            over == !(event is Running),
            final(self)@ == after_event(old(self)@, old(self)@.building->0, event@),
    {
        let platform: BuildPlatform = match self.building {
            Some(p) => p,
            None => {
                return false;
            },
        };
        match event {
            ProcessEvent::Running => {
                return false;
            },
            ProcessEvent::Succeeded => {
                let line: String = concat3("✓ ", platform.label(), " 构建成功");
                self.log_line(line.as_str());
                self.succeeded.push(platform);
                self.building = None;
            },
            ProcessEvent::Failed { code, output } => {
                push_last_lines(&mut self.log, output.as_str());
                let reason: String = concat2("exit code: ", code.as_str());
                let line: String = concat5(
                    "✗ ",
                    platform.label(),
                    " 构建失败 (",
                    reason.as_str(),
                    ")",
                );
                self.log_line(line.as_str());
                self.fail(platform, reason);
                self.building = None;
            },
            ProcessEvent::Broken(reason) => {
                let line: String = concat4(
                    "✗ ",
                    platform.label(),
                    " 构建异常: ",
                    reason.as_str(),
                );
                self.log_line(line.as_str());
                self.fail(platform, reason.clone());
                self.building = None;
            },
        }
        true
    }

    /// Turns to the next platform, where none is being built and one is
    /// waiting. The host is to start its build.
    pub fn next_platform(&mut self) -> (r: Option<BuildPlatform>)
        ensures
            match r {
                Some(p) => old(self)@.building is None && old(self)@.queue.len() > 0 && p == old(self)@.queue[0] && final(self)@ == advanced(old(self)@),
                None => (old(self)@.building is Some || old(self)@.queue.len() == 0) && final(self)@ == old(self)@,
            },
    {
        if self.building.is_some() || self.queue.len() == 0 {
            return None;
        }
        let platform: BuildPlatform = self.queue.remove(0);
        assert(self.queue@ =~= old(self)@.queue.subrange(1, old(self)@.queue.len() as int));
        self.building = Some(platform);
        let line: String = if matches!(platform, BuildPlatform::Android) {
            concat3(
                "→ 正在构建 Android (cargo apk, target: ",
                platform.target(),
                ")...",
            )
        } else {
            concat5(
                "→ 正在构建 ",
                platform.label(),
                " (target: ",
                platform.target(),
                ")...",
            )
        };
        self.log_line(line.as_str());
        Some(platform)
    }

    /// Takes note that a build could not be started.
    pub fn launch_failed(&mut self, platform: BuildPlatform, error: &str)
        ensures
            final(self)@ == not_started(old(self)@, platform, error@),
    {
        let reason: String = concat2("无法启动构建进程: ", error);
        let line: String = concat4("✗ ", platform.label(), " ", reason.as_str());
        self.log_line(line.as_str());
        self.fail(platform, reason);
        self.building = None;
    }

    fn log_failures(&mut self)
        ensures
            final(self)@ == (Builds {
                log: with_failures(old(self)@.log, old(self)@.failed),
                ..old(self)@
            }),
    {
        let n: usize = self.failed.len();
        let mut i: usize = 0;
        assert(self@.failed.take(0) =~= Seq::empty());
        while i < n
            invariant
                i <= n,
                n == old(self).failed@.len(),
                self@ == (Builds {
                    log: with_failures(old(self)@.log, old(self)@.failed.take(i as int)),
                    ..old(self)@
                }),
            decreases n - i,
        {
            let ghost failed = old(self)@.failed;
            proof {
                assert(failed.take(i + 1).drop_last() =~= failed.take(i as int));
                assert(failed.take(i + 1).last() == failed[i as int]);
                assert(self@.failed == failed);
                assert(self@.failed.len() == self.failed@.len());
                assert(self@.failed[i as int] == self.failed@[i as int]@);
            }
            let line: String = concat4(
                "  · ",
                self.failed[i].platform.label(),
                ": ",
                self.failed[i].reason.as_str(),
            );
            self.log_line(line.as_str());
            i = i + 1;
        }
        assert(old(self)@.failed.take(n as int) =~= old(self)@.failed);
    }

    fn log_summary(&mut self)
        ensures
            final(self)@ == (Builds { log: summary(old(self)@), ..old(self)@ }),
    {
        let ok: String = format_usize(self.succeeded.len());
        let failed: String = format_usize(self.failed.len());
        assert(self@.failed.len() == self.failed@.len());
        self.log_line("\n========== 打包汇总 ==========");
        let line: String = concat3("成功: ", ok.as_str(), " 个平台");
        self.log_line(line.as_str());
        assert(self@.failed.len() == self.failed@.len());
        if self.failed.len() > 0 {
            let line: String = concat3("失败: ", failed.as_str(), " 个平台");
            self.log_line(line.as_str());
            self.log_failures();
        }
        self.log_line("==============================");
    }

    /// Writes the summary when the last build is over. The result is the new
    /// status, and the copy of the scripts that the host is to remove.
    pub fn finish(&mut self) -> (r: Option<(String, Option<String>)>)
        ensures
            match r {
                Some((status, snapshot)) => is_over(old(self)@) && status@ == outcome(old(self)@)
                    && text::opt_view(snapshot) == old(self)@.snapshot && final(self)@ == finished(
                    old(self)@,
                ),
                None => !is_over(old(self)@) && final(self)@ == old(self)@,
            },
    {
        if self.is_building() || self.done {
            return None;
        }
        self.done = true;
        let ok: String = format_usize(self.succeeded.len());
        let failed: String = format_usize(self.failed.len());
        assert(self@.failed.len() == self.failed@.len());
        let status: String = concat5(
            "打包完成（成功 ",
            ok.as_str(),
            "，失败 ",
            failed.as_str(),
            "）",
        );
        self.log_summary();
        let snapshot: Option<String> = self.snapshot_dir.take();
        if snapshot.is_some() {
            self.log_line("脚本快照已清理。");
        }
        Some((status, snapshot))
    }
}

// ---------------------------------------------------------------------------
// What every step keeps
// ---------------------------------------------------------------------------

/// The platforms that failed.
pub open spec fn failed_platforms(failed: Seq<Failure<Seq<char>>>) -> Seq<BuildPlatform> {
    failed.map_values(|f: Failure<Seq<char>>| f.platform)
}

/// The platform that is being built, if there is one.
pub open spec fn current(b: Builds) -> Seq<BuildPlatform> {
    match b.building {
        Some(p) => seq![p],
        None => Seq::empty(),
    }
}

/// How often a platform occurs among those that are over, the one that is being
/// built and those that are waiting.
pub open spec fn occurrences(b: Builds, p: BuildPlatform) -> nat {
    b.succeeded.to_multiset().count(p) + failed_platforms(b.failed).to_multiset().count(p)
        + current(b).to_multiset().count(p) + b.queue.to_multiset().count(p)
}

/// A platform that was lined up stays accounted for, exactly once per time it
/// was lined up: starting its build, the outcome of the build and a failure to
/// start it only move it on.
pub proof fn law_platforms_accounted(
    b: Builds,
    p: BuildPlatform,
    event: ProcessEvent<Seq<char>>,
    error: Seq<char>,
)
    ensures
        b.building is None && b.queue.len() > 0 ==> occurrences(advanced(b), p) == occurrences(
            b,
            p,
        ),
        b.building is Some ==> occurrences(after_event(b, b.building->0, event), p)
            == occurrences(b, p) && occurrences(not_started(b, b.building->0, error), p)
            == occurrences(b, p),
        occurrences(finished(b), p) == occurrences(b, p),
{
    broadcast use vstd::seq_lib::group_to_multiset_ensures;

    let none = Seq::<BuildPlatform>::empty();
    assert(none.to_multiset().count(p) == 0);
    if b.building is None && b.queue.len() > 0 {
        let rest = b.queue.subrange(1, b.queue.len() as int);
        assert(b.queue =~= seq![b.queue[0]] + rest);
        vstd::seq_lib::lemma_multiset_commutative(seq![b.queue[0]], rest);
        assert(current(advanced(b)) == seq![b.queue[0]]);
    }
    if b.building is Some {
        let one = b.building->0;
        assert(current(b) =~= none.push(one));
        assert(none.push(one).to_multiset() =~= none.to_multiset().insert(one));
        assert(b.succeeded.push(one).to_multiset() =~= b.succeeded.to_multiset().insert(one));
        let names = failed_platforms(b.failed);
        assert forall|f: Failure<Seq<char>>| f.platform == one implies failed_platforms(
            #[trigger] b.failed.push(f),
        ) == names.push(one) by {
            assert(failed_platforms(b.failed.push(f)) =~= names.push(one));
        }
        assert(names.push(one).to_multiset() =~= names.to_multiset().insert(one));
    }
}

/// A run that begins lines up every ticked platform once and no other; one that
/// cannot be built counts among the failures.
pub proof fn law_run_takes_ticked(
    b: Builds,
    snapshot: Option<Seq<char>>,
    ready: bool,
    p: BuildPlatform,
)
    requires
        b.building is None,
    ensures
        occurrences(queued(cleared(b, snapshot), ready), p) == if is_ticked(b.selected, p) {
            1nat
        } else {
            0nat
        },
{
    broadcast use vstd::seq_lib::group_to_multiset_ensures;

    let start = queued(cleared(b, snapshot), ready);
    let none = Seq::<BuildPlatform>::empty();
    assert(none.to_multiset().count(p) == 0);
    assert(current(start) == none);
    assert(start.succeeded == none);
    law_ticked(b.selected, p);
    let wanted = if b.selected.android && !ready {
        Selection { android: false, ..b.selected }
    } else {
        b.selected
    };
    law_ticked(wanted, p);
    let t = ticked(wanted);
    assert(t.to_multiset().count(p) == if t.contains(p) {
        1nat
    } else {
        0nat
    }) by {
        t.lemma_multiset_has_no_duplicates();
    }
    if b.selected.android && !ready {
        assert(failed_platforms(start.failed) =~= none.push(BuildPlatform::Android));
        assert(none.push(BuildPlatform::Android).to_multiset() =~= none.to_multiset().insert(
            BuildPlatform::Android,
        ));
    } else {
        assert(failed_platforms(start.failed) =~= none);
    }
}

// ---------------------------------------------------------------------------
// What is built
// ---------------------------------------------------------------------------

/// The arguments with which a platform is built.
pub open spec fn build_arguments(platform: BuildPlatform) -> Seq<Seq<char>> {
    if platform is Android {
        seq![
            "apk"@,
            "build"@,
            "--release"@,
            "-p"@,
            "akrs-game"@,
            "--lib"@,
            "--target"@,
            platform_target(platform),
        ]
    } else {
        seq!["build"@, "--release"@, "--target"@, platform_target(platform)]
    }
}

/// The name of the file that a program is built into.
pub open spec fn program_file(platform: BuildPlatform, name: Seq<char>) -> Seq<char> {
    if platform is Windows {
        name + ".exe"@
    } else {
        name
    }
}

/// What became of a file that was built.
#[derive(Debug)]
pub enum ArtifactNote<S = String> {
    /// No package below a folder.
    NoPackage(S),
    /// A package that could not be copied, and why.
    CopyFailed { name: S, error: S },
    /// A file that was copied to a folder.
    Copied { name: S, folder: S },
    /// A file that is not there.
    Missing(S),
}

impl View for ArtifactNote<String> {
    type V = ArtifactNote<Seq<char>>;

    open spec fn view(&self) -> ArtifactNote<Seq<char>> {
        match *self {
            ArtifactNote::NoPackage(folder) => ArtifactNote::NoPackage(folder@),
            ArtifactNote::CopyFailed { name, error } => ArtifactNote::CopyFailed {
                name: name@,
                error: error@,
            },
            ArtifactNote::Copied { name, folder } => ArtifactNote::Copied {
                name: name@,
                folder: folder@,
            },
            ArtifactNote::Missing(path) => ArtifactNote::Missing(path@),
        }
    }
}

/// The line of the log for a file that was built.
pub open spec fn artifact_text(note: ArtifactNote<Seq<char>>) -> Seq<char> {
    match note {
        ArtifactNote::NoPackage(folder) => "  警告: 未在 "@ + folder + " 下找到 APK 产物"@,
        ArtifactNote::CopyFailed { name, error } => "  警告: APK "@ + name + " 复制失败: "@
            + error,
        ArtifactNote::Copied { name, folder } => "  产物 "@ + name + " 已复制到: "@ + folder,
        ArtifactNote::Missing(path) => "  警告: 未找到产物 "@ + path,
    }
}

fn string_list(words: &[&str]) -> (r: Vec<String>)
    ensures
        text::views(r@) == Seq::new(words@.len(), |i: int| words@[i]@),
{
    let mut r: Vec<String> = Vec::new();
    let mut i: usize = 0;
    while i < words.len()
        invariant
            i <= words@.len(),
            r@.len() == i,
            forall|j: int| 0 <= j < i ==> (#[trigger] r@[j])@ == words@[j]@,
        decreases words@.len() - i,
    {
        r.push(words[i].to_owned());
        i = i + 1;
    }
    assert(text::views(r@) =~= Seq::new(words@.len(), |i: int| words@[i]@));
    r
}

impl BuildPlatform {
    /// The arguments with which the platform is built.
    pub fn arguments(&self) -> (r: Vec<String>)
        ensures
            text::views(r@) == build_arguments(*self),
    {
        let target: &'static str = self.target();
        let r: Vec<String> = if matches!(*self, BuildPlatform::Android) {
            let words: [&str; 8] = [
                "apk",
                "build",
                "--release",
                "-p",
                "akrs-game",
                "--lib",
                "--target",
                target,
            ];
            string_list(words.as_slice())
        } else {
            let words: [&str; 4] = ["build", "--release", "--target", target];
            string_list(words.as_slice())
        };
        assert(text::views(r@) =~= build_arguments(*self));
        r
    }

    /// The name of the file that a program is built into.
    pub fn program_name(&self, name: &str) -> (r: String)
        ensures
            r@ == program_file(*self, name@),
    {
        if matches!(*self, BuildPlatform::Windows) {
            concat2(name, ".exe")
        } else {
            name.to_owned()
        }
    }
}

impl BuildState {
    /// Logs what became of a file that was built.
    pub fn note_artifact(&mut self, note: &ArtifactNote)
        ensures
            final(self)@ == (Builds {
                log: logged(old(self)@.log, artifact_text(note@)),
                ..old(self)@
            }),
    {
        let line: String = match note {
            ArtifactNote::NoPackage(folder) => concat3(
                "  警告: 未在 ",
                folder.as_str(),
                " 下找到 APK 产物",
            ),
            ArtifactNote::CopyFailed { name, error } => concat4(
                "  警告: APK ",
                name.as_str(),
                " 复制失败: ",
                error.as_str(),
            ),
            ArtifactNote::Copied { name, folder } => concat4(
                "  产物 ",
                name.as_str(),
                " 已复制到: ",
                folder.as_str(),
            ),
            ArtifactNote::Missing(path) => concat2("  警告: 未找到产物 ", path.as_str()),
        };
        self.log_line(line.as_str());
    }
}

/// The list of the files of a package: their names in order, one to a line.
pub fn package_list(files: &Vec<String>) -> (r: (Vec<String>, String))
    ensures
        order::in_order(text::views(r.0@)),
        text::views(r.0@).to_multiset() == text::views(files@).to_multiset(),
        r.1@ == with_lines(Seq::empty(), text::views(r.0@)),
{
    let names: Vec<String> = sort_strings(files);
    let ghost all = text::views(names@);
    let n: usize = names.len();
    let mut content: String = String::new();
    let mut i: usize = 0;
    assert(all.take(0) =~= Seq::empty());
    assert(content@ =~= Seq::empty());
    while i < n
        invariant
            i <= n,
            n == names@.len(),
            all == text::views(names@),
            content@ == with_lines(Seq::empty(), all.take(i as int)),
        decreases n - i,
    {
        proof {
            assert(all.take(i + 1).drop_last() =~= all.take(i as int));
            assert(all.take(i + 1).last() == names@[i as int]@);
        }
        content.append(names[i].as_str());
        content.append("\n");
        i = i + 1;
    }
    assert(all.take(n as int) =~= all);
    (names, content)
}

} // verus!
