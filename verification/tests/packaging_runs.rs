//! Runs of builds, and the file lists around them.
use akrs::packaging::{package_list, ArtifactNote, BuildPlatform, BuildState, ProcessEvent};

#[test]
fn platforms_have_names() {
    assert_eq!(BuildPlatform::all().len(), 4);
    assert_eq!(BuildPlatform::Windows.label(), "Windows (.exe)");
    assert_eq!(BuildPlatform::Android.target(), "aarch64-linux-android");
    assert_eq!(BuildPlatform::MacOS.folder(), "akrs-game-macos");
    assert_eq!(BuildPlatform::Windows.program_name("game"), "game.exe");
    assert_eq!(BuildPlatform::Linux.program_name("game"), "game");
    assert_eq!(
        BuildPlatform::Linux.arguments(),
        vec!["build", "--release", "--target", "x86_64-unknown-linux-gnu"]
    );
    assert_eq!(
        BuildPlatform::Android.arguments(),
        vec![
            "apk",
            "build",
            "--release",
            "-p",
            "akrs-game",
            "--lib",
            "--target",
            "aarch64-linux-android"
        ]
    );
}

#[test]
fn lines_end_in_the_log() {
    let mut b = BuildState::new(BuildPlatform::Linux);
    b.log_line("one");
    b.log_line("two\n");
    assert_eq!(b.log, "one\ntwo\n");
}

#[test]
fn nothing_ticked() {
    let mut b = BuildState::new(BuildPlatform::Linux);
    assert!(b.selected.linux && !b.selected.windows);
    b.selected.linux = false;
    assert!(!b.can_start());
    assert_eq!(b.log, "请至少选择一个平台\n");
}

#[test]
fn a_run_over_three_platforms() {
    let mut b = BuildState::new(BuildPlatform::Linux);
    b.selected.windows = true;
    b.selected.android = true;
    b.show = true;
    b.log_line("old");
    assert!(b.can_start());
    b.begin(Some("build/snapshot".to_string()));
    assert!(!b.check_android_toolchain(true, &None, &Some("/sdk".to_string())));
    b.enqueue(false);
    assert_eq!(b.queue, vec![BuildPlatform::Windows, BuildPlatform::Linux]);
    assert_eq!(b.failed.len(), 1);
    assert_eq!(b.failed[0].platform, BuildPlatform::Android);
    assert!(b.is_building());
    b.close();
    assert!(b.show);
    assert!(b.finish().is_none());

    assert_eq!(b.next_platform(), Some(BuildPlatform::Windows));
    assert_eq!(b.next_platform(), None);
    assert!(!b.on_process(&ProcessEvent::Running));
    let output: String = (0..12).map(|i| format!("line {}\n", i)).collect();
    assert!(b.on_process(&ProcessEvent::Failed { code: "Some(1)".to_string(), output }));
    assert!(!b.log.contains("line 1\n"));
    assert!(b.log.contains("line 2\nline 3\n"));
    assert!(b.log.ends_with("✗ Windows (.exe) 构建失败 (exit code: Some(1))\n"));

    assert_eq!(b.next_platform(), Some(BuildPlatform::Linux));
    assert!(b.log.ends_with("→ 正在构建 Linux (target: x86_64-unknown-linux-gnu)...\n"));
    assert!(b.on_process(&ProcessEvent::Succeeded));
    assert!(b.log.ends_with("✓ Linux 构建成功\n"));
    assert_eq!(b.next_platform(), None);

    let (status, snapshot) = b.finish().expect("over");
    assert_eq!(status, "打包完成（成功 1，失败 2）");
    assert_eq!(snapshot, Some("build/snapshot".to_string()));
    assert!(b.done);
    assert!(b.log.contains("\n========== 打包汇总 ==========\n成功: 1 个平台\n失败: 2 个平台\n"));
    assert!(b.log.contains("  · Windows (.exe): exit code: Some(1)\n"));
    assert!(b.log.ends_with("==============================\n脚本快照已清理。\n"));
    assert!(b.finish().is_none());
    b.close();
    assert!(!b.show);
}

#[test]
fn builds_that_do_not_start() {
    let mut b = BuildState::new(BuildPlatform::MacOS);
    b.begin(None);
    b.enqueue(true);
    let p = b.next_platform().expect("macOS");
    b.launch_failed(p, "no cargo");
    assert_eq!(b.failed[0].reason, "无法启动构建进程: no cargo");
    assert!(b.log.ends_with("✗ macOS 无法启动构建进程: no cargo\n"));
    b.enqueue(true);
    b.next_platform();
    b.on_process(&ProcessEvent::Broken("gone".to_string()));
    assert!(b.log.ends_with("✗ macOS 构建异常: gone\n"));
    assert_eq!(b.failed.len(), 2);
}

#[test]
fn tools_for_android() {
    let mut b = BuildState::new(BuildPlatform::Android);
    let ok = b.check_android_toolchain(true, &Some("/ndk".to_string()), &Some("/sdk".to_string()));
    assert!(ok);
    assert_eq!(
        b.log,
        "✓ cargo-apk 已安装\n✓ Android NDK: /ndk\n✓ Android SDK: /sdk\n✓ Android 工具链就绪（构建时还会自动安装 rustup 目标）\n"
    );
}

#[test]
fn notes_on_files() {
    let mut b = BuildState::new(BuildPlatform::Linux);
    b.note_artifact(&ArtifactNote::Missing("target/x".to_string()));
    b.note_artifact(&ArtifactNote::Copied { name: "x".to_string(), folder: "out".to_string() });
    b.note_artifact(&ArtifactNote::NoPackage("target".to_string()));
    b.note_artifact(&ArtifactNote::CopyFailed { name: "a".to_string(), error: "e".to_string() });
    assert_eq!(
        b.log,
        "  警告: 未找到产物 target/x\n  产物 x 已复制到: out\n  警告: 未在 target 下找到 APK 产物\n  警告: APK a 复制失败: e\n"
    );
    let files = vec!["b/c".to_string(), "a".to_string()];
    let (names, list) = package_list(&files);
    assert_eq!(names, vec!["a", "b/c"]);
    assert_eq!(list, "a\nb/c\n");
}
