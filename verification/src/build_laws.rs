//! Laws of packaging.

use crate::packaging;
use crate::packaging::{ArtifactNote, BuildPlatform, Builds, Failure, ProcessEvent};
use crate::text;
use vstd::prelude::*;

verus! {

/// What each platform is called, what it is compiled for, and where its files go.
pub proof fn law_platforms()
    ensures
        packaging::platform_label(BuildPlatform::Windows) == "Windows (.exe)"@,
        packaging::platform_label(BuildPlatform::Linux) == "Linux"@,
        packaging::platform_label(BuildPlatform::MacOS) == "macOS"@,
        packaging::platform_label(BuildPlatform::Android) == "Android (.apk)"@,
        packaging::platform_target(BuildPlatform::Windows) == "x86_64-pc-windows-gnu"@,
        packaging::platform_target(BuildPlatform::Linux) == "x86_64-unknown-linux-gnu"@,
        packaging::platform_target(BuildPlatform::MacOS) == "x86_64-apple-darwin"@,
        packaging::platform_target(BuildPlatform::Android) == "aarch64-linux-android"@,
        packaging::platform_folder(BuildPlatform::Windows) == "akrs-game-windows"@,
        packaging::platform_folder(BuildPlatform::Linux) == "akrs-game-linux"@,
        packaging::platform_folder(BuildPlatform::MacOS) == "akrs-game-macos"@,
        packaging::platform_folder(BuildPlatform::Android) == "akrs-game-android"@,
        packaging::platforms() == seq![
            BuildPlatform::Windows,
            BuildPlatform::Linux,
            BuildPlatform::MacOS,
            BuildPlatform::Android,
        ],
{
}

/// A program of Windows has an ending of its own; the others have none. Every build is
/// for the target of its platform.
pub proof fn law_what_is_built(name: Seq<char>, p: BuildPlatform)
    ensures
        packaging::program_file(BuildPlatform::Windows, name) == name + ".exe"@,
        !(p is Windows) ==> packaging::program_file(p, name) == name,
        packaging::build_arguments(p).last() == packaging::platform_target(p),
        packaging::build_arguments(p)[packaging::build_arguments(p).len() - 2] == "--target"@,
        packaging::build_arguments(p).contains("build"@),
        packaging::build_arguments(p).contains("--release"@),
        packaging::build_arguments(p)[0] == "apk"@ <==> p is Android,
{
    reveal_strlit("apk");
    reveal_strlit("build");
    assert("apk"@.len() == 3 && "build"@.len() == 5);
    let a = packaging::build_arguments(p);
    if p is Android {
        assert(a[1] == "build"@ && a[2] == "--release"@);
    } else {
        assert(a[0] == "build"@ && a[1] == "--release"@);
    }
}

/// A line is logged at the end, and every line ends.
pub proof fn law_log_grows(log: Seq<char>, line: Seq<char>)
    ensures
        line.len() > 0 && line.last() == '\n' ==> packaging::logged(log, line) == log + line,
        line.len() == 0 || line.last() != '\n' ==> packaging::logged(log, line) == log + line
            + "\n"@,
{
}

/// A build that runs changes nothing; one that succeeds joins those that succeeded; one
/// that fails or breaks joins those that failed, with its reason; and none is being built
/// any more.
pub proof fn law_builds_end(b: Builds, p: BuildPlatform, code: Seq<char>, output: Seq<char>)
    ensures
        packaging::after_event(b, p, ProcessEvent::Running) == b,
        ({
            let r = packaging::after_event(b, p, ProcessEvent::Succeeded);
            r.building is None && r.succeeded == b.succeeded.push(p) && r.failed == b.failed
                && r.queue == b.queue
        }),
        ({
            let r = packaging::after_event(b, p, ProcessEvent::Failed { code, output });
            r.building is None && r.succeeded == b.succeeded && r.failed == b.failed.push(
                Failure { platform: p, reason: "exit code: "@ + code },
            ) && r.queue == b.queue
        }),
        ({
            let r = packaging::after_event(b, p, ProcessEvent::Broken(code));
            r.building is None && r.succeeded == b.succeeded && r.failed == b.failed.push(
                Failure { platform: p, reason: code },
            ) && r.queue == b.queue
        }),
        ({
            let r = packaging::not_started(b, p, code);
            r.building is None && r.succeeded == b.succeeded && r.failed == b.failed.push(
                Failure { platform: p, reason: "无法启动构建进程: "@ + code },
            ) && r.queue == b.queue
        }),
{
}

/// The platforms are built in the order in which they wait.
pub proof fn law_builds_in_order(b: Builds)
    requires
        b.queue.len() > 0,
    ensures
        packaging::advanced(b).building == Some(b.queue[0]),
        seq![b.queue[0]] + packaging::advanced(b).queue == b.queue,
        packaging::advanced(b).succeeded == b.succeeded,
        packaging::advanced(b).failed == b.failed,
{
}

/// A build that fails shows the end of what it wrote: its last ten lines.
pub proof fn law_last_lines(lines: Seq<Seq<char>>, i: int)
    ensures
        lines.len() <= 10 ==> packaging::last_ten(lines) == lines,
        lines.len() > 10 ==> packaging::last_ten(lines).len() == 10,
        lines.len() > 10 && 0 <= i < 10 ==> packaging::last_ten(lines)[i] == lines[lines.len() - 10
            + i],
{
}

/// Lines that are logged follow each other, each with its end.
pub proof fn law_lines_are_logged(log: Seq<char>, lines: Seq<Seq<char>>, line: Seq<char>)
    ensures
        packaging::with_lines(log, Seq::empty()) == log,
        packaging::with_lines(log, lines.push(line)) == packaging::with_lines(log, lines) + line
            + "\n"@,
{
    assert(lines.push(line).drop_last() =~= lines);
}

/// A run that is over tells how many platforms were built and how many were not.
pub proof fn law_outcome(b: Builds)
    ensures
        packaging::outcome(b) == "打包完成（成功 "@ + text::nat_text(b.succeeded.len())
            + "，失败 "@ + text::nat_text(b.failed.len()) + "）"@,
        packaging::finished(b).done,
        packaging::finished(b).snapshot is None,
        packaging::is_over(b) ==> !packaging::is_over(packaging::finished(b)),
        packaging::is_over(b) <==> b.building is None && b.queue.len() == 0 && !b.done,
{
}

/// A file that was built is told of with its name and its place.
pub proof fn law_artifacts_are_told(name: Seq<char>, other: Seq<char>)
    ensures
        packaging::artifact_text(ArtifactNote::Copied { name, folder: other }) == "  产物 "@ + name
            + " 已复制到: "@ + other,
        packaging::artifact_text(ArtifactNote::CopyFailed { name, error: other })
            == "  警告: APK "@ + name + " 复制失败: "@ + other,
        packaging::artifact_text(ArtifactNote::NoPackage(name)) == "  警告: 未在 "@ + name
            + " 下找到 APK 产物"@,
        packaging::artifact_text(ArtifactNote::Missing(name)) == "  警告: 未找到产物 "@ + name,
{
}

/// A new run forgets the last one.
pub proof fn law_new_run(b: Builds, snapshot: Option<Seq<char>>)
    ensures
        ({
            let c = packaging::cleared(b, snapshot);
            c.log.len() == 0 && !c.done && c.succeeded.len() == 0 && c.failed.len() == 0
                && c.snapshot == snapshot && c.selected == b.selected && c.output_dir
                == b.output_dir
        }),
{
}

/// Android waits only where it is ready; otherwise it failed.
pub proof fn law_android(b: Builds)
    requires
        b.selected.android,
    ensures
        packaging::queued(b, true).queue.contains(BuildPlatform::Android),
        packaging::queued(b, true).failed == b.failed,
        !packaging::queued(b, false).queue.contains(BuildPlatform::Android),
        packaging::queued(b, false).failed.len() == b.failed.len() + 1,
        packaging::queued(b, false).failed.last().platform == BuildPlatform::Android,
{
    packaging::law_ticked(b.selected, BuildPlatform::Android);
    packaging::law_ticked(
        packaging::Selection { android: false, ..b.selected },
        BuildPlatform::Android,
    );
}

} // verus!
