//! Constants and templates of the editor.

use vstd::prelude::*;

verus! {

/// The number of characters that the title of a section should not exceed.
pub const MAX_CHAPTER_TITLE_CHARS: usize = 24;

/// The script that a new file begins with.
pub const NEW_TEMPLATE: &'static str = "# Start\n\n~~\n";

/// The script that shows what can be written.
pub const SAMPLE_SCRIPT: &'static str = "# Start\n\n@bg school with fade\n+ Aki enters from left with dissolve\n\n\"Cherry blossoms drift through the air.\"\n\nAki: \"Hello there!\"\nAki (happy): \"I'm glad you came.\"\n\n$affection = 1\n\n? \"What do you say?\"\n| \"You're wonderful!\"\n    $affection += 3\n    -> GoodEnding\n| \"Whatever.\"\n    $affection -= 1\n    -> BadEnding\n?\n\n# GoodEnding\n\n@bg sunset with fade_white\n\nAki: \"I think we'll be great friends.\"\n\n~~\n\n\n\n# BadEnding\n\nAki: \"Oh. I see.\"\n\n~~\n";

/// The home of the project.
pub const GITHUB_URL: &'static str = "https://github.com/AkizukiKokona/Akizuki-Rustgal";

/// The number of steps that can be undone.
pub const UNDO_LIMIT: usize = 100;

/// How long typing has to rest before it becomes a step, in milliseconds.
pub const UNDO_IDLE_MS: u64 = 600;

/// The number of this build.
pub const BUILD_NUMBER: &'static str = "0092";

/// A node that can be put on the canvas: its label, what it does, and its text.
#[derive(Debug, Clone, Copy)]
pub struct NodeTemplate {
    pub label: &'static str,
    pub description: &'static str,
    pub text: &'static str,
}

/// The number of templates.
pub const NODE_TEMPLATE_COUNT: usize = 13;

/// The templates, in the order of the menu: label, description and text.
pub open spec fn template_at(i: int) -> Option<(Seq<char>, Seq<char>, Seq<char>)> {
    if i == 0 {
        Some(("章节"@, "章节标题分隔"@, "# NewSection 章节标题"@))
    } else if i == 1 {
        Some(("对话"@, "角色说话"@, "角色: \"对话内容\""@))
    } else if i == 2 {
        Some(("旁白"@, "叙述文字"@, "\"旁白内容\""@))
    } else if i == 3 {
        Some(("背景"@, "切换背景图"@, "@bg background"@))
    } else if i == 4 {
        Some(("音乐"@, "播放音乐"@, "@music music"@))
    } else if i == 5 {
        Some(("立绘上场"@, "角色立绘登场"@, "+ 角色 at 0.5,1.0 size 1.0"@))
    } else if i == 6 {
        Some(("立绘下场"@, "角色立绘退场"@, "- 角色"@))
    } else if i == 7 {
        Some(("选择"@, "分支选项"@, "? 提示\n| 选项A\n| 选项B\n?"@))
    } else if i == 8 {
        Some(("跳转"@, "跳转到章节"@, "-> TargetSection"@))
    } else if i == 9 {
        Some(("访问"@, "访问子章节"@, "=> TargetSection"@))
    } else if i == 10 {
        Some(("返回"@, "从子章节返回"@, "<="@))
    } else if i == 11 {
        Some(("等待"@, "暂停若干秒"@, "~~ 1.0"@))
    } else if i == 12 {
        Some(("结局"@, "故事结束"@, "end"@))
    } else {
        None
    }
}

/// The template with an index.
pub fn node_template(i: usize) -> (r: Option<NodeTemplate>)
    ensures
        match template_at(i as int) {
            Some((label, description, text)) => r is Some && (r->0).label@ == label && (
            r->0).description@ == description && (r->0).text@ == text,
            None => r is None,
        },
{
    match i {
        0 => Some(NodeTemplate { label: "章节", description: "章节标题分隔", text: "# NewSection 章节标题" }),
        1 => Some(NodeTemplate { label: "对话", description: "角色说话", text: "角色: \"对话内容\"" }),
        2 => Some(NodeTemplate { label: "旁白", description: "叙述文字", text: "\"旁白内容\"" }),
        3 => Some(NodeTemplate { label: "背景", description: "切换背景图", text: "@bg background" }),
        4 => Some(NodeTemplate { label: "音乐", description: "播放音乐", text: "@music music" }),
        5 => Some(NodeTemplate { label: "立绘上场", description: "角色立绘登场", text: "+ 角色 at 0.5,1.0 size 1.0" }),
        6 => Some(NodeTemplate { label: "立绘下场", description: "角色立绘退场", text: "- 角色" }),
        7 => Some(NodeTemplate { label: "选择", description: "分支选项", text: "? 提示\n| 选项A\n| 选项B\n?" }),
        8 => Some(NodeTemplate { label: "跳转", description: "跳转到章节", text: "-> TargetSection" }),
        9 => Some(NodeTemplate { label: "访问", description: "访问子章节", text: "=> TargetSection" }),
        10 => Some(NodeTemplate { label: "返回", description: "从子章节返回", text: "<=" }),
        11 => Some(NodeTemplate { label: "等待", description: "暂停若干秒", text: "~~ 1.0" }),
        12 => Some(NodeTemplate { label: "结局", description: "故事结束", text: "end" }),
        _ => None,
    }
}

/// There is a template for each index below the count, and for no other.
pub proof fn law_template_count(i: int)
    ensures
        template_at(i) is Some <==> 0 <= i < NODE_TEMPLATE_COUNT,
{
}

} // verus!
