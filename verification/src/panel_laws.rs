//! Laws of the panels, of the canvas and of the workspace.

use crate::blueprint;
use crate::blueprint::{BlueprintLink, BlueprintNode, NodeKind, Spot};
use crate::blueprint_script;
use crate::editor;
use crate::editor::Session;
use crate::graph;
use crate::panels;
use crate::panels::{CanvasAction, Jump};
use crate::parse;
use crate::parse::EnginePhase;
use crate::slices;
use crate::spelling_laws;
use crate::templates;
use crate::text;
use crate::text_laws;
use crate::workspace;
use crate::workspace::{GameEvent, PreviewGate, TranslationEvent};
use vstd::prelude::*;

verus! {

// ---------------------------------------------------------------------------
// The canvas
// ---------------------------------------------------------------------------

/// A new node stands behind the others with its kind, its place and its text, under a
/// number of its own; the others stay.
pub proof fn law_new_node(b: blueprint::Blueprint, kind: NodeKind, pos: Spot, text: Seq<char>)
    requires
        b.next_id < usize::MAX,
    ensures
        ({
            let r = graph::with_node(b, kind, pos, text);
            &&& r.nodes.len() == b.nodes.len() + 1
            &&& r.nodes.take(b.nodes.len() as int) == b.nodes
            &&& r.nodes.last() == BlueprintNode { id: b.next_id, kind, pos, text }
            &&& r.next_id == b.next_id + 1
            &&& r.links == b.links
        }),
{
    let r = graph::with_node(b, kind, pos, text);
    assert(r.nodes.take(b.nodes.len() as int) =~= b.nodes);
}

/// A node that is removed is gone, with every link of it; the other nodes and links stay.
pub proof fn law_removed_node(b: blueprint::Blueprint, id: usize, n: blueprint::Node, l: BlueprintLink)
    ensures
        ({
            let r = graph::without_node(b, id);
            &&& r.nodes.contains(n) <==> b.nodes.contains(n) && n.id != id
            &&& r.links.contains(l) <==> b.links.contains(l) && l.from != id && l.to != id
            &&& r.selected == (if b.selected == Some(id) {
                None
            } else {
                b.selected
            })
        }),
{
    let p = |n: blueprint::Node| n.id != id;
    let q = |l: BlueprintLink| l.from != id && l.to != id;
    lemma_filtered(b.nodes, p, n);
    lemma_filtered(b.links, q, l);
}

proof fn lemma_filtered<A>(s: Seq<A>, p: spec_fn(A) -> bool, x: A)
    ensures
        s.filter(p).contains(x) <==> s.contains(x) && p(x),
    decreases s.len(),
{
    reveal(Seq::filter);
    if s.len() > 0 {
        let f = s.drop_last();
        let kept = f.filter(p);
        lemma_filtered(f, p, x);
        assert(s[s.len() - 1] == s.last());
        if f.contains(x) {
            let i = choose|i: int| 0 <= i < f.len() && f[i] == x;
            assert(s[i] == x);
        }
        if s.contains(x) && x != s.last() {
            let i = choose|i: int| 0 <= i < s.len() && s[i] == x;
            assert(f[i] == x);
        }
        if p(s.last()) {
            let all = kept.push(s.last());
            assert(s.filter(p) == all);
            assert(all[kept.len() as int] == s.last());
            if kept.contains(x) {
                let i = choose|i: int| 0 <= i < kept.len() && kept[i] == x;
                assert(all[i] == x);
            }
            if all.contains(x) && x != s.last() {
                let i = choose|i: int| 0 <= i < all.len() && all[i] == x;
                assert(kept[i] == x);
            }
        } else {
            assert(s.filter(p) == kept);
        }
    }
}

/// A link that is drawn is there, in the place of an older link to the same node; a node
/// has no link to itself, and the other links stay.
pub proof fn law_new_link(links: Seq<BlueprintLink>, from: usize, to: usize, l: BlueprintLink)
    ensures
        from == to ==> graph::with_link(links, from, to) == links,
        from != to ==> graph::with_link(links, from, to).contains(BlueprintLink { from, to }),
        from != to && l.to != to ==> (graph::with_link(links, from, to).contains(l)
            <==> links.contains(l)),
        from != to && l.to == to && l.from != from && !links.contains(BlueprintLink { from, to })
            ==> !graph::with_link(links, from, to).contains(l),
{
    let x = BlueprintLink { from, to };
    let p = |l: BlueprintLink| l.to != to;
    let kept = links.filter(p);
    lemma_filtered(links, p, l);
    let all = kept.push(x);
    assert(all[kept.len() as int] == x);
    if kept.contains(l) {
        let i = choose|i: int| 0 <= i < kept.len() && kept[i] == l;
        assert(all[i] == l);
    }
    if all.contains(l) && l != x {
        let i = choose|i: int| 0 <= i < all.len() && all[i] == l;
        assert(kept[i] == l);
    }
}

/// The node before another is where the link to it comes from, and the node behind it is
/// where its link leads.
pub proof fn law_neighbours(links: Seq<BlueprintLink>, k: int)
    requires
        0 <= k < links.len(),
    ensures
        (forall|i: int| 0 <= i < k ==> (#[trigger] links[i]).to != links[k].to) ==> graph::source_of(
            links,
            links[k].to,
        ) == Some(links[k].from) && graph::neighbour(links, links[k].to, true) == Some(
            links[k].from,
        ),
        (forall|i: int| 0 <= i < k ==> (#[trigger] links[i]).from != links[k].from)
            ==> graph::target_of(links, links[k].from) == Some(links[k].to) && graph::neighbour(
            links,
            links[k].from,
            false,
        ) == Some(links[k].to),
{
    if forall|i: int| 0 <= i < k ==> (#[trigger] links[i]).to != links[k].to {
        lemma_source(links, 0, k);
    }
    if forall|i: int| 0 <= i < k ==> (#[trigger] links[i]).from != links[k].from {
        lemma_target(links, 0, k);
    }
}

proof fn lemma_source(links: Seq<BlueprintLink>, i: int, k: int)
    requires
        0 <= i <= k < links.len(),
        forall|h: int| i <= h < k ==> (#[trigger] links[h]).to != links[k].to,
    ensures
        graph::source_from(links, links[k].to, i) == Some(links[k].from),
    decreases k - i,
{
    if i < k {
        lemma_source(links, i + 1, k);
    }
}

proof fn lemma_target(links: Seq<BlueprintLink>, i: int, k: int)
    requires
        0 <= i <= k < links.len(),
        forall|h: int| i <= h < k ==> (#[trigger] links[h]).from != links[k].from,
    ensures
        graph::target_from(links, links[k].from, i) == Some(links[k].to),
    decreases k - i,
{
    if i < k {
        lemma_target(links, i + 1, k);
    }
}

/// What the actions on the canvas do to it and to the script.
pub proof fn law_canvas_actions(e: Session)
    ensures
        ({
            let r = panels::after_canvas_action(e, CanvasAction::Clear);
            r.blueprint.nodes.len() == 0 && r.blueprint.links.len() == 0
                && r.blueprint.selected is None && r.blueprint.next_id == 0 && r.content
                == e.content
        }),
        panels::after_canvas_action(e, CanvasAction::Export).content
            == blueprint_script::script_text(e.blueprint),
        panels::after_canvas_action(e, CanvasAction::Export).blueprint == e.blueprint,
        panels::after_canvas_action(e, CanvasAction::Import).content == e.content,
        panels::after_canvas_action(e, CanvasAction::ToggleComments).blueprint.collapse_comments
            == !e.blueprint.collapse_comments,
        panels::after_canvas_action(e, CanvasAction::Arrange).blueprint.links
            == e.blueprint.links,
        e.blueprint.selected is None ==> panels::after_canvas_action(
            e,
            CanvasAction::DeleteSelected,
        ) == e,
        e.blueprint.selected matches Some(id) ==> panels::after_canvas_action(
            e,
            CanvasAction::DeleteSelected,
        ).blueprint == graph::without_node(e.blueprint, id),
{
}

// ---------------------------------------------------------------------------
// Dialogs
// ---------------------------------------------------------------------------

/// The text that was asked for is replaced wherever it stands; where it does not stand,
/// the line comes behind the script. The dialog is closed then.
pub proof fn law_replace_dialog(e: Session)
    ensures
        ({
            let r = panels::after_replace(e);
            &&& !r.find_dialog
            &&& r.find_target.len() == 0
            &&& e.find_target.len() > 0 && text::contains(e.content, e.find_target) ==> r.content
                == editor::replaced(e.content, e.find_target, e.find_syntax)
            &&& e.find_target.len() == 0 || !text::contains(e.content, e.find_target)
                ==> r.content == e.content + e.find_syntax + "\n"@
        }),
        !e.blueprint_mode ==> panels::after_replace_request(e, e.name).find_dialog
            && panels::after_replace_request(e, e.name).find_syntax == e.name
            && panels::after_replace_request(e, e.name).content == e.content,
{
}

/// A block that is dropped on the canvas becomes a node there; dropped elsewhere it is
/// let go.
pub proof fn law_dropping(e: Session, at: Spot, i: usize)
    requires
        e.drag_template == Some(i),
    ensures
        panels::after_drop(e, at, false).blueprint == e.blueprint,
        panels::after_drop(e, at, false).drag_template is None,
        panels::after_drop(e, at, true).drag_template is None,
        templates::template_at(i as int) matches Some((label, about, text))
            ==> panels::after_drop(e, at, true).blueprint == graph::with_node(
            e.blueprint,
            blueprint::kind_of(text),
            at,
            text,
        ),
        templates::template_at(i as int) is None ==> panels::after_drop(e, at, true).blueprint
            == e.blueprint,
{
}

/// The line around a place is the line that the place stands on.
pub proof fn law_line_around(a: Seq<char>, line: Seq<char>, b: Seq<char>, k: int)
    requires
        a.len() == 0 || a.last() == '\n',
        !line.contains('\n'),
        b.len() == 0 || b[0] == '\n',
        0 <= k <= line.len(),
    ensures
        panels::line_around(a + line + b, a.len() + k) == line,
{
    let s = a + line + b;
    let n = a.len() as int;
    assert forall|j: int| n <= j < n + line.len() implies s[j] != '\n' by {
        assert(s[j] == line[j - n]);
        assert(line.contains(line[j - n]));
    }
    assert(n > 0 ==> s[n - 1] == '\n') by {
        if n > 0 {
            assert(s[n - 1] == a[n - 1]);
        }
    }
    assert(b.len() > 0 ==> s[n + line.len()] == '\n');
    lemma_line_start(s, n, n + k);
    text_laws::law_first_place(s, '\n', n + k, n + line.len());
    assert(s.subrange(n, n + line.len()) =~= line);
}

proof fn lemma_line_start(s: Seq<char>, n: int, i: int)
    requires
        0 <= n <= i <= s.len(),
        n == 0 || s[n - 1] == '\n',
        forall|j: int| n <= j < i ==> #[trigger] s[j] != '\n',
    ensures
        panels::line_start(s, i) == n,
    decreases i,
{
    if i > n {
        assert(s[i - 1] != '\n');
        lemma_line_start(s, n, i - 1);
    }
}

/// A line leads to the panel of what it shows: a background or a tune.
pub proof fn law_jumps(line: Seq<char>, numbers: Seq<Option<u32>>, name: Seq<char>)
    requires
        parse::sprite_line(line, numbers) is None,
    ensures
        parse::command_line(line) == Some(
            parse::ParsedCommandLine { command: "bg"@, resource: name },
        ) ==> panels::jump_of(line, numbers) == Jump::Background(name),
        parse::command_line(line) == Some(
            parse::ParsedCommandLine { command: "music"@, resource: name },
        ) ==> panels::jump_of(line, numbers) == Jump::Music(name),
        parse::command_line(line) is None ==> panels::jump_of(line, numbers) is Nowhere,
        parse::command_line(line) == Some(
            parse::ParsedCommandLine { command: "sound"@, resource: name },
        ) ==> panels::jump_of(line, numbers) is Nowhere,
{
    reveal_strlit("bg");
    reveal_strlit("music");
    reveal_strlit("sound");
    assert("bg"@.len() == 2 && "music"@.len() == 5 && "music"@[0] == 'm' && "sound"@[0] == 's'
        && "sound"@.len() == 5);
}

/// A jump shows the panel of what was found, and leaves the script alone.
pub proof fn law_after_jump(e: Session, name: Seq<char>)
    ensures
        panels::after_jump(e, Jump::Nowhere) == e,
        panels::after_jump(e, Jump::Background(name)).tab is Background,
        panels::after_jump(e, Jump::Music(name)).tab is Music,
        panels::after_jump(e, Jump::Background(name)).content == e.content,
        panels::after_jump(e, Jump::Music(name)).content == e.content,
        panels::after_jump(e, Jump::Background(name)).status == "已跳转到背景预览："@ + name,
        panels::after_jump(e, Jump::Music(name)).status == "已跳转到音乐预览："@ + name,
{
}

/// A story changes by itself while it passes to another scene, waits or types.
pub proof fn law_animates(typing: bool)
    ensures
        panels::animates(EnginePhase::Transitioning, typing),
        panels::animates(EnginePhase::Waiting, typing),
        panels::animates(EnginePhase::Running, typing) == typing,
        panels::animates(EnginePhase::Title, typing) == typing,
        panels::animates(EnginePhase::ChoicePending, typing) == typing,
        panels::animates(EnginePhase::StoryEnded, typing) == typing,
{
}

// ---------------------------------------------------------------------------
// The workspace
// ---------------------------------------------------------------------------

/// A preview needs the tools and a saved file; what is missing is told.
pub proof fn law_preview_gate(e: Session, cargo: bool)
    ensures
        workspace::gate_of(e, false) is NoCargo,
        e.file is None ==> workspace::gate_of(e, true) is NotSaved,
        e.file is Some ==> workspace::gate_of(e, true) is Open,
        workspace::after_gate(e, PreviewGate::NoCargo).cargo_guide,
        workspace::after_gate(e, PreviewGate::NotSaved).save_reminder,
        workspace::after_gate(e, PreviewGate::Open) == e,
{
}

/// What the status says of games, settings and translations.
pub proof fn law_statuses(a: Seq<char>, b: Seq<char>)
    ensures
        workspace::game_status(GameEvent::Started { script: a, folder: b }) == Some(
            "游戏预览已启动（"@ + a + "，CWD="@ + b + "）"@,
        ),
        workspace::game_status(GameEvent::NotStarted(a)) == Some("启动预览失败: "@ + a),
        workspace::game_status(GameEvent::Running) is None,
        workspace::game_status(GameEvent::Ended) == Some("游戏预览已结束"@),
        workspace::game_status(GameEvent::Broken) == Some("游戏预览进程异常"@),
        workspace::config_status(Some(a)) == "保存项目配置失败："@ + a,
        workspace::config_status(None) == "项目配置已保存"@,
        workspace::project_name(Some(a)) == a,
        workspace::project_name(None) == "未命名项目"@,
        workspace::translation_status(TranslationEvent::Loaded(a)) == "已加载翻译："@ + a,
        workspace::translation_status(TranslationEvent::NothingToSave)
            == "无翻译数据可保存"@,
        workspace::translation_status(TranslationEvent::NoFolder(a)) == "创建目录失败："@
            + a,
        workspace::translation_status(TranslationEvent::Saved(a)) == "翻译已保存："@ + a,
        workspace::translation_status(TranslationEvent::NotWritten(a)) == "保存失败："@ + a,
        workspace::translation_status(TranslationEvent::NotSerialized(a)) == "序列化失败："@
            + a,
{
}

/// A translation that is loaded sets the language, and nothing else does; an imported
/// script is the script from then on.
pub proof fn law_events(e: Session, a: Seq<char>, b: Seq<char>, script: Seq<char>)
    ensures
        workspace::after_translation(e, TranslationEvent::Loaded(a)).language == a,
        workspace::after_translation(e, TranslationEvent::Saved(a)).language == e.language,
        workspace::after_translation(e, TranslationEvent::NothingToSave).language == e.language,
        workspace::after_translation(e, TranslationEvent::Loaded(a)).content == e.content,
        workspace::after_import(e, a, b, None, script).content == script,
        workspace::after_import(e, a, b, None, script).file == Some(b),
        workspace::after_import(e, a, b, None, script).name == "imported.akrs"@,
        workspace::after_import(e, a, b, Some(a), script).name == a,
        workspace::after_import(e, a, b, None, script).status == "已导入 "@ + a + " -> "@ + b,
{
}

/// A list keeps its lines in their order, without blank lines and blanks at their ends.
pub proof fn law_lists(lines: Seq<Seq<char>>, a: Seq<char>, w: Seq<char>, b: Seq<char>)
    requires
        text_laws::is_bare(w),
        text_laws::all_blank(a),
        text_laws::all_blank(b),
    ensures
        workspace::filled(lines.push(a + w + b)) == workspace::filled(lines).push(w),
        workspace::filled(lines.push(Seq::empty())) == workspace::filled(lines),
        workspace::filled(Seq::empty()).len() == 0,
{
    text_laws::law_trim_keeps(a, w, b);
    assert(lines.push(a + w + b).drop_last() =~= lines);
    assert(lines.push(Seq::empty()).drop_last() =~= lines);
    assert(slices::trim(Seq::empty()) =~= Seq::<char>::empty());
}

/// A side that was entered as a number has that length, where it fits.
pub proof fn law_sides(n: nat)
    requires
        n <= usize::MAX,
    ensures
        n <= u32::MAX ==> workspace::side_in(text::nat_text(n)) == Some(n),
        n > u32::MAX ==> workspace::side_in(text::nat_text(n)) is None,
{
    spelling_laws::law_digits_have_value(n);
    lemma_number(n);
    let s = text::nat_text(n);
    assert(spelling_laws::is_figure(s[0]));
    assert(slices::unsigned(s) == s);
    assert(slices::all_digits(s));
}

proof fn lemma_number(n: nat)
    ensures
        slices::digits_value(text::nat_text(n)) == n,
    decreases n,
{
    let s = text::nat_text(n);
    if n < 10 {
        assert(s.drop_last() =~= Seq::empty());
        assert(slices::digits_value(Seq::empty()) == 0);
    } else {
        lemma_number(n / 10);
        assert(s.drop_last() =~= text::nat_text(n / 10));
    }
}

} // verus!
