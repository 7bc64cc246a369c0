//! Project settings and the list of recently opened projects.

use crate::text::{str_eq, to_chars};
use vstd::prelude::*;

verus! {

/// The colours of a game, as red, green, blue and opacity.
#[derive(Debug, Clone, Copy)]
pub struct ThemeColors {
    /// dialogs and panels
    pub primary: [u8; 4],
    /// buttons
    pub secondary: [u8; 4],
    pub text: [u8; 4],
    /// the text box
    pub dialogue: [u8; 4],
}

impl Default for ThemeColors {
    fn default() -> (t: Self)
        ensures
            t.primary@ == seq![20u8, 15u8, 38u8, 247u8],
            t.secondary@ == seq![77u8, 140u8, 217u8, 230u8],
            t.text@ == seq![255u8, 255u8, 255u8, 255u8],
            t.dialogue@ == seq![140u8, 199u8, 242u8, 255u8],
    {
        ThemeColors {
            primary: [20, 15, 38, 247],
            secondary: [77, 140, 217, 230],
            text: [255, 255, 255, 255],
            dialogue: [140, 199, 242, 255],
        }
    }
}

/// The settings of a project.
#[derive(Debug)]
pub struct ProjectConfig {
    pub title: String,
    pub subtitle: String,
    pub description: String,
    pub author: String,
    /// The main script, relative to the project.
    pub main_script: String,
    /// The window's title; where it is empty, the title is used.
    pub window_title: String,
    pub start_fullscreen: bool,
    /// Width and height of the window.
    pub default_resolution: (u32, u32),
    pub language: String,
    pub version: String,
    /// The picture of the title page; empty for the usual one.
    pub title_background: String,
    /// The music of the title page; empty for the usual one.
    pub title_music: String,
    pub theme: ThemeColors,
}

impl Clone for ProjectConfig {
    fn clone(&self) -> (c: Self)
        ensures
            c == *self,
    {
        ProjectConfig {
            title: self.title.clone(),
            subtitle: self.subtitle.clone(),
            description: self.description.clone(),
            author: self.author.clone(),
            main_script: self.main_script.clone(),
            window_title: self.window_title.clone(),
            start_fullscreen: self.start_fullscreen,
            default_resolution: self.default_resolution,
            language: self.language.clone(),
            version: self.version.clone(),
            title_background: self.title_background.clone(),
            title_music: self.title_music.clone(),
            theme: self.theme,
        }
    }
}

impl Default for ProjectConfig {
    fn default() -> (c: Self)
        ensures
            c.title@ == "Akizuki*Rustgal"@,
            c.subtitle@ == "夏夜观心Extra"@,
            c.description@ == Seq::<char>::empty(),
            c.author@ == Seq::<char>::empty(),
            c.main_script@ == "main.akrs"@,
            c.window_title@ == Seq::<char>::empty(),
            !c.start_fullscreen,
            c.default_resolution == (1920u32, 1080u32),
            c.language@ == "zh-CN"@,
            c.version@ == "0.1.0"@,
            c.title_background@ == Seq::<char>::empty(),
            c.title_music@ == Seq::<char>::empty(),
            c.theme.primary@ == seq![20u8, 15u8, 38u8, 247u8],
            c.theme.secondary@ == seq![77u8, 140u8, 217u8, 230u8],
            c.theme.text@ == seq![255u8, 255u8, 255u8, 255u8],
            c.theme.dialogue@ == seq![140u8, 199u8, 242u8, 255u8],
    {
        ProjectConfig {
            title: "Akizuki*Rustgal".to_owned(),
            subtitle: "夏夜观心Extra".to_owned(),
            description: String::new(),
            author: String::new(),
            main_script: "main.akrs".to_owned(),
            window_title: String::new(),
            start_fullscreen: false,
            default_resolution: (1920, 1080),
            language: "zh-CN".to_owned(),
            version: "0.1.0".to_owned(),
            title_background: String::new(),
            title_music: String::new(),
            theme: ThemeColors::default(),
        }
    }
}

/// The width of a character, in ten-millionths of the width of a Chinese one.
/// An ASCII character counts a little over eleven twentieths.
pub open spec fn char_width(c: char) -> nat {
    if (c as u32) < 128 {
        5_500_001
    } else {
        10_000_000
    }
}

/// The width of a text, in the same unit.
pub open spec fn text_width(s: Seq<char>) -> nat
    decreases s.len(),
{
    if s.len() == 0 {
        0
    } else {
        text_width(s.drop_last()) + char_width(s.last())
    }
}

/// Whether a text is wider than twelve Chinese characters.
pub open spec fn too_long(s: Seq<char>) -> bool {
    text_width(s) > 120_000_000
}

/// A text of Chinese characters is too long from the thirteenth on, one of
/// ASCII characters from the twenty-second.
pub proof fn law_title_limits(s: Seq<char>)
    ensures
        (forall|i: int| 0 <= i < s.len() ==> (#[trigger] s[i]) as u32 >= 128) ==> (too_long(s)
            <==> s.len() > 12),
        (forall|i: int| 0 <= i < s.len() ==> (#[trigger] s[i] as u32) < 128) ==> (too_long(s)
            <==> s.len() > 21),
{
    lemma_uniform_width(s);
}

proof fn lemma_uniform_width(s: Seq<char>)
    ensures
        (forall|i: int| 0 <= i < s.len() ==> (#[trigger] s[i]) as u32 >= 128) ==> text_width(s)
            == 10_000_000 * s.len(),
        (forall|i: int| 0 <= i < s.len() ==> (#[trigger] s[i] as u32) < 128) ==> text_width(s)
            == 5_500_001 * s.len(),
    decreases s.len(),
{
    if s.len() > 0 {
        let front = s.drop_last();
        lemma_uniform_width(front);
        assert forall|i: int| 0 <= i < front.len() implies front[i] == #[trigger] s[i] by {}
        assert(s[s.len() - 1] == s.last());
        if forall|i: int| 0 <= i < s.len() ==> (#[trigger] s[i]) as u32 >= 128 {
            assert forall|i: int| 0 <= i < front.len() implies (#[trigger] front[i]) as u32
                >= 128 by {
                assert(s[i] as u32 >= 128);
            }
        }
        if forall|i: int| 0 <= i < s.len() ==> (#[trigger] s[i] as u32) < 128 {
            assert forall|i: int| 0 <= i < front.len() implies (#[trigger] front[i] as u32)
                < 128 by {
                assert((s[i] as u32) < 128);
            }
        }
    }
}

fn is_too_long(s: &str) -> (r: bool)
    ensures
        r == too_long(s@),
{
    let cs: Vec<char> = to_chars(s);
    let n: usize = cs.len();
    let mut width: u128 = 0;
    let mut i: usize = 0;
    assert(cs@.take(0) =~= Seq::empty());
    while i < n
        invariant
            i <= n,
            n == cs@.len(),
            width == text_width(cs@.take(i as int)),
            width <= 10_000_000 * i,
        decreases n - i,
    {
        proof {
            assert(cs@.take(i + 1).drop_last() =~= cs@.take(i as int));
            assert(cs@.take(i + 1).last() == cs@[i as int]);
        }
        width = width + if (cs[i] as u32) < 128 {
            5_500_001
        } else {
            10_000_000
        };
        i = i + 1;
    }
    assert(cs@.take(i as int) =~= s@);
    width > 120_000_000
}

impl ProjectConfig {
    /// Whether the title is too wide for the title page.
    pub fn is_title_too_long(&self) -> (r: bool)
        ensures
            r == too_long(self.title@),
    {
        is_too_long(self.title.as_str())
    }

    /// Whether the subtitle is too wide for the title page.
    pub fn is_subtitle_too_long(&self) -> (r: bool)
        ensures
            r == too_long(self.subtitle@),
    {
        is_too_long(self.subtitle.as_str())
    }

    /// The window's title.
    pub fn effective_window_title(&self) -> (r: &str)
        ensures
            r@ == (if self.window_title@.len() == 0 {
                self.title@
            } else {
                self.window_title@
            }),
    {
        if self.window_title.as_str().is_empty() {
            self.title.as_str()
        } else {
            self.window_title.as_str()
        }
    }
}

/// A project that was opened before. The path is in its plain form, so that
/// equal paths have equal texts; the time is in seconds since 1970.
#[derive(Debug, Clone)]
pub struct RecentProject<S = String> {
    pub path: S,
    pub name: S,
    pub last_opened: u64,
}

impl View for RecentProject<String> {
    type V = RecentProject<Seq<char>>;

    open spec fn view(&self) -> RecentProject<Seq<char>> {
        RecentProject { path: self.path@, name: self.name@, last_opened: self.last_opened }
    }
}

/// The projects that were opened last, the latest first.
#[derive(Debug, Clone)]
pub struct RecentProjects {
    pub projects: Vec<RecentProject>,
}

/// How many projects are remembered.
pub const MAX_RECENT: usize = 10;

impl View for RecentProjects {
    type V = Seq<RecentProject<Seq<char>>>;

    open spec fn view(&self) -> Seq<RecentProject<Seq<char>>> {
        Seq::new(self.projects@.len(), |i: int| self.projects@[i]@)
    }
}

/// The projects at other paths, in order.
pub open spec fn elsewhere(s: Seq<RecentProject<Seq<char>>>, path: Seq<char>) -> Seq<
    RecentProject<Seq<char>>,
>
    decreases s.len(),
{
    if s.len() == 0 {
        s
    } else if s.last().path == path {
        elsewhere(s.drop_last(), path)
    } else {
        elsewhere(s.drop_last(), path).push(s.last())
    }
}

/// The list after a project was opened: it comes first, its path occurs nowhere
/// else, and only the first few are kept.
pub open spec fn reopened(
    s: Seq<RecentProject<Seq<char>>>,
    p: RecentProject<Seq<char>>,
) -> Seq<RecentProject<Seq<char>>> {
    let all = seq![p] + elsewhere(s, p.path);
    if all.len() > MAX_RECENT {
        all.take(MAX_RECENT as int)
    } else {
        all
    }
}

impl Default for RecentProjects {
    fn default() -> (r: Self)
        ensures
            r@ == Seq::<RecentProject<Seq<char>>>::empty(),
    {
        let r: RecentProjects = RecentProjects { projects: Vec::new() };
        assert(r@ =~= Seq::<RecentProject<Seq<char>>>::empty());
        r
    }
}

impl RecentProjects {
    /// Puts a project that was opened at time `now` first.
    pub fn add_project(&mut self, path: &str, name: &str, now: u64)
        ensures
            final(self)@ == reopened(
                old(self)@,
                (RecentProject { path: path@, name: name@, last_opened: now }),
            ),
    {
        let ghost before = self@;
        let first: RecentProject = RecentProject {
            path: path.to_owned(),
            name: name.to_owned(),
            last_opened: now,
        };
        let mut kept: Vec<RecentProject> = Vec::new();
        kept.push(first);
        let ghost head = seq![first@];
        let mut i: usize = 0;
        assert(before.take(0) =~= Seq::empty());
        while i < self.projects.len()
            invariant
                i <= self.projects@.len(),
                before == self@,
                self@ == old(self)@,
                head.len() == 1,
                kept@.len() == 1 + elsewhere(before.take(i as int), path@).len(),
                forall|k: int|
                    0 <= k < kept@.len() ==> (#[trigger] kept@[k])@ == (head + elsewhere(
                        before.take(i as int),
                        path@,
                    ))[k],
            decreases self.projects@.len() - i,
        {
            proof {
                assert(before.take(i + 1).drop_last() =~= before.take(i as int));
                assert(before.take(i + 1).last() == before[i as int]);
            }
            let p: &RecentProject = &self.projects[i];
            if !str_eq(p.path.as_str(), path) {
                kept.push(
                    RecentProject {
                        path: p.path.clone(),
                        name: p.name.clone(),
                        last_opened: p.last_opened,
                    },
                );
            }
            i = i + 1;
        }
        assert(before.take(i as int) =~= before);
        if kept.len() > MAX_RECENT {
            kept.truncate(MAX_RECENT);
        }
        self.projects = kept;
        assert(self@ =~= reopened(before, first@));
    }
}

/// No two of the projects have the same path.
pub open spec fn distinct_paths(s: Seq<RecentProject<Seq<char>>>) -> bool {
    forall|i: int, j: int|
        0 <= i < j < s.len() ==> (#[trigger] s[i]).path != (#[trigger] s[j]).path
}

proof fn lemma_elsewhere(s: Seq<RecentProject<Seq<char>>>, path: Seq<char>)
    ensures
        forall|i: int| 0 <= i < elsewhere(s, path).len() ==> (#[trigger] elsewhere(s, path)[i]).path
            != path && s.contains(elsewhere(s, path)[i]),
        distinct_paths(s) ==> distinct_paths(elsewhere(s, path)),
    decreases s.len(),
{
    if s.len() > 0 {
        let front = s.drop_last();
        lemma_elsewhere(front, path);
        let rest = elsewhere(front, path);
        assert forall|i: int| 0 <= i < front.len() implies s.contains(#[trigger] front[i]) by {
            assert(s[i] == front[i]);
        }
        assert(s[s.len() - 1] == s.last());
        assert forall|i: int| 0 <= i < elsewhere(s, path).len() implies (#[trigger] elsewhere(
            s,
            path,
        )[i]).path != path && s.contains(elsewhere(s, path)[i]) by {
            if i < rest.len() {
                assert(elsewhere(s, path)[i] == rest[i]);
                let k = choose|k: int| 0 <= k < front.len() && front[k] == rest[i];
                assert(s[k] == rest[i]);
            }
        }
        if distinct_paths(s) {
            assert(distinct_paths(front)) by {
                assert forall|i: int, j: int| 0 <= i < j < front.len() implies (#[trigger] front[i]).path
                    != (#[trigger] front[j]).path by {
                    assert(s[i].path != s[j].path);
                }
            }
            assert forall|i: int, j: int|
                0 <= i < j < elsewhere(s, path).len() implies (#[trigger] elsewhere(s, path)[i]).path
                != (#[trigger] elsewhere(s, path)[j]).path by {
                if j < rest.len() {
                    assert(rest[i].path != rest[j].path);
                } else {
                    let k = choose|k: int| 0 <= k < front.len() && front[k] == rest[i];
                    assert(s[k].path != s[s.len() - 1].path);
                }
            }
        }
    }
}

/// After a project was opened it is the first of the list, its path occurs
/// once, the list is no longer than its limit, and paths stay distinct.
pub proof fn law_opened_project_first(
    s: Seq<RecentProject<Seq<char>>>,
    p: RecentProject<Seq<char>>,
)
    ensures
        0 < reopened(s, p).len() <= MAX_RECENT,
        reopened(s, p)[0] == p,
        forall|i: int| 0 < i < reopened(s, p).len() ==> (#[trigger] reopened(s, p)[i]).path != p.path,
        distinct_paths(s) ==> distinct_paths(reopened(s, p)),
{
    lemma_elsewhere(s, p.path);
    let r = reopened(s, p);
    let rest = elsewhere(s, p.path);
    assert forall|i: int| 0 < i < r.len() implies (#[trigger] r[i]) == rest[i - 1] by {}
    if distinct_paths(s) {
        assert forall|i: int, j: int| 0 <= i < j < r.len() implies (#[trigger] r[i]).path != (
        #[trigger] r[j]).path by {
            if i > 0 {
                assert(rest[i - 1].path != rest[j - 1].path);
            }
        }
    }
}

} // verus!
