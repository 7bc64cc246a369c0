//! What holds of scripts and their blueprints.

use crate::blueprint;
use crate::blueprint::{BlueprintLink, NodeKind};
use crate::blueprint_script;
use crate::diagnostic;
use crate::graph;
use crate::layout;
use crate::slices;
use vstd::prelude::*;

verus! {

// ---------------------------------------------------------------------------
// Every node is read once
// ---------------------------------------------------------------------------

/// Whether no number is listed twice.
pub open spec fn distinct(s: Seq<usize>) -> bool {
    forall|i: int, j: int| 0 <= i < j < s.len() ==> s[i] != s[j]
}

proof fn lemma_walk_distinct(links: Seq<BlueprintLink>, stack: Seq<usize>, visited: Seq<usize>)
    requires
        distinct(visited),
    ensures
        distinct(blueprint_script::walk(links, stack, visited)),
    decreases stack.len() + blueprint_script::links_ahead(links, visited),
{
    if stack.len() > 0 {
        let id = stack.last();
        if visited.contains(id) {
            lemma_walk_distinct(links, stack.drop_last(), visited);
        } else {
            blueprint_script::lemma_links_ahead(links, visited, id);
            lemma_walk_distinct(
                links,
                stack.drop_last() + blueprint_script::targets(links, id).reverse(),
                visited.push(id),
            );
        }
    }
}

proof fn lemma_except(s: Seq<usize>, skip: Seq<usize>)
    ensures
        forall|x: usize|
            #[trigger] blueprint_script::except(s, skip).contains(x) <==> s.contains(x)
                && !skip.contains(x),
        distinct(s) ==> distinct(blueprint_script::except(s, skip)),
    decreases s.len(),
{
    let t = blueprint_script::except(s, skip);
    if s.len() > 0 {
        let front = s.drop_last();
        let u = blueprint_script::except(front, skip);
        lemma_except(front, skip);
        assert forall|x: usize| #[trigger] t.contains(x) <==> s.contains(x) && !skip.contains(
            x,
        ) by {
            assert(s.contains(x) <==> front.contains(x) || x == s.last()) by {
                if front.contains(x) {
                    let k = choose|k: int| 0 <= k < front.len() && front[k] == x;
                    assert(s[k] == x);
                }
                if s.contains(x) {
                    let k = choose|k: int| 0 <= k < s.len() && s[k] == x;
                    assert(k < front.len() ==> front[k] == x);
                }
                assert(s[s.len() - 1] == s.last());
            }
            assert(u.contains(x) <==> front.contains(x) && !skip.contains(x));
            if !skip.contains(s.last()) {
                assert(t.contains(x) <==> u.contains(x) || x == s.last()) by {
                    assert(t[u.len() as int] == s.last());
                    if u.contains(x) {
                        let k = choose|k: int| 0 <= k < u.len() && u[k] == x;
                        assert(t[k] == x);
                    }
                    if t.contains(x) {
                        let k = choose|k: int| 0 <= k < t.len() && t[k] == x;
                        assert(k < u.len() ==> u[k] == x);
                    }
                }
            }
        }
        if distinct(s) && !skip.contains(s.last()) {
            assert(distinct(front));
            assert forall|i: int, j: int| 0 <= i < j < t.len() implies t[i] != t[j] by {
                if j == u.len() {
                    assert(u.contains(u[i]));
                    assert(front.contains(u[i]));
                    let k = choose|k: int| 0 <= k < front.len() && front[k] == u[i];
                    assert(s[k] != s[s.len() - 1]);
                }
            }
        } else if distinct(s) {
            assert(distinct(front));
        }
    }
}

/// On a tidy canvas the reading order names every node that is not skipped, and
/// names nothing twice.
pub proof fn law_each_node_read_once(b: blueprint::Blueprint, skip: Seq<usize>, i: int)
    requires
        graph::tidy(b),
        0 <= i < b.nodes.len(),
    ensures
        distinct(blueprint_script::reading_order(b, skip)),
        blueprint_script::reading_order(b, skip).contains(b.nodes[i].id) <==> !skip.contains(
            b.nodes[i].id,
        ),
{
    let all = blueprint_script::ids(b.nodes);
    let seen = blueprint_script::reached(b);
    let rest = blueprint_script::except(all, seen);
    let first = blueprint_script::except(seen, skip);
    let second = blueprint_script::except(rest, skip);
    let order = blueprint_script::reading_order(b, skip);
    lemma_walk_distinct(b.links, blueprint_script::starts(b).reverse(), Seq::empty());
    assert forall|x: int, y: int| 0 <= x < y < all.len() implies all[x] != all[y] by {
        assert(b.nodes[x].id != b.nodes[y].id);
    }
    lemma_except(all, seen);
    lemma_except(seen, skip);
    lemma_except(rest, skip);
    assert forall|x: int, y: int| 0 <= x < y < order.len() implies order[x] != order[y] by {
        if x < first.len() && y >= first.len() {
            assert(first.contains(first[x]));
            assert(second.contains(second[y - first.len()]));
            assert(seen.contains(order[x]));
            assert(!seen.contains(order[y]));
        }
    }
    let id = b.nodes[i].id;
    assert(all[i] == id);
    assert(all.contains(id));
    assert(order.contains(id) <==> first.contains(id) || second.contains(id)) by {
        if first.contains(id) {
            let k = choose|k: int| 0 <= k < first.len() && first[k] == id;
            assert(order[k] == id);
        }
        if second.contains(id) {
            let k = choose|k: int| 0 <= k < second.len() && second[k] == id;
            assert(order[first.len() + k] == id);
        }
        if order.contains(id) {
            let k = choose|k: int| 0 <= k < order.len() && order[k] == id;
            if k < first.len() {
                assert(first[k] == id);
            } else {
                assert(second[k - first.len()] == id);
            }
        }
    }
}

// ---------------------------------------------------------------------------
// A row of nodes
// ---------------------------------------------------------------------------

/// The numbers from `a` up to `e`.
pub open spec fn range(a: int, e: int) -> Seq<usize> {
    Seq::new(
        if a < e {
            (e - a) as nat
        } else {
            0
        },
        |i: int| (a + i) as usize,
    )
}

proof fn lemma_row_source(n: int, k: int, i: int)
    requires
        0 <= n <= usize::MAX,
        0 <= k < n,
        0 <= i,
        i <= k,
    ensures
        graph::source_from(blueprint_script::row(n), k as usize, i) == (if 0 < k && i < k {
            Some((k - 1) as usize)
        } else {
            None
        }),
    decreases n - i,
{
    let links = blueprint_script::row(n);
    if i < links.len() {
        if i + 1 == k {
        } else if i < k {
            lemma_row_source(n, k, i + 1);
        } else {
            lemma_row_no_source(n, k, i);
        }
    }
}

proof fn lemma_row_no_source(n: int, k: int, i: int)
    requires
        0 <= n <= usize::MAX,
        0 <= k < n,
        k <= i,
    ensures
        graph::source_from(blueprint_script::row(n), k as usize, i) is None,
    decreases n - i,
{
    if i < blueprint_script::row(n).len() {
        lemma_row_no_source(n, k, i + 1);
    }
}

proof fn lemma_row_target(n: int, k: int, i: int)
    requires
        0 <= n <= usize::MAX,
        0 <= k < n,
        0 <= i <= n,
    ensures
        graph::target_from(blueprint_script::row(n), k as usize, i) == (if i <= k && k + 1 < n {
            Some((k + 1) as usize)
        } else {
            None
        }),
    decreases n - i,
{
    if i < blueprint_script::row(n).len() && i != k {
        lemma_row_target(n, k, i + 1);
    }
}

proof fn lemma_row_targets(n: int, k: int)
    requires
        0 <= n <= usize::MAX,
        0 <= k,
        k <= usize::MAX,
    ensures
        blueprint_script::targets(blueprint_script::row(n), k as usize) == (if k + 1 < n {
            seq![(k + 1) as usize]
        } else {
            Seq::empty()
        }),
    decreases n,
{
    let links = blueprint_script::row(n);
    if n > 1 {
        lemma_row_targets(n - 1, k);
        assert(links.drop_last() =~= blueprint_script::row(n - 1));
        assert(Seq::<usize>::empty().push((k + 1) as usize) =~= seq![(k + 1) as usize]);
    } else {
        assert(links.len() == 0);
    }
}

/// Walking a row from one of its nodes visits the rest of it.
proof fn lemma_row_walk(n: int, k: int)
    requires
        0 <= k < n <= usize::MAX,
    ensures
        blueprint_script::walk(blueprint_script::row(n), seq![k as usize], range(0, k)) == range(
            0,
            n,
        ),
    decreases n - k,
{
    let links = blueprint_script::row(n);
    let stack = seq![k as usize];
    let visited = range(0, k);
    lemma_row_targets(n, k);
    assert(!visited.contains(k as usize));
    assert(stack.last() == k as usize);
    let next = blueprint_script::targets(links, k as usize);
    assert(visited.push(k as usize) =~= range(0, k + 1));
    if k + 1 < n {
        assert(stack.drop_last() + next.reverse() =~= seq![(k + 1) as usize]);
        lemma_row_walk(n, k + 1);
    } else {
        assert(stack.drop_last() + next.reverse() =~= Seq::empty());
        assert(blueprint_script::walk(links, Seq::empty(), range(0, n)) == range(0, n));
    }
}

/// A blueprint whose nodes are the given lines, in a row.
spec fn in_a_row(b: blueprint::Blueprint, lines: Seq<Seq<char>>) -> bool {
    &&& lines.len() <= usize::MAX
    &&& b.links == blueprint_script::row(lines.len() as int)
    &&& b.nodes.len() == lines.len()
    &&& forall|i: int|
        0 <= i < lines.len() ==> (#[trigger] b.nodes[i]).id == i && b.nodes[i].text == lines[i]
            && b.nodes[i].kind == blueprint::kind_of(lines[i])
}

/// Whether a line is a comment.
pub open spec fn is_comment(line: Seq<char>) -> bool {
    blueprint::kind_of(line) == NodeKind::Comment
}

proof fn lemma_row_heads(b: blueprint::Blueprint, lines: Seq<Seq<char>>, m: int)
    requires
        in_a_row(b, lines),
        0 <= m <= lines.len(),
    ensures
        blueprint_script::heads(b.links, blueprint_script::ids(b.nodes).take(m)) == range(
            0,
            if m > 0 {
                1
            } else {
                0
            },
        ),
    decreases m,
{
    let all = blueprint_script::ids(b.nodes);
    if m > 0 {
        lemma_row_heads(b, lines, m - 1);
        assert(all.take(m).drop_last() =~= all.take(m - 1));
        assert(all.take(m).last() == b.nodes[m - 1].id);
        lemma_row_source(lines.len() as int, m - 1, 0);
        if m == 1 {
            assert(range(0, 0).push(0usize) =~= range(0, 1));
        }
    } else {
        assert(all.take(0) =~= range(0, 0));
    }
}

/// Reading a row reaches its nodes in order.
proof fn lemma_row_reached(b: blueprint::Blueprint, lines: Seq<Seq<char>>)
    requires
        in_a_row(b, lines),
        lines.len() > 0,
    ensures
        blueprint_script::reached(b) == range(0, lines.len() as int),
        blueprint_script::except(blueprint_script::ids(b.nodes), blueprint_script::reached(b)).len()
            == 0,
{
    let n = lines.len() as int;
    let all = blueprint_script::ids(b.nodes);
    lemma_row_heads(b, lines, n);
    assert(all.take(n) =~= all);
    assert(range(0, 1).reverse() =~= seq![0usize]);
    assert(range(0, 0) =~= Seq::empty());
    lemma_row_walk(n, 0);
    let seen = blueprint_script::reached(b);
    lemma_except(all, seen);
    let rest = blueprint_script::except(all, seen);
    if rest.len() > 0 {
        assert(rest.contains(rest[0]));
        let k = choose|k: int| 0 <= k < all.len() && all[k] == rest[0];
        assert(b.nodes[k].id == k);
        assert(seen[k] == rest[0]);
    }
}

// ---------------------------------------------------------------------------
// A script and its blueprint
// ---------------------------------------------------------------------------

proof fn lemma_row_loose(b: blueprint::Blueprint, lines: Seq<Seq<char>>, m: int)
    requires
        in_a_row(b, lines),
        0 <= m <= lines.len(),
    ensures
        forall|k: int|
            0 <= k < lines.len() ==> (#[trigger] blueprint_script::loose_ids(
                b,
                b.nodes.take(m),
            ).contains(k as usize) <==> k < m && is_comment(lines[k]) && (k == 0 || k + 1
                == lines.len())),
    decreases m,
{
    let n = lines.len() as int;
    let now = blueprint_script::loose_ids(b, b.nodes.take(m));
    if m > 0 {
        let front = blueprint_script::loose_ids(b, b.nodes.take(m - 1));
        lemma_row_loose(b, lines, m - 1);
        assert(b.nodes.take(m).drop_last() =~= b.nodes.take(m - 1));
        assert(b.nodes.take(m).last() == b.nodes[m - 1]);
        lemma_row_source(n, m - 1, 0);
        lemma_row_target(n, m - 1, 0);
        let id = (m - 1) as usize;
        assert forall|k: int| 0 <= k < n implies (#[trigger] now.contains(k as usize) <==> k < m
            && is_comment(lines[k]) && (k == 0 || k + 1 == n)) by {
            assert(front.contains(k as usize) <==> k < m - 1 && is_comment(lines[k]) && (k == 0 || k
                + 1 == n));
            if now != front {
                assert(now == front.push(id));
                assert(now[front.len() as int] == id);
                if front.contains(k as usize) {
                    let x = choose|x: int| 0 <= x < front.len() && front[x] == k as usize;
                    assert(now[x] == k as usize);
                }
                if now.contains(k as usize) {
                    let x = choose|x: int| 0 <= x < now.len() && now[x] == k as usize;
                    assert(x < front.len() ==> front[x] == k as usize);
                }
            }
        }
    } else {
        assert(now =~= Seq::empty());
    }
}

/// Where the nodes that are not loose begin.
spec fn first_kept(lines: Seq<Seq<char>>) -> int {
    if lines.len() > 0 && is_comment(lines[0]) {
        1
    } else {
        0
    }
}

/// Where they end.
spec fn end_kept(lines: Seq<Seq<char>>) -> int {
    if lines.len() > 1 && is_comment(lines.last()) {
        lines.len() - 1
    } else {
        lines.len() as int
    }
}

proof fn lemma_row_except(b: blueprint::Blueprint, lines: Seq<Seq<char>>, m: int)
    requires
        in_a_row(b, lines),
        0 <= m <= lines.len(),
    ensures
        blueprint_script::except(range(0, m), blueprint_script::loose_ids(b, b.nodes)) == range(
            first_kept(lines),
            if m < end_kept(lines) {
                m
            } else {
                end_kept(lines)
            },
        ),
    decreases m,
{
    let n = lines.len() as int;
    let a = first_kept(lines);
    let e = end_kept(lines);
    let skip = blueprint_script::loose_ids(b, b.nodes);
    lemma_row_loose(b, lines, n);
    assert(b.nodes.take(n) =~= b.nodes);
    if m > 0 {
        lemma_row_except(b, lines, m - 1);
        assert(range(0, m).drop_last() =~= range(0, m - 1));
        let k = m - 1;
        assert(range(0, m).last() == k as usize);
        assert(skip.contains(k as usize) <==> is_comment(lines[k]) && (k == 0 || k + 1 == n));
        if !skip.contains(k as usize) {
            assert(k >= a && m <= e);
            assert(range(a, m - 1).push(k as usize) =~= range(a, m));
        } else if k == 0 {
            assert(range(a, 0) =~= range(a, 1));
            assert(n > 1 || e == 1);
        } else {
            assert(e == m - 1);
        }
    } else {
        assert(range(0, 0) =~= range(a, 0));
    }
}

/// Which lines a comment at an end of the row is attached to.
proof fn lemma_row_attached(
    b: blueprint::Blueprint,
    lines: Seq<Seq<char>>,
    m: int,
    id: int,
    below: bool,
)
    requires
        in_a_row(b, lines),
        0 <= m <= lines.len(),
        0 <= id < lines.len(),
        !(lines.len() == 2 && is_comment(lines[0]) && is_comment(lines[1])),
    ensures
        blueprint_script::attached(
            b,
            b.nodes.take(m),
            id as usize,
            below,
            blueprint_script::loose_ids(b, b.nodes),
        ) == (if !below && id == 1 && m > 0 && is_comment(lines[0]) {
            seq![lines[0]]
        } else if below && id + 2 == lines.len() && m == lines.len() && is_comment(lines.last()) {
            seq![lines.last()]
        } else {
            Seq::empty()
        }),
    decreases m,
{
    let n = lines.len() as int;
    let skip = blueprint_script::loose_ids(b, b.nodes);
    if m > 0 {
        let k = m - 1;
        let node = b.nodes[k];
        lemma_row_attached(b, lines, m - 1, id, below);
        lemma_row_loose(b, lines, n);
        assert(b.nodes.take(n) =~= b.nodes);
        assert(b.nodes.take(m).drop_last() =~= b.nodes.take(m - 1));
        assert(b.nodes.take(m).last() == node);
        lemma_row_source(n, k, 0);
        lemma_row_target(n, k, 0);
        if is_comment(lines[k]) && n > 1 {
            if !below && k == 0 {
                assert(!skip.contains(1int as usize));
                assert(blueprint_script::chain(b.links, node.id, false, skip, 64) == Some(1usize));
            }
            if below && k + 1 == n {
                assert(!skip.contains((n - 2) as usize));
                assert(blueprint_script::chain(b.links, node.id, true, skip, 64) == Some(
                    (n - 2) as usize,
                ));
            }
        }
        assert(Seq::<Seq<char>>::empty().push(lines[k]) =~= seq![lines[k]]);
    }
}

proof fn lemma_row_lines(b: blueprint::Blueprint, lines: Seq<Seq<char>>, k: int)
    requires
        in_a_row(b, lines),
        first_kept(lines) < k <= end_kept(lines),
        !(lines.len() == 2 && is_comment(lines[0]) && is_comment(lines[1])),
    ensures
        blueprint_script::lines_along(
            b,
            range(first_kept(lines), k),
            blueprint_script::loose_ids(b, b.nodes),
        ) == (if k == end_kept(lines) {
            lines
        } else {
            lines.take(k)
        }),
    decreases k,
{
    let n = lines.len() as int;
    let a = first_kept(lines);
    let skip = blueprint_script::loose_ids(b, b.nodes);
    let id = k - 1;
    let order = range(a, k);
    lemma_row_attached(b, lines, n, id, false);
    lemma_row_attached(b, lines, n, id, true);
    assert(b.nodes.take(n) =~= b.nodes);
    graph::lemma_id_index(b.nodes, id as usize, 0);
    assert(graph::id_index(b.nodes, id as usize, 0) == id) by {
        let x = graph::id_index(b.nodes, id as usize, 0);
        assert(b.nodes[id].id == id);
        if x < n {
            assert(b.nodes[x].id == x);
        }
    }
    assert(blueprint_script::text_with(b, id as usize) == seq![lines[id]]);
    assert(order.drop_last() =~= range(a, k - 1));
    assert(order.last() == id as usize);
    let here = blueprint_script::lines_at(b, id as usize, skip);
    let whole = if k == end_kept(lines) {
        lines
    } else {
        lines.take(k)
    };
    if k - 1 > a {
        lemma_row_lines(b, lines, k - 1);
        assert(lines.take(k - 1) + here =~= whole);
    } else {
        assert(blueprint_script::lines_along(b, range(a, a), skip) =~= Seq::empty());
        assert(Seq::<Seq<char>>::empty() + here =~= whole);
    }
}

/// Whether a script of these lines comes back out of its blueprint. The
/// exceptions are one comment alone, and two: comments that are joined to
/// nothing else are left out.
pub open spec fn comes_back(lines: Seq<Seq<char>>) -> bool {
    &&& !(lines.len() == 1 && is_comment(lines[0]))
    &&& !(lines.len() == 2 && is_comment(lines[0]) && is_comment(lines[1]))
}

/// Nodes in a row give their lines back.
proof fn lemma_row_script(made: blueprint::Blueprint, lines: Seq<Seq<char>>)
    requires
        in_a_row(made, lines),
        comes_back(lines),
    ensures
        blueprint_script::script_text(made) == diagnostic::joined(lines, "\n"@),
{
    let skip = blueprint_script::loose_ids(made, made.nodes);
    let n = lines.len() as int;
    if n > 0 {
        lemma_row_reached(made, lines);
        lemma_row_except(made, lines, n);
        let rest = blueprint_script::except(
            blueprint_script::ids(made.nodes),
            blueprint_script::reached(made),
        );
        assert(blueprint_script::except(rest, skip) =~= Seq::empty());
        let order = blueprint_script::reading_order(made, skip);
        assert(order =~= range(first_kept(lines), end_kept(lines)));
        lemma_row_lines(made, lines, end_kept(lines));
    } else {
        assert(made.nodes =~= Seq::empty());
        assert(blueprint_script::ids(made.nodes) =~= Seq::empty());
        assert(blueprint_script::starts(made).reverse() =~= Seq::empty());
        assert(blueprint_script::script_lines(made) =~= lines);
    }
}

/// A blueprint made from a script gives the script back, without its blank
/// lines, also after its nodes were laid out anew. The exceptions are scripts of
/// one comment alone, or of two: comments that are joined to nothing else are
/// left out.
pub proof fn law_script_round_trip(b: blueprint::Blueprint, script: Seq<char>, collapse: bool)
    requires
        blueprint_script::filled_lines(slices::lines(script)).len() <= usize::MAX,
        comes_back(blueprint_script::filled_lines(slices::lines(script))),
    ensures
        ({
            let made = blueprint_script::blueprint_of(b, script);
            let lines = blueprint_script::filled_lines(slices::lines(script));
            &&& blueprint_script::script_text(made) == diagnostic::joined(lines, "\n"@)
            &&& blueprint_script::script_text(
                (blueprint::Blueprint { nodes: layout::laid_out(made.nodes, collapse), ..made }),
            ) == diagnostic::joined(lines, "\n"@)
        }),
{
    let made = blueprint_script::blueprint_of(b, script);
    let lines = blueprint_script::filled_lines(slices::lines(script));
    assert(in_a_row(made, lines));
    lemma_row_script(made, lines);
    let again = blueprint::Blueprint { nodes: layout::laid_out(made.nodes, collapse), ..made };
    assert(in_a_row(again, lines));
    lemma_row_script(again, lines);
}

/// The blueprint of a script is tidy: a node for each line, joined in a row.
pub proof fn law_blueprint_tidy(b: blueprint::Blueprint, script: Seq<char>)
    requires
        blueprint_script::filled_lines(slices::lines(script)).len() <= usize::MAX,
    ensures
        graph::tidy(blueprint_script::blueprint_of(b, script)),
{
    let lines = blueprint_script::filled_lines(slices::lines(script));
    let made = blueprint_script::blueprint_of(b, script);
    assert(in_a_row(made, lines));
    assert forall|k: int| 0 <= k < made.links.len() implies {
        let l = #[trigger] made.links[k];
        l.from != l.to && graph::has_node(made.nodes, l.from) && graph::has_node(
            made.nodes,
            l.to,
        )
    } by {
        assert(made.nodes[k].id == k);
        assert(made.nodes[k + 1].id == k + 1);
    }
}

} // verus!
