//! From a script to its blueprint and back.

use crate::blueprint;
use crate::blueprint::{BlueprintLink, BlueprintNode, BlueprintState, NodeKind, Spot};
use crate::diagnostic;
use crate::diagnostic::join_strings;
use crate::graph;
use crate::layout;
use crate::slices;
use crate::slices::{lines_of, trim_of};
use crate::text;
use crate::text::{from_chars, to_chars};
use vstd::prelude::*;

verus! {

// ---------------------------------------------------------------------------
// Comments
// ---------------------------------------------------------------------------

/// The nearest node that is no comment, from a node on and along at most `n`
/// links.
pub open spec fn resolved(b: blueprint::Blueprint, id: usize, up: bool, n: nat) -> Option<usize>
    decreases n,
{
    if n == 0 {
        None
    } else {
        match graph::node_with(b.nodes, id) {
            Some(node) => if node.kind == NodeKind::Comment {
                match graph::neighbour(b.links, id, up) {
                    Some(next) => resolved(b, next, up, (n - 1) as nat),
                    None => None,
                }
            } else {
                Some(id)
            },
            None => Some(id),
        }
    }
}

/// The comments in an unbroken row that ends at a node, at most `n` of them, in
/// the order of the script.
pub open spec fn comments_up(
    b: blueprint::Blueprint,
    id: Option<usize>,
    n: nat,
) -> Seq<Seq<char>>
    decreases n,
{
    match id {
        Some(k) => match graph::node_with(b.nodes, k) {
            Some(node) => if n > 0 && node.kind == NodeKind::Comment {
                comments_up(b, graph::source_of(b.links, k), (n - 1) as nat).push(node.text)
            } else {
                Seq::empty()
            },
            None => Seq::empty(),
        },
        None => Seq::empty(),
    }
}

/// Whether a comment has neither a link to it nor one from it.
pub open spec fn is_orphan(b: blueprint::Blueprint, node: blueprint::Node) -> bool {
    node.kind == NodeKind::Comment && graph::source_of(b.links, node.id) is None
        && graph::target_of(b.links, node.id) is None
}

/// The texts of the orphans among the first nodes.
pub open spec fn orphans(b: blueprint::Blueprint, nodes: Seq<blueprint::Node>) -> Seq<Seq<char>>
    decreases nodes.len(),
{
    if nodes.len() == 0 {
        Seq::empty()
    } else {
        let front = orphans(b, nodes.drop_last());
        if is_orphan(b, nodes.last()) {
            front.push(nodes.last().text)
        } else {
            front
        }
    }
}

impl BlueprintState {
    fn resolve(&self, id: usize, up: bool) -> (r: Option<usize>)
        ensures
            r == resolved(self@, id, up, self@.nodes.len() + 2),
    {
        let mut cur: usize = id;
        let mut left: u128 = self.nodes.len() as u128 + 2;
        while left > 0
            invariant
                resolved(self@, id, up, self@.nodes.len() + 2) == resolved(
                    self@,
                    cur,
                    up,
                    left as nat,
                ),
            decreases left,
        {
            let k: usize = self.position_of(cur);
            if k < self.nodes.len() && self.nodes[k].kind == NodeKind::Comment {
                let next: Option<usize> = if up {
                    self.incoming(cur)
                } else {
                    self.outgoing(cur)
                };
                match next {
                    Some(p) => {
                        cur = p;
                    },
                    None => {
                        return None;
                    },
                }
            } else {
                return Some(cur);
            }
            left = left - 1;
        }
        None
    }

    /// The node that a link is drawn from while comments are folded away.
    pub fn resolve_from(&self, id: usize) -> (r: Option<usize>)
        ensures
            r == resolved(self@, id, true, self@.nodes.len() + 2),
    {
        self.resolve(id, true)
    }

    /// The node that a link is drawn to while comments are folded away.
    pub fn resolve_to(&self, id: usize) -> (r: Option<usize>)
        ensures
            r == resolved(self@, id, false, self@.nodes.len() + 2),
    {
        self.resolve(id, false)
    }

    /// The comments that are folded into a node: those in an unbroken row before
    /// it. A ring of comments is followed for as many steps as there are nodes.
    pub fn comments_for_node(&self, id: usize) -> (r: Vec<String>)
        ensures
            text::views(r@) == comments_up(
                self@,
                graph::source_of(self@.links, id),
                self@.nodes.len(),
            ),
    {
        let mut out: Vec<String> = Vec::new();
        let mut cur: Option<usize> = self.incoming(id);
        let ghost all = comments_up(self@, cur, self@.nodes.len());
        let mut left: usize = self.nodes.len();
        assert(all =~= all + text::views(out@));
        loop
            invariant
                all == comments_up(self@, cur, left as nat) + text::views(out@),
            ensures
                all == text::views(out@),
            decreases left,
        {
            match cur {
                Some(c) => {
                    let k: usize = self.position_of(c);
                    if left > 0 && k < self.nodes.len() && self.nodes[k].kind
                        == NodeKind::Comment {
                        let next: Option<usize> = self.incoming(c);
                        let ghost before = text::views(out@);
                        let ghost line = self.nodes@[k as int].text@;
                        assert(self@.nodes[k as int].text == line);
                        out.insert(0, self.nodes[k].text.clone());
                        left = left - 1;
                        cur = next;
                        proof {
                            let rest = comments_up(self@, cur, left as nat);
                            assert(text::views(out@) =~= seq![line] + before);
                            assert(rest.push(line) + before =~= rest + text::views(out@));
                        }
                    } else {
                        assert(comments_up(self@, cur, left as nat) =~= Seq::empty());
                        assert(all =~= text::views(out@));
                        break;
                    }
                },
                None => {
                    assert(all =~= text::views(out@));
                    break;
                },
            }
        }
        out
    }

    /// The texts of the comments without any link.
    pub fn orphan_comments(&self) -> (r: Vec<String>)
        ensures
            text::views(r@) == orphans(self@, self@.nodes),
    {
        let ghost all = self@.nodes;
        let n: usize = self.nodes.len();
        let mut out: Vec<String> = Vec::new();
        let mut i: usize = 0;
        assert(text::views(out@) =~= orphans(self@, all.take(0)));
        while i < n
            invariant
                i <= n,
                n == self.nodes@.len(),
                all == self@.nodes,
                text::views(out@) == orphans(self@, all.take(i as int)),
            decreases n - i,
        {
            proof {
                assert(all.take(i + 1).drop_last() =~= all.take(i as int));
                assert(all.take(i + 1).last() == self.nodes@[i as int]@);
            }
            let node: &BlueprintNode = &self.nodes[i];
            if node.kind == NodeKind::Comment && self.incoming(node.id).is_none()
                && self.outgoing(node.id).is_none() {
                let ghost before = text::views(out@);
                out.push(node.text.clone());
                assert(text::views(out@) =~= before.push(node.text@));
            }
            i = i + 1;
        }
        assert(all.take(n as int) =~= all);
        out
    }
}

// ---------------------------------------------------------------------------
// Reading order
// ---------------------------------------------------------------------------

/// Where the links from a node lead to, in order.
pub open spec fn targets(links: Seq<BlueprintLink>, id: usize) -> Seq<usize>
    decreases links.len(),
{
    if links.len() == 0 {
        Seq::empty()
    } else if links.last().from == id {
        targets(links.drop_last(), id).push(links.last().to)
    } else {
        targets(links.drop_last(), id)
    }
}

/// The number of links from nodes that have not been visited.
pub open spec fn links_ahead(links: Seq<BlueprintLink>, visited: Seq<usize>) -> nat
    decreases links.len(),
{
    if links.len() == 0 {
        0
    } else {
        links_ahead(links.drop_last(), visited) + if visited.contains(links.last().from) {
            0nat
        } else {
            1nat
        }
    }
}

/// A visit turns the links from a node into steps ahead.
pub proof fn lemma_links_ahead(links: Seq<BlueprintLink>, visited: Seq<usize>, id: usize)
    requires
        !visited.contains(id),
    ensures
        links_ahead(links, visited.push(id)) + targets(links, id).len() == links_ahead(
            links,
            visited,
        ),
    decreases links.len(),
{
    if links.len() > 0 {
        lemma_links_ahead(links.drop_last(), visited, id);
        let from = links.last().from;
        let more = visited.push(id);
        assert(more.contains(from) <==> visited.contains(from) || from == id) by {
            assert(more[visited.len() as int] == id);
            if visited.contains(from) {
                let k = choose|k: int| 0 <= k < visited.len() && visited[k] == from;
                assert(more[k] == from);
            }
            if more.contains(from) {
                let k = choose|k: int| 0 <= k < more.len() && more[k] == from;
                assert(k < visited.len() ==> visited[k] == from);
            }
        }
    }
}

/// The nodes that are visited, depth first: the one on top of the stack comes
/// next, and then those that its links lead to.
pub open spec fn walk(
    links: Seq<BlueprintLink>,
    stack: Seq<usize>,
    visited: Seq<usize>,
) -> Seq<usize>
    decreases stack.len() + links_ahead(links, visited),
{
    if stack.len() == 0 {
        visited
    } else {
        let id = stack.last();
        if visited.contains(id) {
            walk(links, stack.drop_last(), visited)
        } else {
            proof {
                lemma_links_ahead(links, visited, id);
            }
            walk(links, stack.drop_last() + targets(links, id).reverse(), visited.push(id))
        }
    }
}

/// The numbers of the nodes.
pub open spec fn ids(nodes: Seq<blueprint::Node>) -> Seq<usize> {
    Seq::new(nodes.len(), |i: int| nodes[i].id)
}

/// The numbers that are not in a list.
pub open spec fn except(s: Seq<usize>, skip: Seq<usize>) -> Seq<usize>
    decreases s.len(),
{
    if s.len() == 0 {
        s
    } else if skip.contains(s.last()) {
        except(s.drop_last(), skip)
    } else {
        except(s.drop_last(), skip).push(s.last())
    }
}

/// The nodes without a link to them.
pub open spec fn heads(links: Seq<BlueprintLink>, s: Seq<usize>) -> Seq<usize>
    decreases s.len(),
{
    if s.len() == 0 {
        s
    } else if graph::source_of(links, s.last()) is None {
        heads(links, s.drop_last()).push(s.last())
    } else {
        heads(links, s.drop_last())
    }
}

/// Where reading begins: at the nodes without a link to them, or else at the
/// first node.
pub open spec fn starts(b: blueprint::Blueprint) -> Seq<usize> {
    let all = heads(b.links, ids(b.nodes));
    if all.len() == 0 {
        ids(b.nodes).take(if b.nodes.len() == 0 { 0 } else { 1 })
    } else {
        all
    }
}

/// All nodes that are reached from the starts.
pub open spec fn reached(b: blueprint::Blueprint) -> Seq<usize> {
    walk(b.links, starts(b).reverse(), Seq::empty())
}

/// The order in which the nodes are read: those that are reached, and then the
/// others; without those that are skipped.
pub open spec fn reading_order(b: blueprint::Blueprint, skip: Seq<usize>) -> Seq<usize> {
    except(reached(b), skip) + except(except(ids(b.nodes), reached(b)), skip)
}

/// Whether a number is in a list.
fn has_id(v: &Vec<usize>, id: usize) -> (r: bool)
    ensures
        r == v@.contains(id),
{
    let mut i: usize = 0;
    while i < v.len()
        invariant
            i <= v@.len(),
            forall|k: int| 0 <= k < i ==> v@[k] != id,
        decreases v@.len() - i,
    {
        if v[i] == id {
            assert(v@[i as int] == id);
            return true;
        }
        i = i + 1;
    }
    false
}

impl BlueprintState {
    fn head_ids(&self) -> (r: Vec<usize>)
        ensures
            r@ == starts(self@),
    {
        let ghost all = ids(self@.nodes);
        let n: usize = self.nodes.len();
        let mut out: Vec<usize> = Vec::new();
        let mut i: usize = 0;
        assert(out@ =~= heads(self@.links, all.take(0)));
        while i < n
            invariant
                i <= n,
                n == self.nodes@.len(),
                all == ids(self@.nodes),
                out@ == heads(self@.links, all.take(i as int)),
            decreases n - i,
        {
            proof {
                assert(all.take(i + 1).drop_last() =~= all.take(i as int));
                assert(all.take(i + 1).last() == self.nodes@[i as int].id);
            }
            let id: usize = self.nodes[i].id;
            if self.incoming(id).is_none() {
                out.push(id);
            }
            i = i + 1;
        }
        assert(all.take(n as int) =~= all);
        if out.len() == 0 && n > 0 {
            out.push(self.nodes[0].id);
            assert(out@ =~= all.take(1));
        } else {
            assert(n == 0 ==> out@ =~= all.take(0));
        }
        out
    }

    /// Puts the targets of a node's links on the stack, the first on top.
    fn push_targets(&self, id: usize, stack: &mut Vec<usize>)
        ensures
            final(stack)@ == old(stack)@ + targets(self@.links, id).reverse(),
    {
        let ghost all = self.links@;
        let ghost base = stack@;
        let mut i: usize = self.links.len();
        assert(all.take(i as int) =~= all);
        assert(base + targets(all, id).reverse() =~= stack@ + targets(all, id).reverse());
        while i > 0
            invariant
                i <= all.len(),
                all == self.links@,
                base == old(stack)@,
                base + targets(all, id).reverse() == stack@ + targets(
                    all.take(i as int),
                    id,
                ).reverse(),
            decreases i,
        {
            let l: BlueprintLink = self.links[i - 1];
            let ghost before = stack@;
            proof {
                assert(all.take(i as int).drop_last() =~= all.take(i - 1));
                assert(all.take(i as int).last() == l);
            }
            if l.from == id {
                stack.push(l.to);
                proof {
                    let front = targets(all.take(i - 1), id);
                    assert(before + front.push(l.to).reverse() =~= stack@ + front.reverse());
                }
            }
            i = i - 1;
        }
        assert(targets(all.take(0), id) =~= Seq::empty());
        assert(stack@ =~= base + targets(all, id).reverse());
    }

    /// The nodes that are reached from the starts, in order.
    fn reach(&self) -> (visited: Vec<usize>)
        ensures
            visited@ == reached(self@),
    {
        let first: Vec<usize> = self.head_ids();
        let mut stack: Vec<usize> = Vec::new();
        let mut i: usize = first.len();
        assert(first@.skip(i as int).reverse() =~= Seq::empty());
        while i > 0
            invariant
                i <= first@.len(),
                stack@ == first@.skip(i as int).reverse(),
            decreases i,
        {
            i = i - 1;
            let ghost before = stack@;
            stack.push(first[i]);
            assert(first@.skip(i as int).reverse() =~= before.push(first@[i as int]));
        }
        assert(first@.skip(0) =~= first@);
        let mut visited: Vec<usize> = Vec::new();
        loop
            invariant
                reached(self@) == walk(self@.links, stack@, visited@),
            ensures
                reached(self@) == visited@,
            decreases stack@.len() + links_ahead(self@.links, visited@),
        {
            let ghost full = stack@;
            match stack.pop() {
                Some(id) => {
                    assert(full.last() == id && stack@ =~= full.drop_last());
                    if !has_id(&visited, id) {
                        proof {
                            lemma_links_ahead(self@.links, visited@, id);
                        }
                        visited.push(id);
                        self.push_targets(id, &mut stack);
                    }
                },
                None => {
                    break;
                },
            }
        }
        visited
    }

    /// The order in which the nodes are read: depth first along the links, and
    /// then those that no link leads to; without those that are skipped.
    pub fn topo_order(&self, skip_ids: &Vec<usize>) -> (order: Vec<usize>)
        ensures
            order@ == reading_order(self@, skip_ids@),
    {
        let visited: Vec<usize> = self.reach();
        let mut order: Vec<usize> = Vec::new();
        let mut i: usize = 0;
        assert(order@ =~= except(visited@.take(0), skip_ids@));
        while i < visited.len()
            invariant
                i <= visited@.len(),
                order@ == except(visited@.take(i as int), skip_ids@),
            decreases visited@.len() - i,
        {
            assert(visited@.take(i + 1).drop_last() =~= visited@.take(i as int));
            let id: usize = visited[i];
            if !has_id(skip_ids, id) {
                order.push(id);
            }
            i = i + 1;
        }
        assert(visited@.take(i as int) =~= visited@);
        let ghost first = order@;
        let ghost all = ids(self@.nodes);
        let n: usize = self.nodes.len();
        let mut k: usize = 0;
        assert(order@ =~= first + except(except(all.take(0), visited@), skip_ids@));
        while k < n
            invariant
                k <= n,
                n == self.nodes@.len(),
                all == ids(self@.nodes),
                order@ == first + except(except(all.take(k as int), visited@), skip_ids@),
            decreases n - k,
        {
            proof {
                assert(all.take(k + 1).drop_last() =~= all.take(k as int));
                assert(all.take(k + 1).last() == self.nodes@[k as int].id);
            }
            let id: usize = self.nodes[k].id;
            if !has_id(&visited, id) {
                let ghost front = except(all.take(k as int), visited@);
                assert(front.push(id).drop_last() =~= front);
                if !has_id(skip_ids, id) {
                    let ghost before = order@;
                    order.push(id);
                    assert(order@ =~= first + except(front, skip_ids@).push(id));
                }
            }
            k = k + 1;
        }
        assert(all.take(n as int) =~= all);
        order
    }
}

// ---------------------------------------------------------------------------
// Writing the script
// ---------------------------------------------------------------------------

/// Whether a comment lacks a link to it or from it, so that it has no place of
/// its own in the script.
pub open spec fn is_loose(b: blueprint::Blueprint, node: blueprint::Node) -> bool {
    node.kind == NodeKind::Comment && (graph::source_of(b.links, node.id) is None
        || graph::target_of(b.links, node.id) is None)
}

/// The loose comments among the first nodes.
pub open spec fn loose_ids(b: blueprint::Blueprint, nodes: Seq<blueprint::Node>) -> Seq<usize>
    decreases nodes.len(),
{
    if nodes.len() == 0 {
        Seq::empty()
    } else if is_loose(b, nodes.last()) {
        loose_ids(b, nodes.drop_last()).push(nodes.last().id)
    } else {
        loose_ids(b, nodes.drop_last())
    }
}

/// The nearest node along the links that is not skipped, at most `n` links away.
pub open spec fn chain(
    links: Seq<BlueprintLink>,
    id: usize,
    up: bool,
    skip: Seq<usize>,
    n: nat,
) -> Option<usize>
    decreases n,
{
    if n == 0 {
        None
    } else {
        match graph::neighbour(links, id, up) {
            Some(next) => if skip.contains(next) {
                chain(links, next, up, skip, (n - 1) as nat)
            } else {
                Some(next)
            },
            None => None,
        }
    }
}

/// The node that a loose comment belongs to: the one before it, whose lines it
/// follows (`below`), or the one behind it, whose lines it precedes.
pub open spec fn anchor(
    b: blueprint::Blueprint,
    node: blueprint::Node,
    below: bool,
    skip: Seq<usize>,
) -> Option<usize> {
    let before = graph::source_of(b.links, node.id);
    let after = graph::target_of(b.links, node.id);
    if node.kind != NodeKind::Comment {
        None
    } else if below && before is Some && after is None {
        chain(b.links, node.id, true, skip, 64)
    } else if !below && before is None && after is Some {
        chain(b.links, node.id, false, skip, 64)
    } else {
        None
    }
}

/// The comments among the first nodes that belong to a node.
pub open spec fn attached(
    b: blueprint::Blueprint,
    nodes: Seq<blueprint::Node>,
    id: usize,
    below: bool,
    skip: Seq<usize>,
) -> Seq<Seq<char>>
    decreases nodes.len(),
{
    if nodes.len() == 0 {
        Seq::empty()
    } else {
        let front = attached(b, nodes.drop_last(), id, below, skip);
        if anchor(b, nodes.last(), below, skip) == Some(id) {
            front.push(nodes.last().text)
        } else {
            front
        }
    }
}

/// The text of a node, if there is one with the number.
pub open spec fn text_with(b: blueprint::Blueprint, id: usize) -> Seq<Seq<char>> {
    match graph::node_with(b.nodes, id) {
        Some(node) => seq![node.text],
        None => Seq::empty(),
    }
}

/// The lines of a node: the comments above it, its text, and those below.
pub open spec fn lines_at(
    b: blueprint::Blueprint,
    id: usize,
    skip: Seq<usize>,
) -> Seq<Seq<char>> {
    attached(b, b.nodes, id, false, skip) + text_with(b, id) + attached(
        b,
        b.nodes,
        id,
        true,
        skip,
    )
}

/// The lines of the nodes in the given order.
pub open spec fn lines_along(
    b: blueprint::Blueprint,
    order: Seq<usize>,
    skip: Seq<usize>,
) -> Seq<Seq<char>>
    decreases order.len(),
{
    if order.len() == 0 {
        Seq::empty()
    } else {
        lines_along(b, order.drop_last(), skip) + lines_at(b, order.last(), skip)
    }
}

/// The lines of the script.
pub open spec fn script_lines(b: blueprint::Blueprint) -> Seq<Seq<char>> {
    let skip = loose_ids(b, b.nodes);
    lines_along(b, reading_order(b, skip), skip)
}

/// The script.
pub open spec fn script_text(b: blueprint::Blueprint) -> Seq<char> {
    diagnostic::joined(script_lines(b), "\n"@)
}

/// Appends strings.
fn append_all(out: &mut Vec<String>, more: &Vec<String>)
    ensures
        text::views(final(out)@) == text::views(old(out)@) + text::views(more@),
{
    let ghost base = text::views(out@);
    let ghost all = text::views(more@);
    let mut i: usize = 0;
    assert(base =~= base + all.take(0));
    while i < more.len()
        invariant
            i <= more@.len(),
            all == text::views(more@),
            base == text::views(old(out)@),
            text::views(out@) == base + all.take(i as int),
        decreases more@.len() - i,
    {
        let ghost before = text::views(out@);
        out.push(more[i].clone());
        assert(text::views(out@) =~= before.push(all[i as int]));
        assert(base + all.take(i + 1) =~= (base + all.take(i as int)).push(all[i as int]));
        i = i + 1;
    }
    assert(all.take(i as int) =~= all);
}

impl BlueprintState {
    /// The nearest node along the links that is not skipped; the search ends
    /// after 64 links.
    pub fn resolve_chain(&self, start: usize, up: bool, skip_ids: &Vec<usize>) -> (r: Option<
        usize,
    >)
        ensures
            r == chain(self@.links, start, up, skip_ids@, 64),
    {
        let mut cur: usize = start;
        let mut left: u32 = 64;
        while left > 0
            invariant
                chain(self@.links, start, up, skip_ids@, 64) == chain(
                    self@.links,
                    cur,
                    up,
                    skip_ids@,
                    left as nat,
                ),
            decreases left,
        {
            let next: Option<usize> = if up {
                self.incoming(cur)
            } else {
                self.outgoing(cur)
            };
            match next {
                Some(n) => {
                    if has_id(skip_ids, n) {
                        cur = n;
                    } else {
                        return Some(n);
                    }
                },
                None => {
                    return None;
                },
            }
            left = left - 1;
        }
        None
    }

    fn loose(&self) -> (skip: Vec<usize>)
        ensures
            skip@ == loose_ids(self@, self@.nodes),
    {
        let ghost all = self@.nodes;
        let n: usize = self.nodes.len();
        let mut skip: Vec<usize> = Vec::new();
        let mut i: usize = 0;
        assert(skip@ =~= loose_ids(self@, all.take(0)));
        while i < n
            invariant
                i <= n,
                n == self.nodes@.len(),
                all == self@.nodes,
                skip@ == loose_ids(self@, all.take(i as int)),
            decreases n - i,
        {
            proof {
                assert(all.take(i + 1).drop_last() =~= all.take(i as int));
                assert(all.take(i + 1).last() == self.nodes@[i as int]@);
            }
            let node: &BlueprintNode = &self.nodes[i];
            if node.kind == NodeKind::Comment && (self.incoming(node.id).is_none()
                || self.outgoing(node.id).is_none()) {
                skip.push(node.id);
            }
            i = i + 1;
        }
        assert(all.take(n as int) =~= all);
        skip
    }

    fn anchor_of(&self, i: usize, below: bool, skip: &Vec<usize>) -> (r: Option<usize>)
        requires
            i < self.nodes@.len(),
        ensures
            r == anchor(self@, self@.nodes[i as int], below, skip@),
    {
        let node: &BlueprintNode = &self.nodes[i];
        if node.kind != NodeKind::Comment {
            return None;
        }
        let before: Option<usize> = self.incoming(node.id);
        let after: Option<usize> = self.outgoing(node.id);
        if below && before.is_some() && after.is_none() {
            self.resolve_chain(node.id, true, skip)
        } else if !below && before.is_none() && after.is_some() {
            self.resolve_chain(node.id, false, skip)
        } else {
            None
        }
    }

    /// The node that each comment belongs to.
    fn anchors(&self, below: bool, skip: &Vec<usize>) -> (r: Vec<Option<usize>>)
        ensures
            r@.len() == self.nodes@.len(),
            forall|k: int|
                0 <= k < r@.len() ==> #[trigger] r@[k] == anchor(
                    self@,
                    self@.nodes[k],
                    below,
                    skip@,
                ),
    {
        let mut r: Vec<Option<usize>> = Vec::new();
        let mut i: usize = 0;
        while i < self.nodes.len()
            invariant
                i <= self.nodes@.len(),
                r@.len() == i,
                forall|k: int|
                    0 <= k < i ==> #[trigger] r@[k] == anchor(
                        self@,
                        self@.nodes[k],
                        below,
                        skip@,
                    ),
            decreases self.nodes@.len() - i,
        {
            r.push(self.anchor_of(i, below, skip));
            i = i + 1;
        }
        r
    }

    fn attached_to(
        &self,
        id: usize,
        anchors: &Vec<Option<usize>>,
        Ghost(below): Ghost<bool>,
        Ghost(skip): Ghost<Seq<usize>>,
    ) -> (r: Vec<String>)
        requires
            anchors@.len() == self.nodes@.len(),
            forall|k: int|
                0 <= k < anchors@.len() ==> #[trigger] anchors@[k] == anchor(
                    self@,
                    self@.nodes[k],
                    below,
                    skip,
                ),
        ensures
            text::views(r@) == attached(self@, self@.nodes, id, below, skip),
    {
        let ghost all = self@.nodes;
        let n: usize = self.nodes.len();
        let mut out: Vec<String> = Vec::new();
        let mut i: usize = 0;
        assert(text::views(out@) =~= attached(self@, all.take(0), id, below, skip));
        while i < n
            invariant
                i <= n,
                n == self.nodes@.len(),
                n == anchors@.len(),
                all == self@.nodes,
                forall|k: int|
                    0 <= k < anchors@.len() ==> #[trigger] anchors@[k] == anchor(
                        self@,
                        self@.nodes[k],
                        below,
                        skip,
                    ),
                text::views(out@) == attached(self@, all.take(i as int), id, below, skip),
            decreases n - i,
        {
            proof {
                assert(all.take(i + 1).drop_last() =~= all.take(i as int));
                assert(all.take(i + 1).last() == self.nodes@[i as int]@);
                assert(anchors@[i as int] == anchor(self@, all[i as int], below, skip));
            }
            let here: bool = match anchors[i] {
                Some(k) => k == id,
                None => false,
            };
            if here {
                let ghost before = text::views(out@);
                out.push(self.nodes[i].text.clone());
                assert(text::views(out@) =~= before.push(all[i as int].text));
            }
            i = i + 1;
        }
        assert(all.take(n as int) =~= all);
        out
    }

    /// The script of a blueprint. The nodes come in reading order. A comment
    /// with links on both sides has its own place among them; one with a single
    /// link stands next to the node at its other end; one without a link is left
    /// out.
    pub fn to_script(&self) -> (r: String)
        ensures
            r@ == script_text(self@),
    {
        let skip: Vec<usize> = self.loose();
        let above: Vec<Option<usize>> = self.anchors(false, &skip);
        let below: Vec<Option<usize>> = self.anchors(true, &skip);
        let order: Vec<usize> = self.topo_order(&skip);
        let mut lines: Vec<String> = Vec::new();
        let mut i: usize = 0;
        assert(text::views(lines@) =~= lines_along(self@, order@.take(0), skip@));
        while i < order.len()
            invariant
                i <= order@.len(),
                above@.len() == self.nodes@.len(),
                below@.len() == self.nodes@.len(),
                forall|k: int|
                    0 <= k < above@.len() ==> #[trigger] above@[k] == anchor(
                        self@,
                        self@.nodes[k],
                        false,
                        skip@,
                    ),
                forall|k: int|
                    0 <= k < below@.len() ==> #[trigger] below@[k] == anchor(
                        self@,
                        self@.nodes[k],
                        true,
                        skip@,
                    ),
                text::views(lines@) == lines_along(self@, order@.take(i as int), skip@),
            decreases order@.len() - i,
        {
            let id: usize = order[i];
            proof {
                assert(order@.take(i + 1).drop_last() =~= order@.take(i as int));
                assert(order@.take(i + 1).last() == id);
            }
            let ghost start = text::views(lines@);
            let head: Vec<String> = self.attached_to(id, &above, Ghost(false), Ghost(skip@));
            append_all(&mut lines, &head);
            let ghost with_head = text::views(lines@);
            let k: usize = self.position_of(id);
            if k < self.nodes.len() {
                lines.push(self.nodes[k].text.clone());
                assert(text::views(lines@) =~= with_head + text_with(self@, id));
            } else {
                assert(with_head =~= with_head + text_with(self@, id));
            }
            let tail: Vec<String> = self.attached_to(id, &below, Ghost(true), Ghost(skip@));
            append_all(&mut lines, &tail);
            assert(text::views(lines@) =~= start + lines_at(self@, id, skip@));
            i = i + 1;
        }
        assert(order@.take(i as int) =~= order@);
        join_strings(&lines, "\n")
    }
}

// ---------------------------------------------------------------------------
// Reading a script
// ---------------------------------------------------------------------------

/// The lines that are not blank.
pub open spec fn filled_lines(lines: Seq<Seq<char>>) -> Seq<Seq<char>>
    decreases lines.len(),
{
    if lines.len() == 0 {
        lines
    } else if slices::trim(lines.last()).len() == 0 {
        filled_lines(lines.drop_last())
    } else {
        filled_lines(lines.drop_last()).push(lines.last())
    }
}

/// The nodes of the given lines, numbered from 0.
pub open spec fn nodes_of(lines: Seq<Seq<char>>) -> Seq<blueprint::Node> {
    Seq::new(
        lines.len(),
        |i: int|
            BlueprintNode {
                id: i as usize,
                kind: blueprint::kind_of(lines[i]),
                pos: blueprint::origin(),
                text: lines[i],
            },
    )
}

/// Links from each of `n` nodes to the next.
pub open spec fn row(n: int) -> Seq<BlueprintLink> {
    Seq::new(
        if n > 0 {
            (n - 1) as nat
        } else {
            0
        },
        |i: int| BlueprintLink { from: i as usize, to: (i + 1) as usize },
    )
}

/// The blueprint of the given lines: a node for each, joined in a row.
pub open spec fn row_of(b: blueprint::Blueprint, lines: Seq<Seq<char>>) -> blueprint::Blueprint {
    blueprint::Blueprint {
        nodes: nodes_of(lines),
        links: row(lines.len() as int),
        next_id: lines.len() as usize,
        selected: None,
        ..b
    }
}

/// The blueprint of a script, laid out.
pub open spec fn blueprint_of(b: blueprint::Blueprint, script: Seq<char>) -> blueprint::Blueprint {
    let made = row_of(b, filled_lines(slices::lines(script)));
    blueprint::Blueprint { nodes: layout::laid_out(made.nodes, b.collapse_comments), ..made }
}

impl BlueprintState {
    /// Replaces the canvas by the blueprint of a script: a node for each line
    /// that is not blank, joined in a row and laid out.
    pub fn from_script(&mut self, text: &str)
        ensures
            final(self)@ == blueprint_of(old(self)@, text@),
    {
        let cs: Vec<char> = to_chars(text);
        let lines: Vec<&[char]> = lines_of(cs.as_slice());
        let ghost all = slices::slice_views(lines@);
        let n: usize = lines.len();
        self.clear();
        let mut i: usize = 0;
        proof {
            assert(filled_lines(all.take(0)) =~= Seq::empty());
            assert(self@.nodes =~= nodes_of(Seq::empty()));
            assert(self@.links =~= row(0));
        }
        while i < n
            invariant
                i <= n,
                n == lines@.len(),
                all == slices::slice_views(lines@),
                self@ == row_of(old(self)@, filled_lines(all.take(i as int))),
                filled_lines(all.take(i as int)).len() <= i,
            decreases n - i,
        {
            let ghost front = filled_lines(all.take(i as int));
            proof {
                assert(all.take(i + 1).drop_last() =~= all.take(i as int));
                assert(all.take(i + 1).last() == lines@[i as int]@);
                assert(self@.nodes.len() == self.nodes@.len());
            }
            let line: &[char] = lines[i];
            if trim_of(line).len() > 0 {
                let text: String = from_chars(line);
                let kind: NodeKind = BlueprintState::detect_kind(text.as_str());
                let before: usize = self.nodes.len();
                let id: usize = self.add_node(kind, Spot { x: 0, y: 0 }, text);
                assert(self@.nodes =~= nodes_of(front.push(line@)));
                if before > 0 {
                    self.links.push(BlueprintLink { from: before - 1, to: id });
                }
                assert(self@.links =~= row((front.len() + 1) as int));
            }
            i = i + 1;
        }
        assert(all.take(n as int) =~= all);
        self.auto_layout();
    }
}

} // verus!
