//! The nodes and links of a blueprint, and the order they are read in.

use crate::blueprint;
use crate::blueprint::{BlueprintLink, BlueprintNode, BlueprintState, NodeKind, Spot};
use crate::text;
use vstd::prelude::*;

verus! {

// ---------------------------------------------------------------------------
// Looking up
// ---------------------------------------------------------------------------

/// The index of the first node with a number from `i` on, or the number of
/// nodes.
pub open spec fn id_index(nodes: Seq<blueprint::Node>, id: usize, i: int) -> int
    decreases nodes.len() - i,
{
    if 0 <= i < nodes.len() && nodes[i].id != id {
        id_index(nodes, id, i + 1)
    } else {
        i
    }
}

/// The node with a number.
pub open spec fn node_with(nodes: Seq<blueprint::Node>, id: usize) -> Option<blueprint::Node> {
    let k = id_index(nodes, id, 0);
    if k < nodes.len() {
        Some(nodes[k])
    } else {
        None
    }
}

/// Where the first link from `i` on that leads to a node comes from.
pub open spec fn source_from(links: Seq<BlueprintLink>, id: usize, i: int) -> Option<usize>
    decreases links.len() - i,
{
    if i < 0 || i >= links.len() {
        None
    } else if links[i].to == id {
        Some(links[i].from)
    } else {
        source_from(links, id, i + 1)
    }
}

/// Where the first link from `i` on that leaves a node leads to.
pub open spec fn target_from(links: Seq<BlueprintLink>, id: usize, i: int) -> Option<usize>
    decreases links.len() - i,
{
    if i < 0 || i >= links.len() {
        None
    } else if links[i].from == id {
        Some(links[i].to)
    } else {
        target_from(links, id, i + 1)
    }
}

/// The node before another.
pub open spec fn source_of(links: Seq<BlueprintLink>, id: usize) -> Option<usize> {
    source_from(links, id, 0)
}

/// The node behind another.
pub open spec fn target_of(links: Seq<BlueprintLink>, id: usize) -> Option<usize> {
    target_from(links, id, 0)
}

/// The node before another, or behind it.
pub open spec fn neighbour(links: Seq<BlueprintLink>, id: usize, up: bool) -> Option<usize> {
    if up {
        source_of(links, id)
    } else {
        target_of(links, id)
    }
}

pub proof fn lemma_id_index(nodes: Seq<blueprint::Node>, id: usize, i: int)
    requires
        0 <= i <= nodes.len(),
    ensures
        i <= id_index(nodes, id, i) <= nodes.len(),
        id_index(nodes, id, i) < nodes.len() ==> nodes[id_index(nodes, id, i)].id == id,
        forall|k: int| i <= k < id_index(nodes, id, i) ==> (#[trigger] nodes[k]).id != id,
    decreases nodes.len() - i,
{
    if i < nodes.len() && nodes[i].id != id {
        lemma_id_index(nodes, id, i + 1);
    }
}

impl BlueprintState {
    /// The index of the node with a number, or the number of nodes.
    pub fn position_of(&self, id: usize) -> (k: usize)
        ensures
            k == id_index(self@.nodes, id, 0),
            k <= self.nodes@.len(),
            k < self.nodes@.len() ==> self@.nodes[k as int].id == id,
    {
        let mut k: usize = 0;
        while k < self.nodes.len() && self.nodes[k].id != id
            invariant
                k <= self.nodes@.len(),
                id_index(self@.nodes, id, 0) == id_index(self@.nodes, id, k as int),
            decreases self.nodes@.len() - k,
        {
            k = k + 1;
        }
        k
    }

    /// Where the first link to a node comes from.
    pub fn incoming(&self, id: usize) -> (r: Option<usize>)
        ensures
            r == source_of(self@.links, id),
    {
        let mut i: usize = 0;
        while i < self.links.len()
            invariant
                i <= self.links@.len(),
                source_of(self@.links, id) == source_from(self@.links, id, i as int),
            decreases self.links@.len() - i,
        {
            if self.links[i].to == id {
                return Some(self.links[i].from);
            }
            i = i + 1;
        }
        None
    }

    /// Where the first link from a node leads to.
    pub fn outgoing(&self, id: usize) -> (r: Option<usize>)
        ensures
            r == target_of(self@.links, id),
    {
        let mut i: usize = 0;
        while i < self.links.len()
            invariant
                i <= self.links@.len(),
                target_of(self@.links, id) == target_from(self@.links, id, i as int),
            decreases self.links@.len() - i,
        {
            if self.links[i].from == id {
                return Some(self.links[i].to);
            }
            i = i + 1;
        }
        None
    }
}

// ---------------------------------------------------------------------------
// Editing
// ---------------------------------------------------------------------------

/// The canvas with one more node.
pub open spec fn with_node(
    b: blueprint::Blueprint,
    kind: NodeKind,
    pos: Spot,
    text: Seq<char>,
) -> blueprint::Blueprint {
    blueprint::Blueprint {
        nodes: b.nodes.push(BlueprintNode { id: b.next_id, kind, pos, text }),
        next_id: (b.next_id + 1) as usize,
        ..b
    }
}

/// The canvas without a node and its links.
pub open spec fn without_node(b: blueprint::Blueprint, id: usize) -> blueprint::Blueprint {
    blueprint::Blueprint {
        nodes: b.nodes.filter(|n: blueprint::Node| n.id != id),
        links: b.links.filter(|l: BlueprintLink| l.from != id && l.to != id),
        selected: if b.selected == Some(id) {
            None
        } else {
            b.selected
        },
        ..b
    }
}

/// The links with one more. A node takes one link: a new one replaces the old.
pub open spec fn with_link(
    links: Seq<BlueprintLink>,
    from: usize,
    to: usize,
) -> Seq<BlueprintLink> {
    if from == to || links.contains((BlueprintLink { from, to })) {
        links
    } else {
        links.filter(|l: BlueprintLink| l.to != to).push(BlueprintLink { from, to })
    }
}

/// The canvas with another text in the selected node.
pub open spec fn with_selected_text(
    b: blueprint::Blueprint,
    text: Seq<char>,
) -> Option<blueprint::Blueprint> {
    match b.selected {
        Some(id) => {
            let k = id_index(b.nodes, id, 0);
            if k < b.nodes.len() {
                Some(
                    blueprint::Blueprint {
                        nodes: b.nodes.update(
                            k,
                            BlueprintNode { kind: blueprint::kind_of(text), text, ..b.nodes[k] },
                        ),
                        ..b
                    },
                )
            } else {
                None
            }
        },
        None => None,
    }
}

impl BlueprintState {
    /// Adds a node and returns its number.
    pub fn add_node(&mut self, kind: NodeKind, pos: Spot, text: String) -> (id: usize)
        requires
            old(self).next_id < usize::MAX,
        ensures
            id == old(self).next_id,
            final(self)@ == with_node(old(self)@, kind, pos, text@),
    {
        let id: usize = self.next_id;
        self.next_id = id + 1;
        let ghost before = self@.nodes;
        let ghost added = text@;
        self.nodes.push(BlueprintNode { id, kind, pos, text });
        assert(self@.nodes =~= before.push(BlueprintNode { id, kind, pos, text: added }));
        id
    }

    /// Gives the selected node another text, and its kind with it. Without a
    /// selected node nothing changes, and the result is `false`.
    pub fn replace_selected_text(&mut self, text: String) -> (r: bool)
        ensures
            match with_selected_text(old(self)@, text@) {
                Some(b) => r && final(self)@ == b,
                None => !r && final(self)@ == old(self)@,
            },
    {
        match self.selected {
            Some(id) => {
                let k: usize = self.position_of(id);
                if k < self.nodes.len() {
                    let kind: NodeKind = BlueprintState::detect_kind(text.as_str());
                    let ghost before = self@.nodes;
                    let ghost now = text@;
                    self.nodes[k].kind = kind;
                    self.nodes[k].text = text;
                    assert(self@.nodes =~= before.update(
                        k as int,
                        BlueprintNode { kind, text: now, ..before[k as int] },
                    ));
                    return true;
                }
                false
            },
            None => false,
        }
    }

    /// Keeps the links that do not touch a node (`both`), or that do not lead to
    /// it.
    fn drop_links(&mut self, id: usize, both: bool)
        ensures
            final(self)@ == (blueprint::Blueprint {
                links: if both {
                    old(self)@.links.filter(|l: BlueprintLink| l.from != id && l.to != id)
                } else {
                    old(self)@.links.filter(|l: BlueprintLink| l.to != id)
                },
                ..old(self)@
            }),
    {
        let ghost all = self.links@;
        let ghost keep = if both {
            |l: BlueprintLink| l.from != id && l.to != id
        } else {
            |l: BlueprintLink| l.to != id
        };
        let n: usize = self.links.len();
        let mut kept: Vec<BlueprintLink> = Vec::new();
        let mut i: usize = 0;
        proof {
            reveal(Seq::filter);
            assert(kept@ =~= all.take(0).filter(keep));
        }
        while i < n
            invariant
                i <= n,
                n == all.len(),
                all == self.links@,
                self@ == old(self)@,
                keep == (if both {
                    |l: BlueprintLink| l.from != id && l.to != id
                } else {
                    |l: BlueprintLink| l.to != id
                }),
                kept@ == all.take(i as int).filter(keep),
            decreases n - i,
        {
            proof {
                reveal(Seq::filter);
                assert(all.take(i + 1).drop_last() =~= all.take(i as int));
                assert(all.take(i + 1).last() == all[i as int]);
            }
            let l: BlueprintLink = self.links[i];
            if l.to != id && (!both || l.from != id) {
                kept.push(l);
            }
            i = i + 1;
        }
        assert(all.take(n as int) =~= all);
        self.links = kept;
    }

    /// Removes a node and its links.
    pub fn remove_node(&mut self, id: usize)
        ensures
            final(self)@ == without_node(old(self)@, id),
    {
        let ghost all = self@.nodes;
        let ghost keep = |n: blueprint::Node| n.id != id;
        let n: usize = self.nodes.len();
        let mut i: usize = 0;
        let mut seen: usize = 0;
        proof {
            reveal(Seq::filter);
            assert(self@.nodes =~= all.take(0).filter(keep) + all.skip(0));
        }
        while seen < n
            invariant
                i <= seen <= n,
                n == all.len(),
                all == old(self)@.nodes,
                keep == (|n: blueprint::Node| n.id != id),
                i == all.take(seen as int).filter(keep).len(),
                self@ == (blueprint::Blueprint { nodes: self@.nodes, ..old(self)@ }),
                self@.nodes == all.take(seen as int).filter(keep) + all.skip(seen as int),
            decreases n - seen,
        {
            let ghost before = self@.nodes;
            let ghost head = all.take(seen as int).filter(keep);
            proof {
                reveal(Seq::filter);
                assert(all.take(seen + 1).drop_last() =~= all.take(seen as int));
                assert(all.take(seen + 1).last() == all[seen as int]);
                assert(before[i as int] == all[seen as int]);
                assert(before.len() == self.nodes@.len());
            }
            if self.nodes[i].id == id {
                self.nodes.remove(i);
                assert(self@.nodes =~= before.remove(i as int));
                assert(before.remove(i as int) =~= head + all.skip(seen + 1));
            } else {
                i = i + 1;
                assert(before =~= head.push(all[seen as int]) + all.skip(seen + 1));
            }
            seen = seen + 1;
        }
        proof {
            assert(all.take(n as int) =~= all);
            assert(self@.nodes =~= all.filter(keep));
        }
        self.drop_links(id, true);
        match self.selected {
            Some(k) => {
                if k == id {
                    self.selected = None;
                }
            },
            None => {},
        }
    }

    /// Joins two nodes. A link to itself and a link that is there already change
    /// nothing; another link to the second node is replaced.
    pub fn add_link(&mut self, from: usize, to: usize)
        ensures
            final(self)@ == (blueprint::Blueprint {
                links: with_link(old(self)@.links, from, to),
                ..old(self)@
            }),
    {
        if from == to {
            return;
        }
        let mut i: usize = 0;
        while i < self.links.len()
            invariant
                i <= self.links@.len(),
                forall|k: int|
                    0 <= k < i ==> #[trigger] self.links@[k] != (BlueprintLink { from, to }),
            decreases self.links@.len() - i,
        {
            if self.links[i].from == from && self.links[i].to == to {
                assert(self.links@[i as int] == (BlueprintLink { from, to }));
                assert(self.links@.contains((BlueprintLink { from, to })));
                return;
            }
            i = i + 1;
        }
        assert(!self.links@.contains((BlueprintLink { from, to })));
        self.drop_links(to, false);
        self.links.push(BlueprintLink { from, to });
    }

    /// Removes everything from the canvas.
    pub fn clear(&mut self)
        ensures
            final(self)@ == (blueprint::Blueprint {
                nodes: Seq::empty(),
                links: Seq::empty(),
                next_id: 0,
                selected: None,
                ..old(self)@
            }),
    {
        self.nodes = Vec::new();
        self.links = Vec::new();
        self.next_id = 0;
        self.selected = None;
        assert(self@.nodes =~= Seq::empty());
    }
}

// ---------------------------------------------------------------------------
// What every edit keeps
// ---------------------------------------------------------------------------

/// Whether a node with a number is on the canvas.
pub open spec fn has_node(nodes: Seq<blueprint::Node>, id: usize) -> bool {
    exists|i: int| 0 <= i < nodes.len() && (#[trigger] nodes[i]).id == id
}

/// Every node has a number of its own, below the next one; every link joins two
/// nodes of the canvas; and no node has more than one link to it.
pub open spec fn tidy(b: blueprint::Blueprint) -> bool {
    &&& forall|i: int, j: int|
        0 <= i < j < b.nodes.len() ==> (#[trigger] b.nodes[i]).id != (#[trigger] b.nodes[j]).id
    &&& forall|i: int| 0 <= i < b.nodes.len() ==> (#[trigger] b.nodes[i]).id < b.next_id
    &&& forall|k: int|
        0 <= k < b.links.len() ==> {
            let l = #[trigger] b.links[k];
            l.from != l.to && has_node(b.nodes, l.from) && has_node(b.nodes, l.to)
        }
    &&& forall|k: int, l: int|
        0 <= k < l < b.links.len() ==> (#[trigger] b.links[k]).to != (#[trigger] b.links[l]).to
}

/// Items that pass a filter keep their order, and all that pass are kept.
proof fn lemma_filter<A>(s: Seq<A>, p: spec_fn(A) -> bool)
    ensures
        forall|k: int|
            0 <= k < s.filter(p).len() ==> p(#[trigger] s.filter(p)[k]) && s.contains(
                s.filter(p)[k],
            ),
        forall|k: int, l: int|
            0 <= k < l < s.filter(p).len() ==> exists|i: int, j: int|
                0 <= i < j < s.len() && s[i] == #[trigger] s.filter(p)[k] && s[j]
                    == #[trigger] s.filter(p)[l],
        forall|i: int| 0 <= i < s.len() && p(#[trigger] s[i]) ==> s.filter(p).contains(s[i]),
    decreases s.len(),
{
    reveal(Seq::filter);
    if s.len() > 0 {
        let front = s.drop_last();
        let t = s.filter(p);
        let u = front.filter(p);
        lemma_filter(front, p);
        assert forall|k: int| 0 <= k < t.len() implies p(#[trigger] t[k]) && s.contains(t[k]) by {
            if k < u.len() {
                assert(front.contains(u[k]));
                let i = choose|i: int| 0 <= i < front.len() && front[i] == u[k];
                assert(s[i] == t[k]);
            } else {
                assert(s[s.len() - 1] == t[k]);
            }
        }
        assert forall|k: int, l: int| 0 <= k < l < t.len() implies exists|i: int, j: int|
            0 <= i < j < s.len() && s[i] == #[trigger] t[k] && s[j] == #[trigger] t[l] by {
            if l < u.len() {
                let (i, j) = choose|i: int, j: int|
                    0 <= i < j < front.len() && front[i] == u[k] && front[j] == u[l];
                assert(s[i] == t[k] && s[j] == t[l]);
            } else {
                assert(front.contains(u[k]));
                let i = choose|i: int| 0 <= i < front.len() && front[i] == u[k];
                assert(s[i] == t[k] && s[s.len() - 1] == t[l]);
            }
        }
        assert forall|i: int| 0 <= i < s.len() && p(#[trigger] s[i]) implies t.contains(s[i]) by {
            if i < front.len() {
                assert(p(front[i]));
                assert(u.contains(front[i]));
                let k = choose|k: int| 0 <= k < u.len() && u[k] == front[i];
                assert(t[k] == s[i]);
            } else {
                assert(t[t.len() - 1] == s[i]);
            }
        }
    }
}

/// Adding a node keeps the canvas tidy, and the other nodes and links as they
/// are.
pub proof fn law_add_node_tidy(
    b: blueprint::Blueprint,
    kind: NodeKind,
    pos: Spot,
    text: Seq<char>,
)
    requires
        tidy(b),
        b.next_id < usize::MAX,
    ensures
        tidy(with_node(b, kind, pos, text)),
        has_node(with_node(b, kind, pos, text).nodes, b.next_id),
{
    let c = with_node(b, kind, pos, text);
    assert(c.nodes[b.nodes.len() as int].id == b.next_id);
    assert forall|k: int| 0 <= k < c.links.len() implies {
        let l = #[trigger] c.links[k];
        l.from != l.to && has_node(c.nodes, l.from) && has_node(c.nodes, l.to)
    } by {
        let l = b.links[k];
        lemma_has_more(b.nodes, c.nodes, l.from);
        lemma_has_more(b.nodes, c.nodes, l.to);
    }
}

proof fn lemma_has_more(a: Seq<blueprint::Node>, c: Seq<blueprint::Node>, id: usize)
    requires
        has_node(a, id),
        a.len() <= c.len(),
        forall|i: int| 0 <= i < a.len() ==> (#[trigger] c[i]).id == a[i].id,
    ensures
        has_node(c, id),
{
    let i = choose|i: int| 0 <= i < a.len() && (#[trigger] a[i]).id == id;
    assert(c[i].id == id);
}

/// Removing a node keeps the canvas tidy; neither the node nor a link to it or
/// from it is left.
pub proof fn law_remove_node_tidy(b: blueprint::Blueprint, id: usize)
    requires
        tidy(b),
    ensures
        tidy(without_node(b, id)),
        !has_node(without_node(b, id).nodes, id),
        forall|k: int|
            0 <= k < without_node(b, id).links.len() ==> (#[trigger] without_node(
                b,
                id,
            ).links[k]).from != id && without_node(b, id).links[k].to != id,
{
    let c = without_node(b, id);
    let keep_node = |n: blueprint::Node| n.id != id;
    let keep_link = |l: BlueprintLink| l.from != id && l.to != id;
    lemma_filter(b.nodes, keep_node);
    lemma_filter(b.links, keep_link);
    assert forall|i: int, j: int| 0 <= i < j < c.nodes.len() implies (#[trigger] c.nodes[i]).id
        != (#[trigger] c.nodes[j]).id by {
        let (x, y) = choose|x: int, y: int|
            0 <= x < y < b.nodes.len() && b.nodes[x] == c.nodes[i] && b.nodes[y] == c.nodes[j];
        assert(b.nodes[x].id != b.nodes[y].id);
    }
    assert forall|i: int| 0 <= i < c.nodes.len() implies (#[trigger] c.nodes[i]).id < c.next_id by {
        assert(b.nodes.contains(c.nodes[i]));
    }
    assert forall|k: int, l: int| 0 <= k < l < c.links.len() implies (#[trigger] c.links[k]).to
        != (#[trigger] c.links[l]).to by {
        let (x, y) = choose|x: int, y: int|
            0 <= x < y < b.links.len() && b.links[x] == c.links[k] && b.links[y] == c.links[l];
        assert(b.links[x].to != b.links[y].to);
    }
    assert forall|k: int| 0 <= k < c.links.len() implies {
        let l = #[trigger] c.links[k];
        l.from != l.to && has_node(c.nodes, l.from) && has_node(c.nodes, l.to)
    } by {
        let l = c.links[k];
        assert(keep_link(l));
        assert(b.links.contains(l));
        let m = choose|m: int| 0 <= m < b.links.len() && b.links[m] == l;
        assert(b.links[m].from != b.links[m].to);
        lemma_survives(b.nodes, l.from, id);
        lemma_survives(b.nodes, l.to, id);
    }
    if has_node(c.nodes, id) {
        let i = choose|i: int| 0 <= i < c.nodes.len() && (#[trigger] c.nodes[i]).id == id;
        assert(keep_node(c.nodes[i]));
    }
}

proof fn lemma_survives(nodes: Seq<blueprint::Node>, kept: usize, id: usize)
    requires
        has_node(nodes, kept),
        kept != id,
    ensures
        has_node(nodes.filter(|n: blueprint::Node| n.id != id), kept),
{
    let keep = |n: blueprint::Node| n.id != id;
    let t = nodes.filter(keep);
    lemma_filter(nodes, keep);
    let i = choose|i: int| 0 <= i < nodes.len() && (#[trigger] nodes[i]).id == kept;
    assert(keep(nodes[i]));
    assert(t.contains(nodes[i]));
    let k = choose|k: int| 0 <= k < t.len() && t[k] == nodes[i];
    assert(t[k].id == kept);
}

/// Joining two nodes of the canvas keeps it tidy, and the link is there.
pub proof fn law_add_link_tidy(b: blueprint::Blueprint, from: usize, to: usize)
    requires
        tidy(b),
        has_node(b.nodes, from),
        has_node(b.nodes, to),
    ensures
        tidy(blueprint::Blueprint { links: with_link(b.links, from, to), ..b }),
        from != to ==> with_link(b.links, from, to).contains((BlueprintLink { from, to })),
{
    let links = with_link(b.links, from, to);
    let keep = |l: BlueprintLink| l.to != to;
    let new = BlueprintLink { from, to };
    if from != to && !b.links.contains(new) {
        let kept = b.links.filter(keep);
        lemma_filter(b.links, keep);
        assert(links == kept.push(new));
        assert(links[kept.len() as int] == new);
        assert forall|k: int, l: int| 0 <= k < l < links.len() implies (#[trigger] links[k]).to != (
        #[trigger] links[l]).to by {
            if l < kept.len() {
                let (x, y) = choose|x: int, y: int|
                    0 <= x < y < b.links.len() && b.links[x] == kept[k] && b.links[y] == kept[l];
                assert(b.links[x].to != b.links[y].to);
            } else {
                assert(keep(kept[k]));
            }
        }
        assert forall|k: int| 0 <= k < links.len() implies {
            let l = #[trigger] links[k];
            l.from != l.to && has_node(b.nodes, l.from) && has_node(b.nodes, l.to)
        } by {
            if k < kept.len() {
                assert(b.links.contains(kept[k]));
            }
        }
    }
}

} // verus!
