//! The places of nodes on the canvas: their sizes, the columns they are put in,
//! and what lies under a point.

use crate::blueprint;
use crate::blueprint::{BlueprintNode, BlueprintState, NodeKind, Spot};
use crate::slices;
use crate::slices::lines_of;
use crate::text::to_chars;
use vstd::prelude::*;

verus! {

// ---------------------------------------------------------------------------
// Sizes
// ---------------------------------------------------------------------------

/// The width of a character, in points.
pub open spec fn char_width(c: char) -> int {
    if (c as u32) < 128 {
        7
    } else {
        12
    }
}

/// The width of a line, in points.
pub open spec fn line_width(line: Seq<char>) -> int
    decreases line.len(),
{
    if line.len() == 0 {
        0
    } else {
        line_width(line.drop_last()) + char_width(line.last())
    }
}

/// The width of the widest line.
pub open spec fn widest(lines: Seq<Seq<char>>) -> int
    decreases lines.len(),
{
    if lines.len() == 0 {
        0
    } else {
        max(widest(lines.drop_last()), line_width(lines.last()))
    }
}

pub open spec fn max(a: int, b: int) -> int {
    if a < b {
        b
    } else {
        a
    }
}

pub open spec fn min(a: int, b: int) -> int {
    if a < b {
        a
    } else {
        b
    }
}

/// The width of a node, in thousandths: that of its widest line and a margin,
/// from 200 to 420 points.
pub open spec fn node_width(text: Seq<char>) -> int {
    1000 * min(max(widest(slices::lines(text)) + 24, 200), 420)
}

/// The height of a node, in thousandths: its title, and its lines or the space
/// of two.
pub open spec fn node_height(text: Seq<char>) -> int {
    let count = max(slices::lines(text).len() as int, 1);
    1000 * (22 + max(15 * count + 12, 36))
}

/// The nearest number that a coordinate can hold.
pub open spec fn clip(x: int) -> i64 {
    if x > i64::MAX {
        i64::MAX
    } else if x < i64::MIN {
        i64::MIN
    } else {
        x as i64
    }
}

fn clipped(x: i128) -> (r: i64)
    ensures
        r == clip(x as int),
{
    if x > 0x7fff_ffff_ffff_ffff {
        i64::MAX
    } else if x < -0x8000_0000_0000_0000 {
        i64::MIN
    } else {
        x as i64
    }
}

/// The sum of two coordinates, clipped.
pub fn plus(a: i64, b: i64) -> (r: i64)
    ensures
        r == clip(a + b),
{
    clipped(a as i128 + b as i128)
}

/// The difference of two coordinates, clipped.
pub fn minus(a: i64, b: i64) -> (r: i64)
    ensures
        r == clip(a - b),
{
    clipped(a as i128 - b as i128)
}

fn line_width_of(line: &[char]) -> (w: u128)
    ensures
        w == line_width(line@),
        w <= 12 * usize::MAX,
{
    let n: usize = line.len();
    let mut w: u128 = 0;
    let mut i: usize = 0;
    while i < n
        invariant
            i <= n,
            n == line@.len(),
            w == line_width(line@.take(i as int)),
            w <= 12 * i,
        decreases n - i,
    {
        assert(line@.take(i + 1).drop_last() =~= line@.take(i as int));
        assert(line@.take(i + 1).last() == line@[i as int]);
        w = w + if (line[i] as u32) < 128 {
            7
        } else {
            12
        };
        i = i + 1;
    }
    assert(line@.take(n as int) =~= line@);
    w
}

/// The size of a node.
#[derive(Debug, Clone, Copy, PartialEq, Eq, Structural)]
pub struct NodeSize {
    pub width: i64,
    pub height: i64,
}

/// The size of a node with the given text.
pub open spec fn size_of(text: Seq<char>) -> NodeSize {
    NodeSize { width: node_width(text) as i64, height: clip(node_height(text)) }
}

impl BlueprintState {
    /// The size of a node: its width follows its widest line, its height the
    /// number of lines.
    pub fn node_size(text: &str) -> (r: NodeSize)
        ensures
            r == size_of(text@),
    {
        let cs: Vec<char> = to_chars(text);
        let lines: Vec<&[char]> = lines_of(cs.as_slice());
        let ghost all = slices::slice_views(lines@);
        let n: usize = lines.len();
        let mut wide: u128 = 0;
        let mut i: usize = 0;
        assert(all.take(0) =~= Seq::empty());
        while i < n
            invariant
                i <= n,
                n == lines@.len(),
                all == slices::slice_views(lines@),
                wide == widest(all.take(i as int)),
                wide <= 12 * usize::MAX,
            decreases n - i,
        {
            assert(all.take(i + 1).drop_last() =~= all.take(i as int));
            assert(all.take(i + 1).last() == lines@[i as int]@);
            let w: u128 = line_width_of(lines[i]);
            if w > wide {
                wide = w;
            }
            i = i + 1;
        }
        assert(all.take(n as int) =~= all);
        let width: i64 = if wide + 24 < 200 {
            200_000
        } else if wide + 24 > 420 {
            420_000
        } else {
            1000 * (wide as i64 + 24)
        };
        let count: i128 = if n == 0 {
            1
        } else {
            n as i128
        };
        let body: i128 = if 15 * count + 12 < 36 {
            36
        } else {
            15 * count + 12
        };
        NodeSize { width, height: clipped(1000 * (22 + body)) }
    }
}

proof fn lemma_size(text: Seq<char>)
    ensures
        200_000 <= node_width(text) <= 420_000,
        node_height(text) >= 58_000,
{
}

// ---------------------------------------------------------------------------
// Columns
// ---------------------------------------------------------------------------

/// Whether a node is folded away.
pub open spec fn is_hidden(node: blueprint::Node, collapse: bool) -> bool {
    collapse && node.kind == NodeKind::Comment
}

/// Where the next node goes: the column, the number of nodes in it, and whether
/// any node has been placed.
pub struct Column {
    pub col: int,
    pub rows: int,
    pub placed: bool,
}

/// The column after the given nodes. A section begins a new column, and so does
/// the node behind six others.
pub open spec fn column_after(nodes: Seq<blueprint::Node>, collapse: bool) -> Column
    decreases nodes.len(),
{
    if nodes.len() == 0 {
        Column { col: 0, rows: 0, placed: false }
    } else {
        let front = column_after(nodes.drop_last(), collapse);
        let node = nodes.last();
        if is_hidden(node, collapse) {
            front
        } else if (node.kind == NodeKind::Section && front.placed) || front.rows >= 6 {
            Column { col: front.col + 1, rows: 1, placed: true }
        } else {
            Column { col: front.col, rows: front.rows + 1, placed: true }
        }
    }
}

/// Whether the last of the nodes stands in column `c`.
pub open spec fn last_in_column(nodes: Seq<blueprint::Node>, collapse: bool, c: int) -> bool {
    !is_hidden(nodes.last(), collapse) && column_after(nodes, collapse).col == c
}

/// The width of column `c`: that of its widest node, at least 200 points.
pub open spec fn column_width(nodes: Seq<blueprint::Node>, collapse: bool, c: int) -> int
    decreases nodes.len(),
{
    if nodes.len() == 0 {
        200_000
    } else {
        let front = column_width(nodes.drop_last(), collapse, c);
        if last_in_column(nodes, collapse, c) {
            max(front, node_width(nodes.last().text))
        } else {
            front
        }
    }
}

/// The left edge of column `c`.
pub open spec fn column_left(nodes: Seq<blueprint::Node>, collapse: bool, c: int) -> int
    decreases c,
{
    if c <= 0 {
        20_000
    } else {
        column_left(nodes, collapse, c - 1) + column_width(nodes, collapse, c - 1) + 40_000
    }
}

/// Where column `c` is free below the given nodes.
pub open spec fn column_end(nodes: Seq<blueprint::Node>, collapse: bool, c: int) -> int
    decreases nodes.len(),
{
    if nodes.len() == 0 {
        20_000
    } else {
        let front = column_end(nodes.drop_last(), collapse, c);
        if last_in_column(nodes, collapse, c) {
            front + node_height(nodes.last().text) + 24_000
        } else {
            front
        }
    }
}

/// The column of node `i`.
pub open spec fn column_of(nodes: Seq<blueprint::Node>, collapse: bool, i: int) -> int {
    column_after(nodes.take(i + 1), collapse).col
}

/// The left edge of node `i`.
pub open spec fn left_of(nodes: Seq<blueprint::Node>, collapse: bool, i: int) -> int {
    column_left(nodes, collapse, column_of(nodes, collapse, i))
}

/// The upper edge of node `i`.
pub open spec fn top_of(nodes: Seq<blueprint::Node>, collapse: bool, i: int) -> int {
    column_end(nodes.take(i), collapse, column_of(nodes, collapse, i))
}

/// The nodes in their places. Those that are folded away stay where they are.
pub open spec fn laid_out(nodes: Seq<blueprint::Node>, collapse: bool) -> Seq<blueprint::Node> {
    Seq::new(
        nodes.len(),
        |i: int|
            if is_hidden(nodes[i], collapse) {
                nodes[i]
            } else {
                BlueprintNode {
                    pos: Spot {
                        x: clip(left_of(nodes, collapse, i)),
                        y: clip(top_of(nodes, collapse, i)),
                    },
                    ..nodes[i]
                }
            },
    )
}

proof fn lemma_columns(nodes: Seq<blueprint::Node>, collapse: bool)
    ensures
        0 <= column_after(nodes, collapse).col,
        0 <= column_after(nodes, collapse).rows <= 6,
        nodes.len() > 0 ==> column_after(nodes, collapse).col < nodes.len(),
        !column_after(nodes, collapse).placed ==> column_after(nodes, collapse).rows == 0
            && column_after(nodes, collapse).col == 0,
    decreases nodes.len(),
{
    if nodes.len() > 0 {
        lemma_columns(nodes.drop_last(), collapse);
    }
}

impl BlueprintState {
    /// Whether a node is folded away.
    fn hides(&self, i: usize) -> (r: bool)
        requires
            i < self.nodes@.len(),
        ensures
            r == is_hidden(self@.nodes[i as int], self.collapse_comments),
    {
        self.collapse_comments && self.nodes[i].kind == NodeKind::Comment
    }

    /// The column of each node, and the number of columns.
    fn columns(&self) -> (r: (Vec<usize>, usize))
        requires
            self.nodes@.len() > 0,
        ensures
            r.0@.len() == self.nodes@.len(),
            forall|k: int|
                0 <= k < r.0@.len() ==> #[trigger] r.0@[k] == column_of(
                    self@.nodes,
                    self.collapse_comments,
                    k,
                ) && r.0@[k] < r.1,
    {
        let ghost all = self@.nodes;
        let n: usize = self.nodes.len();
        let mut cols: Vec<usize> = Vec::new();
        let mut col: usize = 0;
        let mut rows: usize = 0;
        let mut placed: bool = false;
        let mut i: usize = 0;
        assert(all.take(0) =~= Seq::empty());
        while i < n
            invariant
                i <= n,
                n == self.nodes@.len(),
                all == self@.nodes,
                (Column { col: col as int, rows: rows as int, placed }) == column_after(
                    all.take(i as int),
                    self.collapse_comments,
                ),
                col <= i,
                cols@.len() == i,
                forall|k: int|
                    0 <= k < i ==> #[trigger] cols@[k] == column_of(all, self.collapse_comments, k)
                        && cols@[k] <= col,
            decreases n - i,
        {
            proof {
                assert(all.take(i + 1).drop_last() =~= all.take(i as int));
                assert(all.take(i + 1).last() == all[i as int]);
                lemma_columns(all.take(i as int), self.collapse_comments);
            }
            if !self.hides(i) {
                if (self.nodes[i].kind == NodeKind::Section && placed) || rows >= 6 {
                    col = col + 1;
                    rows = 0;
                }
                rows = rows + 1;
                placed = true;
            }
            cols.push(col);
            i = i + 1;
        }
        proof {
            lemma_columns(all.take(n as int), self.collapse_comments);
        }
        (cols, col + 1)
    }

    /// The width of each column.
    fn column_widths(&self, cols: &Vec<usize>, count: usize) -> (r: Vec<i64>)
        requires
            cols@.len() == self.nodes@.len(),
            forall|k: int|
                0 <= k < cols@.len() ==> #[trigger] cols@[k] == column_of(
                    self@.nodes,
                    self.collapse_comments,
                    k,
                ) && cols@[k] < count,
        ensures
            r@.len() == count,
            forall|c: int|
                0 <= c < count ==> #[trigger] r@[c] == column_width(
                    self@.nodes,
                    self.collapse_comments,
                    c,
                ),
    {
        let ghost all = self@.nodes;
        let n: usize = self.nodes.len();
        let mut widths: Vec<i64> = Vec::new();
        let mut c: usize = 0;
        while c < count
            invariant
                c <= count,
                widths@.len() == c,
                forall|k: int| 0 <= k < c ==> #[trigger] widths@[k] == 200_000,
            decreases count - c,
        {
            widths.push(200_000);
            c = c + 1;
        }
        let mut i: usize = 0;
        while i < n
            invariant
                i <= n,
                n == self.nodes@.len(),
                all == self@.nodes,
                cols@.len() == n,
                widths@.len() == count,
                forall|k: int|
                    0 <= k < cols@.len() ==> #[trigger] cols@[k] == column_of(
                        self@.nodes,
                        self.collapse_comments,
                        k,
                    ) && cols@[k] < count,
                forall|c: int|
                    0 <= c < count ==> #[trigger] widths@[c] == column_width(
                        all.take(i as int),
                        self.collapse_comments,
                        c,
                    ),
            decreases n - i,
        {
            proof {
                assert(all.take(i + 1).drop_last() =~= all.take(i as int));
                assert(all.take(i + 1).last() == all[i as int]);
                lemma_size(all[i as int].text);
                assert(cols@[i as int] == column_of(all, self.collapse_comments, i as int));
            }
            if !self.hides(i) {
                let size: NodeSize = BlueprintState::node_size(self.nodes[i].text.as_str());
                let c: usize = cols[i];
                if size.width > widths[c] {
                    widths.set(c, size.width);
                }
            }
            i = i + 1;
        }
        assert(all.take(n as int) =~= all);
        widths
    }

    /// Puts the nodes in columns: one or more for each section, side by side,
    /// and the nodes of a column below each other. Comments that are folded away
    /// take no space.
    pub fn auto_layout(&mut self)
        ensures
            final(self)@ == (blueprint::Blueprint {
                nodes: laid_out(old(self)@.nodes, old(self)@.collapse_comments),
                ..old(self)@
            }),
    {
        let n: usize = self.nodes.len();
        if n == 0 {
            assert(self@.nodes =~= laid_out(old(self)@.nodes, old(self)@.collapse_comments));
            return;
        }
        let collapse: bool = self.collapse_comments;
        let ghost all = self@.nodes;
        let (cols, count) = self.columns();
        let widths: Vec<i64> = self.column_widths(&cols, count);
        let mut lefts: Vec<i64> = Vec::new();
        let mut x: i64 = 20_000;
        let mut c: usize = 0;
        while c < count
            invariant
                c <= count,
                widths@.len() == count,
                lefts@.len() == c,
                forall|k: int|
                    0 <= k < count ==> #[trigger] widths@[k] == column_width(all, collapse, k),
                forall|k: int|
                    0 <= k < c ==> #[trigger] lefts@[k] == clip(column_left(all, collapse, k)),
                x == clip(column_left(all, collapse, c as int)),
            decreases count - c,
        {
            proof {
                lemma_column_left(all, collapse, c as int);
                lemma_column_left(all, collapse, c + 1);
                lemma_column_width(all, collapse, c as int);
                assert(widths@[c as int] == column_width(all, collapse, c as int));
            }
            lefts.push(x);
            x = plus(plus(x, widths[c]), 40_000);
            c = c + 1;
        }
        let mut ends: Vec<i64> = Vec::new();
        let mut c: usize = 0;
        while c < count
            invariant
                c <= count,
                ends@.len() == c,
                forall|k: int| 0 <= k < c ==> #[trigger] ends@[k] == 20_000,
            decreases count - c,
        {
            ends.push(20_000);
            c = c + 1;
        }
        let mut i: usize = 0;
        while i < n
            invariant
                i <= n,
                n == all.len(),
                n == self.nodes@.len(),
                collapse == self.collapse_comments,
                cols@.len() == n,
                lefts@.len() == count,
                ends@.len() == count,
                all == old(self)@.nodes,
                self@ == (blueprint::Blueprint { nodes: self@.nodes, ..old(self)@ }),
                forall|k: int|
                    0 <= k < i ==> #[trigger] self@.nodes[k] == laid_out(all, collapse)[k],
                forall|k: int| i <= k < n ==> #[trigger] self@.nodes[k] == all[k],
                forall|k: int|
                    0 <= k < n ==> #[trigger] cols@[k] == column_of(all, collapse, k) && cols@[k]
                        < count,
                forall|k: int|
                    0 <= k < count ==> #[trigger] lefts@[k] == clip(column_left(all, collapse, k)),
                forall|k: int|
                    0 <= k < count ==> #[trigger] ends@[k] == clip(
                        column_end(all.take(i as int), collapse, k),
                    ),
            decreases n - i,
        {
            proof {
                assert(all.take(i + 1).drop_last() =~= all.take(i as int));
                assert(all.take(i + 1).last() == all[i as int]);
                assert(self@.nodes[i as int] == all[i as int]);
                assert(cols@[i as int] == column_of(all, collapse, i as int));
                lemma_size(all[i as int].text);
            }
            let ghost before = self@.nodes;
            if !self.hides(i) {
                let size: NodeSize = BlueprintState::node_size(self.nodes[i].text.as_str());
                let c: usize = cols[i];
                proof {
                    lemma_column_end(all.take(i as int), collapse, c as int);
                }
                let pos: Spot = Spot { x: lefts[c], y: ends[c] };
                let ghost here = all[i as int];
                self.nodes[i].pos = pos;
                proof {
                    assert(self@.nodes =~= before.update(i as int, BlueprintNode { pos, ..here }));
                }
                let next: i64 = plus(plus(ends[c], size.height), 24_000);
                ends.set(c, next);
            }
            i = i + 1;
        }
        assert(self@.nodes =~= laid_out(all, collapse));
    }
}

proof fn lemma_column_width(nodes: Seq<blueprint::Node>, collapse: bool, c: int)
    ensures
        200_000 <= column_width(nodes, collapse, c) <= 420_000,
    decreases nodes.len(),
{
    if nodes.len() > 0 {
        lemma_column_width(nodes.drop_last(), collapse, c);
        lemma_size(nodes.last().text);
    }
}

proof fn lemma_column_left(nodes: Seq<blueprint::Node>, collapse: bool, c: int)
    ensures
        column_left(nodes, collapse, c) >= 20_000,
    decreases c,
{
    if c > 0 {
        lemma_column_left(nodes, collapse, c - 1);
        lemma_column_width(nodes, collapse, c - 1);
    }
}

proof fn lemma_column_end(nodes: Seq<blueprint::Node>, collapse: bool, c: int)
    ensures
        column_end(nodes, collapse, c) >= 20_000,
    decreases nodes.len(),
{
    if nodes.len() > 0 {
        lemma_column_end(nodes.drop_last(), collapse, c);
        lemma_size(nodes.last().text);
    }
}

/// Whether two nodes share any of their area.
pub open spec fn overlap(a: blueprint::Node, b: blueprint::Node) -> bool {
    &&& a.pos.x < b.pos.x + node_width(b.text)
    &&& b.pos.x < a.pos.x + node_width(a.text)
    &&& a.pos.y < b.pos.y + node_height(b.text)
    &&& b.pos.y < a.pos.y + node_height(a.text)
}

proof fn lemma_column_grows(nodes: Seq<blueprint::Node>, collapse: bool, i: int, j: int)
    requires
        0 <= i <= j <= nodes.len(),
    ensures
        column_after(nodes.take(i), collapse).col <= column_after(nodes.take(j), collapse).col,
        forall|c: int|
            column_end(nodes.take(i), collapse, c) <= #[trigger] column_end(
                nodes.take(j),
                collapse,
                c,
            ),
        forall|c: int|
            column_width(nodes.take(i), collapse, c) <= #[trigger] column_width(
                nodes.take(j),
                collapse,
                c,
            ),
    decreases j,
{
    if i < j {
        lemma_column_grows(nodes, collapse, i, j - 1);
        assert(nodes.take(j).drop_last() =~= nodes.take(j - 1));
        lemma_size(nodes[j - 1].text);
        assert forall|c: int|
            column_end(nodes.take(i), collapse, c) <= #[trigger] column_end(
                nodes.take(j),
                collapse,
                c,
            ) by {
            assert(column_end(nodes.take(i), collapse, c) <= column_end(
                nodes.take(j - 1),
                collapse,
                c,
            ));
        }
        assert forall|c: int|
            column_width(nodes.take(i), collapse, c) <= #[trigger] column_width(
                nodes.take(j),
                collapse,
                c,
            ) by {
            assert(column_width(nodes.take(i), collapse, c) <= column_width(
                nodes.take(j - 1),
                collapse,
                c,
            ));
        }
    }
}

proof fn lemma_lefts_grow(nodes: Seq<blueprint::Node>, collapse: bool, c: int, d: int)
    requires
        0 <= c <= d,
    ensures
        column_left(nodes, collapse, c) <= column_left(nodes, collapse, d),
    decreases d,
{
    if c < d {
        lemma_lefts_grow(nodes, collapse, c, d - 1);
        lemma_column_width(nodes, collapse, d - 1);
    }
}

/// After laying out, no two nodes that are shown overlap, as far as their places
/// can be held.
pub proof fn law_layout_no_overlap(
    nodes: Seq<blueprint::Node>,
    collapse: bool,
    i: int,
    j: int,
)
    requires
        0 <= i < j < nodes.len(),
        !is_hidden(nodes[i], collapse),
        !is_hidden(nodes[j], collapse),
        left_of(nodes, collapse, j) <= i64::MAX,
        top_of(nodes, collapse, j) <= i64::MAX,
    ensures
        !overlap(laid_out(nodes, collapse)[i], laid_out(nodes, collapse)[j]),
{
    let c = column_of(nodes, collapse, i);
    let d = column_of(nodes, collapse, j);
    lemma_columns(nodes.take(i + 1), collapse);
    lemma_column_grows(nodes, collapse, i + 1, j + 1);
    lemma_column_grows(nodes, collapse, i + 1, j);
    lemma_column_grows(nodes, collapse, i + 1, nodes.len() as int);
    assert(nodes.take(i + 1).drop_last() =~= nodes.take(i));
    assert(nodes.take(i + 1).last() == nodes[i]);
    assert(nodes.take(nodes.len() as int) =~= nodes);
    lemma_column_left(nodes, collapse, c);
    lemma_column_left(nodes, collapse, d);
    lemma_column_end(nodes.take(i), collapse, c);
    lemma_column_end(nodes.take(j), collapse, d);
    lemma_size(nodes[i].text);
    if c == d {
        assert(column_end(nodes.take(i + 1), collapse, c) <= column_end(
            nodes.take(j),
            collapse,
            c,
        ));
    } else {
        assert(column_width(nodes.take(i + 1), collapse, c) <= column_width(
            nodes.take(nodes.len() as int),
            collapse,
            c,
        ));
        lemma_lefts_grow(nodes, collapse, c + 1, d);
    }
}

// ---------------------------------------------------------------------------
// Places
// ---------------------------------------------------------------------------

/// The place of a node that is added without one: below the last node.
pub open spec fn next_place(nodes: Seq<blueprint::Node>) -> Spot {
    if nodes.len() == 0 {
        Spot { x: 80_000, y: 80_000 }
    } else {
        let last = nodes.last();
        Spot { x: last.pos.x, y: clip(clip(last.pos.y + size_of(last.text).height) + 24_000) }
    }
}

/// Whether a point lies on a node. Its right and lower edges belong to it where
/// `edges` is set.
pub open spec fn covers(node: blueprint::Node, at: Spot, edges: bool) -> bool {
    let size = size_of(node.text);
    let right = node.pos.x + size.width;
    let bottom = node.pos.y + size.height;
    &&& node.pos.x <= at.x < right || (edges && at.x == right)
    &&& node.pos.y <= at.y < bottom || (edges && at.y == bottom)
}

/// Whether a point is no further than `r` from another.
pub open spec fn near(ax: int, ay: int, at: Spot, r: int) -> bool {
    (at.x - ax) * (at.x - ax) + (at.y - ay) * (at.y - ay) <= r * r
}

/// Whether a point touches the pin at the middle of a node's lower edge.
pub open spec fn on_output(node: blueprint::Node, at: Spot, r: int) -> bool {
    let size = size_of(node.text);
    near(node.pos.x + size.width / 2, node.pos.y + size.height, at, r)
}

/// Whether a point touches the pin at the middle of a node's upper edge.
pub open spec fn on_input(node: blueprint::Node, at: Spot, r: int) -> bool {
    let size = size_of(node.text);
    near(node.pos.x + size.width / 2, node.pos.y as int, at, r)
}

/// The topmost node under a point, among the first `n`: later ones lie above.
pub open spec fn topmost(
    nodes: Seq<blueprint::Node>,
    collapse: bool,
    at: Spot,
    edges: bool,
    n: int,
) -> Option<usize>
    decreases n,
{
    if n <= 0 {
        None
    } else if !is_hidden(nodes[n - 1], collapse) && covers(nodes[n - 1], at, edges) {
        Some(nodes[n - 1].id)
    } else {
        topmost(nodes, collapse, at, edges, n - 1)
    }
}

/// The first node from `i` on whose output pin is touched.
pub open spec fn first_output(
    nodes: Seq<blueprint::Node>,
    collapse: bool,
    at: Spot,
    r: int,
    i: int,
) -> Option<usize>
    decreases nodes.len() - i,
{
    if i < 0 || i >= nodes.len() {
        None
    } else if !is_hidden(nodes[i], collapse) && on_output(nodes[i], at, r) {
        Some(nodes[i].id)
    } else {
        first_output(nodes, collapse, at, r, i + 1)
    }
}

/// The first node from `i` on whose input pin is touched.
pub open spec fn first_input(
    nodes: Seq<blueprint::Node>,
    collapse: bool,
    at: Spot,
    r: int,
    i: int,
) -> Option<usize>
    decreases nodes.len() - i,
{
    if i < 0 || i >= nodes.len() {
        None
    } else if !is_hidden(nodes[i], collapse) && on_input(nodes[i], at, r) {
        Some(nodes[i].id)
    } else {
        first_input(nodes, collapse, at, r, i + 1)
    }
}

/// Whether a point is no further than `r` from another.
pub fn is_near(ax: i128, ay: i128, at: Spot, r: u32) -> (b: bool)
    requires
        -0x2_0000_0000_0000_0000 <= ax <= 0x2_0000_0000_0000_0000,
        -0x2_0000_0000_0000_0000 <= ay <= 0x2_0000_0000_0000_0000,
    ensures
        b == near(ax as int, ay as int, at, r as int),
{
    let dx: i128 = at.x as i128 - ax;
    let dy: i128 = at.y as i128 - ay;
    let m: i128 = r as i128;
    if dx > m || dx < -m || dy > m || dy < -m {
        assert((dx as int) * (dx as int) + (dy as int) * (dy as int) > (m as int) * (m as int))
            by (nonlinear_arith)
            requires
                m >= 0,
                dx > m || dx < -m || dy > m || dy < -m,
        ;
        return false;
    }
    assert(0 <= dx * dx <= 0x1_0000_0000_0000_0000) by (nonlinear_arith)
        requires
            -0x1_0000_0000 <= dx <= 0x1_0000_0000,
    ;
    assert(0 <= dy * dy <= 0x1_0000_0000_0000_0000) by (nonlinear_arith)
        requires
            -0x1_0000_0000 <= dy <= 0x1_0000_0000,
    ;
    assert(0 <= m * m <= 0x1_0000_0000_0000_0000) by (nonlinear_arith)
        requires
            0 <= m <= 0x1_0000_0000,
    ;
    dx * dx + dy * dy <= m * m
}

impl BlueprintState {
    /// The place for a node that is added without one.
    pub fn next_placement_pos(&self) -> (r: Spot)
        ensures
            r == next_place(self@.nodes),
    {
        let n: usize = self.nodes.len();
        if n == 0 {
            return Spot { x: 80_000, y: 80_000 };
        }
        let last: &BlueprintNode = &self.nodes[n - 1];
        assert(last@ == self@.nodes.last());
        let size: NodeSize = BlueprintState::node_size(last.text.as_str());
        Spot { x: last.pos.x, y: plus(plus(last.pos.y, size.height), 24_000) }
    }

    /// The topmost node under a point. Right and lower edges do not count.
    pub fn node_at(&self, canvas_pos: Spot) -> (r: Option<usize>)
        ensures
            r == topmost(
                self@.nodes,
                self.collapse_comments,
                canvas_pos,
                false,
                self@.nodes.len() as int,
            ),
    {
        self.node_under(canvas_pos, false)
    }

    /// The topmost node under a point. Right and lower edges count where `edges`
    /// is set.
    pub fn node_under(&self, canvas_pos: Spot, edges: bool) -> (r: Option<usize>)
        ensures
            r == topmost(
                self@.nodes,
                self.collapse_comments,
                canvas_pos,
                edges,
                self@.nodes.len() as int,
            ),
    {
        let mut n: usize = self.nodes.len();
        while n > 0
            invariant
                n <= self.nodes@.len(),
                topmost(
                    self@.nodes,
                    self.collapse_comments,
                    canvas_pos,
                    edges,
                    self@.nodes.len() as int,
                ) == topmost(self@.nodes, self.collapse_comments, canvas_pos, edges, n as int),
            decreases n,
        {
            let node: &BlueprintNode = &self.nodes[n - 1];
            assert(node@ == self@.nodes[n - 1]);
            if !self.hides(n - 1) {
                let size: NodeSize = BlueprintState::node_size(node.text.as_str());
                let right: i128 = node.pos.x as i128 + size.width as i128;
                let bottom: i128 = node.pos.y as i128 + size.height as i128;
                let x: i128 = canvas_pos.x as i128;
                let y: i128 = canvas_pos.y as i128;
                if ((node.pos.x as i128) <= x && x < right || (edges && x == right)) && ((
                node.pos.y as i128) <= y && y < bottom || (edges && y == bottom)) {
                    return Some(node.id);
                }
            }
            n = n - 1;
        }
        None
    }

    /// The first node whose output pin is no further than `r` from a point.
    pub fn output_pin_at(&self, canvas_pos: Spot, r: u32) -> (id: Option<usize>)
        ensures
            id == first_output(self@.nodes, self.collapse_comments, canvas_pos, r as int, 0),
    {
        let n: usize = self.nodes.len();
        let mut i: usize = 0;
        while i < n
            invariant
                i <= n,
                n == self.nodes@.len(),
                first_output(self@.nodes, self.collapse_comments, canvas_pos, r as int, 0)
                    == first_output(
                    self@.nodes,
                    self.collapse_comments,
                    canvas_pos,
                    r as int,
                    i as int,
                ),
            decreases n - i,
        {
            let node: &BlueprintNode = &self.nodes[i];
            assert(node@ == self@.nodes[i as int]);
            if !self.hides(i) {
                let size: NodeSize = BlueprintState::node_size(node.text.as_str());
                proof {
                    lemma_size(node.text@);
                }
                if is_near(
                    node.pos.x as i128 + (size.width / 2) as i128,
                    node.pos.y as i128 + size.height as i128,
                    canvas_pos,
                    r,
                ) {
                    return Some(node.id);
                }
            }
            i = i + 1;
        }
        None
    }

    /// The first node whose input pin is no further than `r` from a point.
    pub fn input_pin_at(&self, canvas_pos: Spot, r: u32) -> (id: Option<usize>)
        ensures
            id == first_input(self@.nodes, self.collapse_comments, canvas_pos, r as int, 0),
    {
        let n: usize = self.nodes.len();
        let mut i: usize = 0;
        while i < n
            invariant
                i <= n,
                n == self.nodes@.len(),
                first_input(self@.nodes, self.collapse_comments, canvas_pos, r as int, 0)
                    == first_input(
                    self@.nodes,
                    self.collapse_comments,
                    canvas_pos,
                    r as int,
                    i as int,
                ),
            decreases n - i,
        {
            let node: &BlueprintNode = &self.nodes[i];
            assert(node@ == self@.nodes[i as int]);
            if !self.hides(i) {
                let size: NodeSize = BlueprintState::node_size(node.text.as_str());
                proof {
                    lemma_size(node.text@);
                }
                if is_near(
                    node.pos.x as i128 + (size.width / 2) as i128,
                    node.pos.y as i128,
                    canvas_pos,
                    r,
                ) {
                    return Some(node.id);
                }
            }
            i = i + 1;
        }
        None
    }
}

} // verus!
