//! The order of texts, and sorting by it.

use crate::text;
use crate::text::to_chars;
use vstd::prelude::*;

verus! {

/// The order of two texts, character by character: negative, zero or positive.
pub open spec fn text_order(a: Seq<char>, b: Seq<char>) -> int
    decreases a.len(),
{
    if a.len() == 0 {
        if b.len() == 0 {
            0
        } else {
            -1
        }
    } else if b.len() == 0 {
        1
    } else if a[0] < b[0] {
        -1
    } else if b[0] < a[0] {
        1
    } else {
        text_order(a.drop_first(), b.drop_first())
    }
}

/// The order of two texts.
pub fn order_texts(a: &str, b: &str) -> (r: i32)
    ensures
        r == text_order(a@, b@),
{
    let x: Vec<char> = to_chars(a);
    let y: Vec<char> = to_chars(b);
    let mut i: usize = 0;
    assert(x@.skip(0) =~= x@);
    assert(y@.skip(0) =~= y@);
    loop
        invariant
            i <= x@.len(),
            i <= y@.len(),
            text_order(a@, b@) == text_order(x@.skip(i as int), y@.skip(i as int)),
        decreases x@.len() - i,
    {
        if i == x.len() {
            return if i == y.len() {
                0
            } else {
                -1
            };
        }
        if i == y.len() {
            return 1;
        }
        if x[i] < y[i] {
            return -1;
        }
        if y[i] < x[i] {
            return 1;
        }
        assert(x@.skip(i as int).drop_first() =~= x@.skip(i + 1));
        assert(y@.skip(i as int).drop_first() =~= y@.skip(i + 1));
        i = i + 1;
    }
}

/// The order of texts is antisymmetric, and zero for equal texts alone.
pub proof fn law_text_order(a: Seq<char>, b: Seq<char>)
    ensures
        text_order(a, b) == -text_order(b, a),
        text_order(a, b) == 0 <==> a == b,
    decreases a.len(),
{
    if a.len() > 0 && b.len() > 0 {
        law_text_order(a.drop_first(), b.drop_first());
        assert(a =~= seq![a[0]] + a.drop_first());
        assert(b =~= seq![b[0]] + b.drop_first());
    } else if a.len() == b.len() {
        assert(a =~= b);
    }
}

/// The order of texts is transitive.
pub proof fn law_text_order_chains(a: Seq<char>, b: Seq<char>, c: Seq<char>)
    requires
        text_order(a, b) <= 0,
        text_order(b, c) <= 0,
    ensures
        text_order(a, c) <= 0,
        text_order(a, b) < 0 || text_order(b, c) < 0 ==> text_order(a, c) < 0,
    decreases a.len(),
{
    if a.len() > 0 && b.len() > 0 && c.len() > 0 && a[0] == b[0] && b[0] == c[0] {
        law_text_order_chains(a.drop_first(), b.drop_first(), c.drop_first());
    }
}

// ---------------------------------------------------------------------------
// Sorting
// ---------------------------------------------------------------------------

/// What an item is sorted by: those of the front group come first, and within
/// a group the text decides.
pub struct SortKey<S = String> {
    pub front: bool,
    pub text: S,
}

impl View for SortKey<String> {
    type V = SortKey<Seq<char>>;

    open spec fn view(&self) -> SortKey<Seq<char>> {
        SortKey { front: self.front, text: self.text@ }
    }
}

/// The contents of a sequence of keys.
pub open spec fn key_views(v: Seq<SortKey>) -> Seq<SortKey<Seq<char>>> {
    Seq::new(v.len(), |i: int| v[i]@)
}

/// The order of two keys: negative, zero or positive.
pub open spec fn key_order(a: SortKey<Seq<char>>, b: SortKey<Seq<char>>) -> int {
    if a.front && !b.front {
        -1
    } else if !a.front && b.front {
        1
    } else {
        text_order(a.text, b.text)
    }
}

fn order_keys(a: &SortKey, b: &SortKey) -> (r: i32)
    ensures
        r == key_order(a@, b@),
{
    if a.front && !b.front {
        -1
    } else if !a.front && b.front {
        1
    } else {
        order_texts(a.text.as_str(), b.text.as_str())
    }
}

/// Whether item `i` is sorted before item `j`: by their keys, or by their
/// places where the keys are equal.
pub open spec fn precedes(keys: Seq<SortKey<Seq<char>>>, i: int, j: int) -> bool {
    let o = key_order(keys[i], keys[j]);
    o < 0 || (o == 0 && i < j)
}

/// Whether `places` lists the first `n` items in their order, each once.
pub open spec fn is_order_of(keys: Seq<SortKey<Seq<char>>>, n: int, places: Seq<usize>) -> bool {
    &&& places.len() == n
    &&& forall|a: int| 0 <= a < n ==> (#[trigger] places[a]) < n
    &&& forall|a: int, b: int|
        0 <= a < b < n ==> #[trigger] precedes(keys, places[a] as int, places[b] as int)
}

proof fn lemma_precedes_chains(keys: Seq<SortKey<Seq<char>>>, i: int, j: int, k: int)
    requires
        precedes(keys, i, j),
        precedes(keys, j, k),
    ensures
        precedes(keys, i, k),
{
    if keys[i].front == keys[j].front && keys[j].front == keys[k].front {
        law_text_order_chains(keys[i].text, keys[j].text, keys[k].text);
    }
}

/// The places of the items in their order.
pub fn sorted_places(keys: &Vec<SortKey>) -> (places: Vec<usize>)
    ensures
        is_order_of(key_views(keys@), keys@.len() as int, places@),
{
    let n: usize = keys.len();
    let mut places: Vec<usize> = Vec::new();
    let mut i: usize = 0;
    let ghost ks = key_views(keys@);
    while i < n
        invariant
            i <= n,
            n == keys@.len(),
            ks == key_views(keys@),
            is_order_of(ks, i as int, places@),
        decreases n - i,
    {
        let mut at: usize = i;
        while at > 0 && order_keys(&keys[places[at - 1]], &keys[i]) > 0
            invariant
                i < n,
                n == keys@.len(),
                at <= i,
                ks == key_views(keys@),
                is_order_of(ks, i as int, places@),
                forall|a: int| at <= a < i ==> precedes(ks, i as int, #[trigger] places@[a] as int),
            decreases at,
        {
            proof {
                law_text_order(ks[places@[at - 1] as int].text, ks[i as int].text);
            }
            at = at - 1;
        }
        proof {
            if at > 0 {
                assert(precedes(ks, places@[at - 1] as int, i as int));
            }
            assert forall|a: int| 0 <= a < at implies precedes(
                ks,
                #[trigger] places@[a] as int,
                i as int,
            ) by {
                if a < at - 1 {
                    lemma_precedes_chains(
                        ks,
                        places@[a] as int,
                        places@[at - 1] as int,
                        i as int,
                    );
                }
            }
        }
        let ghost prior = places@;
        places.insert(at, i);
        assert(is_order_of(ks, i + 1, places@)) by {
            let now = places@;
            assert forall|a: int, b: int| 0 <= a < b < i + 1 implies #[trigger] precedes(
                ks,
                now[a] as int,
                now[b] as int,
            ) by {
                let a0 = if a < at {
                    a
                } else {
                    a - 1
                };
                let b0 = if b < at {
                    b
                } else {
                    b - 1
                };
                if a != at && b != at {
                    assert(now[a] == prior[a0]);
                    assert(now[b] == prior[b0]);
                    assert(precedes(ks, prior[a0] as int, prior[b0] as int));
                }
            }
        }
        i = i + 1;
    }
    places
}

/// Whether texts stand in order.
pub open spec fn in_order(v: Seq<Seq<char>>) -> bool {
    forall|a: int, b: int|
        0 <= a < b < v.len() ==> text_order(#[trigger] v[a], #[trigger] v[b]) <= 0
}

proof fn lemma_insert_multiset(s: Seq<Seq<char>>, at: int, x: Seq<char>)
    requires
        0 <= at <= s.len(),
    ensures
        s.insert(at, x).to_multiset() == s.to_multiset().insert(x),
{
    let t = s.insert(at, x);
    assert(t.remove(at) =~= s);
    assert(t[at] == x);
    assert(t.contains(x));
    t.to_multiset_ensures();
    assert(t.to_multiset() =~= s.to_multiset().insert(x));
}

/// The texts in order.
pub fn sort_strings(v: &Vec<String>) -> (r: Vec<String>)
    ensures
        in_order(text::views(r@)),
        text::views(r@).to_multiset() == text::views(v@).to_multiset(),
{
    let n: usize = v.len();
    let mut r: Vec<String> = Vec::new();
    let mut i: usize = 0;
    let ghost all = text::views(v@);
    assert(text::views(r@) =~= all.take(0));
    while i < n
        invariant
            i <= n,
            n == v@.len(),
            r@.len() == i,
            all == text::views(v@),
            in_order(text::views(r@)),
            text::views(r@).to_multiset() == all.take(i as int).to_multiset(),
        decreases n - i,
    {
        let mut at: usize = i;
        while at > 0 && order_texts(r[at - 1].as_str(), v[i].as_str()) > 0
            invariant
                i < n,
                n == v@.len(),
                at <= i,
                r@.len() == i,
                in_order(text::views(r@)),
                forall|a: int| at <= a < i ==> text_order(v@[i as int]@, #[trigger] r@[a]@) <= 0,
            decreases at,
        {
            proof {
                law_text_order(r@[at - 1]@, v@[i as int]@);
            }
            at = at - 1;
        }
        let ghost prior = text::views(r@);
        let ghost x = v@[i as int]@;
        proof {
            assert forall|a: int| 0 <= a < at implies text_order(#[trigger] prior[a], x) <= 0 by {
                if a < at - 1 {
                    law_text_order_chains(prior[a], prior[at - 1], x);
                }
            }
            assert forall|a: int| at <= a < i implies text_order(x, #[trigger] prior[a]) <= 0 by {
                assert(prior[a] == r@[a]@);
            }
        }
        r.insert(at, v[i].clone());
        proof {
            let now = text::views(r@);
            assert(now =~= prior.insert(at as int, x));
            assert forall|a: int, b: int| 0 <= a < b < now.len() implies text_order(
                #[trigger] now[a],
                #[trigger] now[b],
            ) <= 0 by {
                let a0 = if a < at {
                    a
                } else {
                    a - 1
                };
                let b0 = if b < at {
                    b
                } else {
                    b - 1
                };
                if a != at && b != at {
                    assert(now[a] == prior[a0]);
                    assert(now[b] == prior[b0]);
                } else if a == at {
                    assert(now[b] == prior[b0]);
                } else {
                    assert(now[a] == prior[a0]);
                }
            }
            lemma_insert_multiset(prior, at as int, x);
            assert(all.take(i + 1) =~= all.take(i as int).push(x));
            vstd::seq_lib::to_multiset_build(all.take(i as int), x);
        }
        i = i + 1;
    }
    assert(all.take(n as int) =~= all);
    r
}

} // verus!
