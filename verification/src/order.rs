//! Edit order: shots, clips, and beats are processed sorted by their frame
//! range `(start, end)`, ties kept in declaration order (a stable sort).
use vstd::prelude::*;

use crate::model::FrameRange;

verus! {

broadcast use vstd::seq_lib::group_seq_properties;

/// `lt` is a strict total order on `A`.
pub open spec fn strict_total_order<A>(lt: spec_fn(A, A) -> bool) -> bool {
    &&& forall|x: A| !#[trigger] lt(x, x)
    &&& forall|x: A, y: A, z: A| #[trigger] lt(x, y) && #[trigger] lt(y, z) ==> lt(x, z)
    &&& forall|x: A, y: A| x != y ==> #[trigger] lt(x, y) || lt(y, x)
}

/// `s` is strictly increasing under `lt`.
pub open spec fn increasing<A>(s: Seq<A>, lt: spec_fn(A, A) -> bool) -> bool {
    forall|i: int, j: int| 0 <= i < j < s.len() ==> lt(#[trigger] s[i], #[trigger] s[j])
}

/// Two strictly increasing sequences with the same elements are equal.
pub proof fn lemma_increasing_unique<A>(a: Seq<A>, b: Seq<A>, lt: spec_fn(A, A) -> bool)
    requires
        strict_total_order(lt),
        increasing(a, lt),
        increasing(b, lt),
        forall|x: A| a.contains(x) <==> b.contains(x),
    ensures
        a == b,
    decreases a.len(),
{
    if a.len() == 0 {
        if b.len() > 0 {
            assert(b.contains(b[0]));
        }
        assert(a =~= b);
    } else {
        assert(a.contains(a[0]));
        assert(b.len() > 0);
        assert(b.contains(b[0]));
        let k = choose|k: int| 0 <= k < b.len() && b[k] == a[0];
        let m = choose|m: int| 0 <= m < a.len() && a[m] == b[0];
        if k > 0 {
            assert(lt(b[0], b[k]));
            if m > 0 {
                assert(lt(a[0], a[m]));
                assert(lt(a[0], a[0]));
            }
        }
        assert(a[0] == b[0]);
        let ta = a.drop_first();
        let tb = b.drop_first();
        assert forall|x: A| ta.contains(x) <==> tb.contains(x) by {
            if ta.contains(x) {
                let i = choose|i: int| 0 <= i < ta.len() && ta[i] == x;
                assert(lt(a[0], a[i + 1]));
                assert(a.contains(x));
                let j = choose|j: int| 0 <= j < b.len() && b[j] == x;
                assert(j != 0);
                assert(tb[j - 1] == x);
            }
            if tb.contains(x) {
                let i = choose|i: int| 0 <= i < tb.len() && tb[i] == x;
                assert(lt(b[0], b[i + 1]));
                assert(b.contains(x));
                let j = choose|j: int| 0 <= j < a.len() && a[j] == x;
                assert(j != 0);
                assert(ta[j - 1] == x);
            }
        }
        assert forall|i: int, j: int| 0 <= i < j < ta.len() implies lt(#[trigger] ta[i], #[trigger] ta[j]) by {
            assert(lt(a[i + 1], a[j + 1]));
        }
        assert forall|i: int, j: int| 0 <= i < j < tb.len() implies lt(#[trigger] tb[i], #[trigger] tb[j]) by {
            assert(lt(b[i + 1], b[j + 1]));
        }
        lemma_increasing_unique(ta, tb, lt);
        assert(a =~= seq![a[0]] + ta);
        assert(b =~= seq![b[0]] + tb);
    }
}

/// Sort key of entry `i`: its range, then its declaration index.
pub open spec fn range_key_less(ranges: Seq<FrameRange>, i: usize, j: usize) -> bool {
    let a = ranges[i as int];
    let b = ranges[j as int];
    ||| a.start < b.start
    ||| a.start == b.start && a.end < b.end
    ||| a.start == b.start && a.end == b.end && i < j
}

/// `order` lists every index of `ranges` once, sorted by `(start, end)`,
/// ties in declaration order.
pub open spec fn is_edit_order(order: Seq<usize>, ranges: Seq<FrameRange>) -> bool {
    &&& order.len() == ranges.len()
    &&& forall|i: int| 0 <= i < order.len() ==> #[trigger] order[i] < ranges.len()
    &&& forall|x: usize| x < ranges.len() ==> order.contains(x)
    &&& increasing(order, |i: usize, j: usize| range_key_less(ranges, i, j))
}

/// The edit order of `ranges`.
pub open spec fn edit_order_of(ranges: Seq<FrameRange>) -> Seq<usize> {
    choose|order: Seq<usize>| is_edit_order(order, ranges)
}

proof fn lemma_range_key_order(ranges: Seq<FrameRange>)
    ensures
        strict_total_order(|i: usize, j: usize| range_key_less(ranges, i, j)),
{
}

/// The edit order is unique: any order with the defining properties is
/// `edit_order_of(ranges)`.
pub proof fn lemma_edit_order_unique(order: Seq<usize>, ranges: Seq<FrameRange>)
    requires
        is_edit_order(order, ranges),
    ensures
        edit_order_of(ranges) == order,
{
    let other = edit_order_of(ranges);
    assert(is_edit_order(other, ranges));
    lemma_range_key_order(ranges);
    assert forall|x: usize| other.contains(x) <==> order.contains(x) by {
        if other.contains(x) {
            let i = choose|i: int| 0 <= i < other.len() && other[i] == x;
            assert(other[i] < ranges.len());
        }
        if order.contains(x) {
            let i = choose|i: int| 0 <= i < order.len() && order[i] == x;
            assert(order[i] < ranges.len());
        }
    }
    lemma_increasing_unique(other, order, |i: usize, j: usize| range_key_less(ranges, i, j));
}

pub open spec fn not_after_spec(a: FrameRange, b: FrameRange) -> bool {
    a.start < b.start || (a.start == b.start && a.end <= b.end)
}

/// `a` sorts no later than `b` by `(start, end)`.
fn not_after(a: FrameRange, b: FrameRange) -> (r: bool)
    ensures
        r == not_after_spec(a, b),
{
    a.start < b.start || (a.start == b.start && a.end <= b.end)
}

/// Indices of `ranges` in edit order (a stable sort by `(start, end)`).
pub fn edit_order(ranges: &Vec<FrameRange>) -> (order: Vec<usize>)
    ensures
        is_edit_order(order@, ranges@),
        order@ == edit_order_of(ranges@),
{
    let ghost lt = |i: usize, j: usize| range_key_less(ranges@, i, j);
    let mut order: Vec<usize> = Vec::new();
    let mut k: usize = 0;
    while k < ranges.len()
        invariant
            k <= ranges.len(),
            order.len() == k,
            forall|i: int| 0 <= i < order.len() ==> #[trigger] order@[i] < k,
            forall|x: usize| x < k ==> order@.contains(x),
            increasing(order@, lt),
            lt == |i: usize, j: usize| range_key_less(ranges@, i, j),
        decreases ranges.len() - k,
    {
        let key = ranges[k];
        let mut pos: usize = 0;
        // Every earlier entry sorts before `k` unless its key is larger.
        let mut go = pos < order.len() && not_after(ranges[order[pos]], key);
        while go
            invariant
                k < ranges.len(),
                key == ranges@[k as int],
                pos <= order.len(),
                order.len() == k,
                forall|i: int| 0 <= i < order.len() ==> #[trigger] order@[i] < k,
                go == (pos < order.len() && not_after_spec(ranges@[order@[pos as int] as int], key)),
                forall|j: int| 0 <= j < pos ==> range_key_less(ranges@, #[trigger] order@[j], k),
            decreases order.len() - pos,
        {
            pos = pos + 1;
            go = pos < order.len() && not_after(ranges[order[pos]], key);
        }
        let ghost before = order@;
        proof {
            lemma_range_key_order(ranges@);
            if pos < order.len() {
                assert(range_key_less(ranges@, k, order@[pos as int]));
            }
        }
        order.insert(pos, k);
        let ghost after = order@;
        assert(after =~= before.insert(pos as int, k));
        assert forall|i: int, j: int| 0 <= i < j < after.len() implies lt(#[trigger] after[i], #[trigger] after[j]) by {
            if j < pos {
            } else if j == pos {
                assert(range_key_less(ranges@, before[i], k));
            } else if i < pos {
                assert(after[j] == before[j - 1]);
            } else if i == pos {
                assert(after[j] == before[j - 1]);
                if j - 1 > pos {
                    assert(lt(before[pos as int], before[j - 1]));
                }
            } else {
                assert(after[i] == before[i - 1]);
                assert(after[j] == before[j - 1]);
            }
        }
        assert forall|x: usize| x < k + 1 implies after.contains(x) by {
            if x == k {
                assert(after[pos as int] == k);
            } else {
                assert(before.contains(x));
                let w = choose|w: int| 0 <= w < before.len() && before[w] == x;
                if w < pos {
                    assert(after[w] == x);
                } else {
                    assert(after[w + 1] == x);
                }
            }
        }
        assert forall|i: int| 0 <= i < after.len() implies #[trigger] after[i] < k + 1 by {
            if i < pos {
                assert(after[i] == before[i]);
            } else if i > pos {
                assert(after[i] == before[i - 1]);
            }
        }
        k = k + 1;
    }
    proof {
        lemma_edit_order_unique(order@, ranges@);
    }
    order
}

} // verus!
