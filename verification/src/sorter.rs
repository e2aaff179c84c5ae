use vstd::prelude::*;

use crate::types::Edge;

verus! {

/// The sorter's comparator as a non-strict order: earlier ticks first; at
/// equal ticks, releases before presses.  Edges equal in `(tick, is_press)`
/// compare equal both ways, so their relative order is the input's.
pub open spec fn edge_le(a: Edge, b: Edge) -> bool {
    a.tick < b.tick || (a.tick == b.tick && (!a.is_press || b.is_press))
}

/// The strict part of the comparator: `a` must come before `b`.
pub open spec fn edge_lt(a: Edge, b: Edge) -> bool {
    a.tick < b.tick || (a.tick == b.tick && !a.is_press && b.is_press)
}

/// An edge sequence in the sorter's order.
pub open spec fn sorted_edges(s: Seq<Edge>) -> bool {
    forall|i: int, j: int| 0 <= i < j < s.len() ==> edge_le(s[i], s[j])
}

/// Insert `e` into `s` just before the first entry that does not compare
/// strictly below it, so that entries equal to `e` in the comparator keep
/// their place in front of it.
pub open spec fn spec_insert(e: Edge, s: Seq<Edge>) -> Seq<Edge>
    decreases s.len(),
{
    if s.len() == 0 {
        seq![e]
    } else if edge_lt(s[0], e) {
        seq![s[0]] + spec_insert(e, s.drop_first())
    } else {
        seq![e] + s
    }
}

/// Stable insertion sort under the edge comparator.  This is the one total
/// order the library commits to where the comparator leaves ties open.
pub open spec fn spec_sort(s: Seq<Edge>) -> Seq<Edge>
    decreases s.len(),
{
    if s.len() == 0 {
        Seq::empty()
    } else {
        spec_insert(s[0], spec_sort(s.drop_first()))
    }
}

proof fn lemma_spec_insert(e: Edge, s: Seq<Edge>)
    ensures
        spec_insert(e, s).len() == s.len() + 1,
        spec_insert(e, s).to_multiset() == s.to_multiset().insert(e),
        forall|k: int|
            0 <= k < spec_insert(e, s).len() ==> (spec_insert(e, s)[k] == e || s.contains(
                #[trigger] spec_insert(e, s)[k],
            )),
        sorted_edges(s) ==> sorted_edges(spec_insert(e, s)),
    decreases s.len(),
{
    broadcast use vstd::seq_lib::group_seq_properties;

    if s.len() == 0 {
        assert(seq![e].to_multiset() =~= s.to_multiset().insert(e)) by {
            assert(seq![e] =~= s.push(e));
        }
    } else if edge_lt(s[0], e) {
        let rest = s.drop_first();
        lemma_spec_insert(e, rest);
        let r = spec_insert(e, s);
        assert(r =~= seq![s[0]] + spec_insert(e, rest));
        assert(r.to_multiset() == s.to_multiset().insert(e)) by {
            assert(seq![s[0]] + spec_insert(e, rest) =~= spec_insert(e, rest).insert(0, s[0]));
            assert(s =~= rest.insert(0, s[0]));
        }
        assert(forall|k: int| 0 <= k < r.len() ==> (r[k] == e || s.contains(#[trigger] r[k]))) by {
            assert(forall|k: int|
                1 <= k < r.len() ==> r[k] == spec_insert(e, rest)[k - 1]);
            assert(forall|x: Edge| rest.contains(x) ==> s.contains(x));
            assert(s.contains(s[0]));
        }
        if sorted_edges(s) {
            assert(sorted_edges(rest));
            assert(sorted_edges(r)) by {
                assert(forall|j: int|
                    0 < j < r.len() ==> (#[trigger] r[j] == e || rest.contains(r[j])));
                assert(forall|x: Edge| rest.contains(x) ==> edge_le(s[0], x));
                assert(edge_le(s[0], e));
            }
        }
    } else {
        let r = spec_insert(e, s);
        assert(r =~= seq![e] + s);
        assert(r.to_multiset() == s.to_multiset().insert(e)) by {
            assert(seq![e] + s =~= s.insert(0, e));
        }
        if sorted_edges(s) {
            assert(sorted_edges(r)) by {
                assert(!edge_lt(s[0], e));
                assert(forall|j: int| 1 <= j < r.len() ==> r[j] == s[j - 1]);
                assert(forall|j: int| 1 <= j < s.len() ==> edge_le(s[0], #[trigger] s[j]));
            }
        }
    }
}

/// What the sorter promises of its chosen order: the result is sorted under
/// the edge comparator and is a permutation of the input.
pub proof fn lemma_spec_sort(s: Seq<Edge>)
    ensures
        spec_sort(s).len() == s.len(),
        spec_sort(s).to_multiset() == s.to_multiset(),
        sorted_edges(spec_sort(s)),
    decreases s.len(),
{
    broadcast use vstd::seq_lib::group_seq_properties;

    if s.len() > 0 {
        let rest = s.drop_first();
        lemma_spec_sort(rest);
        lemma_spec_insert(s[0], spec_sort(rest));
        assert(s =~= rest.insert(0, s[0]));
    }
}

fn edge_before(a: &Edge, b: &Edge) -> (r: bool)
    ensures
        r == edge_lt(*a, *b),
{
    a.tick < b.tick || (a.tick == b.tick && !a.is_press && b.is_press)
}

proof fn lemma_insert_at(e: Edge, s: Seq<Edge>, i: int)
    requires
        0 <= i <= s.len(),
        forall|k: int| 0 <= k < i ==> edge_lt(#[trigger] s[k], e),
        i < s.len() ==> !edge_lt(s[i], e),
    ensures
        spec_insert(e, s) == s.take(i) + seq![e] + s.skip(i),
    decreases i,
{
    if i == 0 {
        if s.len() == 0 {
            assert(s.take(0) + seq![e] + s.skip(0) =~= seq![e]);
        } else {
            assert(s.take(0) + seq![e] + s.skip(0) =~= seq![e] + s);
        }
    } else {
        let rest = s.drop_first();
        assert(forall|k: int| 0 <= k < i - 1 ==> edge_lt(#[trigger] rest[k], e)) by {
            assert(forall|k: int| 0 <= k < i - 1 ==> rest[k] == s[k + 1]);
        }
        lemma_insert_at(e, rest, i - 1);
        assert(seq![s[0]] + (rest.take(i - 1) + seq![e] + rest.skip(i - 1)) =~= s.take(i) + seq![e]
            + s.skip(i));
    }
}

fn insert_edge(out: &mut Vec<Edge>, edge: Edge)
    ensures
        final(out)@ == spec_insert(edge, old(out)@),
{
    let ghost s = out@;
    let mut i: usize = 0;
    while i < out.len() && edge_before(&out[i], &edge)
        invariant
            out@ == s,
            i <= s.len(),
            forall|k: int| 0 <= k < i ==> edge_lt(#[trigger] s[k], edge),
        decreases s.len() - i,
    {
        i = i + 1;
    }
    out.insert(i, edge);
    proof {
        lemma_insert_at(edge, s, i as int);
        assert(out@ =~= s.take(i as int) + seq![edge] + s.skip(i as int)) by {
            assert(out@ == s.insert(i as int, edge));
            assert(s.insert(i as int, edge) =~= s.take(i as int) + seq![edge] + s.skip(i as int));
        }
    }
}

/// Impose the sorter's total order over the note edges: lower ticks first,
/// and at equal ticks releases before presses.
pub fn sort_edges(edges: &Vec<Edge>) -> (r: Vec<Edge>)
    ensures
        r@ == spec_sort(edges@),
{
    let mut out: Vec<Edge> = Vec::new();
    let mut i: usize = edges.len();
    while i > 0
        invariant
            i <= edges@.len(),
            out@ == spec_sort(edges@.skip(i as int)),
        decreases i,
    {
        i = i - 1;
        insert_edge(&mut out, edges[i]);
        proof {
            let tail = edges@.skip(i as int);
            assert(tail.len() > 0);
            assert(tail[0] == edges@[i as int]);
            assert(tail.drop_first() =~= edges@.skip(i as int + 1));
        }
    }
    proof {
        assert(edges@.skip(0) =~= edges@);
    }
    out
}

}
