//! Deterministic ordering for rendering: stable insertion sort of node
//! entries by node name and of pod lists by pod name, both in lexicographic
//! order.  The executable sorts are pinned to spec-level insertion sorts, so
//! the rendered output is an exact function of the snapshot.

use vstd::prelude::*;

use crate::models::NodeEntry;
use crate::models::NodeView;
use crate::models::Pods;
use crate::models::PodView;
use crate::models::nodes_views;
use crate::models::pods_views;
use crate::text::lex_lt;
use crate::text::lemma_lex_leq_transitive;
use crate::text::lemma_lex_lt_asymmetric;
use crate::text::str_eq;
use crate::text::str_lex_lt;

verus! {

/// The pods of `pods` whose namespace is exactly `ns`, in order.
pub open spec fn spec_matching_pods(pods: Seq<PodView>, ns: Seq<char>) -> Seq<PodView>
    decreases pods.len(),
{
    if pods.len() == 0 {
        Seq::empty()
    } else {
        spec_matching_pods(pods.drop_last(), ns) + if pods.last().namespace == ns {
            seq![pods.last()]
        } else {
            Seq::empty()
        }
    }
}

/// `x` inserted into the sorted sequence `s`, after every element whose name
/// does not come strictly later — the stable insertion step.
pub open spec fn spec_insert_pod(s: Seq<PodView>, x: PodView) -> Seq<PodView>
    decreases s.len(),
{
    if s.len() == 0 {
        seq![x]
    } else if lex_lt(x.name, s.last().name) {
        spec_insert_pod(s.drop_last(), x).push(s.last())
    } else {
        s.push(x)
    }
}

/// Stable insertion sort of pods by name.
pub open spec fn spec_sort_pods(s: Seq<PodView>) -> Seq<PodView>
    decreases s.len(),
{
    if s.len() == 0 {
        Seq::empty()
    } else {
        spec_insert_pod(spec_sort_pods(s.drop_last()), s.last())
    }
}

/// `x` inserted into the sorted node sequence `s`, after every entry whose
/// name does not come strictly later.
pub open spec fn spec_insert_node(s: Seq<NodeView>, x: NodeView) -> Seq<NodeView>
    decreases s.len(),
{
    if s.len() == 0 {
        seq![x]
    } else if lex_lt(x.name, s.last().name) {
        spec_insert_node(s.drop_last(), x).push(s.last())
    } else {
        s.push(x)
    }
}

/// Stable insertion sort of node entries by name.
pub open spec fn spec_sort_nodes(s: Seq<NodeView>) -> Seq<NodeView>
    decreases s.len(),
{
    if s.len() == 0 {
        Seq::empty()
    } else {
        spec_insert_node(spec_sort_nodes(s.drop_last()), s.last())
    }
}

/// Total number of namespace-matching pods over a node list.
pub open spec fn spec_matching_total(nodes: Seq<NodeView>, ns: Seq<char>) -> nat
    decreases nodes.len(),
{
    if nodes.len() == 0 {
        0
    } else {
        spec_matching_total(nodes.drop_last(), ns) + spec_matching_pods(
            nodes.last().pods,
            ns,
        ).len()
    }
}

/// The insertion step adds exactly the inserted node's matching pods to the
/// total.
proof fn lemma_insert_node_matching_total(s: Seq<NodeView>, x: NodeView, ns: Seq<char>)
    ensures
        spec_matching_total(spec_insert_node(s, x), ns) == spec_matching_total(s, ns)
            + spec_matching_pods(x.pods, ns).len(),
    decreases s.len(),
{
    if s.len() == 0 {
        assert(seq![x].drop_last() =~= Seq::<NodeView>::empty());
        assert(seq![x].last() == x);
        assert(spec_matching_total(Seq::<NodeView>::empty(), ns) == 0);
        assert(spec_matching_total(seq![x], ns) == spec_matching_pods(x.pods, ns).len());
    } else if lex_lt(x.name, s.last().name) {
        lemma_insert_node_matching_total(s.drop_last(), x, ns);
        let t = spec_insert_node(s.drop_last(), x);
        assert(t.push(s.last()).drop_last() =~= t);
        assert(t.push(s.last()).last() == s.last());
        assert(spec_matching_total(t.push(s.last()), ns) == spec_matching_total(t, ns)
            + spec_matching_pods(s.last().pods, ns).len());
        assert(spec_matching_total(s, ns) == spec_matching_total(s.drop_last(), ns)
            + spec_matching_pods(s.last().pods, ns).len());
    } else {
        assert(s.push(x).drop_last() =~= s);
        assert(s.push(x).last() == x);
        assert(spec_matching_total(s.push(x), ns) == spec_matching_total(s, ns)
            + spec_matching_pods(x.pods, ns).len());
    }
}

/// Sorting the nodes leaves the matching-pod total unchanged.
pub proof fn lemma_sort_nodes_matching_total(s: Seq<NodeView>, ns: Seq<char>)
    ensures
        spec_matching_total(spec_sort_nodes(s), ns) == spec_matching_total(s, ns),
    decreases s.len(),
{
    if s.len() > 0 {
        lemma_sort_nodes_matching_total(s.drop_last(), ns);
        lemma_insert_node_matching_total(spec_sort_nodes(s.drop_last()), s.last(), ns);
    }
}

/// The insertion step grows a pod sequence by one.
proof fn lemma_insert_pod_len(s: Seq<PodView>, x: PodView)
    ensures
        spec_insert_pod(s, x).len() == s.len() + 1,
    decreases s.len(),
{
    if s.len() > 0 && lex_lt(x.name, s.last().name) {
        lemma_insert_pod_len(s.drop_last(), x);
    }
}

/// Sorting the pods keeps their number.
pub proof fn lemma_sort_pods_len(s: Seq<PodView>)
    ensures
        spec_sort_pods(s).len() == s.len(),
    decreases s.len(),
{
    if s.len() > 0 {
        lemma_sort_pods_len(s.drop_last());
        lemma_insert_pod_len(spec_sort_pods(s.drop_last()), s.last());
    }
}

/// A pod list in which no pod carries the namespace has no matching pods.
pub proof fn lemma_matching_empty(pods: Seq<PodView>, ns: Seq<char>)
    requires
        forall|j: int| 0 <= j < pods.len() ==> pods[j].namespace != ns,
    ensures
        spec_matching_pods(pods, ns) == Seq::<PodView>::empty(),
    decreases pods.len(),
{
    if pods.len() > 0 {
        assert(forall|j: int|
            0 <= j < pods.drop_last().len() ==> pods.drop_last()[j] == pods[j]);
        lemma_matching_empty(pods.drop_last(), ns);
        assert(spec_matching_pods(pods, ns) =~= Seq::<PodView>::empty());
    }
}

/// The insertion step adds exactly the inserted pod: it is
/// multiset-preserving.
pub proof fn lemma_insert_pod_permutes(s: Seq<PodView>, x: PodView)
    ensures
        spec_insert_pod(s, x).to_multiset() == s.to_multiset().insert(x),
    decreases s.len(),
{
    broadcast use vstd::seq_lib::group_to_multiset_ensures;

    if s.len() == 0 {
        assert(seq![x] =~= Seq::<PodView>::empty().push(x));
    } else if lex_lt(x.name, s.last().name) {
        lemma_insert_pod_permutes(s.drop_last(), x);
        assert(s =~= s.drop_last().push(s.last()));
        assert(s.drop_last().to_multiset().insert(x).insert(s.last())
            =~= s.drop_last().to_multiset().insert(s.last()).insert(x));
    } else {
    }
}

/// Sorting the pods reorders them and nothing else: the sorted sequence is a
/// permutation of the input.
pub proof fn lemma_sort_pods_permutes(s: Seq<PodView>)
    ensures
        spec_sort_pods(s).to_multiset() == s.to_multiset(),
    decreases s.len(),
{
    broadcast use vstd::seq_lib::group_to_multiset_ensures;

    if s.len() > 0 {
        lemma_sort_pods_permutes(s.drop_last());
        lemma_insert_pod_permutes(spec_sort_pods(s.drop_last()), s.last());
        assert(s =~= s.drop_last().push(s.last()));
    }
}

/// The node-entry counterpart of the insertion permutation lemma.
pub proof fn lemma_insert_node_permutes(s: Seq<NodeView>, x: NodeView)
    ensures
        spec_insert_node(s, x).to_multiset() == s.to_multiset().insert(x),
    decreases s.len(),
{
    broadcast use vstd::seq_lib::group_to_multiset_ensures;

    if s.len() == 0 {
        assert(seq![x] =~= Seq::<NodeView>::empty().push(x));
    } else if lex_lt(x.name, s.last().name) {
        lemma_insert_node_permutes(s.drop_last(), x);
        assert(s =~= s.drop_last().push(s.last()));
        assert(s.drop_last().to_multiset().insert(x).insert(s.last())
            =~= s.drop_last().to_multiset().insert(s.last()).insert(x));
    } else {
    }
}

/// Sorting the node entries reorders them and nothing else.
pub proof fn lemma_sort_nodes_permutes(s: Seq<NodeView>)
    ensures
        spec_sort_nodes(s).to_multiset() == s.to_multiset(),
    decreases s.len(),
{
    broadcast use vstd::seq_lib::group_to_multiset_ensures;

    if s.len() > 0 {
        lemma_sort_nodes_permutes(s.drop_last());
        lemma_insert_node_permutes(spec_sort_nodes(s.drop_last()), s.last());
        assert(s =~= s.drop_last().push(s.last()));
    }
}

/// The pods come in name order: no pod comes strictly before an earlier one.
pub open spec fn pods_sorted_by_name(s: Seq<PodView>) -> bool {
    forall|i: int, j: int| 0 <= i < j < s.len() ==> !lex_lt(s[j].name, s[i].name)
}

/// The node entries come in name order.
pub open spec fn nodes_sorted_by_name(s: Seq<NodeView>) -> bool {
    forall|i: int, j: int| 0 <= i < j < s.len() ==> !lex_lt(s[j].name, s[i].name)
}

/// Inserting into a name-sorted pod sequence keeps it name-sorted.
proof fn lemma_insert_pod_sorted(s: Seq<PodView>, x: PodView)
    requires
        pods_sorted_by_name(s),
    ensures
        pods_sorted_by_name(spec_insert_pod(s, x)),
    decreases s.len(),
{
    broadcast use vstd::seq_lib::group_to_multiset_ensures;

    if s.len() == 0 {
    } else if lex_lt(x.name, s.last().name) {
        let rest = s.drop_last();
        assert(forall|i: int, j: int|
            0 <= i < j < rest.len() ==> !lex_lt(#[trigger] rest[j].name, #[trigger] rest[i].name));
        lemma_insert_pod_sorted(rest, x);
        lemma_insert_pod_permutes(rest, x);
        let t = spec_insert_pod(rest, x);
        assert forall|k: int| 0 <= k < t.len() implies !lex_lt(s.last().name, #[trigger] t[k].name) by {
            assert(t.contains(t[k]));
            assert(t.to_multiset().count(t[k]) > 0);
            if t[k] == x {
                lemma_lex_lt_asymmetric(x.name, s.last().name);
            } else {
                assert(rest.to_multiset().count(t[k]) > 0);
                assert(rest.contains(t[k]));
                let i = choose|i: int| 0 <= i < rest.len() && rest[i] == t[k];
                assert(!lex_lt(s.last().name, s[i].name));
            }
        }
        assert forall|i: int, j: int|
            0 <= i < j < spec_insert_pod(s, x).len() implies !lex_lt(
            #[trigger] spec_insert_pod(s, x)[j].name,
            #[trigger] spec_insert_pod(s, x)[i].name,
        ) by {
            if j < t.len() {
                assert(spec_insert_pod(s, x)[i] == t[i]);
                assert(spec_insert_pod(s, x)[j] == t[j]);
            } else {
                assert(spec_insert_pod(s, x)[j] == s.last());
                assert(spec_insert_pod(s, x)[i] == t[i]);
            }
        }
    } else {
        // `x` goes last: everything in `s` is no later than `s.last()`,
        // which is no later than `x`.
        assert forall|i: int| 0 <= i < s.len() implies !lex_lt(x.name, #[trigger] s[i].name) by {
            if i < s.len() - 1 {
                lemma_lex_leq_transitive(s[i].name, s.last().name, x.name);
            }
        }
    }
}

/// Sorting the pods by name yields a name-sorted sequence.
pub proof fn lemma_sort_pods_sorted(s: Seq<PodView>)
    ensures
        pods_sorted_by_name(spec_sort_pods(s)),
    decreases s.len(),
{
    if s.len() > 0 {
        lemma_sort_pods_sorted(s.drop_last());
        lemma_insert_pod_sorted(spec_sort_pods(s.drop_last()), s.last());
    }
}

/// Inserting into a name-sorted node sequence keeps it name-sorted.
proof fn lemma_insert_node_sorted(s: Seq<NodeView>, x: NodeView)
    requires
        nodes_sorted_by_name(s),
    ensures
        nodes_sorted_by_name(spec_insert_node(s, x)),
    decreases s.len(),
{
    broadcast use vstd::seq_lib::group_to_multiset_ensures;

    if s.len() == 0 {
    } else if lex_lt(x.name, s.last().name) {
        let rest = s.drop_last();
        assert(forall|i: int, j: int|
            0 <= i < j < rest.len() ==> !lex_lt(#[trigger] rest[j].name, #[trigger] rest[i].name));
        lemma_insert_node_sorted(rest, x);
        lemma_insert_node_permutes(rest, x);
        let t = spec_insert_node(rest, x);
        assert forall|k: int| 0 <= k < t.len() implies !lex_lt(s.last().name, #[trigger] t[k].name) by {
            assert(t.contains(t[k]));
            assert(t.to_multiset().count(t[k]) > 0);
            if t[k] == x {
                lemma_lex_lt_asymmetric(x.name, s.last().name);
            } else {
                assert(rest.to_multiset().count(t[k]) > 0);
                assert(rest.contains(t[k]));
                let i = choose|i: int| 0 <= i < rest.len() && rest[i] == t[k];
                assert(!lex_lt(s.last().name, s[i].name));
            }
        }
        assert forall|i: int, j: int|
            0 <= i < j < spec_insert_node(s, x).len() implies !lex_lt(
            #[trigger] spec_insert_node(s, x)[j].name,
            #[trigger] spec_insert_node(s, x)[i].name,
        ) by {
            if j < t.len() {
                assert(spec_insert_node(s, x)[i] == t[i]);
                assert(spec_insert_node(s, x)[j] == t[j]);
            } else {
                assert(spec_insert_node(s, x)[j] == s.last());
                assert(spec_insert_node(s, x)[i] == t[i]);
            }
        }
    } else {
        assert forall|i: int| 0 <= i < s.len() implies !lex_lt(x.name, #[trigger] s[i].name) by {
            if i < s.len() - 1 {
                lemma_lex_leq_transitive(s[i].name, s.last().name, x.name);
            }
        }
    }
}

/// Sorting the node entries by name yields a name-sorted sequence.
pub proof fn lemma_sort_nodes_sorted(s: Seq<NodeView>)
    ensures
        nodes_sorted_by_name(spec_sort_nodes(s)),
    decreases s.len(),
{
    if s.len() > 0 {
        lemma_sort_nodes_sorted(s.drop_last());
        lemma_insert_node_sorted(spec_sort_nodes(s.drop_last()), s.last());
    }
}

/// Inserting at the position the scan finds is exactly the spec-level
/// insertion: everything from `j` on comes strictly later than `x`, and the
/// element before `j` (if any) does not.
proof fn lemma_insert_pod_at(s: Seq<PodView>, x: PodView, j: int)
    requires
        0 <= j <= s.len(),
        forall|k: int| j <= k < s.len() ==> lex_lt(x.name, s[k].name),
        j > 0 ==> !lex_lt(x.name, s[j - 1].name),
    ensures
        spec_insert_pod(s, x) == s.insert(j, x),
    decreases s.len(),
{
    if j == s.len() {
        if s.len() == 0 {
            assert(spec_insert_pod(s, x) =~= s.insert(j, x));
        } else {
            assert(!lex_lt(x.name, s.last().name));
            assert(spec_insert_pod(s, x) == s.push(x));
            assert(s.push(x) =~= s.insert(j, x));
        }
    } else {
        assert(lex_lt(x.name, s.last().name));
        lemma_insert_pod_at(s.drop_last(), x, j);
        assert(s.drop_last().insert(j, x).push(s.last()) =~= s.insert(j, x));
    }
}

/// The node-entry counterpart of the insertion-position lemma.
proof fn lemma_insert_node_at(s: Seq<NodeView>, x: NodeView, j: int)
    requires
        0 <= j <= s.len(),
        forall|k: int| j <= k < s.len() ==> lex_lt(x.name, s[k].name),
        j > 0 ==> !lex_lt(x.name, s[j - 1].name),
    ensures
        spec_insert_node(s, x) == s.insert(j, x),
    decreases s.len(),
{
    if j == s.len() {
        if s.len() == 0 {
            assert(spec_insert_node(s, x) =~= s.insert(j, x));
        } else {
            assert(!lex_lt(x.name, s.last().name));
            assert(spec_insert_node(s, x) == s.push(x));
            assert(s.push(x) =~= s.insert(j, x));
        }
    } else {
        assert(lex_lt(x.name, s.last().name));
        lemma_insert_node_at(s.drop_last(), x, j);
        assert(s.drop_last().insert(j, x).push(s.last()) =~= s.insert(j, x));
    }
}

/// The position after the last element of `out` whose name does not come
/// strictly later than `name`.
fn pod_insertion_point(out: &Vec<Pods>, name: &str) -> (j: usize)
    ensures
        j <= out@.len(),
        forall|k: int| j <= k < out@.len() ==> lex_lt(name@, out@[k]@.name),
        j > 0 ==> !lex_lt(name@, out@[j - 1]@.name),
{
    let mut j = out.len();
    while j > 0
        invariant
            j <= out@.len(),
            forall|k: int| j <= k < out@.len() ==> lex_lt(name@, out@[k]@.name),
        decreases j,
    {
        if !str_lex_lt(name, out[j - 1].name.as_str()) {
            return j;
        }
        j -= 1;
    }
    j
}

/// The node-entry counterpart of the insertion-position scan.
fn node_insertion_point(out: &Vec<NodeEntry>, name: &str) -> (j: usize)
    ensures
        j <= out@.len(),
        forall|k: int| j <= k < out@.len() ==> lex_lt(name@, out@[k]@.name),
        j > 0 ==> !lex_lt(name@, out@[j - 1]@.name),
{
    let mut j = out.len();
    while j > 0
        invariant
            j <= out@.len(),
            forall|k: int| j <= k < out@.len() ==> lex_lt(name@, out@[k]@.name),
        decreases j,
    {
        if !str_lex_lt(name, out[j - 1].name.as_str()) {
            return j;
        }
        j -= 1;
    }
    j
}

/// The pods of namespace `namespace`, sorted stably by name.
pub fn filter_sort_pods(pods: &Vec<Pods>, namespace: &str) -> (r: Vec<Pods>)
    ensures
        pods_views(r@) == spec_sort_pods(spec_matching_pods(pods_views(pods@), namespace@)),
{
    let ghost all = pods_views(pods@);
    let mut out: Vec<Pods> = Vec::new();
    let mut i: usize = 0;
    proof {
        assert(all.take(0) =~= Seq::<PodView>::empty());
        assert(pods_views(out@) =~= Seq::<PodView>::empty());
    }
    while i < pods.len()
        invariant
            i <= pods.len(),
            all == pods_views(pods@),
            all.len() == pods.len(),
            pods_views(out@) == spec_sort_pods(spec_matching_pods(all.take(i as int), namespace@)),
        decreases pods.len() - i,
    {
        proof {
            assert(all.take(i as int + 1).drop_last() =~= all.take(i as int));
            assert(all.take(i as int + 1).last() == all[i as int]);
            assert(all[i as int] == pods@[i as int]@);
        }
        let ghost m1 = spec_matching_pods(all.take(i as int), namespace@);
        let ghost m2 = spec_matching_pods(all.take(i as int + 1), namespace@);
        if str_eq(pods[i].namespace.as_str(), namespace) {
            let x = pods[i].duplicate();
            let ghost sorted_prev = pods_views(out@);
            let j = pod_insertion_point(&out, x.name.as_str());
            let ghost prev_vec = out@;
            out.insert(j, x);
            proof {
                lemma_insert_pod_at(sorted_prev, x@, j as int);
                assert(pods_views(out@) =~= sorted_prev.insert(j as int, x@));
                assert(m2 =~= m1.push(x@));
                assert(m2.drop_last() =~= m1);
                assert(spec_sort_pods(m2) == spec_insert_pod(spec_sort_pods(m1), x@));
            }
        } else {
            proof {
                assert(m2 =~= m1);
            }
        }
        i += 1;
    }
    proof {
        assert(all.take(pods.len() as int) =~= all);
    }
    out
}

/// A copy of the node entries, sorted stably by node name.
pub fn sorted_nodes(nodes: &Vec<NodeEntry>) -> (r: Vec<NodeEntry>)
    ensures
        nodes_views(r@) == spec_sort_nodes(nodes_views(nodes@)),
{
    let ghost all = nodes_views(nodes@);
    let mut out: Vec<NodeEntry> = Vec::new();
    let mut i: usize = 0;
    proof {
        assert(all.take(0) =~= Seq::<NodeView>::empty());
        assert(nodes_views(out@) =~= Seq::<NodeView>::empty());
    }
    while i < nodes.len()
        invariant
            i <= nodes.len(),
            all == nodes_views(nodes@),
            all.len() == nodes.len(),
            nodes_views(out@) == spec_sort_nodes(all.take(i as int)),
        decreases nodes.len() - i,
    {
        proof {
            assert(all.take(i as int + 1).drop_last() =~= all.take(i as int));
            assert(all.take(i as int + 1).last() == all[i as int]);
            assert(all[i as int] == nodes@[i as int]@);
        }
        let x = nodes[i].duplicate();
        let ghost sorted_prev = nodes_views(out@);
        let j = node_insertion_point(&out, x.name.as_str());
        let ghost prev_vec = out@;
        out.insert(j, x);
        proof {
            lemma_insert_node_at(sorted_prev, x@, j as int);
            assert(nodes_views(out@) =~= sorted_prev.insert(j as int, x@));
        }
        i += 1;
    }
    proof {
        assert(all.take(nodes.len() as int) =~= all);
    }
    out
}

} // verus!
