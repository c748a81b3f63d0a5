//! Health aggregation: classifies every pod of a snapshot against a closed
//! allow-list and produces a cluster-wide verdict with supporting counts and
//! the standing status line.

use vstd::prelude::*;

use crate::models::NodeView;
use crate::models::Payload;
use crate::models::PodView;
use crate::text::spec_decimal;
use crate::text::spec_joined;
use crate::text::strings_view;
use crate::text::decimal_string;
use crate::text::join_comma;
use crate::text::str_eq;

verus! {

/// A pod is healthy iff its status string is exactly one of the closed
/// allow-list; every other status — unknown, empty, newly invented — counts
/// as unhealthy, so the classification fails safe.
pub open spec fn spec_is_healthy(status: Seq<char>) -> bool {
    status == "Running"@ || status == "Succeeded"@ || status == "Completed"@
}

/// Health test for one status string.
pub fn is_healthy(status: &str) -> (r: bool)
    ensures
        r == spec_is_healthy(status@),
{
    str_eq(status, "Running") || str_eq(status, "Succeeded") || str_eq(status, "Completed")
}

/// The unhealthy pods of one node's pod list, in order.
pub open spec fn spec_unhealthy_in(pods: Seq<PodView>) -> Seq<PodView>
    decreases pods.len(),
{
    if pods.len() == 0 {
        Seq::empty()
    } else {
        spec_unhealthy_in(pods.drop_last()) + if !spec_is_healthy(pods.last().status) {
            seq![pods.last()]
        } else {
            Seq::empty()
        }
    }
}

/// All unhealthy pods of a snapshot, node by node in order.
pub open spec fn spec_unhealthy_pods(nodes: Seq<NodeView>) -> Seq<PodView>
    decreases nodes.len(),
{
    if nodes.len() == 0 {
        Seq::empty()
    } else {
        spec_unhealthy_pods(nodes.drop_last()) + spec_unhealthy_in(nodes.last().pods)
    }
}

/// Total number of pods of a snapshot, over all nodes.
pub open spec fn spec_total_pods(nodes: Seq<NodeView>) -> nat
    decreases nodes.len(),
{
    if nodes.len() == 0 {
        0
    } else {
        spec_total_pods(nodes.drop_last()) + nodes.last().pods.len()
    }
}

/// The namespaces of the given pods, one entry per pod.
pub open spec fn spec_namespaces_of(pods: Seq<PodView>) -> Seq<Seq<char>> {
    pods.map_values(|p: PodView| p.namespace)
}

/// The items with duplicates removed, keeping each first occurrence.
pub open spec fn spec_dedup(items: Seq<Seq<char>>) -> Seq<Seq<char>>
    decreases items.len(),
{
    if items.len() == 0 {
        Seq::empty()
    } else {
        let rest = spec_dedup(items.drop_last());
        if rest.contains(items.last()) {
            rest
        } else {
            rest.push(items.last())
        }
    }
}

/// A count capped at what a machine word can hold.
pub open spec fn spec_clamp_usize(n: nat) -> nat {
    if n > usize::MAX as nat {
        usize::MAX as nat
    } else {
        n
    }
}

/// The single summary value shown to the operator.
#[derive(Clone, Copy, PartialEq, Eq, Structural, Debug)]
pub enum Verdict {
    Okay,
    Bad,
}

/// The cluster-wide health summary of one snapshot.
pub struct ClusterStatus {
    /// How many pods are unhealthy, over all nodes.
    pub unhealthy_count: usize,
    /// The distinct namespaces holding at least one unhealthy pod, in first
    /// occurrence order.
    pub unhealthy_namespaces: Vec<String>,
    /// Total number of pods (capped at the machine word, which real
    /// snapshots never reach).
    pub total_pods: usize,
    /// Number of worker nodes.
    pub node_count: usize,
    pub verdict: Verdict,
}

/// The text of the verdict.
pub open spec fn spec_verdict_text(unhealthy: nat) -> Seq<char> {
    if unhealthy == 0 {
        "OK"@
    } else {
        "BAD"@
    }
}

/// The standing status line: a header row and one data row, tab-separated.
pub open spec fn spec_status_text(host: Seq<char>, nodes: Seq<NodeView>) -> Seq<char> {
    let bad = spec_unhealthy_pods(nodes);
    "cluster\t#unhealthy pods\t...in namespaces\ttotal pods\t#worker nodes\toverall status\n"@
        + host + "\t"@ + spec_decimal(bad.len()) + "\t"@ + spec_joined(
        spec_dedup(spec_namespaces_of(bad)),
    ) + "\t"@ + spec_decimal(spec_clamp_usize(spec_total_pods(nodes))) + "\t"@ + spec_decimal(
        nodes.len(),
    ) + "\t"@ + spec_verdict_text(bad.len()) + "\n"@
}

/// Membership test on a list of owned strings, by contents.
pub fn contains_string(items: &Vec<String>, needle: &str) -> (r: bool)
    ensures
        r == strings_view(items@).contains(needle@),
{
    let mut i: usize = 0;
    while i < items.len()
        invariant
            i <= items.len(),
            forall|k: int| 0 <= k < i ==> strings_view(items@)[k] != needle@,
        decreases items.len() - i,
    {
        if str_eq(items[i].as_str(), needle) {
            proof {
                assert(strings_view(items@)[i as int] == needle@);
            }
            return true;
        }
        i += 1;
    }
    false
}

/// The strings with duplicates removed, keeping each first occurrence.
pub fn dedup_strings(items: &Vec<String>) -> (r: Vec<String>)
    ensures
        strings_view(r@) == spec_dedup(strings_view(items@)),
{
    let mut r: Vec<String> = Vec::new();
    let mut i: usize = 0;
    while i < items.len()
        invariant
            i <= items.len(),
            strings_view(r@) == spec_dedup(strings_view(items@).take(i as int)),
        decreases items.len() - i,
    {
        proof {
            assert(strings_view(items@).take(i as int + 1).drop_last() =~= strings_view(
                items@,
            ).take(i as int));
            assert(strings_view(items@).take(i as int + 1).last() == strings_view(items@)[i as int]);
        }
        if !contains_string(&r, items[i].as_str()) {
            let ghost prev = r@;
            r.push(items[i].clone());
            proof {
                assert(strings_view(r@) =~= strings_view(prev).push(items@[i as int]@));
            }
        }
        i += 1;
    }
    proof {
        assert(strings_view(items@).take(items@.len() as int) =~= strings_view(items@));
    }
    r
}

/// Classifies every pod of the snapshot and renders the standing status
/// line.  The verdict is `Bad` iff at least one pod's status lies outside
/// the healthy allow-list; the namespace list holds exactly the distinct
/// namespaces of the unhealthy pods.
pub fn check_cluster_status(host: &String, payload: &Payload) -> (r: (ClusterStatus, String))
    ensures
        r.0.unhealthy_count == spec_unhealthy_pods(payload@.nodes).len(),
        strings_view(r.0.unhealthy_namespaces@) == spec_dedup(
            spec_namespaces_of(spec_unhealthy_pods(payload@.nodes)),
        ),
        r.0.total_pods as nat == spec_clamp_usize(spec_total_pods(payload@.nodes)),
        r.0.node_count == payload@.nodes.len(),
        r.0.verdict == (if spec_unhealthy_pods(payload@.nodes).len() == 0 {
            Verdict::Okay
        } else {
            Verdict::Bad
        }),
        r.1@ == spec_status_text(host@, payload@.nodes),
{
    let ghost all_nodes = payload@.nodes;
    let mut bad_namespaces: Vec<String> = Vec::new();
    let mut total: usize = 0;
    let mut i: usize = 0;
    while i < payload.nodes.len()
        invariant
            i <= payload.nodes.len(),
            all_nodes == payload@.nodes,
            all_nodes.len() == payload.nodes.len(),
            strings_view(bad_namespaces@) == spec_namespaces_of(
                spec_unhealthy_pods(all_nodes.take(i as int)),
            ),
            total as nat == spec_clamp_usize(spec_total_pods(all_nodes.take(i as int))),
        decreases payload.nodes.len() - i,
    {
        let node = &payload.nodes[i];
        proof {
            assert(all_nodes.take(i as int + 1).drop_last() =~= all_nodes.take(i as int));
            assert(all_nodes.take(i as int + 1).last() == all_nodes[i as int]);
            assert(all_nodes[i as int] == node@);
        }
        total = total.saturating_add(node.pods.len());
        let mut j: usize = 0;
        while j < node.pods.len()
            invariant
                j <= node.pods.len(),
                node@ == all_nodes[i as int],
                node@.pods.len() == node.pods.len(),
                strings_view(bad_namespaces@) == spec_namespaces_of(
                    spec_unhealthy_pods(all_nodes.take(i as int)) + spec_unhealthy_in(
                        node@.pods.take(j as int),
                    ),
                ),
            decreases node.pods.len() - j,
        {
            proof {
                assert(node@.pods.take(j as int + 1).drop_last() =~= node@.pods.take(j as int));
                assert(node@.pods.take(j as int + 1).last() == node@.pods[j as int]);
                assert(node@.pods[j as int] == node.pods@[j as int]@);
            }
            let ghost prev = bad_namespaces@;
            if !is_healthy(node.pods[j].status.as_str()) {
                bad_namespaces.push(node.pods[j].namespace.clone());
            }
            proof {
                let before = spec_unhealthy_pods(all_nodes.take(i as int)) + spec_unhealthy_in(
                    node@.pods.take(j as int),
                );
                let after = spec_unhealthy_pods(all_nodes.take(i as int)) + spec_unhealthy_in(
                    node@.pods.take(j as int + 1),
                );
                if spec_is_healthy(node@.pods[j as int].status) {
                    assert(after =~= before);
                    assert(spec_namespaces_of(after) =~= spec_namespaces_of(before));
                } else {
                    assert(after =~= before.push(node@.pods[j as int]));
                    assert(spec_namespaces_of(after) =~= spec_namespaces_of(before).push(
                        node@.pods[j as int].namespace,
                    ));
                    assert(strings_view(bad_namespaces@) =~= strings_view(prev).push(
                        node@.pods[j as int].namespace,
                    ));
                }
            }
            j += 1;
        }
        proof {
            assert(node@.pods.take(node@.pods.len() as int) =~= node@.pods);
            assert(spec_unhealthy_pods(all_nodes.take(i as int + 1)) == spec_unhealthy_pods(
                all_nodes.take(i as int),
            ) + spec_unhealthy_in(node@.pods));
        }
        i += 1;
    }
    proof {
        assert(all_nodes.take(all_nodes.len() as int) =~= all_nodes);
    }
    let unhealthy_count = bad_namespaces.len();
    let deduped = dedup_strings(&bad_namespaces);
    let verdict = if unhealthy_count == 0 {
        Verdict::Okay
    } else {
        Verdict::Bad
    };
    let mut line = String::from_str(
        "cluster\t#unhealthy pods\t...in namespaces\ttotal pods\t#worker nodes\toverall status\n",
    );
    line.append(host.as_str());
    line.append("\t");
    let count_text = decimal_string(unhealthy_count as u64);
    line.append(count_text.as_str());
    line.append("\t");
    let joined = join_comma(&deduped);
    line.append(joined.as_str());
    line.append("\t");
    let total_text = decimal_string(total as u64);
    line.append(total_text.as_str());
    line.append("\t");
    let node_count = payload.nodes.len();
    let node_count_text = decimal_string(node_count as u64);
    line.append(node_count_text.as_str());
    line.append("\t");
    if unhealthy_count == 0 {
        line.append("OK");
    } else {
        line.append("BAD");
    }
    line.append("\n");
    proof {
        assert(line@ =~= spec_status_text(host@, payload@.nodes));
    }
    let status = ClusterStatus {
        unhealthy_count,
        unhealthy_namespaces: deduped,
        total_pods: total,
        node_count,
        verdict,
    };
    (status, line)
}

/// Some pod of the snapshot is unhealthy exactly when the unhealthy list is
/// non-empty — so the verdict is `BAD` iff at least one pod's status lies
/// outside the healthy allow-list.
pub proof fn lemma_unhealthy_iff_some_pod_unhealthy(nodes: Seq<NodeView>)
    ensures
        spec_unhealthy_pods(nodes).len() > 0 <==> exists|i: int, j: int|
            0 <= i < nodes.len() && 0 <= j < nodes[i].pods.len() && !spec_is_healthy(
                nodes[i].pods[j].status,
            ),
    decreases nodes.len(),
{
    if nodes.len() == 0 {
    } else {
        let rest = nodes.drop_last();
        lemma_unhealthy_iff_some_pod_unhealthy(rest);
        lemma_unhealthy_in_iff(nodes.last().pods);
        if spec_unhealthy_pods(nodes).len() > 0 {
            if spec_unhealthy_pods(rest).len() > 0 {
                let (i, j) = choose|i: int, j: int|
                    0 <= i < rest.len() && 0 <= j < rest[i].pods.len() && !spec_is_healthy(
                        rest[i].pods[j].status,
                    );
                assert(nodes[i] == rest[i]);
                assert(!spec_is_healthy(nodes[i].pods[j].status));
            } else {
                let j = choose|j: int|
                    0 <= j < nodes.last().pods.len() && !spec_is_healthy(
                        nodes.last().pods[j].status,
                    );
                assert(!spec_is_healthy(nodes[nodes.len() - 1].pods[j].status));
            }
        }
        if exists|i: int, j: int|
            0 <= i < nodes.len() && 0 <= j < nodes[i].pods.len() && !spec_is_healthy(
                nodes[i].pods[j].status,
            ) {
            let (i, j) = choose|i: int, j: int|
                0 <= i < nodes.len() && 0 <= j < nodes[i].pods.len() && !spec_is_healthy(
                    nodes[i].pods[j].status,
                );
            if i < nodes.len() - 1 {
                assert(rest[i] == nodes[i]);
                assert(!spec_is_healthy(rest[i].pods[j].status));
                assert(spec_unhealthy_pods(rest).len() > 0);
            } else {
                assert(!spec_is_healthy(nodes.last().pods[j].status));
                assert(spec_unhealthy_in(nodes.last().pods).len() > 0);
            }
        }
    }
}

/// One pod list holds an unhealthy pod exactly when its unhealthy sublist is
/// non-empty.
pub proof fn lemma_unhealthy_in_iff(pods: Seq<PodView>)
    ensures
        spec_unhealthy_in(pods).len() > 0 <==> exists|j: int|
            0 <= j < pods.len() && !spec_is_healthy(pods[j].status),
    decreases pods.len(),
{
    if pods.len() == 0 {
    } else {
        let rest = pods.drop_last();
        lemma_unhealthy_in_iff(rest);
        if spec_unhealthy_in(pods).len() > 0 {
            if spec_unhealthy_in(rest).len() > 0 {
                let j = choose|j: int| 0 <= j < rest.len() && !spec_is_healthy(rest[j].status);
                assert(pods[j] == rest[j]);
                assert(!spec_is_healthy(pods[j].status));
            } else {
                assert(!spec_is_healthy(pods[pods.len() - 1].status));
            }
        }
        if exists|j: int| 0 <= j < pods.len() && !spec_is_healthy(pods[j].status) {
            let j = choose|j: int| 0 <= j < pods.len() && !spec_is_healthy(pods[j].status);
            if j < pods.len() - 1 {
                assert(rest[j] == pods[j]);
                assert(!spec_is_healthy(rest[j].status));
                assert(spec_unhealthy_in(rest).len() > 0);
            }
        }
    }
}

/// A snapshot with no pods at all is all clear: nothing unhealthy, zero
/// total — so its verdict is `OK` with a zero unhealthy count.
pub proof fn lemma_no_pods_all_clear(nodes: Seq<NodeView>)
    requires
        forall|i: int| 0 <= i < nodes.len() ==> nodes[i].pods.len() == 0,
    ensures
        spec_unhealthy_pods(nodes).len() == 0,
        spec_total_pods(nodes) == 0,
    decreases nodes.len(),
{
    if nodes.len() > 0 {
        let rest = nodes.drop_last();
        assert(forall|i: int| 0 <= i < rest.len() ==> rest[i] == nodes[i]);
        lemma_no_pods_all_clear(rest);
        assert(nodes.last().pods.len() == 0);
    }
}

} // verus!
