//! View projection: the three namespace-scoped renderable views of a
//! snapshot — endpoints, deployments and pods — plus the display helpers
//! they are built from.  Each view is a pure function of the snapshot and
//! the selected namespace, pinned to a spec-level rendering.

use vstd::prelude::*;
use vstd::string::*;

use crate::health::spec_is_healthy;
use crate::models::ClusterInfo;
use crate::models::ClusterInfoView;
use crate::models::DeploymentView;
use crate::models::IngressView;
use crate::models::NodeView;
use crate::models::Payload;
use crate::models::PayloadView;
use crate::models::PodView;
use crate::models::nodes_views;
use crate::models::pods_views;
use crate::sort::spec_matching_pods;
use crate::sort::spec_sort_nodes;
use crate::sort::spec_sort_pods;
use crate::sort::filter_sort_pods;
use crate::sort::sorted_nodes;
use crate::text::spec_decimal;
use crate::text::spec_replace;
use crate::text::decimal_string;
use crate::text::replace_all;
use crate::text::str_eq;

verus! {

/// The three-tier visual classification of a pod status: the healthy
/// allow-list is `Normal`, a second allow-list of startup states is
/// `Transitional`, and everything else — unknown strings included — is a
/// `Problem`.
#[derive(Clone, Copy, PartialEq, Eq, Structural, Debug)]
pub enum StatusBucket {
    Normal,
    Transitional,
    Problem,
}

/// The bucket a status string falls in, as a function of the string alone.
pub open spec fn spec_status_bucket(status: Seq<char>) -> StatusBucket {
    if spec_is_healthy(status) {
        StatusBucket::Normal
    } else if status == "Pending"@ || status == "ContainerCreating"@ || status
        == "PodInitializing"@ {
        StatusBucket::Transitional
    } else {
        StatusBucket::Problem
    }
}

/// Classifies one status string; depends on nothing but its argument.
pub fn status_bucket(status: &str) -> (r: StatusBucket)
    ensures
        r == spec_status_bucket(status@),
{
    if str_eq(status, "Running") || str_eq(status, "Succeeded") || str_eq(status, "Completed") {
        StatusBucket::Normal
    } else if str_eq(status, "Pending") || str_eq(status, "ContainerCreating") || str_eq(
        status,
        "PodInitializing",
    ) {
        StatusBucket::Transitional
    } else {
        StatusBucket::Problem
    }
}

/// The suffix of `s` after its last colon, or `None` when `s` has no colon.
pub open spec fn spec_after_last_colon(s: Seq<char>) -> Option<Seq<char>>
    decreases s.len(),
{
    if s.len() == 0 {
        None
    } else if s.last() == ':' {
        Some(Seq::empty())
    } else {
        match spec_after_last_colon(s.drop_last()) {
            None => None,
            Some(t) => Some(t.push(s.last())),
        }
    }
}

/// The tag of an image reference: the substring after the last colon, or
/// `unknown` when the reference carries no tag.
pub open spec fn spec_image_tag(image: Seq<char>) -> Seq<char> {
    match spec_after_last_colon(image) {
        None => "unknown"@,
        Some(t) => t,
    }
}

proof fn lemma_after_last_colon_found(s: Seq<char>, p: int)
    requires
        0 <= p < s.len(),
        s[p] == ':',
        forall|k: int| p < k < s.len() ==> s[k] != ':',
    ensures
        spec_after_last_colon(s) == Some(s.skip(p + 1)),
    decreases s.len(),
{
    if p == s.len() - 1 {
        assert(s.last() == ':');
        assert(s.skip(p + 1) =~= Seq::<char>::empty());
    } else {
        assert(s.last() != ':');
        lemma_after_last_colon_found(s.drop_last(), p);
        assert(s.drop_last().skip(p + 1).push(s.last()) =~= s.skip(p + 1));
    }
}

proof fn lemma_after_last_colon_none(s: Seq<char>)
    requires
        forall|k: int| 0 <= k < s.len() ==> s[k] != ':',
    ensures
        spec_after_last_colon(s) is None,
    decreases s.len(),
{
    if s.len() > 0 {
        lemma_after_last_colon_none(s.drop_last());
    }
}

/// The tag of a container image reference.
pub fn image_tag(image: &str) -> (r: String)
    ensures
        r@ == spec_image_tag(image@),
{
    let len = image.unicode_len();
    let mut i: usize = len;
    while i > 0
        invariant
            i <= len,
            len == image@.len(),
            forall|k: int| i <= k < len ==> image@[k] != ':',
        decreases i,
    {
        if image.get_char(i - 1) == ':' {
            let tail = image.substring_char(i, len);
            proof {
                lemma_after_last_colon_found(image@, i as int - 1);
                assert(image@.subrange(i as int, len as int) =~= image@.skip(i as int));
            }
            return String::from_str(tail);
        }
        i -= 1;
    }
    proof {
        lemma_after_last_colon_none(image@);
    }
    String::from_str("unknown")
}

/// A terminal hyperlink: the anchor text wrapped in the escape sequence that
/// carries the underlying URL.
pub open spec fn spec_link(url: Seq<char>, anchor: Seq<char>) -> Seq<char> {
    "\u{1b}]8;;"@ + url + "\u{7}"@ + anchor + "\u{1b}]8;;\u{7}"@
}

/// Builds a clickable terminal hyperlink around `anchor_text`.
pub fn make_link(url: String, anchor_text: String) -> (r: String)
    ensures
        r@ == spec_link(url@, anchor_text@),
{
    let mut r = String::from_str("\u{1b}]8;;");
    r.append(url.as_str());
    r.append("\u{7}");
    r.append(anchor_text.as_str());
    r.append("\u{1b}]8;;\u{7}");
    proof {
        assert(r@ =~= spec_link(url@, anchor_text@));
    }
    r
}

/// The logs-link template with the deployment-name placeholder replaced by
/// the name and the namespace placeholder replaced by the namespace.
pub open spec fn spec_substituted(template: Seq<char>, name: Seq<char>, namespace: Seq<char>) -> Seq<
    char,
> {
    spec_replace(
        spec_replace(template, "DEPLOYMENT_NAME_PLACEHOLDER"@, name),
        "DEPLOYMENT_NAMESPACE_PLACEHOLDER"@,
        namespace,
    )
}

/// Substitutes a deployment's name and namespace into the link template.
pub fn substitute_link_template(template: &str, name: &str, namespace: &str) -> (r: String)
    ensures
        r@ == spec_substituted(template@, name@, namespace@),
{
    proof {
        reveal_strlit("DEPLOYMENT_NAME_PLACEHOLDER");
        reveal_strlit("DEPLOYMENT_NAMESPACE_PLACEHOLDER");
    }
    let step = replace_all(template, "DEPLOYMENT_NAME_PLACEHOLDER", name);
    replace_all(step.as_str(), "DEPLOYMENT_NAMESPACE_PLACEHOLDER", namespace)
}

/// One endpoints-view line for an ingress record.
pub open spec fn spec_endpoint_line(i: IngressView) -> Seq<char> {
    "https://"@ + i.endpoint + " ("@ + i.ip + ")\n"@
}

/// The endpoints view over a list of ingress records: one line per record of
/// the selected namespace, in feed order.
pub open spec fn spec_endpoints_text(ingresses: Seq<IngressView>, ns: Seq<char>) -> Seq<char>
    decreases ingresses.len(),
{
    if ingresses.len() == 0 {
        Seq::empty()
    } else {
        spec_endpoints_text(ingresses.drop_last(), ns) + if ingresses.last().namespace == ns {
            spec_endpoint_line(ingresses.last())
        } else {
            Seq::empty()
        }
    }
}

/// The endpoints view of a snapshot: empty when the ingress list is absent.
pub open spec fn spec_payload_endpoints(p: PayloadView, ns: Seq<char>) -> Seq<char> {
    match p.ingresses {
        None => Seq::empty(),
        Some(list) => spec_endpoints_text(list, ns),
    }
}

/// Renders the endpoints of the selected namespace, one `https://<endpoint>
/// (<ip>)` line each; an absent or non-matching ingress list yields the
/// empty string.
pub fn get_endpoints_visualization(payload: &Payload, namespace: &str) -> (r: String)
    ensures
        r@ == spec_payload_endpoints(payload@, namespace@),
{
    let mut r = String::new();
    match &payload.ingresses {
        None => r,
        Some(list) => {
            let ghost all = list@.map_values(|i: crate::models::Ingress| i@);
            let mut i: usize = 0;
            proof {
                assert(all.take(0) =~= Seq::<IngressView>::empty());
            }
            while i < list.len()
                invariant
                    i <= list.len(),
                    all == list@.map_values(|x: crate::models::Ingress| x@),
                    all.len() == list.len(),
                    r@ == spec_endpoints_text(all.take(i as int), namespace@),
                decreases list.len() - i,
            {
                proof {
                    assert(all.take(i as int + 1).drop_last() =~= all.take(i as int));
                    assert(all.take(i as int + 1).last() == all[i as int]);
                    assert(all[i as int] == list@[i as int]@);
                }
                let ghost prev = r@;
                if str_eq(list[i].namespace.as_str(), namespace) {
                    r.append("https://");
                    r.append(list[i].endpoint.as_str());
                    r.append(" (");
                    r.append(list[i].ip.as_str());
                    r.append(")\n");
                    proof {
                        assert(r@ =~= prev + spec_endpoint_line(all[i as int]));
                    }
                } else {
                    proof {
                        assert(prev + Seq::<char>::empty() =~= prev);
                    }
                }
                i += 1;
            }
            proof {
                assert(all.take(list@.len() as int) =~= all);
            }
            r
        },
    }
}

/// One deployments-view line: the name, the ready and desired replica
/// counts, and — when the cluster enables it — a logs hyperlink built from
/// the link template.
pub open spec fn spec_deployment_line(d: DeploymentView, info: ClusterInfoView) -> Seq<char> {
    let base = d.name + " ("@ + spec_decimal(d.ready_replicas as nat) + "/"@ + spec_decimal(
        d.replicas as nat,
    ) + ")"@;
    if info.deployment_logs_link_enabled {
        base + " "@ + spec_link(
            spec_substituted(info.deployment_logs_link, d.name, d.namespace),
            "view logs"@,
        ) + "\n"@
    } else {
        base + "\n"@
    }
}

/// The deployments view: one line per deployment of the selected namespace,
/// in feed order.
pub open spec fn spec_deployments_text(
    ds: Seq<DeploymentView>,
    ns: Seq<char>,
    info: ClusterInfoView,
) -> Seq<char>
    decreases ds.len(),
{
    if ds.len() == 0 {
        Seq::empty()
    } else {
        spec_deployments_text(ds.drop_last(), ns, info) + if ds.last().namespace == ns {
            spec_deployment_line(ds.last(), info)
        } else {
            Seq::empty()
        }
    }
}

/// Renders the deployments of the selected namespace, one `<name>
/// (<ready>/<desired>)` line each, with a logs hyperlink when the cluster
/// enables it.
pub fn get_deployments_visualization(
    payload: &Payload,
    namespace: &str,
    cluster_info: &ClusterInfo,
) -> (r: String)
    ensures
        r@ == spec_deployments_text(payload@.deployments, namespace@, cluster_info@),
{
    let ghost all = payload@.deployments;
    let mut r = String::new();
    let mut i: usize = 0;
    proof {
        assert(all.take(0) =~= Seq::<DeploymentView>::empty());
    }
    while i < payload.deployments.len()
        invariant
            i <= payload.deployments.len(),
            all == payload@.deployments,
            all.len() == payload.deployments.len(),
            r@ == spec_deployments_text(all.take(i as int), namespace@, cluster_info@),
        decreases payload.deployments.len() - i,
    {
        proof {
            assert(all.take(i as int + 1).drop_last() =~= all.take(i as int));
            assert(all.take(i as int + 1).last() == all[i as int]);
            assert(all[i as int] == payload.deployments@[i as int]@);
        }
        let d = &payload.deployments[i];
        let ghost prev = r@;
        if str_eq(d.namespace.as_str(), namespace) {
            r.append(d.name.as_str());
            r.append(" (");
            let ready = decimal_string(d.ready_replicas as u64);
            r.append(ready.as_str());
            r.append("/");
            let desired = decimal_string(d.replicas as u64);
            r.append(desired.as_str());
            r.append(")");
            if cluster_info.deployment_logs_link_enabled {
                r.append(" ");
                let url = substitute_link_template(
                    cluster_info.deployment_logs_link.as_str(),
                    d.name.as_str(),
                    d.namespace.as_str(),
                );
                let link = make_link(url, String::from_str("view logs"));
                r.append(link.as_str());
            }
            r.append("\n");
            proof {
                assert(r@ =~= prev + spec_deployment_line(all[i as int], cluster_info@));
            }
        } else {
            proof {
                assert(prev + Seq::<char>::empty() =~= prev);
            }
        }
        i += 1;
    }
    proof {
        assert(all.take(payload.deployments@.len() as int) =~= all);
    }
    r
}

/// One row of the pods table: the node the pod runs on, the pod's name and
/// raw status, the status bucket for colouring, and the image tag.
pub struct PodRow {
    pub node: String,
    pub name: String,
    pub status: String,
    pub bucket: StatusBucket,
    pub tag: String,
}

pub struct PodRowView {
    pub node: Seq<char>,
    pub name: Seq<char>,
    pub status: Seq<char>,
    pub bucket: StatusBucket,
    pub tag: Seq<char>,
}

impl View for PodRow {
    type V = PodRowView;

    open spec fn view(&self) -> PodRowView {
        PodRowView {
            node: self.node@,
            name: self.name@,
            status: self.status@,
            bucket: self.bucket,
            tag: self.tag@,
        }
    }
}

/// View of a row list as a sequence of row views.
pub open spec fn rows_views(s: Seq<PodRow>) -> Seq<PodRowView> {
    s.map_values(|r: PodRow| r@)
}

/// The table row derived from one pod on one node.
pub open spec fn spec_row(node: Seq<char>, p: PodView) -> PodRowView {
    PodRowView {
        node,
        name: p.name,
        status: p.status,
        bucket: spec_status_bucket(p.status),
        tag: spec_image_tag(p.image),
    }
}

/// The rows for one node's (already filtered and sorted) pods, in order.
pub open spec fn spec_rows_from(node: Seq<char>, pods: Seq<PodView>) -> Seq<PodRowView>
    decreases pods.len(),
{
    if pods.len() == 0 {
        Seq::empty()
    } else {
        spec_rows_from(node, pods.drop_last()).push(spec_row(node, pods.last()))
    }
}

/// The rows one node contributes: its pods of the selected namespace,
/// sorted stably by name.
pub open spec fn spec_rows_of_node(n: NodeView, ns: Seq<char>) -> Seq<PodRowView> {
    spec_rows_from(n.name, spec_sort_pods(spec_matching_pods(n.pods, ns)))
}

/// The rows of a node list, node by node in the given order.
pub open spec fn spec_rows_over(nodes: Seq<NodeView>, ns: Seq<char>) -> Seq<PodRowView>
    decreases nodes.len(),
{
    if nodes.len() == 0 {
        Seq::empty()
    } else {
        spec_rows_over(nodes.drop_last(), ns) + spec_rows_of_node(nodes.last(), ns)
    }
}

/// The pods-view rows of a snapshot: nodes sorted by name, then within each
/// node the pods of the selected namespace, sorted stably by pod name.
pub open spec fn spec_pod_rows(nodes: Seq<NodeView>, ns: Seq<char>) -> Seq<PodRowView> {
    spec_rows_over(spec_sort_nodes(nodes), ns)
}

/// The pod rows of the selected namespace, in deterministic render order.
pub fn sorted_pod_rows(payload: &Payload, namespace: &str) -> (rows: Vec<PodRow>)
    ensures
        rows_views(rows@) == spec_pod_rows(payload@.nodes, namespace@),
{
    let order = sorted_nodes(&payload.nodes);
    let ghost sorted = nodes_views(order@);
    let mut rows: Vec<PodRow> = Vec::new();
    let mut i: usize = 0;
    proof {
        assert(sorted.take(0) =~= Seq::<NodeView>::empty());
        assert(rows_views(rows@) =~= Seq::<PodRowView>::empty());
    }
    while i < order.len()
        invariant
            i <= order.len(),
            sorted == nodes_views(order@),
            sorted == spec_sort_nodes(payload@.nodes),
            sorted.len() == order.len(),
            rows_views(rows@) == spec_rows_over(sorted.take(i as int), namespace@),
        decreases order.len() - i,
    {
        proof {
            assert(sorted.take(i as int + 1).drop_last() =~= sorted.take(i as int));
            assert(sorted.take(i as int + 1).last() == sorted[i as int]);
            assert(sorted[i as int] == order@[i as int]@);
        }
        let node = &order[i];
        let matched = filter_sort_pods(&node.pods, namespace);
        let ghost mpods = pods_views(matched@);
        let ghost base = rows_views(rows@);
        let mut k: usize = 0;
        proof {
            assert(mpods.take(0) =~= Seq::<PodView>::empty());
            assert(base + spec_rows_from(node@.name, mpods.take(0)) =~= base);
        }
        while k < matched.len()
            invariant
                k <= matched.len(),
                mpods == pods_views(matched@),
                mpods.len() == matched.len(),
                rows_views(rows@) == base + spec_rows_from(node@.name, mpods.take(k as int)),
            decreases matched.len() - k,
        {
            proof {
                assert(mpods.take(k as int + 1).drop_last() =~= mpods.take(k as int));
                assert(mpods.take(k as int + 1).last() == mpods[k as int]);
                assert(mpods[k as int] == matched@[k as int]@);
            }
            let p = &matched[k];
            let bucket = status_bucket(p.status.as_str());
            let tag = image_tag(p.image.as_str());
            let ghost prev = rows@;
            rows.push(
                PodRow {
                    node: node.name.clone(),
                    name: p.name.clone(),
                    status: p.status.clone(),
                    bucket,
                    tag,
                },
            );
            proof {
                assert(rows_views(rows@) =~= rows_views(prev).push(
                    spec_row(node@.name, mpods[k as int]),
                ));
            }
            k += 1;
        }
        proof {
            assert(mpods.take(matched@.len() as int) =~= mpods);
            assert(spec_rows_of_node(sorted[i as int], namespace@) == spec_rows_from(
                node@.name,
                mpods,
            ));
        }
        i += 1;
    }
    proof {
        assert(sorted.take(order@.len() as int) =~= sorted);
    }
    rows
}

/// One rendered line of the pods table, tab-separated.
pub open spec fn spec_pod_row_line(r: PodRowView) -> Seq<char> {
    r.node + "\t"@ + r.name + "\t"@ + r.status + "\t"@ + r.tag + "\n"@
}

/// The rendered lines of the given rows, in order.
pub open spec fn spec_row_lines(rows: Seq<PodRowView>) -> Seq<char>
    decreases rows.len(),
{
    if rows.len() == 0 {
        Seq::empty()
    } else {
        spec_row_lines(rows.drop_last()) + spec_pod_row_line(rows.last())
    }
}

/// The rendered pods table: a header line and one line per row.
pub open spec fn spec_pods_table(rows: Seq<PodRowView>) -> Seq<char> {
    "node\tpod name\tstatus\ttag\n"@ + spec_row_lines(rows)
}

/// Renders the pod rows as a tab-separated table with a header line.
pub fn render_pods_table(rows: &Vec<PodRow>) -> (r: String)
    ensures
        r@ == spec_pods_table(rows_views(rows@)),
{
    let ghost all = rows_views(rows@);
    let mut r = String::from_str("node\tpod name\tstatus\ttag\n");
    let mut i: usize = 0;
    proof {
        assert(all.take(0) =~= Seq::<PodRowView>::empty());
        assert(r@ + Seq::<char>::empty() =~= r@);
    }
    while i < rows.len()
        invariant
            i <= rows.len(),
            all == rows_views(rows@),
            all.len() == rows.len(),
            r@ == "node\tpod name\tstatus\ttag\n"@ + spec_row_lines(all.take(i as int)),
        decreases rows.len() - i,
    {
        proof {
            assert(all.take(i as int + 1).drop_last() =~= all.take(i as int));
            assert(all.take(i as int + 1).last() == all[i as int]);
            assert(all[i as int] == rows@[i as int]@);
        }
        let ghost prev = r@;
        r.append(rows[i].node.as_str());
        r.append("\t");
        r.append(rows[i].name.as_str());
        r.append("\t");
        r.append(rows[i].status.as_str());
        r.append("\t");
        r.append(rows[i].tag.as_str());
        r.append("\n");
        proof {
            assert(r@ =~= prev + spec_pod_row_line(all[i as int]));
        }
        i += 1;
    }
    proof {
        assert(all.take(rows@.len() as int) =~= all);
    }
    r
}

/// Renders the pods view of the selected namespace and returns the total
/// count of matching pods alongside the table text.
pub fn get_pods_visualization(payload: &Payload, namespace: &str) -> (r: (String, usize))
    ensures
        r.0@ == spec_pods_table(spec_pod_rows(payload@.nodes, namespace@)),
        r.1 == spec_pod_rows(payload@.nodes, namespace@).len(),
{
    let rows = sorted_pod_rows(payload, namespace);
    let text = render_pods_table(&rows);
    let count = rows.len();
    (text, count)
}

/// The footer under the pods table: the selected namespace, the cluster
/// name, and the snapshot's timestamp.
pub open spec fn spec_footer_line(ns: Seq<char>, cluster: Seq<char>, timestamp: Seq<char>) -> Seq<
    char,
> {
    ns + " in "@ + cluster + " as per "@ + timestamp + "\n"@
}

/// Renders the footer line shown under every namespace-scoped render.
pub fn footer_line(namespace: &str, cluster_name: &str, timestamp: &str) -> (r: String)
    ensures
        r@ == spec_footer_line(namespace@, cluster_name@, timestamp@),
{
    let mut r = String::from_str(namespace);
    r.append(" in ");
    r.append(cluster_name);
    r.append(" as per ");
    r.append(timestamp);
    r.append("\n");
    proof {
        assert(r@ =~= spec_footer_line(namespace@, cluster_name@, timestamp@));
    }
    r
}

/// Filtering the endpoints view by a namespace no ingress record carries —
/// or over an absent ingress list — yields the empty string.
pub proof fn lemma_endpoints_empty_when_no_match(p: PayloadView, ns: Seq<char>)
    requires
        match p.ingresses {
            Some(list) => forall|i: int| 0 <= i < list.len() ==> list[i].namespace != ns,
            None => true,
        },
    ensures
        spec_payload_endpoints(p, ns) == Seq::<char>::empty(),
{
    match p.ingresses {
        None => {
        },
        Some(list) => {
            lemma_endpoints_text_empty(list, ns);
        },
    }
}

proof fn lemma_endpoints_text_empty(ingresses: Seq<IngressView>, ns: Seq<char>)
    requires
        forall|i: int| 0 <= i < ingresses.len() ==> ingresses[i].namespace != ns,
    ensures
        spec_endpoints_text(ingresses, ns) == Seq::<char>::empty(),
    decreases ingresses.len(),
{
    if ingresses.len() > 0 {
        assert(forall|i: int|
            0 <= i < ingresses.drop_last().len() ==> ingresses.drop_last()[i] == ingresses[i]);
        lemma_endpoints_text_empty(ingresses.drop_last(), ns);
        assert(spec_endpoints_text(ingresses, ns) =~= Seq::<char>::empty());
    }
}

/// Filtering the deployments view by a namespace no deployment carries
/// yields the empty string.
pub proof fn lemma_deployments_empty_when_no_match(
    ds: Seq<DeploymentView>,
    ns: Seq<char>,
    info: ClusterInfoView,
)
    requires
        forall|i: int| 0 <= i < ds.len() ==> ds[i].namespace != ns,
    ensures
        spec_deployments_text(ds, ns, info) == Seq::<char>::empty(),
    decreases ds.len(),
{
    if ds.len() > 0 {
        assert(forall|i: int| 0 <= i < ds.drop_last().len() ==> ds.drop_last()[i] == ds[i]);
        lemma_deployments_empty_when_no_match(ds.drop_last(), ns, info);
        assert(spec_deployments_text(ds, ns, info) =~= Seq::<char>::empty());
    }
}

proof fn lemma_rows_over_all_empty(nodes: Seq<NodeView>, ns: Seq<char>)
    requires
        forall|i: int| 0 <= i < nodes.len() ==> spec_rows_of_node(#[trigger] nodes[i], ns).len()
            == 0,
    ensures
        spec_rows_over(nodes, ns).len() == 0,
    decreases nodes.len(),
{
    if nodes.len() > 0 {
        assert(forall|i: int|
            0 <= i < nodes.drop_last().len() ==> nodes.drop_last()[i] == nodes[i]);
        lemma_rows_over_all_empty(nodes.drop_last(), ns);
        assert(spec_rows_of_node(nodes.last(), ns).len() == 0);
    }
}

proof fn lemma_rows_from_len(node: Seq<char>, pods: Seq<PodView>)
    ensures
        spec_rows_from(node, pods).len() == pods.len(),
    decreases pods.len(),
{
    if pods.len() > 0 {
        lemma_rows_from_len(node, pods.drop_last());
    }
}

proof fn lemma_rows_over_len(nodes: Seq<NodeView>, ns: Seq<char>)
    ensures
        spec_rows_over(nodes, ns).len() == crate::sort::spec_matching_total(nodes, ns),
    decreases nodes.len(),
{
    if nodes.len() > 0 {
        lemma_rows_over_len(nodes.drop_last(), ns);
        lemma_rows_from_len(
            nodes.last().name,
            spec_sort_pods(spec_matching_pods(nodes.last().pods, ns)),
        );
        crate::sort::lemma_sort_pods_len(spec_matching_pods(nodes.last().pods, ns));
    }
}

/// The pods view counts exactly the pods of the selected namespace: its row
/// count — the total the caller displays — is the number of matching pods
/// over all nodes.
pub proof fn lemma_pod_rows_count(nodes: Seq<NodeView>, ns: Seq<char>)
    ensures
        spec_pod_rows(nodes, ns).len() == crate::sort::spec_matching_total(nodes, ns),
{
    crate::sort::lemma_sort_nodes_matching_total(nodes, ns);
    lemma_rows_over_len(spec_sort_nodes(nodes), ns);
}

/// Filtering the pods view by a namespace no pod carries yields zero rows —
/// the rendered table is just its header and the count is zero.
pub proof fn lemma_pods_empty_when_no_match(nodes: Seq<NodeView>, ns: Seq<char>)
    requires
        forall|i: int, j: int|
            0 <= i < nodes.len() && 0 <= j < nodes[i].pods.len() ==> nodes[i].pods[j].namespace
                != ns,
    ensures
        spec_pod_rows(nodes, ns).len() == 0,
{
    broadcast use vstd::seq_lib::group_to_multiset_ensures;

    crate::sort::lemma_sort_nodes_permutes(nodes);
    let sorted = spec_sort_nodes(nodes);
    assert forall|i: int| 0 <= i < sorted.len() implies spec_rows_of_node(
        #[trigger] sorted[i],
        ns,
    ).len() == 0 by {
        assert(sorted.contains(sorted[i]));
        assert(sorted.to_multiset().count(sorted[i]) > 0);
        assert(nodes.contains(sorted[i]));
        let k = choose|k: int| 0 <= k < nodes.len() && nodes[k] == sorted[i];
        assert(forall|j: int|
            0 <= j < sorted[i].pods.len() ==> sorted[i].pods[j] == nodes[k].pods[j]);
        crate::sort::lemma_matching_empty(sorted[i].pods, ns);
        assert(spec_sort_pods(spec_matching_pods(sorted[i].pods, ns)).len() == 0);
    }
    lemma_rows_over_all_empty(sorted, ns);
}

} // verus!
