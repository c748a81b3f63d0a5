//! Data model of the dashboard: the cluster metadata fetched once at startup
//! and the snapshot pushed by the feed, with the mathematical views the
//! contracts are stated over.

use vstd::prelude::*;

verus! {

/// Cluster metadata, fetched once at startup and never mutated.
pub struct ClusterInfo {
    pub cluster_name: String,
    /// Namespace names in the order the server sent them; duplicates are kept.
    pub namespaces: Vec<String>,
    /// Whether deployment rows should carry a logs hyperlink.
    pub deployment_logs_link_enabled: bool,
    /// Link template holding the two placeholder tokens for a deployment's
    /// name and namespace.
    pub deployment_logs_link: String,
}

/// A pod record as the feed sends it.  The status string is open-ended: the
/// remote vocabulary can grow, so it is classified, never enumerated.
pub struct Pods {
    pub namespace: String,
    pub name: String,
    /// Container image reference in `repository[:tag]` form.
    pub image: String,
    pub status: String,
}

/// An ingress endpoint record.
pub struct Ingress {
    pub endpoint: String,
    pub ip: String,
    pub namespace: String,
}

/// A deployment record.  `ready_replicas <= replicas` is expected of the feed
/// but never enforced: whatever arrives is rendered as is.
pub struct Deployment {
    pub namespace: String,
    pub name: String,
    pub replicas: u32,
    pub ready_replicas: u32,
}

/// One node of the cluster together with the pods observed on it.  A snapshot
/// carries these as a list; the feed sends them keyed by node name, so names
/// are expected to be distinct, and rendering sorts them for determinism.
pub struct NodeEntry {
    pub name: String,
    pub pods: Vec<Pods>,
}

/// A complete point-in-time view of the cluster.  Each snapshot replaces the
/// previous one in full; nothing is merged or diffed.
pub struct Payload {
    pub nodes: Vec<NodeEntry>,
    /// Absent is valid and renders the same as an empty list.
    pub ingresses: Option<Vec<Ingress>>,
    /// Opaque display string supplied by the feed; shown, never parsed.
    pub timestamp: String,
    pub deployments: Vec<Deployment>,
}

pub struct ClusterInfoView {
    pub cluster_name: Seq<char>,
    pub namespaces: Seq<Seq<char>>,
    pub deployment_logs_link_enabled: bool,
    pub deployment_logs_link: Seq<char>,
}

pub struct PodView {
    pub namespace: Seq<char>,
    pub name: Seq<char>,
    pub image: Seq<char>,
    pub status: Seq<char>,
}

pub struct IngressView {
    pub endpoint: Seq<char>,
    pub ip: Seq<char>,
    pub namespace: Seq<char>,
}

pub struct DeploymentView {
    pub namespace: Seq<char>,
    pub name: Seq<char>,
    pub replicas: u32,
    pub ready_replicas: u32,
}

pub struct NodeView {
    pub name: Seq<char>,
    pub pods: Seq<PodView>,
}

pub struct PayloadView {
    pub nodes: Seq<NodeView>,
    pub ingresses: Option<Seq<IngressView>>,
    pub timestamp: Seq<char>,
    pub deployments: Seq<DeploymentView>,
}

/// View of a pod list as a sequence of pod views.
pub open spec fn pods_views(s: Seq<Pods>) -> Seq<PodView> {
    s.map_values(|p: Pods| p@)
}

/// View of a node list as a sequence of node views.
pub open spec fn nodes_views(s: Seq<NodeEntry>) -> Seq<NodeView> {
    s.map_values(|n: NodeEntry| n@)
}

impl View for Pods {
    type V = PodView;

    open spec fn view(&self) -> PodView {
        PodView {
            namespace: self.namespace@,
            name: self.name@,
            image: self.image@,
            status: self.status@,
        }
    }
}

impl View for Ingress {
    type V = IngressView;

    open spec fn view(&self) -> IngressView {
        IngressView { endpoint: self.endpoint@, ip: self.ip@, namespace: self.namespace@ }
    }
}

impl View for Deployment {
    type V = DeploymentView;

    open spec fn view(&self) -> DeploymentView {
        DeploymentView {
            namespace: self.namespace@,
            name: self.name@,
            replicas: self.replicas,
            ready_replicas: self.ready_replicas,
        }
    }
}

impl View for NodeEntry {
    type V = NodeView;

    open spec fn view(&self) -> NodeView {
        NodeView { name: self.name@, pods: pods_views(self.pods@) }
    }
}

impl View for Payload {
    type V = PayloadView;

    open spec fn view(&self) -> PayloadView {
        PayloadView {
            nodes: nodes_views(self.nodes@),
            ingresses: match self.ingresses {
                Some(v) => Some(v@.map_values(|i: Ingress| i@)),
                None => None,
            },
            timestamp: self.timestamp@,
            deployments: self.deployments@.map_values(|d: Deployment| d@),
        }
    }
}

impl View for ClusterInfo {
    type V = ClusterInfoView;

    open spec fn view(&self) -> ClusterInfoView {
        ClusterInfoView {
            cluster_name: self.cluster_name@,
            namespaces: self.namespaces@.map_values(|s: String| s@),
            deployment_logs_link_enabled: self.deployment_logs_link_enabled,
            deployment_logs_link: self.deployment_logs_link@,
        }
    }
}

impl Pods {
    /// Field-by-field copy; the copy is equal to the original.
    pub fn duplicate(&self) -> (r: Pods)
        ensures
            r == *self,
    {
        Pods {
            namespace: self.namespace.clone(),
            name: self.name.clone(),
            image: self.image.clone(),
            status: self.status.clone(),
        }
    }
}

impl NodeEntry {
    /// Field-by-field copy; the copy has the same view as the original.
    pub fn duplicate(&self) -> (r: NodeEntry)
        ensures
            r@ == self@,
    {
        let mut pods: Vec<Pods> = Vec::new();
        let mut i: usize = 0;
        while i < self.pods.len()
            invariant
                i <= self.pods.len(),
                pods@ =~= self.pods@.take(i as int),
            decreases self.pods.len() - i,
        {
            pods.push(self.pods[i].duplicate());
            proof {
                assert(pods@ =~= self.pods@.take(i as int + 1));
            }
            i += 1;
        }
        proof {
            assert(pods@ =~= self.pods@);
        }
        NodeEntry { name: self.name.clone(), pods }
    }
}

} // verus!
