use simpledash_client::models::ClusterInfo;
use simpledash_client::models::Deployment;
use simpledash_client::models::Ingress;
use simpledash_client::models::NodeEntry;
use simpledash_client::models::Payload;
use simpledash_client::models::Pods;
use simpledash_client::views::get_deployments_visualization;
use simpledash_client::views::get_endpoints_visualization;
use simpledash_client::views::get_pods_visualization;

fn empty_payload() -> Payload {
    Payload {
        nodes: Vec::new(),
        ingresses: None,
        timestamp: String::new(),
        deployments: Vec::new(),
    }
}

fn plain_cluster_info(logs_link_enabled: bool, link: &str) -> ClusterInfo {
    ClusterInfo {
        cluster_name: String::new(),
        namespaces: Vec::new(),
        deployment_logs_link_enabled: logs_link_enabled,
        deployment_logs_link: link.to_string(),
    }
}

#[test]
fn get_deployments_visualization_visualizing_only_selected_namespace() {
    let payload = Payload {
        deployments: vec![
            Deployment {
                name: "deployment1".to_string(),
                namespace: "namespace1".to_string(),
                ready_replicas: 2,
                replicas: 3,
            },
            Deployment {
                name: "deployment2".to_string(),
                namespace: "namespace2".to_string(),
                ready_replicas: 1,
                replicas: 1,
            },
        ],
        ..empty_payload()
    };
    let cluster_info = plain_cluster_info(false, "");

    let visualization = get_deployments_visualization(&payload, "namespace1", &cluster_info);

    assert!(visualization.contains("deployment1 (2/3)"));
    assert!(!visualization.contains("deployment2 (1/1)"));
}

#[test]
fn get_endpoints_visualization_visualizing_only_selected_namespace() {
    let payload = Payload {
        ingresses: Some(vec![
            Ingress {
                endpoint: "endpoint1".to_string(),
                namespace: "namespace1".to_string(),
                ip: "172.23.1.205".to_string(),
            },
            Ingress {
                endpoint: "endpoint2".to_string(),
                namespace: "namespace2".to_string(),
                ip: "172.23.1.205".to_string(),
            },
        ]),
        ..empty_payload()
    };

    let visualization = get_endpoints_visualization(&payload, "namespace1");

    println!("{}", visualization);

    let expected = format!("{}{} ({})\n", "https://", "endpoint1", "172.23.1.205");
    assert!(visualization.eq(&expected));
    let not_expected = format!("{}{} ({})\n", "https://", "endpoint2", "172.23.1.205");
    assert!(!visualization.contains(&not_expected));
}

#[test]
fn get_pods_visualization_visualizing_only_selected_namespace() {
    let payload = Payload {
        nodes: vec![
            NodeEntry {
                name: "node1".to_string(),
                pods: vec![
                    Pods {
                        namespace: "namespace1".to_string(),
                        name: "pod1".to_string(),
                        status: "Running".to_string(),
                        image: "image1:tag1".to_string(),
                    },
                    Pods {
                        namespace: "namespace2".to_string(),
                        name: "pod2".to_string(),
                        status: "Running".to_string(),
                        image: "image2:tag2".to_string(),
                    },
                ],
            },
            NodeEntry {
                name: "node2".to_string(),
                pods: vec![Pods {
                    namespace: "namespace1".to_string(),
                    name: "pod3".to_string(),
                    status: "Running".to_string(),
                    image: "image3:tag3".to_string(),
                }],
            },
        ],
        ..empty_payload()
    };

    let (visualization, no_of_pods) = get_pods_visualization(&payload, "namespace1");

    assert!(no_of_pods == 2);

    assert!(visualization.contains("node1"));
    assert!(visualization.contains("pod1"));
    assert!(visualization.contains("Running"));
    assert!(visualization.contains("tag1"));
    assert!(visualization.contains("node2"));
    assert!(visualization.contains("pod3"));
    assert!(visualization.contains("Running"));
    assert!(visualization.contains("tag3"));
    assert!(!visualization.contains("pod2"));
    assert!(!visualization.contains("tag2"));
}

#[test]
fn pods_view_sorts_nodes_and_pods_by_name() {
    // Nodes arrive out of order and so do the pods inside each node; the
    // rendered table must order both deterministically by name.
    let payload = Payload {
        nodes: vec![
            NodeEntry {
                name: "node2".to_string(),
                pods: vec![Pods {
                    namespace: "ns".to_string(),
                    name: "pod-c".to_string(),
                    status: "Running".to_string(),
                    image: "img:1".to_string(),
                }],
            },
            NodeEntry {
                name: "node1".to_string(),
                pods: vec![
                    Pods {
                        namespace: "ns".to_string(),
                        name: "pod-b".to_string(),
                        status: "Running".to_string(),
                        image: "img:2".to_string(),
                    },
                    Pods {
                        namespace: "ns".to_string(),
                        name: "pod-a".to_string(),
                        status: "Running".to_string(),
                        image: "img:3".to_string(),
                    },
                ],
            },
        ],
        ..empty_payload()
    };

    let (visualization, count) = get_pods_visualization(&payload, "ns");

    assert_eq!(count, 3);
    let expected = "node\tpod name\tstatus\ttag\n\
                    node1\tpod-a\tRunning\t3\n\
                    node1\tpod-b\tRunning\t2\n\
                    node2\tpod-c\tRunning\t1\n";
    assert_eq!(visualization, expected);
}

#[test]
fn deployments_view_renders_logs_link_when_enabled() {
    let payload = Payload {
        deployments: vec![Deployment {
            name: "api".to_string(),
            namespace: "ns1".to_string(),
            ready_replicas: 1,
            replicas: 2,
        }],
        ..empty_payload()
    };
    let cluster_info = plain_cluster_info(
        true,
        "http://logs/DEPLOYMENT_NAMESPACE_PLACEHOLDER/DEPLOYMENT_NAME_PLACEHOLDER",
    );

    let visualization = get_deployments_visualization(&payload, "ns1", &cluster_info);

    let expected = format!(
        "api (1/2) {}\n",
        format!("\x1b]8;;{}\x07{}\x1b]8;;\x07", "http://logs/ns1/api", "view logs")
    );
    assert_eq!(visualization, expected);
}

#[test]
fn views_are_empty_for_namespace_matching_nothing() {
    // A namespace that matches no entity yields an empty (or zero-count)
    // result in every view, and never an error.
    let payload = Payload {
        nodes: vec![NodeEntry {
            name: "node1".to_string(),
            pods: vec![Pods {
                namespace: "ns1".to_string(),
                name: "pod1".to_string(),
                status: "Running".to_string(),
                image: "img:1".to_string(),
            }],
        }],
        ingresses: Some(vec![Ingress {
            endpoint: "e".to_string(),
            ip: "1.2.3.4".to_string(),
            namespace: "ns1".to_string(),
        }]),
        timestamp: "t".to_string(),
        deployments: vec![Deployment {
            name: "d".to_string(),
            namespace: "ns1".to_string(),
            ready_replicas: 1,
            replicas: 1,
        }],
    };
    let cluster_info = plain_cluster_info(true, "x");

    assert_eq!(get_endpoints_visualization(&payload, "nowhere"), "");
    assert_eq!(get_deployments_visualization(&payload, "nowhere", &cluster_info), "");
    let (table, count) = get_pods_visualization(&payload, "nowhere");
    assert_eq!(count, 0);
    assert_eq!(table, "node\tpod name\tstatus\ttag\n");
}

#[test]
fn endpoints_view_is_empty_string_for_absent_or_empty_ingresses() {
    let absent = empty_payload();
    assert_eq!(get_endpoints_visualization(&absent, "ns1"), "");

    let empty_list = Payload { ingresses: Some(Vec::new()), ..empty_payload() };
    assert_eq!(get_endpoints_visualization(&empty_list, "ns1"), "");
}
