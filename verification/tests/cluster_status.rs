use simpledash_client::health::check_cluster_status;
use simpledash_client::health::contains_string;
use simpledash_client::health::dedup_strings;
use simpledash_client::health::is_healthy;
use simpledash_client::health::Verdict;
use simpledash_client::models::NodeEntry;
use simpledash_client::models::Payload;
use simpledash_client::models::Pods;

fn payload_with_nodes(nodes: Vec<NodeEntry>) -> Payload {
    Payload {
        nodes,
        ingresses: None,
        timestamp: String::new(),
        deployments: Vec::new(),
    }
}

fn pod(namespace: &str, name: &str, status: &str, image: &str) -> Pods {
    Pods {
        namespace: namespace.to_string(),
        name: name.to_string(),
        status: status.to_string(),
        image: image.to_string(),
    }
}

#[test]
fn check_cluster_status_sets_overall_status_to_bad_if_one_pod_is_crashloopbackoff() {
    let payload = payload_with_nodes(vec![NodeEntry {
        name: "node1".to_string(),
        pods: vec![pod("namespace1", "pod1", "CrashLoopBackOff", "image1:tag1")],
    }]);
    let host = "host1".to_string();

    let (_, status_table) = check_cluster_status(&host, &payload);

    assert!(status_table.contains("BAD"));
    assert!(status_table.contains("host1"));
    assert!(status_table.contains("1"));
    assert!(status_table.contains("namespace1"));
}

#[test]
fn check_cluster_status_sets_overall_status_to_ok_if_all_pods_ok() {
    let payload = payload_with_nodes(vec![NodeEntry {
        name: "node1".to_string(),
        pods: vec![
            pod("namespace1", "pod1", "Running", "image1:tag1"),
            pod("namespace1", "pod2", "Succeeded", "image2:tag2"),
            pod("namespace1", "pod3", "Completed", "image3:tag3"),
        ],
    }]);
    let host = "host1".to_string();

    let (_, status_table) = check_cluster_status(&host, &payload);

    assert!(status_table.contains("OK"));
    assert!(status_table.contains("host1"));
    assert!(status_table.contains("0"));
}

#[test]
fn empty_cluster_is_all_clear() {
    // No pods at all: verdict OK with a zero unhealthy count.
    let payload = payload_with_nodes(Vec::new());
    let host = "h".to_string();

    let (status, _) = check_cluster_status(&host, &payload);

    assert_eq!(status.verdict, Verdict::Okay);
    assert_eq!(status.unhealthy_count, 0);
    assert_eq!(status.total_pods, 0);
    assert_eq!(status.node_count, 0);
    assert!(status.unhealthy_namespaces.is_empty());
}

#[test]
fn unknown_and_empty_statuses_count_as_unhealthy() {
    // The allow-list is closed: an unrecognized or empty status is
    // unhealthy, never silently healthy.
    let payload = payload_with_nodes(vec![NodeEntry {
        name: "n".to_string(),
        pods: vec![
            pod("ns1", "p1", "SomeBrandNewStatus", "i"),
            pod("ns2", "p2", "", "i"),
            pod("ns3", "p3", "Running", "i"),
        ],
    }]);
    let host = "h".to_string();

    let (status, _) = check_cluster_status(&host, &payload);

    assert_eq!(status.verdict, Verdict::Bad);
    assert_eq!(status.unhealthy_count, 2);
    assert_eq!(status.total_pods, 3);
}

#[test]
fn unhealthy_namespaces_are_deduplicated_with_exact_membership() {
    let payload = payload_with_nodes(vec![
        NodeEntry {
            name: "n1".to_string(),
            pods: vec![
                pod("ns-a", "p1", "CrashLoopBackOff", "i"),
                pod("ns-a", "p2", "Error", "i"),
            ],
        },
        NodeEntry {
            name: "n2".to_string(),
            pods: vec![
                pod("ns-b", "p3", "Error", "i"),
                pod("ns-c", "p4", "Running", "i"),
            ],
        },
    ]);
    let host = "h".to_string();

    let (status, _) = check_cluster_status(&host, &payload);

    assert_eq!(status.unhealthy_count, 3);
    // Membership is exact and duplicates are gone; ordering is not part of
    // the interface, so compare as a set.
    let mut names = status.unhealthy_namespaces.clone();
    names.sort();
    assert_eq!(names, vec!["ns-a".to_string(), "ns-b".to_string()]);
}

#[test]
fn status_line_renders_all_fields_exactly() {
    let payload = payload_with_nodes(vec![NodeEntry {
        name: "node1".to_string(),
        pods: vec![pod("namespace1", "pod1", "CrashLoopBackOff", "image1:tag1")],
    }]);
    let host = "host1".to_string();

    let (_, status_table) = check_cluster_status(&host, &payload);

    let expected = "cluster\t#unhealthy pods\t...in namespaces\ttotal pods\t#worker nodes\toverall status\n\
                    host1\t1\tnamespace1\t1\t1\tBAD\n";
    assert_eq!(status_table, expected);
}

#[test]
fn healthy_allow_list_is_exactly_running_succeeded_completed() {
    assert!(is_healthy("Running"));
    assert!(is_healthy("Succeeded"));
    assert!(is_healthy("Completed"));
    assert!(!is_healthy("Pending"));
    assert!(!is_healthy("running"));
    assert!(!is_healthy(""));
}

#[test]
fn dedup_keeps_first_occurrences_in_order() {
    let input: Vec<String> =
        ["a", "b", "a", "c", "b"].iter().map(|s| s.to_string()).collect();
    let deduped = dedup_strings(&input);
    assert_eq!(deduped, vec!["a".to_string(), "b".to_string(), "c".to_string()]);
    assert!(contains_string(&deduped, "c"));
    assert!(!contains_string(&deduped, "d"));
}

#[test]
fn mixed_snapshot_has_bad_verdict_and_counts_each_unhealthy_pod() {
    // One running pod and one crash-looping pod in the same namespace: the
    // pods view shows both, but only one pod counts as unhealthy.
    let payload = payload_with_nodes(vec![NodeEntry {
        name: "node1".to_string(),
        pods: vec![
            pod("ns1", "pod-ok", "Running", "img:1"),
            pod("ns1", "pod-sad", "CrashLoopBackOff", "img:2"),
        ],
    }]);
    let host = "h".to_string();

    let (status, _) = check_cluster_status(&host, &payload);
    assert_eq!(status.verdict, Verdict::Bad);
    assert_eq!(status.unhealthy_count, 1);
    assert_eq!(status.unhealthy_namespaces, vec!["ns1".to_string()]);

    let (table, count) = simpledash_client::views::get_pods_visualization(&payload, "ns1");
    assert_eq!(count, 2);
    assert!(table.contains("pod-ok"));
    assert!(table.contains("pod-sad"));
}
