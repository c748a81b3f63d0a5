use simpledash_client::args::parse_args;
use simpledash_client::args::ArgsOutcome;
use simpledash_client::select::group_ns_by_first_letter;
use simpledash_client::select::resolve_group_selection;
use simpledash_client::select::resolve_namespace_selection;
use simpledash_client::session::session_step;
use simpledash_client::session::websocket_url;
use simpledash_client::session::Resume;
use simpledash_client::session::SessionAction;
use simpledash_client::session::SessionEvent;
use simpledash_client::session::SessionState;
use simpledash_client::session::RECONNECT_BACKOFF_SECS;

fn strings(items: &[&str]) -> Vec<String> {
    items.iter().map(|s| s.to_string()).collect()
}

#[test]
fn websocket_url_maps_scheme_and_appends_feed_path() {
    assert_eq!(websocket_url("https://dash.example"), "wss://dash.example/ws");
    assert_eq!(websocket_url("http://dash.example"), "ws://dash.example/ws");
    assert_eq!(websocket_url("dash.example"), "ws://dash.example/ws");
}

#[test]
fn reconnect_backoff_is_three_seconds() {
    assert_eq!(RECONNECT_BACKOFF_SECS, 3);
}

#[test]
fn session_advances_through_startup_states() {
    let s = SessionState::Connecting { resume: Resume::Startup };
    let (s, a) = session_step(s, SessionEvent::ConnectSucceeded);
    assert_eq!(a, SessionAction::FetchMetadata);
    let (s, a) = session_step(s, SessionEvent::MetadataFetched);
    assert_eq!(a, SessionAction::Receive);
    // Heartbeats and undecodable payloads are absorbed while awaiting the
    // first snapshot.
    let (s, a) = session_step(s, SessionEvent::HeartbeatFrame);
    assert_eq!(a, SessionAction::Receive);
    let (s, a) = session_step(s, SessionEvent::SnapshotRejected);
    assert_eq!(a, SessionAction::Receive);
    let (s, a) = session_step(s, SessionEvent::SnapshotDecoded);
    assert_eq!(a, SessionAction::ShowStatusAndPrompt);
    let (s, a) = session_step(
        s,
        SessionEvent::NamespaceChosen { namespace: "ns1".to_string() },
    );
    assert_eq!(a, SessionAction::RenderViews);
    match s {
        SessionState::Streaming { namespace } => assert_eq!(namespace, "ns1"),
        _ => panic!("expected streaming state"),
    }
}

#[test]
fn failed_selection_falls_back_to_default_namespace() {
    let s = SessionState::SelectingNamespace;
    let (s, a) = session_step(s, SessionEvent::SelectionFailed);
    assert_eq!(a, SessionAction::RenderViews);
    match s {
        SessionState::Streaming { namespace } => assert_eq!(namespace, "default_namespace"),
        _ => panic!("expected streaming state"),
    }
}

#[test]
fn lost_connection_while_streaming_reconnects_and_keeps_namespace() {
    let s = SessionState::Streaming { namespace: "ns1".to_string() };
    let (s, a) = session_step(s, SessionEvent::ConnectionLost);
    assert_eq!(a, SessionAction::SleepThenReconnect);
    let (s, a) = session_step(s, SessionEvent::ConnectSucceeded);
    assert_eq!(a, SessionAction::Receive);
    match s {
        SessionState::Streaming { namespace } => assert_eq!(namespace, "ns1"),
        _ => panic!("expected streaming state"),
    }
}

#[test]
fn failed_reconnect_is_fatal() {
    let s = SessionState::Streaming { namespace: "ns1".to_string() };
    let (s, _) = session_step(s, SessionEvent::ConnectionLost);
    let (s, a) = session_step(s, SessionEvent::ConnectFailed);
    assert_eq!(a, SessionAction::Fail);
    assert!(matches!(s, SessionState::Stopped));
}

#[test]
fn heartbeats_and_decode_errors_do_not_interrupt_streaming() {
    let s = SessionState::Streaming { namespace: "ns1".to_string() };
    let (s, a) = session_step(s, SessionEvent::HeartbeatFrame);
    assert_eq!(a, SessionAction::Receive);
    let (s, a) = session_step(s, SessionEvent::SnapshotRejected);
    assert_eq!(a, SessionAction::Receive);
    let (s, a) = session_step(s, SessionEvent::SnapshotDecoded);
    assert_eq!(a, SessionAction::RenderViews);
    assert!(matches!(s, SessionState::Streaming { .. }));
}

#[test]
fn lost_connection_while_awaiting_first_snapshot_resumes_waiting() {
    let s = SessionState::Connecting { resume: Resume::Startup };
    let (s, _) = session_step(s, SessionEvent::ConnectSucceeded);
    let (s, _) = session_step(s, SessionEvent::MetadataFetched);
    let (s, a) = session_step(s, SessionEvent::ConnectionLost);
    assert_eq!(a, SessionAction::SleepThenReconnect);
    let (s, a) = session_step(s, SessionEvent::ConnectSucceeded);
    assert_eq!(a, SessionAction::Receive);
    // Metadata is not fetched again; the session waits for the first
    // snapshot as before.
    let (_, a) = session_step(s, SessionEvent::SnapshotDecoded);
    assert_eq!(a, SessionAction::ShowStatusAndPrompt);
}

#[test]
fn startup_failures_are_fatal() {
    let s = SessionState::Connecting { resume: Resume::Startup };
    let (s1, a) = session_step(s, SessionEvent::ConnectFailed);
    assert_eq!(a, SessionAction::Fail);
    assert!(matches!(s1, SessionState::Stopped));

    let (s2, a) = session_step(SessionState::FetchingMetadata, SessionEvent::MetadataFailed);
    assert_eq!(a, SessionAction::Fail);
    assert!(matches!(s2, SessionState::Stopped));
}

#[test]
fn parse_args_accepts_a_schemed_host() {
    let outcome = parse_args(&strings(&["sc", "-h", "https://dash.example"]));
    match outcome {
        ArgsOutcome::Accepted(settings) => assert_eq!(settings.host, "https://dash.example"),
        _ => panic!("expected an accepted host"),
    }
}

#[test]
fn parse_args_help_and_version_win_immediately() {
    assert!(matches!(parse_args(&strings(&["sc", "--help"])), ArgsOutcome::Help));
    assert!(matches!(parse_args(&strings(&["sc", "--version"])), ArgsOutcome::Version));
    // A help flag standing where a host was expected still wins, because
    // every argument is scanned.
    assert!(matches!(parse_args(&strings(&["sc", "-h", "--help"])), ArgsOutcome::Help));
}

#[test]
fn parse_args_rejects_missing_or_malformed_hosts() {
    assert!(matches!(parse_args(&strings(&["sc"])), ArgsOutcome::MissingHost));
    assert!(matches!(parse_args(&strings(&["sc", "-h"])), ArgsOutcome::MissingHostValue));
    assert!(matches!(
        parse_args(&strings(&["sc", "-h", "dash.example"])),
        ArgsOutcome::BadScheme
    ));
    assert!(matches!(
        parse_args(&strings(&["sc", "-h", "ftp://dash.example"])),
        ArgsOutcome::BadScheme
    ));
}

#[test]
fn parse_args_takes_the_last_host_flag() {
    let outcome = parse_args(&strings(&[
        "sc",
        "-h",
        "http://first",
        "-h",
        "http://second",
    ]));
    match outcome {
        ArgsOutcome::Accepted(settings) => assert_eq!(settings.host, "http://second"),
        _ => panic!("expected an accepted host"),
    }
}

#[test]
fn namespaces_group_by_uppercased_first_letter_in_order() {
    let groups = group_ns_by_first_letter(&strings(&["alpha", "Beta", "apple", "42x", ""]));

    assert_eq!(groups.len(), 3);
    assert_eq!(groups[0].key, '4');
    assert_eq!(groups[0].members, strings(&["42x"]));
    assert_eq!(groups[1].key, 'A');
    assert_eq!(groups[1].members, strings(&["alpha", "apple"]));
    assert_eq!(groups[2].key, 'B');
    assert_eq!(groups[2].members, strings(&["Beta"]));
}

#[test]
fn duplicate_namespaces_are_kept_in_their_group() {
    // The server's namespace list is not deduplicated; grouping keeps every
    // occurrence.
    let groups = group_ns_by_first_letter(&strings(&["dup", "dup", "other"]));
    assert_eq!(groups.len(), 2);
    assert_eq!(groups[0].key, 'D');
    assert_eq!(groups[0].members, strings(&["dup", "dup"]));
    assert_eq!(groups[1].key, 'O');
    assert_eq!(groups[1].members, strings(&["other"]));
}

#[test]
fn group_selection_picks_the_chosen_group_or_falls_back() {
    let groups = group_ns_by_first_letter(&strings(&["alpha", "beta"]));

    let (letter, members) = resolve_group_selection(&groups, Some(1));
    assert_eq!(letter, 'B');
    assert_eq!(members, strings(&["beta"]));

    let (letter, members) = resolve_group_selection(&groups, None);
    assert_eq!(letter, '_');
    assert_eq!(members, strings(&["default_namespace"]));
}

#[test]
fn namespace_selection_picks_the_chosen_entry_or_falls_back() {
    let namespaces = strings(&["ns-a", "ns-b"]);
    assert_eq!(resolve_namespace_selection(&namespaces, Some(1)), "ns-b");
    assert_eq!(resolve_namespace_selection(&namespaces, None), "default_namespace");
    assert_eq!(resolve_namespace_selection(&namespaces, Some(9)), "default_namespace");
}
