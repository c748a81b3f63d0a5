use simpledash_client::text::decimal_string;
use simpledash_client::text::join_comma;
use simpledash_client::text::replace_all;
use simpledash_client::text::str_lex_lt;
use simpledash_client::views::footer_line;
use simpledash_client::views::image_tag;
use simpledash_client::views::make_link;
use simpledash_client::views::status_bucket;
use simpledash_client::views::substitute_link_template;
use simpledash_client::views::StatusBucket;

#[test]
fn image_tag_takes_substring_after_last_colon() {
    assert_eq!(image_tag("nginx:1.25"), "1.25");
    assert_eq!(image_tag("registry:5000/img:v2"), "v2");
    assert_eq!(image_tag("img:"), "");
}

#[test]
fn image_tag_without_colon_is_unknown() {
    assert_eq!(image_tag("busybox"), "unknown");
    assert_eq!(image_tag(""), "unknown");
}

#[test]
fn status_bucket_is_a_pure_function_of_the_status_string() {
    // Same input, same bucket, on every call: no hidden state.
    assert_eq!(status_bucket("Running"), StatusBucket::Normal);
    assert_eq!(status_bucket("Running"), StatusBucket::Normal);
    assert_eq!(status_bucket("Succeeded"), StatusBucket::Normal);
    assert_eq!(status_bucket("Completed"), StatusBucket::Normal);
    assert_eq!(status_bucket("Pending"), StatusBucket::Transitional);
    assert_eq!(status_bucket("ContainerCreating"), StatusBucket::Transitional);
    assert_eq!(status_bucket("PodInitializing"), StatusBucket::Transitional);
    assert_eq!(status_bucket("CrashLoopBackOff"), StatusBucket::Problem);
    assert_eq!(status_bucket(""), StatusBucket::Problem);
    assert_eq!(status_bucket("running"), StatusBucket::Problem);
}

#[test]
fn deployment_link_substitution_is_exact() {
    let url = substitute_link_template(
        "http://logs/DEPLOYMENT_NAMESPACE_PLACEHOLDER/DEPLOYMENT_NAME_PLACEHOLDER",
        "api",
        "ns1",
    );
    assert_eq!(url, "http://logs/ns1/api");
}

#[test]
fn replace_all_replaces_every_occurrence_left_to_right() {
    assert_eq!(replace_all("aXbXc", "X", "--"), "a--b--c");
    assert_eq!(replace_all("aaa", "aa", "b"), "ba");
    assert_eq!(replace_all("hello", "x", "y"), "hello");
    assert_eq!(replace_all("", "x", "y"), "");
}

#[test]
fn make_link_wraps_anchor_in_hyperlink_escapes() {
    let link = make_link("http://example".to_string(), "view logs".to_string());
    assert_eq!(link, "\x1b]8;;http://example\x07view logs\x1b]8;;\x07");
}

#[test]
fn decimal_string_renders_exact_digits() {
    assert_eq!(decimal_string(0), "0");
    assert_eq!(decimal_string(7), "7");
    assert_eq!(decimal_string(10), "10");
    assert_eq!(decimal_string(305), "305");
    assert_eq!(decimal_string(u64::MAX), "18446744073709551615");
}

#[test]
fn join_comma_joins_with_comma_and_space() {
    assert_eq!(join_comma(&vec![]), "");
    assert_eq!(join_comma(&vec!["a".to_string()]), "a");
    assert_eq!(join_comma(&vec!["a".to_string(), "b".to_string(), "c".to_string()]), "a, b, c");
}

#[test]
fn lexicographic_order_compares_by_code_point() {
    assert!(str_lex_lt("abc", "abd"));
    assert!(str_lex_lt("ab", "abc"));
    assert!(!str_lex_lt("abc", "abc"));
    assert!(!str_lex_lt("b", "a"));
    assert!(str_lex_lt("", "a"));
}

#[test]
fn footer_line_renders_namespace_cluster_and_timestamp() {
    assert_eq!(
        footer_line("ns1", "prod-cluster", "12:00"),
        "ns1 in prod-cluster as per 12:00\n"
    );
}
