use cluster::error::{
    ADD_EDGE_MISSING_NODE, REMOVE_EDGE_MISSING_NODE, REPORT_PREFIX, SOURCE_PREFIX, UNKNOWN_SOURCE,
};
use cluster::ClusterError;

#[test]
fn new_error_has_no_detail() {
    let e = ClusterError::new();
    assert_eq!(e.message(), "");
}

#[test]
fn default_error_has_no_detail() {
    let e = ClusterError::default();
    assert_eq!(e.message(), String::new());
}

#[test]
fn detailled_error_keeps_its_detail() {
    let e = ClusterError::detailled("node 7 is gone");
    assert_eq!(e.message(), "node 7 is gone");
}

#[test]
fn detailled_error_keeps_non_ascii_detail() {
    let e = ClusterError::detailled("nœud → 7");
    assert_eq!(e.message(), "nœud → 7");
    assert_eq!(e.message().chars().count(), 8);
}

#[test]
fn new_boxed_error_has_no_detail() {
    let e: Box<ClusterError> = ClusterError::new_boxed();
    assert_eq!(e.message(), "");
}

#[test]
fn detailled_boxed_error_keeps_its_detail() {
    let e: Box<ClusterError> = ClusterError::detailled_boxed("boxed detail");
    assert_eq!(e.message(), "boxed detail");
}

#[test]
fn message_is_a_copy() {
    let e = ClusterError::detailled("twice");
    let mut first = e.message();
    first.push_str(" changed");
    assert_eq!(first, "twice changed");
    assert_eq!(e.message(), "twice");
}

#[test]
fn report_is_prefix_and_detail() {
    let e = ClusterError::detailled("<src> node does not exists.");
    assert_eq!(e.report(), "Cluster Error : <src> node does not exists.");
    assert_eq!(ClusterError::new().report(), "Cluster Error : ");
    assert_eq!(REPORT_PREFIX, "Cluster Error : ");
}

#[test]
fn source_line_names_the_source() {
    assert_eq!(ClusterError::source_line(Some("disk full")), "Caused by disk full");
    assert_eq!(ClusterError::source_line(Some("")), "Caused by ");
    assert_eq!(SOURCE_PREFIX, "Caused by ");
}

#[test]
fn source_line_without_source() {
    assert_eq!(ClusterError::source_line(None), "Unknown source.");
    assert_eq!(UNKNOWN_SOURCE, "Unknown source.");
}

#[test]
fn text_of_an_error_says_that_it_has_no_source() {
    assert_eq!(ClusterError::detailled("anything").to_text(), "Unknown source.\n");
    assert_eq!(ClusterError::new().to_text(), "Unknown source.\n");
}

#[test]
fn details_of_the_edge_errors() {
    assert_eq!(ADD_EDGE_MISSING_NODE, "To add edge, both node must exists in the Cluster.");
    assert_eq!(REMOVE_EDGE_MISSING_NODE, "<src> node does not exists.");
}

#[test]
fn error_can_be_debug_printed() {
    let e = ClusterError::detailled("shown");
    assert!(format!("{:?}", e).contains("shown"));
}
