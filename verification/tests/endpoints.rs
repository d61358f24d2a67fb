use foobar::endpoints::{Endpoint, Section};
use foobar::http_metrics::metrics_path;

#[test]
fn endpoint_paths() {
    assert_eq!(Endpoint::Index.path(), "/");
    assert_eq!(Endpoint::About.path(), "/about");
    assert_eq!(Endpoint::StaticFile.path(), "/static/{file_name}");
}

#[test]
fn endpoint_names() {
    assert_eq!(Endpoint::Index.name(), "Index");
    assert_eq!(Endpoint::About.name(), "About");
    assert_eq!(Endpoint::StaticFile.name(), "StaticFile");
}

#[test]
fn no_endpoint_belongs_to_a_section() {
    assert!(!Endpoint::Index.is_section(Section {}));
    assert!(!Endpoint::About.is_section(Section {}));
    assert!(!Endpoint::StaticFile.is_section(Section {}));
}

#[test]
fn metrics_path_trims_bound_segments() {
    assert_eq!(metrics_path("/projects/{bound}/"), "/projects/");
    assert_eq!(metrics_path("/projects/{bound}/{bound}/"), "/projects/");
    assert_eq!(
        metrics_path("/projects/{bound}/"),
        "/projects/{bound}/".trim_end_matches("{bound}/")
    );
}

#[test]
fn metrics_path_trims_sorting_suffix() {
    assert_eq!(metrics_path("/list/{sorting}"), "/list");
    assert_eq!(
        metrics_path("/list/{sorting}"),
        "/list/{sorting}".trim_end_matches("/{sorting}")
    );
}

#[test]
fn metrics_path_folds_graph_routes() {
    assert_eq!(metrics_path("/graph/total/items"), "/graph/total/...");
    assert_eq!(metrics_path("/graph/repo/{repo}/items"), "/graph/repo/...");
}

#[test]
fn metrics_path_leaves_plain_routes_alone() {
    assert_eq!(metrics_path("/"), "/");
    assert_eq!(metrics_path("/about"), "/about");
    assert_eq!(metrics_path(""), "");
}
