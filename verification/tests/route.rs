use humphrey::route::{
    file_path_in, find_match, path_lookup, select_route, strip_route, wildcard_match, PathLookup,
    Route, RouteChoice,
};

#[test]
fn wildcards() {
    assert!(wildcard_match("/blog/*", "/blog/my-first-post"));
    assert!(!"/blog/my-first-post".to_string().route_matches("/blog/*"));
    assert!("/blog/*".to_string().route_matches("/blog/my-first-post"));
    assert!(wildcard_match("*", ""));
    assert!(wildcard_match("*.example.com", "www.example.com"));
    assert!(!wildcard_match("*.example.com", "example.com"));
    assert!(wildcard_match("a*b*c", "aXXbYYc"));
    assert!(!wildcard_match("/exact", "/exact/"));
    assert!(wildcard_match("/exact", "/exact"));
}

#[test]
fn first_matching_route() {
    let routes = vec!["/a".to_string(), "/b/*".to_string(), "/*".to_string()];
    assert_eq!(find_match(&routes, "/b/c"), Some(1));
    assert_eq!(find_match(&routes, "/zzz"), Some(2));
    assert_eq!(find_match(&routes[..2], "/zzz"), None);
}

#[test]
fn route_selection_prefers_matching_host() {
    let hosts = vec!["*.example.com".to_string(), "localhost".to_string()];
    let routes = vec![vec!["/api/*".to_string()], vec!["/*".to_string()]];
    let default_routes = vec!["/*".to_string()];
    assert_eq!(
        select_route(Some("api.example.com"), "/api/x", &hosts, &routes, &default_routes),
        Some(RouteChoice::SubApp(0, 0))
    );
    assert_eq!(
        select_route(Some("api.example.com"), "/other", &hosts, &routes, &default_routes),
        Some(RouteChoice::Default(0))
    );
    assert_eq!(
        select_route(None, "/x", &hosts, &routes, &default_routes),
        Some(RouteChoice::Default(0))
    );
    assert_eq!(select_route(Some("localhost"), "/x", &hosts, &routes, &[]), Some(RouteChoice::SubApp(1, 0)));
    assert_eq!(select_route(Some("nowhere"), "/x", &hosts, &routes, &[]), None);
}

#[test]
fn path_lookups() {
    assert_eq!(
        path_lookup("./static/", "/docs/", &["index.html", "index.htm"]),
        Some(PathLookup::Index(vec![
            "./static/docs/index.html".to_string(),
            "./static/docs/index.htm".to_string()
        ]))
    );
    assert_eq!(
        path_lookup("./static", "/a%20b.txt", &["index.html"]),
        Some(PathLookup::Exact("./static/a b.txt".to_string()))
    );
    assert_eq!(path_lookup("./static", "/../secret", &["index.html"]), None);
    assert_eq!(path_lookup("./static", "/c:/x", &["index.html"]), None);
    assert_eq!(path_lookup("./static", "/%ff", &["index.html"]), None);
    assert_eq!(
        path_lookup("dir", "", &["index.html"]),
        Some(PathLookup::Index(vec!["dir/index.html".to_string()]))
    );
}

#[test]
fn route_prefix_is_stripped() {
    assert_eq!(strip_route("/static/*", "/static/css/a.css"), "css/a.css");
    assert_eq!(strip_route("/static/*", "/other"), "/other");
    assert_eq!(strip_route("/exact", "/exact/x"), "/x");
}

#[test]
fn file_paths_in_directories() {
    assert_eq!(file_path_in("./static/", "/images/ferris.png"), "./static/images/ferris.png");
    assert_eq!(file_path_in(".", "index.html"), "./index.html");
}
