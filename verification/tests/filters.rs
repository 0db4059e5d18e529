use web_filters::normalize_path;
use web_filters::Disposition;
use web_filters::RedirectHttps;
use web_filters::RemoveTrailingSlash;
use web_filters::Request;
use web_filters::Uri;

fn request(path: &str, query: Option<&str>, scheme: &str, host: &str) -> Request {
    Request {
        uri: Uri { path: path.to_string(), query: query.map(|q| q.to_string()) },
        match_uri: Uri { path: path.to_string(), query: query.map(|q| q.to_string()) },
        scheme: scheme.to_string(),
        host: host.to_string(),
    }
}

#[test]
fn normalize_collapses_and_trims() {
    assert_eq!(normalize_path("/a//b///"), "/a/b");
}

#[test]
fn normalize_collapses_every_run() {
    assert_eq!(normalize_path("//a///b//c"), "/a/b/c");
    assert_eq!(normalize_path("/a////b"), "/a/b");
}

#[test]
fn normalize_trims_any_number_of_trailing_slashes() {
    assert_eq!(normalize_path("/a/"), "/a");
    assert_eq!(normalize_path("/a////"), "/a");
}

#[test]
fn normalize_root_is_fixed_point() {
    assert_eq!(normalize_path("/"), "/");
}

#[test]
fn normalize_all_slashes_becomes_root() {
    assert_eq!(normalize_path("///"), "/");
}

#[test]
fn normalize_keeps_canonical_path() {
    assert_eq!(normalize_path("/a/b"), "/a/b");
}

#[test]
fn rewrite_is_idempotent() {
    let mw = RemoveTrailingSlash.create(());
    let mut req = request("/a//b///", None, "http", "example.com");
    assert!(mw.rewrite(&mut req));
    assert_eq!(req.uri.path, "/a/b");
    assert!(!mw.rewrite(&mut req));
    assert_eq!(req.uri.path, "/a/b");
    assert_eq!(req.match_uri.path, "/a/b");
}

#[test]
fn rewrite_skips_empty_path() {
    let mw = RemoveTrailingSlash.create(());
    let mut req = request("", None, "http", "example.com");
    assert!(!mw.rewrite(&mut req));
    assert_eq!(req.uri.path, "");
    assert_eq!(req.match_uri.path, "");
}

#[test]
fn rewrite_preserves_query_verbatim() {
    let mw = RemoveTrailingSlash.create(());
    let mut req = request("/x//y/", Some("a=1&b=2"), "http", "example.com");
    assert!(mw.rewrite(&mut req));
    assert_eq!(req.uri.path, "/x/y");
    assert_eq!(req.uri.query.as_deref(), Some("a=1&b=2"));
    assert_eq!(req.match_uri.path, "/x/y");
    assert_eq!(req.match_uri.query.as_deref(), Some("a=1&b=2"));
}

#[test]
fn rewrite_leaves_canonical_path_alone() {
    let mw = RemoveTrailingSlash.create(());
    let mut req = request("/x/y", Some("a=1"), "http", "example.com");
    assert!(!mw.rewrite(&mut req));
    assert_eq!(req.uri.path, "/x/y");
    assert_eq!(req.uri.query.as_deref(), Some("a=1"));
}

#[test]
fn https_is_forwarded_untouched() {
    let mw = RedirectHttps::new(443).create(());
    let req = request("/a", Some("q=1"), "https", "example.com:8080");
    match mw.handle(&req) {
        Disposition::Forward => {}
        Disposition::Redirect(_) => panic!("a secure request must be forwarded"),
    }
    assert_eq!(req.uri.path, "/a");
    assert_eq!(req.uri.query.as_deref(), Some("q=1"));
}

#[test]
fn default_port_drops_explicit_port() {
    let mw = RedirectHttps::new(443).create(());
    let req = request("/p", None, "http", "example.com:8080");
    match mw.handle(&req) {
        Disposition::Redirect(resp) => {
            assert_eq!(resp.status, 301);
            assert_eq!(resp.location, "https://example.com/p");
        }
        Disposition::Forward => panic!("a plaintext request must be redirected"),
    }
}

#[test]
fn non_default_port_is_appended() {
    let mw = RedirectHttps::new(8443).create(());
    let req = request("/p", Some("q=1"), "http", "example.com");
    match mw.handle(&req) {
        Disposition::Redirect(resp) => {
            assert_eq!(resp.status, 301);
            assert_eq!(resp.location, "https://example.com:8443/p?q=1");
        }
        Disposition::Forward => panic!("a plaintext request must be redirected"),
    }
}

#[test]
fn non_default_port_replaces_explicit_port() {
    let mw = RedirectHttps::new(8443).create(());
    let req = request("/p", None, "http", "example.com:8080");
    match mw.handle(&req) {
        Disposition::Redirect(resp) => {
            assert_eq!(resp.location, "https://example.com:8443/p");
        }
        Disposition::Forward => panic!("a plaintext request must be redirected"),
    }
}

#[test]
fn redirect_end_to_end() {
    let mw = RedirectHttps::new(443).create(());
    let req = request("/users", Some("id=5"), "http", "api.example.com:80");
    match mw.handle(&req) {
        Disposition::Redirect(resp) => {
            assert_eq!(resp.status, 301);
            assert_eq!(resp.location, "https://api.example.com/users?id=5");
        }
        Disposition::Forward => panic!("a plaintext request must be redirected"),
    }
}

#[test]
fn redirect_default_port_keeps_bare_host() {
    let mw = RedirectHttps::default().create(());
    let req = request("/", None, "http", "example.com");
    match mw.handle(&req) {
        Disposition::Redirect(resp) => {
            assert_eq!(resp.location, "https://example.com/");
        }
        Disposition::Forward => panic!("a plaintext request must be redirected"),
    }
}

#[test]
fn redirect_splits_host_at_first_colon() {
    let mw = RedirectHttps::new(8443).create(());
    let req = request("/p", None, "http", "a:b:c");
    match mw.handle(&req) {
        Disposition::Redirect(resp) => {
            assert_eq!(resp.location, "https://a:8443/p");
        }
        Disposition::Forward => panic!("a plaintext request must be redirected"),
    }
}

#[test]
fn redirect_renders_ports_in_decimal() {
    let mw = RedirectHttps::new(65535).create(());
    let req = request("/p", None, "http", "example.com");
    match mw.handle(&req) {
        Disposition::Redirect(resp) => {
            assert_eq!(resp.location, "https://example.com:65535/p");
        }
        Disposition::Forward => panic!("a plaintext request must be redirected"),
    }
    let mw = RedirectHttps::new(80).create(());
    let req = request("/p", None, "http", "example.com");
    match mw.handle(&req) {
        Disposition::Redirect(resp) => {
            assert_eq!(resp.location, "https://example.com:80/p");
        }
        Disposition::Forward => panic!("a plaintext request must be redirected"),
    }
}

#[test]
fn configuration_is_kept() {
    assert_eq!(RedirectHttps::default().port, 443);
    assert_eq!(RedirectHttps::new(8443).port, 8443);
    assert_eq!(RedirectHttps::new(8443).create(()).port, 8443);
}
