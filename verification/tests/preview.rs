use build_eips::preview::{
    content_type, handle_request, request_probe, resolve_request_path, serve, Reply, RequestMethod,
};

fn resolve(url: &str, is_dir: bool, has_index: bool) -> Option<String> {
    resolve_request_path("/site", url, is_dir, has_index)
}

#[test]
fn requests_name_files_of_the_site() {
    assert_eq!(resolve("/style.css", false, false).unwrap(), "/site/style.css");
    assert_eq!(resolve("/style.css?v=1&x=/../y", false, false).unwrap(), "/site/style.css");
    assert_eq!(resolve("/a/./b.txt", false, false).unwrap(), "/site/a/b.txt");
    assert_eq!(resolve("//a//b", false, false).unwrap(), "/site/a/b");
}

#[test]
fn directories_are_answered_with_their_index() {
    assert_eq!(resolve("/", false, false).unwrap(), "/site/index.html");
    assert_eq!(resolve("", false, false).unwrap(), "/site/index.html");
    assert_eq!(resolve("?x", false, false).unwrap(), "/site/index.html");
    assert_eq!(resolve("/a/", false, false).unwrap(), "/site/a/index.html");
    assert_eq!(resolve("/a", true, false).unwrap(), "/site/a/index.html");
    assert_eq!(resolve("/a", false, true).unwrap(), "/site/a/index.html");
    assert_eq!(resolve("/a", false, false).unwrap(), "/site/a");
    assert_eq!(resolve("/a.b", false, true).unwrap(), "/site/a.b");
}

#[test]
fn requests_that_step_up_are_refused() {
    for url in ["/..", "/../x", "/a/../b", "/a/..", "../x"] {
        assert_eq!(resolve(url, true, true), None, "{url}");
        assert_eq!(request_probe("/site", url), None, "{url}");
    }
    assert_eq!(resolve("/..a/...", false, false).unwrap(), "/site/..a/...");
}

#[test]
fn probes_are_the_named_path_and_its_index() {
    let probe = request_probe("/site", "/a?b").unwrap();
    assert_eq!(probe.named, "/site/a");
    assert_eq!(probe.index, "/site/a/index.html");
}

#[test]
fn files_have_the_type_of_their_extension() {
    for (file, wanted) in [
        ("a.css", Some("text/css; charset=utf-8")),
        ("a.gif", Some("image/gif")),
        ("a.htm", Some("text/html; charset=utf-8")),
        ("a.html", Some("text/html; charset=utf-8")),
        ("a.ico", Some("image/x-icon")),
        ("a.jpeg", Some("image/jpeg")),
        ("a.jpg", Some("image/jpeg")),
        ("a.js", Some("application/javascript; charset=utf-8")),
        ("a.mjs", Some("application/javascript; charset=utf-8")),
        ("a.json", Some("application/json; charset=utf-8")),
        ("a.png", Some("image/png")),
        ("a.svg", Some("image/svg+xml")),
        ("a.txt", Some("text/plain; charset=utf-8")),
        ("a.webp", Some("image/webp")),
        ("a.xml", Some("application/xml; charset=utf-8")),
        ("a.CSS", None),
        ("css", None),
        (".css", None),
    ] {
        assert_eq!(content_type(file), wanted, "{file}");
    }
}

#[test]
fn requests_are_answered_by_method_path_and_file() {
    let file = || Some("/site/a.txt".to_owned());
    assert_eq!(handle_request(RequestMethod::Other, file(), true), Reply::Status(405));
    assert_eq!(handle_request(RequestMethod::Get, None, false), Reply::Status(400));
    assert_eq!(handle_request(RequestMethod::Head, file(), false), Reply::Status(404));
    assert_eq!(
        handle_request(RequestMethod::Get, file(), true),
        Reply::File {
            path: "/site/a.txt".to_owned(),
            content_type: Some("text/plain; charset=utf-8"),
        }
    );
}

#[test]
fn previews_need_a_rendered_site() {
    assert_eq!(serve("/site", true), Ok(()));
    assert_eq!(
        serve("/site", false).unwrap_err(),
        "preview output directory `/site` is missing; run `build-eips build` for this profile first"
    );
}
