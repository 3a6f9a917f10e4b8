use ccx::preview::{
    content_type, not_found_response, ok_response_head, preview_relative_path, preview_url, request_path,
};

#[test]
fn content_types_follow_the_extension() {
    assert_eq!(content_type(Some("html")), "text/html; charset=utf-8");
    assert_eq!(content_type(Some("css")), "text/css; charset=utf-8");
    assert_eq!(content_type(Some("js")), "text/javascript; charset=utf-8");
    assert_eq!(content_type(Some("json")), "application/json; charset=utf-8");
    assert_eq!(content_type(Some("png")), "image/png");
    assert_eq!(content_type(Some("jpg")), "image/jpeg");
    assert_eq!(content_type(Some("jpeg")), "image/jpeg");
    assert_eq!(content_type(Some("svg")), "image/svg+xml");
    assert_eq!(content_type(Some("txt")), "application/octet-stream");
    assert_eq!(content_type(None), "application/octet-stream");
}

#[test]
fn request_paths_default_to_index() {
    assert_eq!(request_path("GET /app.js HTTP/1.1\r\nHost: x\r\n\r\n"), "app.js");
    assert_eq!(request_path("GET / HTTP/1.1\r\n"), "index.html");
    assert_eq!(request_path(""), "index.html");
    assert_eq!(request_path("GET"), "index.html");
    assert_eq!(request_path("GET //dir/page.html HTTP/1.1"), "dir/page.html");
}

#[test]
fn preview_urls_use_forward_slashes() {
    assert_eq!(preview_url(8080, "/site\\index.html"), "http://127.0.0.1:8080/site/index.html");
    assert_eq!(preview_url(1, "a.html"), "http://127.0.0.1:1/a.html");
}

#[test]
fn preview_paths_stay_in_the_workspace() {
    assert_eq!(preview_relative_path("/docs/a.html"), Ok("docs/a.html".to_string()));
    assert_eq!(preview_relative_path("\\x/./y"), Ok("x/./y".to_string()));
    assert_eq!(
        preview_relative_path("docs/../../etc/passwd"),
        Err("preview path is outside workspace".to_string())
    );
    assert_eq!(preview_relative_path(".."), Err("preview path is outside workspace".to_string()));
    assert_eq!(preview_relative_path("a..b/c"), Ok("a..b/c".to_string()));
}

#[test]
fn responses_are_well_formed() {
    assert_eq!(
        ok_response_head("image/png", 12),
        "HTTP/1.1 200 OK\r\nContent-Type: image/png\r\nContent-Length: 12\r\n\r\n"
    );
    assert_eq!(not_found_response(), "HTTP/1.1 404 Not Found\r\nContent-Length: 9\r\n\r\nNot found");
}
