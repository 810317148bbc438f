use static_server::mime::get_mimetype_from_path;
use static_server::request::get_path_from_request;
use static_server::request::static_file_path;
use static_server::request::try_get_path_from_request;
use static_server::response::build_response;
use static_server::response::create_http_response;

fn mimetype(path: &str) -> &'static str {
    get_mimetype_from_path(&path.to_string())
}

#[test]
fn mimetype_table_supported_extensions() {
    assert_eq!(mimetype("index.html"), "text/html");
    assert_eq!(mimetype("style.css"), "text/css");
    assert_eq!(mimetype("app.js"), "text/javascript");
    assert_eq!(mimetype("logo.png"), "image/png");
    assert_eq!(mimetype("photo.jpg"), "image/jpeg");
    assert_eq!(mimetype("photo.jpeg"), "image/jpeg");
    assert_eq!(mimetype("anim.gif"), "image/gif");
}

#[test]
fn mimetype_unknown_extension_is_text_plain() {
    assert_eq!(mimetype("notes.txt"), "text/plain");
    assert_eq!(mimetype("archive.tar"), "text/plain");
    assert_eq!(mimetype("weird.HTML"), "text/plain");
}

#[test]
fn mimetype_no_dot_is_text_plain() {
    assert_eq!(mimetype("README"), "text/plain");
    assert_eq!(mimetype(""), "text/plain");
}

#[test]
fn mimetype_uses_last_dot_only() {
    assert_eq!(mimetype("bundle.min.js"), "text/javascript");
    assert_eq!(mimetype("archive.html.bak"), "text/plain");
    assert_eq!(mimetype("trailing."), "text/plain");
}

#[test]
fn mimetype_extension_equal_to_whole_path() {
    // A path with no dot is its own extension, so a path that literally
    // spells a known extension does match the table.
    assert_eq!(mimetype("html"), "text/html");
}

#[test]
fn root_path_is_served_as_index_html() {
    let request = vec!["GET / HTTP/1.1".to_string(), "Host: localhost".to_string()];
    assert_eq!(get_path_from_request(request), "index.html");
}

#[test]
fn non_root_path_is_used_verbatim() {
    let request = vec!["GET /foo.html HTTP/1.1".to_string()];
    assert_eq!(get_path_from_request(request), "/foo.html");
}

#[test]
fn root_and_index_load_the_same_file() {
    let root = get_path_from_request(vec!["GET / HTTP/1.1".to_string()]);
    let index = get_path_from_request(vec!["GET index.html HTTP/1.1".to_string()]);
    assert_eq!(root, index);
    assert_eq!(static_file_path(&root), static_file_path(&index));
}

#[test]
fn request_without_target_is_rejected() {
    assert_eq!(try_get_path_from_request(&vec![]), None);
    assert_eq!(try_get_path_from_request(&vec!["GET".to_string()]), None);
    assert_eq!(try_get_path_from_request(&vec!["   ".to_string()]), None);
}

#[test]
fn request_with_extra_whitespace() {
    let request = vec!["GET   /style.css   HTTP/1.1".to_string()];
    assert_eq!(try_get_path_from_request(&request), Some("/style.css".to_string()));
}

#[test]
fn file_path_is_joined_onto_document_root() {
    assert_eq!(static_file_path(&"index.html".to_string()), "public/index.html");
    // A non-root request keeps its leading slash, so the join yields a
    // double slash; the host filesystem still resolves it.
    assert_eq!(static_file_path(&"/foo.html".to_string()), "public//foo.html");
}

#[test]
fn header_block_has_exact_shape() {
    let body = b"<p/>\n".to_vec();
    let header = create_http_response("text/html", &body);
    assert_eq!(
        header,
        "HTTP/1.1 200 OK \r\nContent-Type: text/html\r\nContent-Length: 5\r\n\r\n"
    );
}

#[test]
fn content_length_is_exact_byte_count() {
    let empty = create_http_response("text/plain", &Vec::new());
    assert_eq!(empty, "HTTP/1.1 200 OK \r\nContent-Type: text/plain\r\nContent-Length: 0\r\n\r\n");
    let big = create_http_response("image/png", &vec![7u8; 1234]);
    assert_eq!(big, "HTTP/1.1 200 OK \r\nContent-Type: image/png\r\nContent-Length: 1234\r\n\r\n");
}

#[test]
fn round_trip_html_body_is_unmodified() {
    let body: Vec<u8> = (0u8..=255).collect();
    let path = "page.html".to_string();
    let response = build_response(&path, &body);
    let header = create_http_response("text/html", &body);
    assert_eq!(&response[..header.len()], header.as_bytes());
    assert_eq!(&response[header.len()..], &body[..]);
    assert!(header.contains("Content-Type: text/html"));
    assert!(header.contains("Content-Length: 256"));
}

#[test]
fn scenario_get_root() {
    let request = vec!["GET / HTTP/1.1".to_string(), "Host: localhost".to_string()];
    let path = get_path_from_request(request);
    assert_eq!(path, "index.html");
    let body = b"<p/>\n".to_vec();
    let response = build_response(&path, &body);
    let expected: Vec<u8> =
        b"HTTP/1.1 200 OK \r\nContent-Type: text/html\r\nContent-Length: 5\r\n\r\n<p/>\n".to_vec();
    assert_eq!(response, expected);
}

#[test]
fn scenario_get_style_css() {
    let request = vec!["GET /style.css HTTP/1.1".to_string()];
    let path = get_path_from_request(request);
    assert_eq!(path, "/style.css");
    assert_eq!(static_file_path(&path), "public//style.css");
    assert_eq!(get_mimetype_from_path(&path), "text/css");
    let body = b"body { margin: 0; }".to_vec();
    let header = create_http_response(get_mimetype_from_path(&path), &body);
    assert_eq!(
        header,
        "HTTP/1.1 200 OK \r\nContent-Type: text/css\r\nContent-Length: 19\r\n\r\n"
    );
}
