use shared::embedded::{
    embedded_response, found_response, not_found_response, request_file_path, STATUS_NOT_FOUND,
    STATUS_OK,
};

#[test]
fn root_names_the_index() {
    assert_eq!(request_file_path("/"), "index.html");
}

#[test]
fn other_paths_lose_their_slash() {
    assert_eq!(request_file_path("/pkg/client.js"), "pkg/client.js");
    assert_eq!(request_file_path("//"), "/");
    assert_eq!(request_file_path("/index.html"), "index.html");
    assert_eq!(request_file_path("/caf\u{e9}"), "caf\u{e9}");
}

#[test]
fn found_asset_is_served_with_its_type() {
    let r = embedded_response("index.html", Some(b"<html></html>".to_vec()));
    assert_eq!(r.status, 200);
    assert_eq!(r.content_type, "text/html");
    assert_eq!(r.body, b"<html></html>".to_vec());

    let r = embedded_response("pkg/client_bg.wasm", Some(vec![0, 0x61, 0x73, 0x6d]));
    assert_eq!(r.status, STATUS_OK);
    assert_eq!(r.content_type, "application/wasm");
    assert_eq!(r.body, vec![0, 0x61, 0x73, 0x6d]);

    let r = embedded_response("style.css", Some(Vec::new()));
    assert_eq!(r.content_type, "text/css");
    assert!(r.body.is_empty());
}

#[test]
fn asset_without_extension_is_an_octet_stream() {
    let r = embedded_response("LICENSE", Some(b"text".to_vec()));
    assert_eq!(r.status, 200);
    assert_eq!(r.content_type, "application/octet-stream");
}

#[test]
fn missing_asset_is_not_found() {
    let r = embedded_response("missing.js", None);
    assert_eq!(r.status, 404);
    assert_eq!(r.content_type, "text/plain; charset=utf-8");
    assert_eq!(r.body, b"404".to_vec());
    let n = not_found_response();
    assert_eq!(n.status, STATUS_NOT_FOUND);
    assert_eq!(n.body, b"404".to_vec());
}

#[test]
fn found_response_keeps_its_parts() {
    let r = found_response(vec![1, 2, 3], "image/png".to_string());
    assert_eq!(r.status, STATUS_OK);
    assert_eq!(r.content_type, "image/png");
    assert_eq!(r.body, vec![1, 2, 3]);
}
