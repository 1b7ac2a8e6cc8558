use coviz::quick::{
    http_response_head, quick_reply, quick_workspace_name, request_path_of, route_request, QuickAsset, QuickReply,
};

fn path_of(request: &str) -> String {
    request_path_of(request).into_iter().collect()
}

#[test]
fn routes_viewer_requests() {
    assert_eq!(route_request("GET / HTTP/1.1\r\nHost: x\r\n\r\n"), Some(QuickAsset::Index));
    assert_eq!(route_request("GET /index.html HTTP/1.1\r\n"), Some(QuickAsset::Index));
    assert_eq!(route_request("GET /graph.json?t=1 HTTP/1.1\r\n"), Some(QuickAsset::GraphJson));
    assert_eq!(route_request("GET /graph.dot HTTP/1.1"), Some(QuickAsset::GraphDot));
    assert_eq!(route_request("GET   /graph.svg   HTTP/1.1\n"), Some(QuickAsset::GraphSvg));
    assert_eq!(route_request("GET /source.json HTTP/1.1\r\n"), None);
    assert_eq!(route_request(""), Some(QuickAsset::Index));
    assert_eq!(route_request("GET"), Some(QuickAsset::Index));
}

#[test]
fn extracts_request_paths() {
    assert_eq!(path_of("GET /a/b?c=d HTTP/1.1\r\nX: y"), "/a/b");
    assert_eq!(path_of("\tGET\u{3000}/wide HTTP/1.1"), "/wide");
    assert_eq!(path_of("GET\r\n/next-line"), "/");
    assert_eq!(path_of("GET ?only"), "");
}

#[test]
fn names_assets() {
    assert_eq!(QuickAsset::Index.file_name(), "index.html");
    assert_eq!(QuickAsset::GraphSvg.content_type(), "image/svg+xml; charset=utf-8");
    assert_eq!(QuickAsset::GraphJson.content_type(), "application/json; charset=utf-8");
    assert_eq!(QuickAsset::GraphSvg.missing_body(), Some("graph.svg not found\n"));
    assert_eq!(QuickAsset::GraphDot.missing_body(), None);
}

#[test]
fn writes_response_heads() {
    assert_eq!(
        http_response_head("200 OK", "text/plain; charset=utf-8", 1234),
        "HTTP/1.1 200 OK\r\nContent-Type: text/plain; charset=utf-8\r\nContent-Length: 1234\r\nConnection: close\r\n\r\n"
    );
    assert_eq!(
        http_response_head("404 Not Found", "text/plain; charset=utf-8", 0),
        "HTTP/1.1 404 Not Found\r\nContent-Type: text/plain; charset=utf-8\r\nContent-Length: 0\r\nConnection: close\r\n\r\n"
    );
}

#[test]
fn names_quick_workspaces() {
    assert_eq!(quick_workspace_name(1700000000123, 42), "coviz-1700000000123-42");
    assert_eq!(quick_workspace_name(0, 0), "coviz-0-0");
}

#[test]
fn replies_choose_status_and_body() {
    let index = quick_reply(Some(QuickAsset::Index), true).unwrap();
    assert_eq!(index, QuickReply::File(QuickAsset::Index));
    assert_eq!(index.status(), "200 OK");
    assert_eq!(index.content_type(), "text/html; charset=utf-8");
    let missing = quick_reply(None, false).unwrap();
    assert_eq!(missing, QuickReply::NotFound("not found\n"));
    assert_eq!(missing.status(), "404 Not Found");
    assert_eq!(missing.content_type(), "text/plain; charset=utf-8");
    assert_eq!(quick_reply(Some(QuickAsset::GraphSvg), false), Some(QuickReply::NotFound("graph.svg not found\n")));
    assert_eq!(quick_reply(Some(QuickAsset::GraphJson), false), None);
    assert_eq!(quick_reply(Some(QuickAsset::GraphDot), true).unwrap().content_type(), "text/vnd.graphviz; charset=utf-8");
}

#[test]
fn other_paths_have_no_asset() {
    assert_eq!(route_request("GET /../../etc/passwd HTTP/1.1\r\n"), None);
    assert_eq!(route_request("GET /source.json HTTP/1.1\r\n"), None);
    assert_eq!(quick_reply(route_request("GET /source.json HTTP/1.1\r\n"), false), Some(QuickReply::NotFound("not found\n")));
    assert_eq!(QuickAsset::GraphSvg.file_name(), "graph.svg");
}
