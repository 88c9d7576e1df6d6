use portiq::proxy::{
    bad_gateway_body, forwarded_for, forwarded_proto, forwards_body, outbound_url, relay_response_headers,
    request_host, routing_host, set_proxy_headers,
};

fn headers(pairs: &[(&str, &str)]) -> Vec<(String, String)> {
    pairs.iter().map(|(n, v)| (n.to_string(), v.to_string())).collect()
}

#[test]
fn forwarded_for_appends_client_ip() {
    let original = headers(&[("X-Forwarded-For", "1.2.3.4")]);
    let set = set_proxy_headers("10.0.0.1", "api.example.com", "http", &original);
    assert_eq!(set[0], ("x-forwarded-for".to_string(), "1.2.3.4,10.0.0.1".to_string()));
}

#[test]
fn forwarded_headers_set_when_absent() {
    let set = set_proxy_headers("10.0.0.1", "api.example.com", "https", &vec![]);
    assert_eq!(
        set,
        headers(&[
            ("x-forwarded-for", "10.0.0.1"),
            ("x-forwarded-host", "api.example.com"),
            ("x-forwarded-proto", "https"),
        ])
    );
}

#[test]
fn existing_forwarded_host_and_proto_are_kept() {
    let original = headers(&[("x-forwarded-host", "edge"), ("X-Forwarded-Proto", "https")]);
    let set = set_proxy_headers("10.0.0.1", "api.example.com", "http", &original);
    assert_eq!(set, headers(&[("x-forwarded-for", "10.0.0.1")]));
}

#[test]
fn forwarded_for_value() {
    assert_eq!(forwarded_for(Some("1.2.3.4"), "10.0.0.1"), "1.2.3.4,10.0.0.1");
    assert_eq!(forwarded_for(None, "10.0.0.1"), "10.0.0.1");
}

#[test]
fn outbound_url_joins_base_and_path() {
    assert_eq!(outbound_url("http://localhost:5000", "/v1/hello?x=1"), "http://localhost:5000/v1/hello?x=1");
}

#[test]
fn host_prefers_header_over_authority() {
    assert_eq!(request_host(Some("a.example.com"), Some("b.example.com")), Some("a.example.com".to_string()));
    assert_eq!(request_host(None, Some("b.example.com")), Some("b.example.com".to_string()));
    assert_eq!(request_host(None, None), None);
}

#[test]
fn proto_is_https_only_for_https() {
    assert_eq!(forwarded_proto(Some("https")), "https");
    assert_eq!(forwarded_proto(Some("http")), "http");
    assert_eq!(forwarded_proto(None), "http");
}

#[test]
fn body_forwarded_for_post_put_patch() {
    assert!(forwards_body("POST"));
    assert!(forwards_body("PUT"));
    assert!(forwards_body("PATCH"));
    assert!(!forwards_body("GET"));
    assert!(!forwards_body("DELETE"));
}

#[test]
fn server_header_is_overwritten() {
    let up = headers(&[("content-type", "text/plain"), ("server", "nginx"), ("x-a", "1")]);
    assert_eq!(
        relay_response_headers(&up),
        headers(&[("content-type", "text/plain"), ("x-a", "1"), ("Server", "portiq")])
    );
    assert_eq!(relay_response_headers(&vec![]), headers(&[("Server", "portiq")]));
}

#[test]
fn bad_gateway_page_names_status_and_product() {
    let body = bad_gateway_body();
    assert!(body.starts_with("<!DOCTYPE html>"));
    assert!(body.contains("<title>502 Bad Gateway</title>"));
    assert!(body.contains("portiq"));
}

#[test]
fn routing_host_drops_port() {
    assert_eq!(routing_host("api.example.com:3000"), "api.example.com");
    assert_eq!(routing_host("api.example.com"), "api.example.com");
    assert_eq!(routing_host("[::1]:8080"), "[::1]");
    assert_eq!(routing_host("[::1]"), "[::1]");
    assert_eq!(routing_host("host:"), "host");
}
