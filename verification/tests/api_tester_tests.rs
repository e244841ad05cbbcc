use giglog_devtools::collection::{normalize_group_name, Collection, HttpMethod, Route, StoredGroup};
use giglog_devtools::executor::{escape_curl_config_value, parse_response, CurlExecutor, CurlResponse};
use giglog_devtools::variables::{VariableMode, Variables};

fn route_with_template() -> Route {
    Route {
        group: "general".to_string(),
        scope_id: "route_test".to_string(),
        name: "test".to_string(),
        method: HttpMethod::Post,
        url: "https://example.com/{{PATH}}".to_string(),
        headers: vec!["Authorization: Bearer {{TOKEN}}".to_string()],
        body: Some("{\"token\":\"{{TOKEN}}\"}".to_string()),
    }
}

#[test]
fn templated_execution_substitutes_variables() {
    let mut variables = Variables::default();
    variables.add_with_mode("PATH".to_string(), "login".to_string(), VariableMode::Placeholder);
    variables.add_with_mode("TOKEN".to_string(), "secret-token".to_string(), VariableMode::Hidden);

    let executor = CurlExecutor::new(route_with_template(), variables);
    let config_text = executor.curl_config_text("cookies.txt");

    assert!(config_text.contains("header = \"Authorization: Bearer secret-token\""));
    assert!(config_text.contains("data = \"{\\\"token\\\":\\\"secret-token\\\"}\""));
    assert!(config_text.contains("url = \"https://example.com/login\""));
}

#[test]
fn prepared_execution_sends_values_as_is() {
    let executor = CurlExecutor::from_prepared(route_with_template());
    let config_text = executor.curl_config_text("cookies.txt");

    assert!(config_text.contains("header = \"Authorization: Bearer {{TOKEN}}\""));
    assert!(config_text.contains("data = \"{\\\"token\\\":\\\"{{TOKEN}}\\\"}\""));
    assert!(config_text.contains("url = \"https://example.com/{{PATH}}\""));
}

#[test]
fn curl_config_has_every_entry_in_order() {
    let mut route = route_with_template();
    route.body = Some(String::new());
    let executor = CurlExecutor::from_prepared(route);
    let text = executor.curl_config_text("/tmp/c\"j");
    assert_eq!(
        text,
        "silent\nrequest = \"POST\"\nheader = \"Authorization: Bearer {{TOKEN}}\"\ncookie = \"/tmp/c\\\"j\"\ncookie-jar = \"/tmp/c\\\"j\"\ndump-header = \"-\"\nwrite-out = \"\\n%{http_code}\"\nurl = \"https://example.com/{{PATH}}\"\n"
    );
}

#[test]
fn escaping_covers_quotes_backslashes_and_control_characters() {
    assert_eq!(escape_curl_config_value("a\\b\"c\nd\re\tf"), "a\\\\b\\\"c\\nd\\re\\tf");
    assert_eq!(escape_curl_config_value("plain"), "plain");
}

#[test]
fn curl_output_is_parsed_into_status_headers_and_body() {
    let raw = "HTTP/1.1 301 Moved\r\nLocation: x\r\n\r\nHTTP/1.1 200 OK\r\nContent-Type: text/plain\r\nX-A: 1\r\n\r\nhello\n200\n";
    let response = parse_response(raw).expect("parses");
    assert_eq!(
        response,
        CurlResponse {
            status_code: 200,
            headers: vec!["Content-Type: text/plain".to_string(), "X-A: 1".to_string()],
            body: "hello".to_string(),
        }
    );
}

#[test]
fn curl_output_errors() {
    assert_eq!(
        parse_response("no newline").unwrap_err(),
        "missing HTTP status suffix from curl output"
    );
    assert_eq!(parse_response("body\nabc").unwrap_err(), "failed to parse HTTP status code");
    let r = parse_response("just body\n404").expect("parses");
    assert_eq!(r.status_code, 404);
    assert!(r.headers.is_empty());
    assert_eq!(r.body, "just body");
}

#[test]
fn http_methods_parse_in_any_case_and_print_uppercase() {
    assert_eq!(HttpMethod::parse("get"), Ok(HttpMethod::Get));
    assert_eq!(HttpMethod::parse("Patch"), Ok(HttpMethod::Patch));
    assert_eq!("delete".parse::<HttpMethod>(), Ok(HttpMethod::Delete));
    assert_eq!(HttpMethod::parse("fetch").unwrap_err(), "Invalid HTTP method: fetch");
    assert_eq!(HttpMethod::Put.label(), "PUT");
    assert_eq!(HttpMethod::Post.label(), "POST");
}

fn route(group: &str, name: &str, scope: &str) -> Route {
    Route {
        group: group.to_string(),
        scope_id: scope.to_string(),
        name: name.to_string(),
        method: HttpMethod::Get,
        url: "https://example.com".to_string(),
        headers: vec![],
        body: None,
    }
}

#[test]
fn group_names_are_normalized_sorted_and_unique() {
    assert_eq!(normalize_group_name("  users "), "users");
    assert_eq!(normalize_group_name("   "), "general");
    let mut c = Collection::new();
    c.add_route(route("zeta", "a", "s1"));
    c.add_route(route(" alpha ", "b", "s2"));
    c.add_route(route("", "c", "s3"));
    c.add_route(route("zeta", "d", "s4"));
    assert_eq!(c.group_names(), vec!["alpha".to_string(), "general".to_string(), "zeta".to_string()]);
}

#[test]
fn blank_scope_ids_get_fresh_generated_ids() {
    let mut c = Collection::new();
    c.add_route(route("g", "a", " "));
    c.add_route(route("g", "b", ""));
    let a = c.routes[0].scope_id.clone();
    let b = c.routes[1].scope_id.clone();
    assert!(a.starts_with("route_"));
    assert_eq!(a.len(), 14);
    assert!(a[6..].chars().all(|ch| ch.is_ascii_hexdigit()));
    assert_ne!(a, b);
    let fresh = c.new_scope_id();
    assert_ne!(fresh, a);
    assert_ne!(fresh, b);
}

#[test]
fn update_and_delete_check_the_index() {
    let mut c = Collection::new();
    c.add_route(route("g", "a", "s1"));
    assert_eq!(
        c.update_route(3, route("h", "x", "s9")).unwrap_err(),
        "route index out of bounds: 3"
    );
    assert!(c.update_route(0, route(" h ", "x", "s9")).is_ok());
    assert_eq!(c.routes[0].group, "h");
    assert_eq!(c.routes[0].name, "x");
    assert_eq!(c.delete_route(1).unwrap_err(), "route index out of bounds: 1");
    assert!(c.delete_route(0).is_ok());
    assert!(c.routes.is_empty());
}

#[test]
fn storage_groups_follow_first_appearance_and_normalize_names() {
    let mut c = Collection::new();
    c.routes.push(route(" b ", "one", "s1"));
    c.routes.push(route("a", "two", "s2"));
    c.routes.push(route("b", "three", "s3"));
    c.routes.push(route("", "four", "s4"));
    let groups = c.grouped_for_storage();
    let names: Vec<&str> = groups.iter().map(|g| g.name.as_str()).collect();
    assert_eq!(names, vec!["b", "a", "general"]);
    let b_routes: Vec<&str> = groups[0].routes.iter().map(|r| r.name.as_str()).collect();
    assert_eq!(b_routes, vec!["one", "three"]);
    assert_eq!(groups[2].routes[0].name, "four");
}

#[test]
fn stored_groups_read_back_in_file_order() {
    let groups = vec![
        StoredGroup { name: " auth ".to_string(), routes: vec![route("", "login", "s1"), route("x", "logout", "s2")] },
        StoredGroup { name: "".to_string(), routes: vec![route("y", "health", "s3")] },
    ];
    let c = Collection::from_stored_groups(groups);
    let read: Vec<(&str, &str)> = c.routes.iter().map(|r| (r.group.as_str(), r.name.as_str())).collect();
    assert_eq!(read, vec![("auth", "login"), ("auth", "logout"), ("general", "health")]);
}

#[test]
fn fresh_scope_ids_have_exactly_eight_hex_digits() {
    let mut c = Collection::new();
    for i in 0..20 {
        c.add_route(route("g", &format!("r{i}"), ""));
    }
    for r in &c.routes {
        assert_eq!(r.scope_id.len(), 14);
        assert!(r.scope_id.starts_with("route_"));
        assert!(r.scope_id[6..].chars().all(|ch| ch.is_ascii_digit() || ('a'..='f').contains(&ch)));
    }
    let id = c.new_scope_id();
    assert_eq!(id.len(), 14);
    assert!(c.routes.iter().all(|r| r.scope_id != id));
}

#[test]
fn loading_what_was_saved_restores_stored_routes() {
    let mut c = Collection::new();
    c.routes.push(route("auth", "login", "s1"));
    c.routes.push(route("auth", "logout", "s2"));
    c.routes.push(route("general", "health", "s3"));
    let back = Collection::from_stored_groups(c.grouped_for_storage());
    let before: Vec<(String, String, String)> =
        c.routes.iter().map(|r| (r.group.clone(), r.name.clone(), r.scope_id.clone())).collect();
    let after: Vec<(String, String, String)> =
        back.routes.iter().map(|r| (r.group.clone(), r.name.clone(), r.scope_id.clone())).collect();
    assert_eq!(before, after);
}
