use giglog_devtools::collection::{HttpMethod, Route};
use giglog_devtools::preview_state::{
    build_preview_executor, build_request_preview_state, request_preview_lines,
};
use giglog_devtools::var_table::{
    collect_variable_tokens, scoped_route_used_global_keys, variable_table_entries,
    variable_value_mode_for_key,
};
use giglog_devtools::variables::{VariableMode, Variables};

fn strings(items: &[&str]) -> Vec<String> {
    items.iter().map(|s| s.to_string()).collect()
}

fn sample_variables() -> Variables {
    let mut vars = Variables::new();
    vars.add_with_mode("HOST".to_string(), "api.test".to_string(), VariableMode::Placeholder);
    vars.add_with_mode("TOKEN".to_string(), "secret".to_string(), VariableMode::Hidden);
    vars.add_with_mode("UNUSED".to_string(), "x".to_string(), VariableMode::Placeholder);
    vars.scoped_add_with_mode("route_a", "HOST".to_string(), "local".to_string(), VariableMode::Placeholder);
    vars.scoped_add_with_mode("route_a", "ONLY".to_string(), "mine".to_string(), VariableMode::Hidden);
    vars
}

fn sample_route() -> Route {
    Route {
        group: "general".to_string(),
        scope_id: "route_a".to_string(),
        name: "login".to_string(),
        method: HttpMethod::Post,
        url: "https://{{HOST}}/login".to_string(),
        headers: vec!["Authorization: Bearer {{TOKEN}}".to_string()],
        body: Some("user={{ONLY}}".to_string()),
    }
}

#[test]
fn tokens_are_collected_sorted_and_trimmed() {
    let mut out = Vec::new();
    collect_variable_tokens("{{ b }} and {{a}} and {{}} and {{b}} then {{open", &mut out);
    assert_eq!(out, strings(&["a", "b"]));
}

#[test]
fn tokens_after_an_unclosed_brace_are_ignored() {
    let mut out = strings(&["z"]);
    collect_variable_tokens("{{x}} {{ y", &mut out);
    assert_eq!(out, strings(&["x", "z"]));
}

#[test]
fn used_global_keys_cover_url_headers_and_body() {
    let vars = sample_variables();
    let keys = scoped_route_used_global_keys(
        &vars,
        "https://{{HOST}}/{{MISSING}}",
        "A: {{TOKEN}}, , B: {{HOST}}",
        Some("{{UNUSED}}"),
    );
    assert_eq!(keys, strings(&["HOST", "TOKEN", "UNUSED"]));

    let none = scoped_route_used_global_keys(&vars, "plain", "", None);
    assert!(none.is_empty());
}

#[test]
fn global_rows_list_every_global_variable() {
    let vars = sample_variables();
    let rows = variable_table_entries(&vars, None, &strings(&["TOKEN"]));
    assert_eq!(
        rows,
        vec![
            ("HOST".to_string(), "api.test".to_string(), VariableMode::Placeholder, "global".to_string()),
            ("TOKEN".to_string(), "secret".to_string(), VariableMode::Hidden, "global".to_string()),
            ("UNUSED".to_string(), "x".to_string(), VariableMode::Placeholder, "global".to_string()),
        ]
    );
}

#[test]
fn scoped_rows_merge_scope_and_used_globals() {
    let vars = sample_variables();
    let rows = variable_table_entries(&vars, Some("route_a"), &strings(&["TOKEN", "HOST", "MISSING"]));
    assert_eq!(
        rows,
        vec![
            ("HOST".to_string(), "local".to_string(), VariableMode::Placeholder, "scoped".to_string()),
            ("ONLY".to_string(), "mine".to_string(), VariableMode::Hidden, "scoped".to_string()),
            ("TOKEN".to_string(), "secret".to_string(), VariableMode::Hidden, "global".to_string()),
        ]
    );
}

#[test]
fn scoped_rows_of_an_unknown_scope_hold_only_used_globals() {
    let vars = sample_variables();
    let rows = variable_table_entries(&vars, Some("nope"), &strings(&["UNUSED"]));
    assert_eq!(
        rows,
        vec![("UNUSED".to_string(), "x".to_string(), VariableMode::Placeholder, "global".to_string())]
    );
}

#[test]
fn value_and_mode_prefer_the_scope() {
    let vars = sample_variables();
    assert_eq!(
        variable_value_mode_for_key(&vars, Some("route_a"), "HOST"),
        Some(("local".to_string(), VariableMode::Placeholder))
    );
    assert_eq!(
        variable_value_mode_for_key(&vars, Some("route_a"), "TOKEN"),
        Some(("secret".to_string(), VariableMode::Hidden))
    );
    assert_eq!(
        variable_value_mode_for_key(&vars, None, "HOST"),
        Some(("api.test".to_string(), VariableMode::Placeholder))
    );
    assert_eq!(variable_value_mode_for_key(&vars, None, "ONLY"), None);
}

#[test]
fn preview_masks_hidden_values_for_display_only() {
    let vars = sample_variables();
    let routes = vec![sample_route()];
    let preview = build_request_preview_state(&vars, &routes, 0).expect("route exists");
    assert_eq!(preview.route_index, 0);
    assert_eq!(preview.route_name, "login");
    assert_eq!(preview.display_url, "https://local/login");
    assert_eq!(preview.execution_url, "https://local/login");
    assert_eq!(preview.display_headers, strings(&["Authorization: Bearer hidden"]));
    assert_eq!(preview.execution_headers, strings(&["Authorization: Bearer secret"]));
    assert_eq!(preview.display_body, Some("user=hidden".to_string()));
    assert_eq!(preview.execution_body, Some("user=mine".to_string()));

    assert!(build_request_preview_state(&vars, &routes, 1).is_none());
}

#[test]
fn preview_lines_show_method_url_headers_and_body() {
    let vars = sample_variables();
    let routes = vec![sample_route()];
    let preview = build_request_preview_state(&vars, &routes, 0).expect("route exists");
    assert_eq!(
        request_preview_lines(&preview),
        strings(&[
            "POST   login",
            "URL: https://local/login",
            "",
            "Headers:",
            "  - Authorization: Bearer hidden",
            "",
            "Body (hidden values masked):",
            "user=hidden",
        ])
    );
}

#[test]
fn preview_lines_mark_missing_headers_and_body() {
    let vars = Variables::new();
    let mut route = sample_route();
    route.headers = vec![];
    route.body = Some("   ".to_string());
    let preview = build_request_preview_state(&vars, &vec![route], 0).expect("route exists");
    assert_eq!(preview.display_body, None);
    assert_eq!(
        request_preview_lines(&preview),
        strings(&[
            "POST   login",
            "URL: https://{{HOST}}/login",
            "",
            "Headers:",
            "  (none)",
            "",
            "Body (hidden values masked):",
            "  (empty)",
        ])
    );
}

#[test]
fn preview_executor_sends_the_execution_values() {
    let vars = sample_variables();
    let routes = vec![sample_route()];
    let preview = build_request_preview_state(&vars, &routes, 0).expect("route exists");
    let (index, executor) = build_preview_executor(&preview);
    assert_eq!(index, 0);
    let text = executor.curl_config_text("jar");
    assert!(text.contains("header = \"Authorization: Bearer secret\""));
    assert!(text.contains("data = \"user=mine\""));
    assert!(text.contains("url = \"https://local/login\""));
}
