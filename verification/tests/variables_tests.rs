use giglog_devtools::variables::{VariableMode, Variables};

#[test]
fn preview_substitution_masks_hidden_variables() {
    let mut variables = Variables::default();
    variables.add_with_mode(
        "API_TOKEN".to_string(),
        "secret-token".to_string(),
        VariableMode::Hidden,
    );
    variables.add_with_mode(
        "API_HOST".to_string(),
        "https://api.example.com".to_string(),
        VariableMode::Placeholder,
    );

    let preview =
        variables.substitute_for_preview_with_scope("Token={{API_TOKEN}} Host={{API_HOST}}", None);
    assert_eq!(preview, "Token=hidden Host=https://api.example.com");
}

#[test]
fn execution_substitution_uses_real_values_for_all_modes() {
    let mut variables = Variables::default();
    variables.add_with_mode(
        "API_TOKEN".to_string(),
        "secret-token".to_string(),
        VariableMode::Hidden,
    );
    variables.add_with_mode(
        "API_HOST".to_string(),
        "https://api.example.com".to_string(),
        VariableMode::Placeholder,
    );

    let execution = variables.substitute_for_execution("Token={{API_TOKEN}} Host={{API_HOST}}");
    assert_eq!(execution, "Token=secret-token Host=https://api.example.com");
}

#[test]
fn substitution_keeps_unknown_variables() {
    let variables = Variables::default();

    let preview = variables.substitute_for_preview_with_scope("{{MISSING}} and {{KNOWN}}", None);
    let execution = variables.substitute_for_execution("{{MISSING}} and {{KNOWN}}");

    assert_eq!(preview, "{{MISSING}} and {{KNOWN}}");
    assert_eq!(execution, "{{MISSING}} and {{KNOWN}}");
}

#[test]
fn redaction_masks_hidden_values_but_keeps_placeholder_values() {
    let mut variables = Variables::default();
    variables.add_with_mode(
        "EMAIL".to_string(),
        "you@example.com".to_string(),
        VariableMode::Placeholder,
    );
    variables.add_with_mode(
        "LOGIN_PASSWORD".to_string(),
        "super-secret".to_string(),
        VariableMode::Hidden,
    );

    let input = "email=you@example.com password=super-secret";
    let redacted = variables.redact_hidden_values_with_scope(input, None);

    assert_eq!(redacted, "email=you@example.com password=hidden");
}

#[test]
fn redaction_masks_longer_hidden_values_first() {
    let mut variables = Variables::default();
    variables.add_with_mode(
        "TOKEN_SUFFIX".to_string(),
        "abc".to_string(),
        VariableMode::Hidden,
    );
    variables.add_with_mode(
        "TOKEN_FULL".to_string(),
        "abc123".to_string(),
        VariableMode::Hidden,
    );

    let redacted = variables.redact_hidden_values_with_scope("value=abc123", None);
    assert_eq!(redacted, "value=hidden");
}

#[test]
fn scoped_substitution_overrides_global_values() {
    let scope_id = "route_abc123";
    let mut variables = Variables::default();
    variables.add_with_mode(
        "EMAIL".to_string(),
        "global@example.com".to_string(),
        VariableMode::Placeholder,
    );
    variables.scoped_add_with_mode(
        scope_id,
        "EMAIL".to_string(),
        "scoped@example.com".to_string(),
        VariableMode::Placeholder,
    );
    variables.scoped_add_with_mode(
        scope_id,
        "LOGIN_PASSWORD".to_string(),
        "scoped-secret".to_string(),
        VariableMode::Hidden,
    );

    assert_eq!(
        variables.substitute_for_execution_with_scope("{{EMAIL}}", Some(scope_id)),
        "scoped@example.com"
    );
    assert_eq!(
        variables.substitute_for_preview_with_scope("{{EMAIL}} {{LOGIN_PASSWORD}}", Some(scope_id)),
        "scoped@example.com hidden"
    );
}

#[test]
fn scoped_redaction_respects_scope_override_mode() {
    let scope_id = "route_abc123";
    let mut variables = Variables::default();
    variables.add_with_mode(
        "TOKEN".to_string(),
        "global-token".to_string(),
        VariableMode::Hidden,
    );
    variables.scoped_add_with_mode(
        scope_id,
        "TOKEN".to_string(),
        "route-token".to_string(),
        VariableMode::Placeholder,
    );

    let redacted =
        variables.redact_hidden_values_with_scope("global-token route-token", Some(scope_id));
    assert_eq!(redacted, "global-token route-token");
}

#[test]
fn delete_scope_removes_all_scoped_variables_for_route() {
    let mut variables = Variables::default();
    variables.scoped_add_with_mode(
        "route_abc123",
        "TOKEN".to_string(),
        "secret".to_string(),
        VariableMode::Hidden,
    );

    variables.delete_scope("route_abc123");

    assert!(variables.scoped_entries("route_abc123").is_empty());
}

#[test]
fn single_placeholder_resolves_to_its_value() {
    let mut variables = Variables::default();
    variables.add_with_mode("HOST".to_string(), "example.org".to_string(), VariableMode::Hidden);
    assert_eq!(variables.substitute_for_execution("{{HOST}}"), "example.org");
    assert_eq!(variables.substitute_for_preview_with_scope("{{HOST}}", None), "hidden");
    assert_eq!(variables.substitute_for_execution("{{ HOST }}"), "example.org");
}

#[test]
fn text_without_placeholders_is_unchanged() {
    let mut variables = Variables::default();
    variables.add_with_mode("A".to_string(), "1".to_string(), VariableMode::Placeholder);
    assert_eq!(variables.substitute_for_execution("plain {text}"), "plain {text}");
}

#[test]
fn scoped_value_overrides_global_and_deleting_scope_restores_global() {
    let mut variables = Variables::default();
    variables.add_with_mode("K".to_string(), "global".to_string(), VariableMode::Placeholder);
    variables.scoped_add_with_mode("s1", "K".to_string(), "scoped".to_string(), VariableMode::Placeholder);
    assert_eq!(variables.substitute_for_execution_with_scope("{{K}}", Some("s1")), "scoped");
    variables.delete_scope("s1");
    assert_eq!(variables.substitute_for_execution_with_scope("{{K}}", Some("s1")), "global");
    assert_eq!(variables.scoped_mode("s1", "K"), None);
}

#[test]
fn redaction_without_hidden_values_is_identity() {
    let mut variables = Variables::default();
    variables.add_with_mode("K".to_string(), "value".to_string(), VariableMode::Placeholder);
    assert_eq!(variables.redact_hidden_values_with_scope("a value here", None), "a value here");
}

#[test]
fn crud_operations_on_global_and_scoped_variables() {
    let mut variables = Variables::default();
    variables.add_with_mode("B".to_string(), "2".to_string(), VariableMode::Hidden);
    variables.add_with_mode("A".to_string(), "1".to_string(), VariableMode::Placeholder);
    assert_eq!(variables.get("A"), Some(&"1".to_string()));
    assert_eq!(variables.mode("B"), Some(VariableMode::Hidden));
    let entries = variables.entries();
    assert_eq!(entries.len(), 2);
    assert_eq!(entries[0].0, "A");
    variables.delete("A");
    assert_eq!(variables.get("A"), None);
    variables.scoped_add_with_mode("s", "X".to_string(), "x".to_string(), VariableMode::Hidden);
    assert_eq!(variables.scoped_get("s", "X"), Some(&"x".to_string()));
    assert_eq!(variables.scoped_mode("s", "X"), Some(VariableMode::Hidden));
    variables.scoped_delete("s", "X");
    assert_eq!(variables.scoped_get("s", "X"), None);
    assert_eq!(VariableMode::default(), VariableMode::Placeholder);
}

#[test]
fn redaction_orders_hidden_values_by_utf8_length() {
    let mut variables = Variables::default();
    variables.add_with_mode("ACCENTED".to_string(), "ééé".to_string(), VariableMode::Hidden);
    variables.add_with_mode("MIXED".to_string(), "éabc".to_string(), VariableMode::Hidden);

    let redacted = variables.redact_hidden_values_with_scope("éééabc", None);
    assert_eq!(redacted, "hiddenabc");
}

#[test]
fn scoped_delete_removes_only_that_key() {
    let mut variables = Variables::default();
    variables.add_with_mode("HOST".to_string(), "global".to_string(), VariableMode::Placeholder);
    variables.scoped_add_with_mode("s1", "A".to_string(), "1".to_string(), VariableMode::Placeholder);
    variables.scoped_add_with_mode("s1", "B".to_string(), "2".to_string(), VariableMode::Placeholder);
    variables.scoped_add_with_mode("s2", "A".to_string(), "3".to_string(), VariableMode::Placeholder);

    variables.scoped_delete("s1", "A");
    assert_eq!(variables.scoped_get("s1", "A"), None);
    assert_eq!(variables.scoped_get("s1", "B").map(String::as_str), Some("2"));
    assert_eq!(variables.scoped_get("s2", "A").map(String::as_str), Some("3"));
    assert_eq!(variables.get("HOST").map(String::as_str), Some("global"));

    variables.scoped_delete("s1", "B");
    assert!(variables.scoped_entries("s1").is_empty());
    variables.scoped_delete("missing", "A");
    assert_eq!(variables.scoped_get("s2", "A").map(String::as_str), Some("3"));
}

#[test]
fn empty_hidden_values_leave_redaction_unchanged() {
    let mut variables = Variables::default();
    variables.add_with_mode("E".to_string(), "".to_string(), VariableMode::Hidden);
    variables.add_with_mode("P".to_string(), "abc".to_string(), VariableMode::Placeholder);
    assert_eq!(variables.redact_hidden_values_with_scope("abc def", None), "abc def");
    assert_eq!(variables.redact_hidden_values_with_scope("", Some("r")), "");
}

#[test]
fn scoped_lookup_does_not_fall_back_to_globals() {
    let mut variables = Variables::default();
    variables.add_with_mode("A".to_string(), "1".to_string(), VariableMode::Placeholder);
    assert_eq!(variables.scoped_get("r", "A"), None);
    assert_eq!(variables.substitute_for_execution_with_scope("{{A}}", Some("r")), "1");
}
