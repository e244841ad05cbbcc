use giglog_devtools::db_sql::{
    delete_row_sql, fetch_rows_sql, insert_row_sql, limited_query_sql, normalize_query,
    qualified_table, query_returns_rows, quote_ident, update_row_sql, ColumnInfo, TableInfo,
};
use giglog_devtools::docs_index::{discover_assets, find_asset, render_html};
use giglog_devtools::env_setup::{
    accept_answer, choose_value, contains_placeholder_values, env_keys_needing_values,
    format_env_value, generate_jwt_secret, is_secret_key, needs_user_value, normalize_value,
    render_env_with_values, SetupOptions, ValueChoice,
};
use giglog_devtools::paths::{
    collection_path, cookie_jar_path, query_path, required_var_value, route_list_state_path,
    state_path, variables_path, workspace_env_path,
};

fn table() -> TableInfo {
    TableInfo { schema: "public".to_string(), name: "gi\"gs".to_string(), columns: vec![] }
}

#[test]
fn identifiers_are_quoted_with_inner_quotes_doubled() {
    assert_eq!(quote_ident("plain"), "\"plain\"");
    assert_eq!(quote_ident("a\"b"), "\"a\"\"b\"");
    assert_eq!(qualified_table("public", "gigs"), "\"public\".\"gigs\"");
}

#[test]
fn row_statements_are_built_from_the_columns() {
    assert_eq!(
        fetch_rows_sql(&table()),
        "SELECT ctid::text AS ctid, to_jsonb(t) AS row_json FROM \"public\".\"gi\"\"gs\" AS t LIMIT $1"
    );
    let cols = vec!["a".to_string(), "b".to_string()];
    assert_eq!(update_row_sql(&table(), &vec![]), None);
    assert_eq!(
        update_row_sql(&table(), &cols).unwrap(),
        "UPDATE \"public\".\"gi\"\"gs\" AS t SET \"a\" = r.\"a\", \"b\" = r.\"b\" FROM jsonb_populate_record(NULL::\"public\".\"gi\"\"gs\", $1::jsonb) AS r WHERE t.ctid = $2::tid"
    );
    assert_eq!(insert_row_sql(&table(), &vec![]), "INSERT INTO \"public\".\"gi\"\"gs\" DEFAULT VALUES");
    assert_eq!(
        insert_row_sql(&table(), &cols),
        "INSERT INTO \"public\".\"gi\"\"gs\" (\"a\", \"b\") SELECT r.\"a\", r.\"b\" FROM jsonb_populate_record(NULL::\"public\".\"gi\"\"gs\", $1::jsonb) AS r"
    );
    assert_eq!(delete_row_sql(&table()), "DELETE FROM \"public\".\"gi\"\"gs\" WHERE ctid = $1::tid");
}

#[test]
fn queries_are_normalized_and_classified() {
    assert_eq!(normalize_query("  select 1;; ").unwrap(), "select 1");
    assert_eq!(normalize_query(" ; ").unwrap_err(), "query is empty");
    assert!(query_returns_rows("  SELECT * from x"));
    assert!(query_returns_rows("Explain analyze"));
    assert!(!query_returns_rows("update x set a = 1"));
    assert_eq!(limited_query_sql("select 1", 50), "SELECT * FROM (select 1) AS q LIMIT 50");
}

#[test]
fn enum_columns_have_options() {
    let mut c = ColumnInfo {
        name: "status".to_string(),
        data_type: "USER-DEFINED".to_string(),
        udt_name: "status".to_string(),
        is_nullable: false,
        enum_options: vec![],
    };
    assert!(!c.is_enum());
    c.enum_options.push("active".to_string());
    assert!(c.is_enum());
}

fn options(dry_run: bool, non_interactive: bool) -> SetupOptions {
    SetupOptions { non_interactive, skip_db: false, skip_migrate: false, skip_build: false, dry_run, release: false }
}

#[test]
fn template_values_needing_input_are_found() {
    assert!(needs_user_value("JWT_SECRET", "anything"));
    assert!(needs_user_value("API_URL", "\"https://api.example.com\""));
    assert!(!needs_user_value("PORT", "8000"));
    assert_eq!(normalize_value("  \"quoted value\" "), "quoted value");
    assert_eq!(normalize_value("\""), "\"");
    assert!(is_secret_key("DB_PASSWORD"));
    assert!(!is_secret_key("PORT"));
    assert_eq!(format_env_value("two words"), "\"two words\"");
    assert_eq!(format_env_value("one"), "one");
    let text = "# comment\nPORT=8000\nEMAIL = your_email@example.com\nJWT_SECRET=\nnoequals\n";
    let keys = env_keys_needing_values(text);
    assert_eq!(
        keys,
        vec![
            ("EMAIL".to_string(), "your_email@example.com".to_string()),
            ("JWT_SECRET".to_string(), String::new()),
        ]
    );
}

#[test]
fn env_file_is_rendered_with_chosen_values() {
    let text = "# comment\nPORT=8000\nEMAIL = your_email@example.com\nJWT_SECRET=\n";
    let values = vec![
        ("EMAIL".to_string(), "me@site.org".to_string()),
        ("JWT_SECRET".to_string(), "s3cret".to_string()),
    ];
    let rendered = render_env_with_values(text, &values);
    assert_eq!(rendered, "# comment\nPORT=8000\nEMAIL=me@site.org\nJWT_SECRET=s3cret\n");
    assert!(!contains_placeholder_values(&rendered));
    assert!(contains_placeholder_values("X=\"YOUR_KEY\"\n"));
    assert!(!contains_placeholder_values("# X=your_key\n"));
}

#[test]
fn values_are_chosen_by_mode() {
    assert_eq!(choose_value("EMAIL", "a b", "web/.env.example", &options(true, false)), ValueChoice::Use("\"a b\"".to_string()));
    assert_eq!(choose_value("JWT_SECRET", "", "p", &options(false, true)), ValueChoice::Generate);
    assert_eq!(
        choose_value("EMAIL", "", "p/.env.example", &options(false, true)),
        ValueChoice::Refuse("Missing required value for EMAIL in p/.env.example while in --non-interactive mode".to_string())
    );
    assert_eq!(choose_value("DB_PASSWORD", "", "p", &options(false, false)), ValueChoice::Prompt { secret: true });
    assert_eq!(accept_answer("JWT_SECRET", "  "), ValueChoice::Generate);
    assert_eq!(accept_answer("EMAIL", " "), ValueChoice::Refuse("Value for EMAIL cannot be empty".to_string()));
    assert_eq!(accept_answer("EMAIL", "a@b.c"), ValueChoice::Use("a@b.c".to_string()));
}

#[test]
fn generated_secrets_are_64_alphanumeric_characters() {
    let a = generate_jwt_secret();
    let b = generate_jwt_secret();
    assert_eq!(a.chars().count(), 64);
    assert!(a.chars().all(|c| c.is_ascii_alphanumeric()));
    assert_ne!(a, b);
}

#[test]
fn data_paths_live_under_the_workspace_root() {
    assert_eq!(collection_path("/ws"), "/ws/.api-tester/collections.toml");
    assert_eq!(variables_path("/ws/"), "/ws/.api-tester/variables.toml");
    assert_eq!(cookie_jar_path("/ws"), "/ws/.api-tester/cookies.txt");
    assert_eq!(route_list_state_path("/ws"), "/ws/.api-tester/route-list-state.toml");
    assert_eq!(state_path("/ws"), "/ws/.db-viewer/state.toml");
    assert_eq!(query_path("/ws"), "/ws/.db-viewer/query.sql");
    assert_eq!(workspace_env_path("/ws"), "/ws/.env");
}

#[test]
fn required_variables_must_be_set_and_not_blank() {
    assert_eq!(required_var_value("DB", Some("postgres://x"), "/ws/.env").unwrap(), "postgres://x");
    let err = required_var_value("DB", Some("  "), "/ws/.env").unwrap_err();
    assert_eq!(
        err,
        "Missing required environment variable `DB`.\nTried process environment and /ws/.env.\nAdd `DB=...` to that .env file or export it before running the command."
    );
    assert!(required_var_value("DB", None, "/ws/.env").is_err());
}

#[test]
fn docs_assets_are_found_by_pattern() {
    let names = vec![
        "storage-1.js".to_string(),
        "normalize-2.css".to_string(),
        "rustdoc-3.css".to_string(),
        "main-4.js".to_string(),
        "search-5.js".to_string(),
        "stringdex-6.js".to_string(),
        "favicon-7.svg".to_string(),
        "favicon-32x32-8.png".to_string(),
        "noscript-9.css".to_string(),
    ];
    assert_eq!(find_asset(&names, "main-", ".js", "dir").unwrap(), "main-4.js");
    assert_eq!(
        find_asset(&names, "missing-", ".js", "dir").unwrap_err(),
        "Missing rustdoc asset matching pattern missing-*.js in dir"
    );
    let assets = discover_assets(&names, "dir").expect("all assets present");
    assert_eq!(assets.favicon_png, "favicon-32x32-8.png");
    let html = render_html(&assets);
    assert!(html.starts_with("<!DOCTYPE html>"));
    assert!(html.contains("href=\"static.files/normalize-2.css\""));
    assert!(html.contains("data-search-js=\"search-5.js\""));
    assert!(html.ends_with("</html>\n"));
}

#[test]
fn docs_assets_report_the_first_missing_pattern() {
    let names = vec![
        "normalize-2.css".to_string(),
        "main-b.js".to_string(),
        "main-a.js".to_string(),
        "search-5.js".to_string(),
    ];
    let err = match discover_assets(&names, "static") {
        Ok(_) => panic!("assets should be missing"),
        Err(e) => e,
    };
    assert_eq!(err, "Missing rustdoc asset matching pattern rustdoc-*.css in static");
    let mut all = vec![
        "storage-1.js".to_string(),
        "normalize-2.css".to_string(),
        "rustdoc-3.css".to_string(),
        "main-b.js".to_string(),
        "main-a.js".to_string(),
        "search-5.js".to_string(),
        "stringdex-6.js".to_string(),
        "favicon-7.svg".to_string(),
        "favicon-32x32-8.png".to_string(),
    ];
    match discover_assets(&all, "static") {
        Ok(_) => panic!("noscript asset should be missing"),
        Err(e) => assert_eq!(e, "Missing rustdoc asset matching pattern noscript-*.css in static"),
    }
    all.push("noscript-9.css".to_string());
    let assets = discover_assets(&all, "static").expect("all assets present");
    assert_eq!(assets.main_js, "main-a.js");
    assert_eq!(assets.favicon_svg, "favicon-7.svg");
}
