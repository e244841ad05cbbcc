use giglog_devtools::ansi::normalize_ansi_for_tui;
use giglog_devtools::log_store::Service;
use giglog_devtools::orchestrator::{
    build_wait_over, describe_batch, drain_trunk_events, parse_trunk_event, service_command,
    BatchRun, BatchStep, BuildWait, TrunkEvent, WEB_LOG_RELAY_BACKEND_URL,
    WEB_LOG_RELAY_PROXY_PATH,
};
use giglog_devtools::watcher::{classify_path, Intent, IntentBatch};

#[test]
fn parses_trunk_success_line() {
    let line = "2026-03-12T07:47:41.435056Z  INFO ✅ success";
    assert!(matches!(parse_trunk_event(line), Some(TrunkEvent::BuildSucceeded)));
}

#[test]
fn parses_trunk_started_line() {
    let line = "2026-03-12T07:47:40.494783Z  INFO 📦 starting build";
    assert!(matches!(parse_trunk_event(line), Some(TrunkEvent::BuildStarted)));
}

#[test]
fn parses_trunk_failure_line() {
    let line = "error during build";
    assert!(matches!(parse_trunk_event(line), Some(TrunkEvent::BuildFailed)));
}

#[test]
fn trunk_lines_are_matched_ignoring_case() {
    assert_eq!(parse_trunk_event("BUILD FAILED"), Some(TrunkEvent::BuildFailed));
    assert_eq!(parse_trunk_event("Finished release target"), Some(TrunkEvent::BuildSucceeded));
    assert_eq!(parse_trunk_event("Building web"), Some(TrunkEvent::BuildStarted));
    assert_eq!(parse_trunk_event("serving on 8080"), None);
}

#[test]
fn wait_ignores_success_before_start() {
    let pending = vec![
        TrunkEvent::BuildSucceeded,
        TrunkEvent::BuildStarted,
        TrunkEvent::BuildSucceeded,
    ];
    let drained = drain_trunk_events(&pending);
    assert_eq!(build_wait_over(drained, &vec![]), BuildWait::Succeeded);

    let drained = drain_trunk_events(&vec![TrunkEvent::BuildSucceeded]);
    assert_eq!(
        build_wait_over(drained, &vec![TrunkEvent::BuildSucceeded]),
        BuildWait::Waiting { seen_started: false }
    );
    assert_eq!(
        build_wait_over(drained, &vec![TrunkEvent::BuildStarted, TrunkEvent::BuildFailed]),
        BuildWait::Failed
    );
}

#[test]
fn ansi_control_prefix_is_applied_until_reset() {
    let mut active_ansi_prefix = String::new();

    let first = normalize_ansi_for_tui("\u{1b}[34m".to_string(), &mut active_ansi_prefix);
    assert_eq!(first, Some(String::new()));
    assert_eq!(active_ansi_prefix, "\u{1b}[34m");

    let second = normalize_ansi_for_tui("hello".to_string(), &mut active_ansi_prefix);
    assert_eq!(second, Some("\u{1b}[34mhello".to_string()));
    assert_eq!(active_ansi_prefix, "\u{1b}[34m");

    let third = normalize_ansi_for_tui("world".to_string(), &mut active_ansi_prefix);
    assert_eq!(third, Some("\u{1b}[34mworld".to_string()));
    assert_eq!(active_ansi_prefix, "\u{1b}[34m");

    let reset = normalize_ansi_for_tui("\u{1b}[0m".to_string(), &mut active_ansi_prefix);
    assert_eq!(reset, Some(String::new()));
    assert!(active_ansi_prefix.is_empty());

    let after_reset = normalize_ansi_for_tui("after reset".to_string(), &mut active_ansi_prefix);
    assert_eq!(after_reset, Some("after reset".to_string()));
}

#[test]
fn ansi_reset_line_clears_pending_prefix() {
    let mut active_ansi_prefix = "\u{1b}[34m".to_string();

    let normalized = normalize_ansi_for_tui("\u{1b}[0m".to_string(), &mut active_ansi_prefix);
    assert_eq!(normalized, Some(String::new()));
    assert!(active_ansi_prefix.is_empty());
}

#[test]
fn inline_reset_clears_active_prefix_for_following_lines() {
    let mut active_ansi_prefix = "\u{1b}[31m".to_string();

    let first = normalize_ansi_for_tui("line one\u{1b}[0m plain".to_string(), &mut active_ansi_prefix);
    assert_eq!(first, Some("\u{1b}[31mline one\u{1b}[0m plain".to_string()));
    assert!(active_ansi_prefix.is_empty());

    let second = normalize_ansi_for_tui("line two".to_string(), &mut active_ansi_prefix);
    assert_eq!(second, Some("line two".to_string()));
}

#[test]
fn plain_empty_line_is_preserved() {
    let mut active_ansi_prefix = String::new();
    let normalized = normalize_ansi_for_tui(String::new(), &mut active_ansi_prefix);
    assert_eq!(normalized, Some(String::new()));
}

#[test]
fn line_starting_with_its_own_style_replaces_the_active_one() {
    let mut prefix = "\u{1b}[31m".to_string();
    let out = normalize_ansi_for_tui("\u{1b}[32mgreen".to_string(), &mut prefix);
    assert_eq!(out, Some("\u{1b}[32mgreen".to_string()));
    assert_eq!(prefix, "\u{1b}[32m");
}

#[test]
fn web_service_uses_relay_proxy() {
    let (cmd, args, working_dir) = service_command(Service::Web).expect("web command");

    assert_eq!(cmd, "trunk");
    assert_eq!(working_dir, Some("web/"));
    assert!(args
        .windows(2)
        .any(|window| { window == ["--proxy-rewrite", WEB_LOG_RELAY_PROXY_PATH] }));
    assert!(args
        .windows(2)
        .any(|window| { window == ["--proxy-backend", WEB_LOG_RELAY_BACKEND_URL] }));
}

#[test]
fn api_service_runs_through_cargo_and_others_are_refused() {
    let (cmd, args, dir) = service_command(Service::Api).expect("api command");
    assert_eq!(cmd, "cargo");
    assert_eq!(args, vec!["run", "-p", "gig-log-api"]);
    assert_eq!(dir, None);
    assert_eq!(
        service_command(Service::Docs).unwrap_err(),
        "DOCS is not a long-running service"
    );
}

#[test]
fn classify_paths() {
    assert_eq!(classify_path("web/src/main.rs"), Some(Intent::Web));
    assert_eq!(classify_path("api/src/main.rs"), Some(Intent::Api));
    assert_eq!(classify_path("common/src/lib.rs"), Some(Intent::Common));
    assert_eq!(classify_path("dev-tools/src/main.rs"), Some(Intent::DevTools));
    assert_eq!(classify_path("web/dist/index.html"), None);
    assert_eq!(classify_path("web/.trunk/state"), None);
    assert_eq!(classify_path("README.md"), None);
}

#[test]
fn classify_paths_follows_path_components() {
    assert_eq!(classify_path("./web//src"), None);
    assert_eq!(classify_path("web//dist/x"), None);
    assert_eq!(classify_path("web/./.trunk"), None);
    assert_eq!(classify_path("api"), Some(Intent::Api));
    assert_eq!(classify_path(""), None);
}

#[test]
fn common_suppresses_api_and_web() {
    let mut batch = IntentBatch::default();
    batch.add(Intent::Web);
    batch.add(Intent::Api);
    batch.add(Intent::Common);

    let merged = batch.merged_for_execution();
    assert!(merged.common);
    assert!(!merged.web);
    assert!(!merged.api);
}

#[test]
fn batches_are_described_in_fixed_order() {
    let mut batch = IntentBatch::new();
    assert!(batch.is_empty());
    batch.add(Intent::DevTools);
    batch.add(Intent::Common);
    assert!(!batch.is_empty());
    assert_eq!(describe_batch(batch), "common, dev-tools");
    let all = IntentBatch { web: true, api: true, common: true, dev_tools: true };
    assert_eq!(describe_batch(all), "common, api, web, dev-tools");
    assert_eq!(describe_batch(IntentBatch::new()), "");
}

#[test]
fn batch_runs_steps_in_order() {
    let batch = IntentBatch { web: false, api: false, common: true, dev_tools: true };
    let mut run = BatchRun::start(batch);
    let mut steps = vec![run.step];
    while !run.is_done() {
        run.advance(true);
        steps.push(run.step);
    }
    assert_eq!(
        steps,
        vec![
            BatchStep::BuildCommon,
            BatchStep::RestartApiAfterCommon,
            BatchStep::BuildDevTools,
            BatchStep::WaitForApiReady,
            BatchStep::ResetDocsOutput,
            BatchStep::GenerateDocs,
            BatchStep::GenerateDocsIndex,
            BatchStep::Done,
        ]
    );
}

#[test]
fn failed_web_build_skips_docs() {
    let batch = IntentBatch { web: true, api: false, common: false, dev_tools: false };
    let mut run = BatchRun::start(batch);
    assert_eq!(run.step, BatchStep::WaitForWebBuild);
    run.advance(false);
    assert_eq!(run.step, BatchStep::Done);

    let mut initial = BatchRun::start_initial_docs();
    initial.advance(true);
    assert_eq!(initial.step, BatchStep::ResetDocsOutput);
    initial.advance(true);
    assert_eq!(initial.step, BatchStep::GenerateDocs);
    initial.advance(false);
    assert_eq!(initial.step, BatchStep::Done);
}
