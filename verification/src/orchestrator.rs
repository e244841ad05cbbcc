//! Decisions of the development orchestrator: which commands run the
//! long-lived services, what the web build's log lines say, when a rebuild
//! has finished, and in which order a batch of changes is handled.

use vstd::prelude::*;
use crate::log_store::{service_label, Service};
use crate::text::{ascii_lowercase, contains, contains_str, is_ascii_text, push_str, string_from_chars, to_chars, to_lowercase_string, unicode_lowercase};
use crate::watcher::IntentBatch;

verus! {

/// Address the browser log relay listens on.
pub const WEB_LOG_RELAY_ADDR: &'static str = "127.0.0.1:9777";

/// Backend URL that the web dev server proxies log posts to.
pub const WEB_LOG_RELAY_BACKEND_URL: &'static str = "http://127.0.0.1:9777";

/// Path under which the browser posts its log records.
pub const WEB_LOG_RELAY_PROXY_PATH: &'static str = "/_giglog/web-log";

// ---------------------------------------------------------------------------
// Service commands
// ---------------------------------------------------------------------------

/// The program, arguments and working directory that run a service.
pub type ServiceCommand = (&'static str, Vec<&'static str>, Option<&'static str>);

/// The text of each argument.
pub open spec fn args_view(v: Seq<&'static str>) -> Seq<Seq<char>> {
    v.map_values(|s: &'static str| s@)
}

/// The message refusing a service that does not run for long.
pub open spec fn not_long_running_message(s: Service) -> Seq<char> {
    service_label(s) + seq![
        ' ', 'i', 's', ' ', 'n', 'o', 't', ' ', 'a', ' ', 'l', 'o', 'n', 'g', '-', 'r', 'u', 'n',
        'n', 'i', 'n', 'g', ' ', 's', 'e', 'r', 'v', 'i', 'c', 'e',
    ]
}

/// The command line of a long-lived service: the API runs through cargo,
/// the web front end through trunk with the log relay proxied. Other
/// services are refused.
pub fn service_command(service: Service) -> (r: Result<ServiceCommand, String>)
    ensures
        service == Service::Api ==> (r matches Ok((cmd, args, dir)) && cmd@ == "cargo"@ && args_view(args@)
            == seq!["run"@, "-p"@, "gig-log-api"@] && dir is None),
        service == Service::Web ==> (r matches Ok((cmd, args, dir)) && cmd@ == "trunk"@ && args_view(args@)
            == seq![
                "serve"@,
                "--proxy-rewrite"@,
                WEB_LOG_RELAY_PROXY_PATH@,
                "--proxy-backend"@,
                WEB_LOG_RELAY_BACKEND_URL@,
            ] && dir == Some("web/")),
        service != Service::Api && service != Service::Web ==> r is Err && r->Err_0@
            == not_long_running_message(service),
{
    match service {
        Service::Api => {
            let args = vec!["run", "-p", "gig-log-api"];
            proof {
                assert(args_view(args@) =~= seq!["run"@, "-p"@, "gig-log-api"@]);
            }
            Ok(("cargo", args, None))
        },
        Service::Web => {
            let args = vec![
                "serve",
                "--proxy-rewrite",
                WEB_LOG_RELAY_PROXY_PATH,
                "--proxy-backend",
                WEB_LOG_RELAY_BACKEND_URL,
            ];
            proof {
                assert(args_view(args@) =~= seq![
                    "serve"@,
                    "--proxy-rewrite"@,
                    WEB_LOG_RELAY_PROXY_PATH@,
                    "--proxy-backend"@,
                    WEB_LOG_RELAY_BACKEND_URL@,
                ]);
            }
            Ok(("trunk", args, Some("web/")))
        },
        _ => {
            let mut v: Vec<char> = Vec::new();
            push_str(&mut v, service.label());
            push_str(&mut v, " is not a long-running service");
            proof {
                reveal_strlit(" is not a long-running service");
                assert(v@ =~= not_long_running_message(service));
            }
            Err(string_from_chars(v.as_slice()))
        },
    }
}

// ---------------------------------------------------------------------------
// Trunk build events
// ---------------------------------------------------------------------------

/// What a line of the web build output says about the build.
#[derive(Debug, Clone, Copy, PartialEq, Eq, Structural)]
pub enum TrunkEvent {
    /// A build started.
    BuildStarted,
    /// A build succeeded.
    BuildSucceeded,
    /// A build failed.
    BuildFailed,
}

/// The event a lowercased build line reports: a start, then a failure,
/// then a success is looked for, in that order.
pub open spec fn trunk_event_of_lower(lower: Seq<char>) -> Option<TrunkEvent> {
    if contains(lower, "starting build"@) || contains(lower, "building"@) {
        Some(TrunkEvent::BuildStarted)
    } else if contains(lower, seq!['\u{274c}']) || contains(lower, "build failed"@) || contains(
        lower,
        "failed build"@,
    ) || (contains(lower, "error"@) && contains(lower, "build"@)) {
        Some(TrunkEvent::BuildFailed)
    } else if contains(lower, seq!['\u{2705}']) || contains(lower, "build succeeded"@) || (contains(
        lower,
        "finished"@,
    ) && (contains(lower, "build"@) || contains(lower, "release"@))) {
        Some(TrunkEvent::BuildSucceeded)
    } else {
        None
    }
}

/// The event a build line reports, given the line already lowercased.
pub fn classify_trunk_line(lower: &str) -> (r: Option<TrunkEvent>)
    ensures
        r == trunk_event_of_lower(lower@),
{
    let l = to_chars(lower);
    if contains_str(&l, "starting build") || contains_str(&l, "building") {
        return Some(TrunkEvent::BuildStarted);
    }
    let mut cross: Vec<char> = Vec::new();
    cross.push('\u{274c}');
    let mut check: Vec<char> = Vec::new();
    check.push('\u{2705}');
    proof {
        assert(cross@ =~= seq!['\u{274c}']);
        assert(check@ =~= seq!['\u{2705}']);
    }
    if crate::text::contains_exec(&l, &cross) || contains_str(&l, "build failed") || contains_str(
        &l,
        "failed build",
    ) || (contains_str(&l, "error") && contains_str(&l, "build")) {
        return Some(TrunkEvent::BuildFailed);
    }
    if crate::text::contains_exec(&l, &check) || contains_str(&l, "build succeeded") || (
    contains_str(&l, "finished") && (contains_str(&l, "build") || contains_str(&l, "release"))) {
        return Some(TrunkEvent::BuildSucceeded);
    }
    None
}

/// The event a line of the web build output reports, matched without
/// regard to letter case.
pub fn parse_trunk_event(line: &str) -> (r: Option<TrunkEvent>)
    ensures
        r == trunk_event_of_lower(unicode_lowercase(line@)),
        is_ascii_text(line@) ==> r == trunk_event_of_lower(ascii_lowercase(line@)),
{
    let lower = to_lowercase_string(line);
    classify_trunk_line(lower.as_str())
}

/// What the pending build events said before waiting starts.
#[derive(Debug, Clone, Copy, PartialEq, Eq, Structural)]
pub struct DrainedTrunkState {
    /// A build started and has not finished yet.
    pub waiting_for_terminal: bool,
    /// How the latest started build ended, if it did.
    pub terminal_after_start: Option<TrunkEvent>,
}

/// The drained state after one more event: a start opens a build, and an
/// outcome counts only for an open build.
pub open spec fn drain_step(s: DrainedTrunkState, e: TrunkEvent) -> DrainedTrunkState {
    match e {
        TrunkEvent::BuildStarted => DrainedTrunkState {
            waiting_for_terminal: true,
            terminal_after_start: None,
        },
        _ => if s.waiting_for_terminal {
            DrainedTrunkState { waiting_for_terminal: false, terminal_after_start: Some(e) }
        } else {
            s
        },
    }
}

/// The drained state after a sequence of events, from nothing seen.
pub open spec fn drain_all(events: Seq<TrunkEvent>) -> DrainedTrunkState
    decreases events.len(),
{
    if events.len() == 0 {
        DrainedTrunkState { waiting_for_terminal: false, terminal_after_start: None }
    } else {
        drain_step(drain_all(events.drop_last()), events.last())
    }
}

/// Folds the pending build events, oldest first.
pub fn drain_trunk_events(events: &Vec<TrunkEvent>) -> (r: DrainedTrunkState)
    ensures
        r == drain_all(events@),
{
    let mut state = DrainedTrunkState { waiting_for_terminal: false, terminal_after_start: None };
    let mut i: usize = 0;
    while i < events.len()
        invariant
            i <= events.len(),
            state == drain_all(events@.take(i as int)),
        decreases events.len() - i,
    {
        proof {
            assert(events@.take(i + 1).drop_last() =~= events@.take(i as int));
        }
        match events[i] {
            TrunkEvent::BuildStarted => {
                state.waiting_for_terminal = true;
                state.terminal_after_start = None;
            },
            e => {
                if state.waiting_for_terminal {
                    state.waiting_for_terminal = false;
                    state.terminal_after_start = Some(e);
                }
            },
        }
        i += 1;
    }
    proof {
        assert(events@.take(events.len() as int) =~= events@);
    }
    state
}

/// Where waiting for a web build stands.
#[derive(Debug, Clone, Copy, PartialEq, Eq, Structural)]
pub enum BuildWait {
    /// Still waiting; whether a build start has been seen.
    Waiting { seen_started: bool },
    /// The build succeeded.
    Succeeded,
    /// The build failed.
    Failed,
}

/// How waiting begins from the drained events: a build that already ended
/// decides at once; otherwise an open build counts as started.
pub open spec fn wait_start(d: DrainedTrunkState) -> BuildWait {
    match d.terminal_after_start {
        Some(TrunkEvent::BuildFailed) => BuildWait::Failed,
        Some(TrunkEvent::BuildSucceeded) => BuildWait::Succeeded,
        _ => BuildWait::Waiting { seen_started: d.waiting_for_terminal },
    }
}

/// Waiting after one more event: outcomes count only once a start was seen.
pub open spec fn wait_next(w: BuildWait, e: TrunkEvent) -> BuildWait {
    match w {
        BuildWait::Waiting { seen_started } => match e {
            TrunkEvent::BuildStarted => BuildWait::Waiting { seen_started: true },
            TrunkEvent::BuildSucceeded => if seen_started {
                BuildWait::Succeeded
            } else {
                w
            },
            TrunkEvent::BuildFailed => if seen_started {
                BuildWait::Failed
            } else {
                w
            },
        },
        _ => w,
    }
}

/// Waiting after a sequence of events.
pub open spec fn wait_all(w: BuildWait, events: Seq<TrunkEvent>) -> BuildWait
    decreases events.len(),
{
    if events.len() == 0 {
        w
    } else {
        wait_next(wait_all(w, events.drop_last()), events.last())
    }
}

/// Begins waiting for a web build from the drained events.
pub fn begin_build_wait(drained: DrainedTrunkState) -> (w: BuildWait)
    ensures
        w == wait_start(drained),
{
    match drained.terminal_after_start {
        Some(TrunkEvent::BuildFailed) => BuildWait::Failed,
        Some(TrunkEvent::BuildSucceeded) => BuildWait::Succeeded,
        _ => BuildWait::Waiting { seen_started: drained.waiting_for_terminal },
    }
}

/// Advances waiting for a web build by one event.
pub fn build_wait_next(w: BuildWait, event: TrunkEvent) -> (r: BuildWait)
    ensures
        r == wait_next(w, event),
{
    match w {
        BuildWait::Waiting { seen_started } => match event {
            TrunkEvent::BuildStarted => BuildWait::Waiting { seen_started: true },
            TrunkEvent::BuildSucceeded => if seen_started {
                BuildWait::Succeeded
            } else {
                w
            },
            TrunkEvent::BuildFailed => if seen_started {
                BuildWait::Failed
            } else {
                w
            },
        },
        _ => w,
    }
}

/// Waits over a known sequence of events, from the drained state.
pub fn build_wait_over(drained: DrainedTrunkState, events: &Vec<TrunkEvent>) -> (r: BuildWait)
    ensures
        r == wait_all(wait_start(drained), events@),
{
    let mut w = begin_build_wait(drained);
    let mut i: usize = 0;
    while i < events.len()
        invariant
            i <= events.len(),
            w == wait_all(wait_start(drained), events@.take(i as int)),
        decreases events.len() - i,
    {
        proof {
            assert(events@.take(i + 1).drop_last() =~= events@.take(i as int));
        }
        w = build_wait_next(w, events[i]);
        i += 1;
    }
    proof {
        assert(events@.take(events.len() as int) =~= events@);
    }
    w
}

/// An outcome reported before any build started is ignored: with no start
/// among the drained events and none before it, a success or failure
/// leaves the wait undecided.
pub proof fn law_outcome_before_start_is_ignored(d: DrainedTrunkState, e: TrunkEvent)
    requires
        !d.waiting_for_terminal,
        d.terminal_after_start is None,
        e != TrunkEvent::BuildStarted,
    ensures
        wait_next(wait_start(d), e) == (BuildWait::Waiting { seen_started: false }),
{
}

/// Once decided, waiting stays decided whatever events follow.
pub proof fn law_decided_wait_is_final(w: BuildWait, events: Seq<TrunkEvent>)
    requires
        !(w is Waiting),
    ensures
        wait_all(w, events) == w,
    decreases events.len(),
{
    if events.len() > 0 {
        law_decided_wait_is_final(w, events.drop_last());
    }
}

// ---------------------------------------------------------------------------
// Batches
// ---------------------------------------------------------------------------

/// The labels of a batch's intents, in the order common, api, web,
/// dev-tools, joined by `, `.
pub open spec fn batch_description(b: IntentBatch) -> Seq<char> {
    let labels = (if b.common { seq!["common"@] } else { seq![] }) + (if b.api {
        seq!["api"@]
    } else {
        seq![]
    }) + (if b.web { seq!["web"@] } else { seq![] }) + (if b.dev_tools {
        seq!["dev-tools"@]
    } else {
        seq![]
    });
    join_with_comma(labels)
}

/// `parts` joined by `, `.
pub open spec fn join_with_comma(parts: Seq<Seq<char>>) -> Seq<char>
    decreases parts.len(),
{
    if parts.len() == 0 {
        seq![]
    } else if parts.len() == 1 {
        parts[0]
    } else {
        join_with_comma(parts.drop_last()) + seq![',', ' '] + parts.last()
    }
}

fn push_label(out: &mut Vec<char>, labels: &mut Vec<&'static str>, label: &'static str)
    requires
        join_with_comma(args_view(old(labels)@)) == old(out)@,
    ensures
        final(labels)@ == old(labels)@.push(label),
        join_with_comma(args_view(final(labels)@)) == final(out)@,
{
    if labels.len() > 0 {
        push_str(out, ", ");
        proof {
            reveal_strlit(", ");
        }
    }
    push_str(out, label);
    labels.push(label);
    proof {
        let v = args_view(labels@);
        assert(v.drop_last() =~= args_view(old(labels)@));
        if old(labels)@.len() == 0 {
            assert(old(out)@ =~= Seq::<char>::empty());
            assert(final(out)@ =~= label@);
        } else {
            assert(final(out)@ =~= old(out)@ + seq![',', ' '] + label@);
        }
    }
}

/// Describes a batch for the orchestrator log, e.g. `common, dev-tools`.
pub fn describe_batch(batch: IntentBatch) -> (r: String)
    ensures
        r@ == batch_description(batch),
{
    let mut out: Vec<char> = Vec::new();
    let mut labels: Vec<&'static str> = Vec::new();
    proof {
        assert(args_view(labels@) =~= Seq::<Seq<char>>::empty());
    }
    if batch.common {
        push_label(&mut out, &mut labels, "common");
    }
    if batch.api {
        push_label(&mut out, &mut labels, "api");
    }
    if batch.web {
        push_label(&mut out, &mut labels, "web");
    }
    if batch.dev_tools {
        push_label(&mut out, &mut labels, "dev-tools");
    }
    proof {
        let want = (if batch.common { seq!["common"@] } else { seq![] }) + (if batch.api {
            seq!["api"@]
        } else {
            seq![]
        }) + (if batch.web { seq!["web"@] } else { seq![] }) + (if batch.dev_tools {
            seq!["dev-tools"@]
        } else {
            seq![]
        });
        assert(args_view(labels@) =~= want);
    }
    string_from_chars(out.as_slice())
}

// ---------------------------------------------------------------------------
// Running a batch
// ---------------------------------------------------------------------------

/// A step in handling a batch of changes. Each step is carried out by the
/// caller, which reports whether it succeeded.
#[derive(Debug, Clone, Copy, PartialEq, Eq, Structural)]
pub enum BatchStep {
    /// Build the common crate.
    BuildCommon,
    /// Restart the API after the common crate was rebuilt.
    RestartApiAfterCommon,
    /// Restart the API for an API change.
    RestartApi,
    /// Wait for the web dev server to finish its rebuild.
    WaitForWebBuild,
    /// Build the dev-tools crate.
    BuildDevTools,
    /// Wait for the restarted API to accept connections.
    WaitForApiReady,
    /// Recreate the docs output directory.
    ResetDocsOutput,
    /// Generate the API docs.
    GenerateDocs,
    /// Generate the docs index page.
    GenerateDocsIndex,
    /// Nothing is left to do.
    Done,
}

/// Progress through a batch.
#[derive(Debug, Clone, Copy, PartialEq, Eq, Structural)]
pub struct BatchRun {
    /// The intents being handled.
    pub batch: IntentBatch,
    /// The step to carry out next.
    pub step: BatchStep,
    /// Some step made the docs stale.
    pub docs_needed: bool,
    /// The API was restarted, so the docs wait for it to be ready.
    pub docs_after_api_restart: bool,
    /// The index page is generated only when the docs were (the first run
    /// after start-up); otherwise it is generated after any docs attempt.
    pub index_requires_docs: bool,
}

/// Order of the steps.
pub open spec fn step_rank(s: BatchStep) -> int {
    match s {
        BatchStep::BuildCommon => 0,
        BatchStep::RestartApiAfterCommon => 1,
        BatchStep::RestartApi => 2,
        BatchStep::WaitForWebBuild => 3,
        BatchStep::BuildDevTools => 4,
        BatchStep::WaitForApiReady => 5,
        BatchStep::ResetDocsOutput => 6,
        BatchStep::GenerateDocs => 7,
        BatchStep::GenerateDocsIndex => 8,
        BatchStep::Done => 9,
    }
}

/// The step that starts the docs phase.
pub open spec fn docs_phase(r: BatchRun) -> BatchStep {
    if !r.docs_needed {
        BatchStep::Done
    } else if r.docs_after_api_restart {
        BatchStep::WaitForApiReady
    } else {
        BatchStep::ResetDocsOutput
    }
}

/// The step after the dev-tools build position.
pub open spec fn after_web(r: BatchRun) -> BatchStep {
    if r.batch.dev_tools {
        BatchStep::BuildDevTools
    } else {
        docs_phase(r)
    }
}

/// The step after the API restart position.
pub open spec fn after_api(r: BatchRun) -> BatchStep {
    if r.batch.web {
        BatchStep::WaitForWebBuild
    } else {
        after_web(r)
    }
}

/// The step after the common build position.
pub open spec fn after_common(r: BatchRun) -> BatchStep {
    if r.batch.api {
        BatchStep::RestartApi
    } else {
        after_api(r)
    }
}

/// The first step of a batch.
pub open spec fn first_step(r: BatchRun) -> BatchStep {
    if r.batch.common {
        BatchStep::BuildCommon
    } else {
        after_common(r)
    }
}

/// The run after its current step ended, successfully or not.
pub open spec fn batch_next(r: BatchRun, ok: bool) -> BatchRun {
    match r.step {
        BatchStep::BuildCommon => if ok {
            BatchRun { step: BatchStep::RestartApiAfterCommon, ..r }
        } else {
            BatchRun { step: after_common(r), ..r }
        },
        BatchStep::RestartApiAfterCommon => {
            let r2 = if ok {
                BatchRun { docs_needed: true, docs_after_api_restart: true, ..r }
            } else {
                r
            };
            BatchRun { step: after_common(r2), ..r2 }
        },
        BatchStep::RestartApi => {
            let r2 = if ok {
                BatchRun { docs_needed: true, docs_after_api_restart: true, ..r }
            } else {
                r
            };
            BatchRun { step: after_api(r2), ..r2 }
        },
        BatchStep::WaitForWebBuild => {
            let r2 = if ok {
                BatchRun { docs_needed: true, ..r }
            } else {
                r
            };
            BatchRun { step: after_web(r2), ..r2 }
        },
        BatchStep::BuildDevTools => {
            let r2 = if ok {
                BatchRun { docs_needed: true, ..r }
            } else {
                r
            };
            BatchRun { step: docs_phase(r2), ..r2 }
        },
        BatchStep::WaitForApiReady => BatchRun {
            step: if ok {
                BatchStep::ResetDocsOutput
            } else {
                BatchStep::Done
            },
            ..r
        },
        BatchStep::ResetDocsOutput => BatchRun {
            step: if ok {
                BatchStep::GenerateDocs
            } else {
                BatchStep::Done
            },
            ..r
        },
        BatchStep::GenerateDocs => BatchRun {
            step: if ok || !r.index_requires_docs {
                BatchStep::GenerateDocsIndex
            } else {
                BatchStep::Done
            },
            ..r
        },
        BatchStep::GenerateDocsIndex => BatchRun { step: BatchStep::Done, ..r },
        BatchStep::Done => r,
    }
}

fn docs_phase_exec(r: &BatchRun) -> (s: BatchStep)
    ensures
        s == docs_phase(*r),
{
    if !r.docs_needed {
        BatchStep::Done
    } else if r.docs_after_api_restart {
        BatchStep::WaitForApiReady
    } else {
        BatchStep::ResetDocsOutput
    }
}

fn after_web_exec(r: &BatchRun) -> (s: BatchStep)
    ensures
        s == after_web(*r),
{
    if r.batch.dev_tools {
        BatchStep::BuildDevTools
    } else {
        docs_phase_exec(r)
    }
}

fn after_api_exec(r: &BatchRun) -> (s: BatchStep)
    ensures
        s == after_api(*r),
{
    if r.batch.web {
        BatchStep::WaitForWebBuild
    } else {
        after_web_exec(r)
    }
}

fn after_common_exec(r: &BatchRun) -> (s: BatchStep)
    ensures
        s == after_common(*r),
{
    if r.batch.api {
        BatchStep::RestartApi
    } else {
        after_api_exec(r)
    }
}

impl BatchRun {
    /// Starts handling a batch of changes.
    pub fn start(batch: IntentBatch) -> (r: BatchRun)
        ensures
            r.batch == batch,
            !r.docs_needed,
            !r.docs_after_api_restart,
            !r.index_requires_docs,
            r.step == first_step(r),
    {
        let mut r = BatchRun {
            batch,
            step: BatchStep::Done,
            docs_needed: false,
            docs_after_api_restart: false,
            index_requires_docs: false,
        };
        r.step = if batch.common {
            BatchStep::BuildCommon
        } else {
            after_common_exec(&r)
        };
        r
    }

    /// Starts the first docs build after start-up: wait for the web build,
    /// then generate the docs and, when they were generated, the index.
    pub fn start_initial_docs() -> (r: BatchRun)
        ensures
            r.batch == (IntentBatch { web: true, api: false, common: false, dev_tools: false }),
            r.step == BatchStep::WaitForWebBuild,
            !r.docs_needed,
            !r.docs_after_api_restart,
            r.index_requires_docs,
    {
        BatchRun {
            batch: IntentBatch { web: true, api: false, common: false, dev_tools: false },
            step: BatchStep::WaitForWebBuild,
            docs_needed: false,
            docs_after_api_restart: false,
            index_requires_docs: true,
        }
    }

    /// Records how the current step ended and moves to the next one.
    pub fn advance(&mut self, ok: bool)
        ensures
            *final(self) == batch_next(*old(self), ok),
    {
        match self.step {
            BatchStep::BuildCommon => {
                self.step = if ok {
                    BatchStep::RestartApiAfterCommon
                } else {
                    after_common_exec(self)
                };
            },
            BatchStep::RestartApiAfterCommon => {
                if ok {
                    self.docs_needed = true;
                    self.docs_after_api_restart = true;
                }
                self.step = after_common_exec(self);
            },
            BatchStep::RestartApi => {
                if ok {
                    self.docs_needed = true;
                    self.docs_after_api_restart = true;
                }
                self.step = after_api_exec(self);
            },
            BatchStep::WaitForWebBuild => {
                if ok {
                    self.docs_needed = true;
                }
                self.step = after_web_exec(self);
            },
            BatchStep::BuildDevTools => {
                if ok {
                    self.docs_needed = true;
                }
                self.step = docs_phase_exec(self);
            },
            BatchStep::WaitForApiReady => {
                self.step = if ok {
                    BatchStep::ResetDocsOutput
                } else {
                    BatchStep::Done
                };
            },
            BatchStep::ResetDocsOutput => {
                self.step = if ok {
                    BatchStep::GenerateDocs
                } else {
                    BatchStep::Done
                };
            },
            BatchStep::GenerateDocs => {
                self.step = if ok || !self.index_requires_docs {
                    BatchStep::GenerateDocsIndex
                } else {
                    BatchStep::Done
                };
            },
            BatchStep::GenerateDocsIndex => {
                self.step = BatchStep::Done;
            },
            BatchStep::Done => {},
        }
    }

    /// Whether the batch is finished.
    pub fn is_done(&self) -> (b: bool)
        ensures
            b == (self.step == BatchStep::Done),
    {
        match self.step {
            BatchStep::Done => true,
            _ => false,
        }
    }
}

/// Every step moves the run strictly forward, so a batch ends after at most
/// as many steps as there are kinds of step.
pub proof fn law_batch_moves_forward(r: BatchRun, ok: bool)
    requires
        r.step != BatchStep::Done,
    ensures
        step_rank(batch_next(r, ok).step) > step_rank(r.step),
{
}

/// The docs are regenerated only after some step that made them stale
/// succeeded: the docs steps are reached only with `docs_needed` set.
pub proof fn law_docs_only_when_needed(r: BatchRun, ok: bool)
    requires
        step_rank(r.step) < step_rank(BatchStep::WaitForApiReady),
        !r.docs_needed,
        step_rank(batch_next(r, ok).step) >= step_rank(BatchStep::WaitForApiReady),
        batch_next(r, ok).step != BatchStep::Done,
    ensures
        batch_next(r, ok).docs_needed,
        ok,
{
}

/// The steps a run goes through from its current step when every step
/// succeeds, taking at most `fuel` more steps.
pub open spec fn steps_when_all_succeed(r: BatchRun, fuel: nat) -> Seq<BatchStep>
    decreases fuel,
{
    if fuel == 0 || r.step == BatchStep::Done {
        seq![r.step]
    } else {
        seq![r.step] + steps_when_all_succeed(batch_next(r, true), (fuel - 1) as nat)
    }
}

/// `s` ends by resetting the docs output, generating the docs and their
/// index, and finishing; with `wait`, waiting for the API comes just before.
pub open spec fn ends_with_docs(s: Seq<BatchStep>, wait: bool) -> bool {
    &&& s.len() >= 5
    &&& s.skip(s.len() - 4) == seq![
        BatchStep::ResetDocsOutput,
        BatchStep::GenerateDocs,
        BatchStep::GenerateDocsIndex,
        BatchStep::Done,
    ]
    &&& wait ==> s[s.len() - 5] == BatchStep::WaitForApiReady
}

proof fn lemma_ends_with_docs_prefix(x: BatchStep, t: Seq<BatchStep>, wait: bool)
    requires
        ends_with_docs(t, wait),
    ensures
        ends_with_docs(seq![x] + t, wait),
{
    let s = seq![x] + t;
    assert(s.skip(s.len() - 4) =~= t.skip(t.len() - 4));
    assert(s[s.len() - 5] == t[t.len() - 5]);
}

proof fn lemma_steps_unfold(r: BatchRun, fuel: nat)
    requires
        fuel > 0,
        r.step != BatchStep::Done,
    ensures
        steps_when_all_succeed(r, fuel) == seq![r.step] + steps_when_all_succeed(
            batch_next(r, true),
            (fuel - 1) as nat,
        ),
{
}

proof fn lemma_docs_phase_steps(r: BatchRun, fuel: nat)
    requires
        r.docs_needed,
        r.step == docs_phase(r),
        fuel >= 4,
    ensures
        ends_with_docs(seq![BatchStep::BuildDevTools] + steps_when_all_succeed(r, fuel), r.docs_after_api_restart),
{
    reveal_with_fuel(steps_when_all_succeed, 5);
    let s = seq![BatchStep::BuildDevTools] + steps_when_all_succeed(r, fuel);
    if r.docs_after_api_restart {
        assert(s =~= seq![
            BatchStep::BuildDevTools,
            BatchStep::WaitForApiReady,
            BatchStep::ResetDocsOutput,
            BatchStep::GenerateDocs,
            BatchStep::GenerateDocsIndex,
            BatchStep::Done,
        ]);
    } else {
        assert(s =~= seq![
            BatchStep::BuildDevTools,
            BatchStep::ResetDocsOutput,
            BatchStep::GenerateDocs,
            BatchStep::GenerateDocsIndex,
            BatchStep::Done,
        ]);
    }
    assert(s.skip(s.len() - 4) =~= seq![
        BatchStep::ResetDocsOutput,
        BatchStep::GenerateDocs,
        BatchStep::GenerateDocsIndex,
        BatchStep::Done,
    ]);
}

proof fn lemma_after_web_steps(r: BatchRun, fuel: nat)
    requires
        r.docs_needed,
        r.step == after_web(r),
        fuel >= 5,
    ensures
        ends_with_docs(seq![BatchStep::WaitForWebBuild] + steps_when_all_succeed(r, fuel), r.docs_after_api_restart),
{
    if r.step == BatchStep::BuildDevTools {
        lemma_steps_unfold(r, fuel);
        lemma_docs_phase_steps(batch_next(r, true), (fuel - 1) as nat);
        lemma_ends_with_docs_prefix(
            BatchStep::WaitForWebBuild,
            seq![BatchStep::BuildDevTools] + steps_when_all_succeed(batch_next(r, true), (fuel - 1) as nat),
            r.docs_after_api_restart,
        );
        assert(seq![BatchStep::WaitForWebBuild] + steps_when_all_succeed(r, fuel) =~= seq![
            BatchStep::WaitForWebBuild,
        ] + (seq![BatchStep::BuildDevTools] + steps_when_all_succeed(batch_next(r, true), (fuel - 1) as nat)));
    } else {
        lemma_docs_phase_steps(r, fuel);
        let t = seq![BatchStep::BuildDevTools] + steps_when_all_succeed(r, fuel);
        let s = seq![BatchStep::WaitForWebBuild] + steps_when_all_succeed(r, fuel);
        assert(s.skip(s.len() - 4) =~= t.skip(t.len() - 4));
        if r.docs_after_api_restart || r.step == BatchStep::WaitForApiReady {
            assert(t[0] != t[t.len() - 5]);
            assert(s[s.len() - 5] == t[t.len() - 5]);
        }
    }
}

proof fn lemma_after_api_steps(r: BatchRun, fuel: nat)
    requires
        r.docs_needed,
        r.step == after_api(r),
        fuel >= 6,
    ensures
        ends_with_docs(seq![BatchStep::RestartApi] + steps_when_all_succeed(r, fuel), r.docs_after_api_restart),
{
    if r.step == BatchStep::WaitForWebBuild {
        lemma_steps_unfold(r, fuel);
        lemma_after_web_steps(batch_next(r, true), (fuel - 1) as nat);
        lemma_ends_with_docs_prefix(
            BatchStep::RestartApi,
            seq![BatchStep::WaitForWebBuild] + steps_when_all_succeed(batch_next(r, true), (fuel - 1) as nat),
            r.docs_after_api_restart,
        );
        assert(seq![BatchStep::RestartApi] + steps_when_all_succeed(r, fuel) =~= seq![BatchStep::RestartApi] + (
        seq![BatchStep::WaitForWebBuild] + steps_when_all_succeed(batch_next(r, true), (fuel - 1) as nat)));
    } else {
        lemma_after_web_steps(r, fuel);
        let t = seq![BatchStep::WaitForWebBuild] + steps_when_all_succeed(r, fuel);
        let s = seq![BatchStep::RestartApi] + steps_when_all_succeed(r, fuel);
        assert(s.skip(s.len() - 4) =~= t.skip(t.len() - 4));
        if r.docs_after_api_restart || r.step == BatchStep::WaitForApiReady {
            assert(t[0] != t[t.len() - 5]);
            assert(s[s.len() - 5] == t[t.len() - 5]);
        }
    }
}

proof fn lemma_after_common_steps(r: BatchRun, fuel: nat)
    requires
        r.docs_needed,
        r.docs_after_api_restart,
        r.step == after_common(r),
        fuel >= 7,
    ensures
        ends_with_docs(seq![BatchStep::RestartApiAfterCommon] + steps_when_all_succeed(r, fuel), true),
{
    if r.step == BatchStep::RestartApi {
        lemma_steps_unfold(r, fuel);
        lemma_after_api_steps(batch_next(r, true), (fuel - 1) as nat);
        lemma_ends_with_docs_prefix(
            BatchStep::RestartApiAfterCommon,
            seq![BatchStep::RestartApi] + steps_when_all_succeed(batch_next(r, true), (fuel - 1) as nat),
            true,
        );
        assert(seq![BatchStep::RestartApiAfterCommon] + steps_when_all_succeed(r, fuel) =~= seq![
            BatchStep::RestartApiAfterCommon,
        ] + (seq![BatchStep::RestartApi] + steps_when_all_succeed(batch_next(r, true), (fuel - 1) as nat)));
    } else {
        lemma_after_api_steps(r, fuel);
        let t = seq![BatchStep::RestartApi] + steps_when_all_succeed(r, fuel);
        let s = seq![BatchStep::RestartApiAfterCommon] + steps_when_all_succeed(r, fuel);
        assert(s.skip(s.len() - 4) =~= t.skip(t.len() - 4));
        if r.docs_after_api_restart || r.step == BatchStep::WaitForApiReady {
            assert(t[0] != t[t.len() - 5]);
            assert(s[s.len() - 5] == t[t.len() - 5]);
        }
    }
}

/// A step that makes the docs stale leads to them: when a restart of the
/// API (after rebuilding `common`, or for an API change), a web build or a
/// `dev-tools` build succeeds and every later step succeeds too, the run
/// ends by resetting the docs output, generating the docs and then their
/// index. After an API restart it first waits for the API to be ready.
pub proof fn law_successful_change_regenerates_docs(r: BatchRun)
    requires
        r.step == BatchStep::RestartApiAfterCommon || r.step == BatchStep::RestartApi || r.step
            == BatchStep::WaitForWebBuild || r.step == BatchStep::BuildDevTools,
    ensures
        batch_next(r, true).docs_needed,
        (r.step == BatchStep::RestartApiAfterCommon || r.step == BatchStep::RestartApi) ==> batch_next(
            r,
            true,
        ).docs_after_api_restart,
        ends_with_docs(
            steps_when_all_succeed(r, 10),
            r.step == BatchStep::RestartApiAfterCommon || r.step == BatchStep::RestartApi
                || r.docs_after_api_restart,
        ),
{
    let r1 = batch_next(r, true);
    lemma_steps_unfold(r, 10);
    match r.step {
        BatchStep::RestartApiAfterCommon => lemma_after_common_steps(r1, 9),
        BatchStep::RestartApi => lemma_after_api_steps(r1, 9),
        BatchStep::WaitForWebBuild => lemma_after_web_steps(r1, 9),
        _ => lemma_docs_phase_steps(r1, 9),
    }
}

} // verus!
