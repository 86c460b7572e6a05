use anolisa::cli::context::{CliContext, InstallMode};
use anolisa::cli::enable::{
    carry_digests, check_args, execute_err_to_cli, fetches_meta, handle, map_plan_err,
    meta_queries, policy_load_err, scope_hint_for, sort_replies, EnableArgs, EnableStep,
    ExecuteError, MetaReply, PlanArtifact, PlanComponent, PlanError,
};
use anolisa::cli::enable_run::{EnableAction, EnableEvent, EnableRun, IndexSource};
use anolisa::cli::execution_policy::{ExecutionPolicy, PolicyEntry};
use anolisa::cli::response::CliError;

fn ctx(json: bool, dry_run: bool, install_mode: InstallMode) -> CliContext {
    ctx_with_prefix(json, dry_run, install_mode, None)
}

fn ctx_with_prefix(
    json: bool,
    dry_run: bool,
    install_mode: InstallMode,
    prefix: Option<String>,
) -> CliContext {
    CliContext {
        install_mode,
        prefix,
        json,
        dry_run,
        verbose: false,
        quiet: true, // suppress stdout during tests
        no_color: true,
    }
}

fn args(caps: &[&str]) -> EnableArgs {
    EnableArgs {
        capabilities: caps.iter().map(|s| s.to_string()).collect(),
        feature: None,
        with_adapter: None,
        from_source: false,
    }
}

fn entry(name: &str, enabled: bool, allow_execute: bool) -> PolicyEntry {
    PolicyEntry { name: name.to_string(), enabled, allow_execute }
}

/// The packaged policy: two graduated capabilities, `agent-memory` is not in it.
fn packaged() -> ExecutionPolicy {
    ExecutionPolicy {
        capabilities: vec![
            entry("agent-observability", true, true),
            entry("token-optimization", true, true),
        ],
    }
}

#[test]
fn enable_with_zero_capabilities_is_rejected_by_clap() {
    // The argument parser takes care of zero capabilities; the guard against
    // several of them is the library's.
    let err = handle(
        args(&["agent-observability", "tokenless"]),
        &ctx(false, true, InstallMode::System),
        &Ok(packaged()),
        &Ok(()),
    )
    .expect_err("must error");
    assert_eq!(err.code(), "INVALID_ARGUMENT");
}

#[test]
fn enable_dry_run_capability_not_in_policy_returns_plan_with_gate_warning() {
    let d = handle(
        args(&["agent-memory"]),
        &ctx(false, true, InstallMode::User),
        &Ok(packaged()),
        &Ok(()),
    )
    .expect("dry-run must succeed for a catalog capability even when the policy gate is closed");
    assert_eq!(d.capability, "agent-memory");
    assert!(!d.gate.allowed);
    assert_eq!(
        d.gate.reason.as_deref(),
        Some(scope_hint_for(&packaged(), "agent-memory").as_str())
    );
}

#[test]
fn dry_run_gate_warning_matches_real_execute_hint_format() {
    let policy = packaged();
    let hint = scope_hint_for(&policy, "agent-memory");
    assert!(
        hint.contains("agent-memory"),
        "scope hint must name the rejected capability: {hint}",
    );
    assert!(
        hint.contains("execution-policy.toml"),
        "scope hint must point at the policy file so users can self-serve: {hint}",
    );
}

#[test]
fn enable_dry_run_from_source_is_explicit_not_implemented() {
    let mut a = args(&["agent-observability"]);
    a.from_source = true;
    let err = handle(a, &ctx(false, true, InstallMode::System), &Ok(packaged()), &Ok(()))
        .expect_err("must error");
    assert_eq!(err.code(), "NOT_IMPLEMENTED");
    assert!(err.hint().unwrap_or("").contains("--from-source"));
}

#[test]
fn enable_dry_run_with_adapter_is_explicit_not_implemented() {
    let mut a = args(&["agent-observability"]);
    a.with_adapter = Some("auto".to_string());
    let err = handle(a, &ctx(false, true, InstallMode::System), &Ok(packaged()), &Ok(()))
        .expect_err("must error");
    assert_eq!(err.code(), "NOT_IMPLEMENTED");
    assert!(err.hint().unwrap_or("").contains("--with-adapter"));
}

#[test]
fn enable_dry_run_renders_plan_for_bundled_capability_with_temp_prefix() {
    let d = handle(
        args(&["agent-observability"]),
        &ctx_with_prefix(true, true, InstallMode::System, Some("/tmp/prefix".to_string())),
        &Ok(packaged()),
        &Ok(()),
    )
    .expect("dry-run should render a plan for bundled fixtures");
    assert_eq!(d.step, EnableStep::ShowJson);
}

#[test]
fn enable_execute_without_dry_run_blocked_plan_returns_invalid_argument() {
    let d = handle(
        args(&["agent-observability"]),
        &ctx_with_prefix(false, false, InstallMode::System, Some("/tmp/prefix".to_string())),
        &Ok(packaged()),
        &Ok(()),
    )
    .expect("a graduated capability goes on to be carried out");
    assert_eq!(d.step, EnableStep::Execute);
    let err = execute_err_to_cli(
        d.capability.as_str(),
        ExecuteError::PlanNotExecutable {
            status: "blocked".to_string(),
            reason: "os check failed".to_string(),
        },
    );
    assert_eq!(err.code(), "INVALID_ARGUMENT");
    let reason = err.reason();
    assert!(reason.contains("blocked"), "reason must mention 'blocked': {reason}");
    assert!(reason.contains("dry-run"), "reason must point at --dry-run: {reason}");
}

#[test]
fn enable_execute_without_dry_run_capability_not_in_policy_still_not_implemented() {
    let err = handle(
        args(&["agent-memory"]),
        &ctx(false, false, InstallMode::User),
        &Ok(packaged()),
        &Ok(()),
    )
    .expect_err("must error");
    assert_eq!(err.code(), "NOT_IMPLEMENTED");
    let hint = err.hint().unwrap_or("");
    assert!(
        hint.contains("agent-memory"),
        "hint must name the rejected capability: {hint}",
    );
}

#[test]
fn enable_dry_run_token_optimization_returns_plan_not_not_implemented() {
    let result = handle(
        args(&["token-optimization"]),
        &ctx(true, true, InstallMode::User),
        &Ok(packaged()),
        &Ok(()),
    );
    let d = result
        .expect("token-optimization dry-run must produce a plan now that policy graduates it");
    assert!(d.gate.allowed);
    assert!(d.gate.reason.is_none());
}

#[test]
fn enable_execute_without_dry_run_from_source_still_not_implemented() {
    let mut a = args(&["agent-observability"]);
    a.from_source = true;
    let err = handle(a, &ctx(false, false, InstallMode::System), &Ok(packaged()), &Ok(()))
        .expect_err("must error");
    assert_eq!(err.code(), "NOT_IMPLEMENTED");
    assert!(err.hint().unwrap_or("").contains("--from-source"));
}

#[test]
fn execute_err_download_maps_to_execution_failed_exit_1() {
    let err = execute_err_to_cli(
        "agent-observability",
        ExecuteError::Download {
            component: "agentsight".to_string(),
            source: "unsupported scheme: https".to_string(),
        },
    );
    assert_eq!(err.code(), "EXECUTION_FAILED");
    assert_eq!(err.exit_code(), 1);
    assert!(err.reason().contains("agentsight"));
}

#[test]
fn execute_err_install_maps_to_execution_failed_exit_1() {
    let err = execute_err_to_cli(
        "agent-observability",
        ExecuteError::Install {
            component: "agentsight".to_string(),
            source: "unsupported artifact type: oci".to_string(),
        },
    );
    assert_eq!(err.code(), "EXECUTION_FAILED");
    assert_eq!(err.exit_code(), 1);
    assert!(err.reason().contains("agentsight"));
}

#[test]
fn execute_err_state_maps_to_execution_failed_exit_1() {
    let err = execute_err_to_cli(
        "agent-observability",
        ExecuteError::State { source: "/tmp/installed.toml: denied".to_string() },
    );
    assert_eq!(err.code(), "EXECUTION_FAILED");
    assert_eq!(err.exit_code(), 1);
}

#[test]
fn execute_err_log_maps_to_execution_failed_exit_1() {
    let err = execute_err_to_cli(
        "agent-observability",
        ExecuteError::Log { source: "/tmp/central.jsonl: denied".to_string() },
    );
    assert_eq!(err.code(), "EXECUTION_FAILED");
    assert_eq!(err.exit_code(), 1);
}

#[test]
fn execute_err_lock_held_maps_to_execution_failed_exit_1() {
    let err = execute_err_to_cli(
        "agent-observability",
        ExecuteError::LockHeld { path: "/var/lib/anolisa/lock".to_string() },
    );
    assert_eq!(err.code(), "EXECUTION_FAILED");
    assert_eq!(err.exit_code(), 1);
    assert!(err.reason().contains("/var/lib/anolisa/lock"));
}

#[test]
fn execute_err_lock_io_maps_to_execution_failed_exit_1() {
    let err = execute_err_to_cli(
        "agent-observability",
        ExecuteError::Lock { source: "/var/lib/anolisa/lock: denied".to_string() },
    );
    assert_eq!(err.code(), "EXECUTION_FAILED");
    assert_eq!(err.exit_code(), 1);
}

#[test]
fn execute_err_plan_not_executable_stays_invalid_argument_exit_2() {
    let err = execute_err_to_cli(
        "agent-observability",
        ExecuteError::PlanNotExecutable {
            status: "blocked".to_string(),
            reason: "test blocker".to_string(),
        },
    );
    assert_eq!(err.code(), "INVALID_ARGUMENT");
    assert_eq!(err.exit_code(), 2);
    assert!(err.reason().contains("dry-run"));
}

#[test]
fn execute_err_missing_artifact_stays_invalid_argument_exit_2() {
    let err = execute_err_to_cli(
        "agent-observability",
        ExecuteError::MissingArtifact { component: "agentsight".to_string() },
    );
    assert_eq!(err.code(), "INVALID_ARGUMENT");
    assert_eq!(err.exit_code(), 2);
}

#[test]
fn execute_err_missing_checksum_stays_invalid_argument_exit_2() {
    let err = execute_err_to_cli(
        "agent-observability",
        ExecuteError::MissingChecksum { component: "agentsight".to_string() },
    );
    assert_eq!(err.code(), "INVALID_ARGUMENT");
    assert_eq!(err.exit_code(), 2);
}

#[test]
fn execute_err_disabled_state_inconsistent_routes_to_invalid_argument() {
    let err = execute_err_to_cli(
        "agent-observability",
        ExecuteError::DisabledStateInconsistent {
            capability: "agent-observability".to_string(),
            mismatches: vec![
                "agentsight: sha256 mismatch at /usr/local/bin/agentsight (expected aaa, actual bbb)"
                    .to_string(),
                "agentsight: cannot read /usr/local/bin/other for verification: No such file or directory"
                    .to_string(),
            ],
        },
    );
    assert_eq!(err.code(), "INVALID_ARGUMENT");
    assert_eq!(err.exit_code(), 2);
    let reason = err.reason();
    assert!(
        reason.contains("agent-observability"),
        "reason must name the capability: {reason}",
    );
    assert!(
        reason.contains("sha256 mismatch"),
        "reason must include per-file diagnostic: {reason}",
    );
    assert!(
        reason.contains("anolisa status agent-observability --verbose"),
        "reason must hint at status --verbose for inspection: {reason}",
    );
    assert!(
        reason.contains("uninstall") || reason.contains("purge"),
        "reason must mention the resolution path (uninstall/purge): {reason}",
    );
}

#[test]
fn execute_err_dry_run_hint_uses_invoked_capability_name() {
    let blocked = execute_err_to_cli(
        "token-optimization",
        ExecuteError::PlanNotExecutable {
            status: "blocked".to_string(),
            reason: "host arch mismatch".to_string(),
        },
    );
    assert!(
        blocked.reason().contains("anolisa enable token-optimization --dry-run"),
        "PlanNotExecutable hint must name the invoked capability: {}",
        blocked.reason(),
    );
    assert!(
        !blocked.reason().contains("agent-observability"),
        "PlanNotExecutable hint must not leak the P1-G0 capability name: {}",
        blocked.reason(),
    );

    let missing = execute_err_to_cli(
        "token-optimization",
        ExecuteError::MissingArtifact { component: "tokenless".to_string() },
    );
    assert!(
        missing.reason().contains("anolisa enable token-optimization --dry-run"),
        "MissingArtifact hint must name the invoked capability: {}",
        missing.reason(),
    );
    assert!(
        !missing.reason().contains("agent-observability"),
        "MissingArtifact hint must not leak the P1-G0 capability name: {}",
        missing.reason(),
    );
}

#[test]
fn arguments_are_refused_in_order() {
    assert_eq!(check_args(&args(&["a"])).unwrap(), "a");
    let none = check_args(&args(&[])).unwrap_err();
    assert_eq!(none.code(), "INVALID_ARGUMENT");
    assert_eq!(none.reason(), "enable currently accepts exactly one capability");
    let mut all = args(&["a"]);
    all.from_source = true;
    all.with_adapter = Some("auto".to_string());
    all.feature = Some("x".to_string());
    assert_eq!(
        check_args(&all).unwrap_err().hint(),
        Some("--from-source is not supported yet")
    );
    all.from_source = false;
    assert_eq!(
        check_args(&all).unwrap_err().hint(),
        Some("--with-adapter is not supported yet")
    );
    all.with_adapter = None;
    let last = check_args(&all).unwrap_err();
    assert_eq!(last.hint(), Some("--feature is not supported yet"));
    assert!(matches!(last, CliError::NotImplemented { command, .. } if command == "enable a"));
}

#[test]
fn a_policy_that_does_not_load_is_no_fault_of_the_caller() {
    let err = handle(
        args(&["agent-memory"]),
        &ctx(false, true, InstallMode::User),
        &Err("no such file".to_string()),
        &Ok(()),
    )
    .unwrap_err();
    assert_eq!(err.code(), "EXECUTION_FAILED");
    assert_eq!(err.exit_code(), 1);
    assert_eq!(err.reason(), "failed to load execution policy: no such file");
    assert_eq!(policy_load_err("c", "e").reason(), "failed to load execution policy: e");
}

#[test]
fn an_unknown_capability_comes_before_the_gate() {
    let err = handle(
        args(&["typo"]),
        &ctx(false, false, InstallMode::User),
        &Ok(packaged()),
        &Err(PlanError::UnknownCapability("typo".to_string())),
    )
    .unwrap_err();
    assert_eq!(err.code(), "INVALID_ARGUMENT");
    assert_eq!(err.reason(), "capability 'typo' is not in the catalog");
    let same = map_plan_err(&PlanError::UnknownCapability("typo".to_string()));
    assert_eq!(same.reason(), err.reason());
}

#[test]
fn dry_run_shows_text_unless_it_is_told_to_be_quiet() {
    let mut c = ctx(false, true, InstallMode::User);
    let step = |c: &CliContext| {
        handle(args(&["agent-memory"]), c, &Ok(packaged()), &Ok(())).unwrap().step
    };
    assert_eq!(step(&c), EnableStep::Silent);
    c.quiet = false;
    assert_eq!(step(&c), EnableStep::ShowText);
    c.json = true;
    assert_eq!(step(&c), EnableStep::ShowJson);
}

#[test]
fn hints_name_what_closes_the_gate() {
    let p = ExecutionPolicy {
        capabilities: vec![entry("a", true, true), entry("b", false, true), entry("c", true, false)],
    };
    assert_eq!(
        scope_hint_for(&p, "d"),
        "enable for 'd' is not graduated yet (execution policy graduates: a); add 'd' to \
         templates/execution-policy.toml with allow_execute = true to open the scope"
    );
    assert_eq!(
        scope_hint_for(&p, "b"),
        "enable for 'b' is gated off (execution policy entry has enabled = false); \
         graduated capabilities: a"
    );
    assert_eq!(
        scope_hint_for(&p, "c"),
        "enable for 'c' is gated off (execution policy entry has allow_execute = false); \
         graduated capabilities: a"
    );
    let empty = ExecutionPolicy { capabilities: vec![] };
    assert!(scope_hint_for(&empty, "a").contains("<none>"));
}

#[test]
fn only_enabled_entries_that_allow_it_are_carried_out() {
    let p = ExecutionPolicy {
        capabilities: vec![
            entry("a", true, true),
            entry("b", false, true),
            entry("c", true, false),
            entry("a", false, false),
        ],
    };
    assert!(p.allows_execute("a"));
    assert!(!p.allows_execute("b"));
    assert!(!p.allows_execute("c"));
    assert!(!p.allows_execute("d"));
    assert_eq!(p.graduated(), vec!["a".to_string()]);
    assert!(p.lookup("d").is_none());
    assert_eq!(p.lookup("c").map(|e| e.enabled), Some(true));
}

#[test]
fn plan_refusals_point_at_the_dry_run() {
    let component = || "tokenless".to_string();
    for err in [
        ExecuteError::PlanNotExecutable { status: "blocked".to_string(), reason: component() },
        ExecuteError::MissingArtifact { component: component() },
        ExecuteError::MissingChecksum { component: component() },
    ] {
        let e = execute_err_to_cli("token-optimization", err);
        assert_eq!((e.code(), e.exit_code()), ("INVALID_ARGUMENT", 2));
        assert!(e.reason().contains("`anolisa enable token-optimization --dry-run`"));
    }
    assert_eq!(
        execute_err_to_cli("cap", ExecuteError::MissingChecksum { component: component() })
            .reason(),
        "component 'tokenless' has no sha256 in the distribution index — refuse to install \
         without verification (regenerate the index with checksums and retry — check \
         `anolisa enable cap --dry-run`)"
    );
}

#[test]
fn failures_of_the_machine_say_what_failed() {
    let reason = |e: ExecuteError| execute_err_to_cli("cap", e).reason().to_string();
    assert_eq!(
        reason(ExecuteError::HookFailed {
            phase: "post_install".to_string(),
            component: "x".to_string(),
            summary: "boom".to_string(),
            exit_code: Some(-3),
        }),
        "lifecycle hook post_install for component 'x' failed (exit -3): boom — inspect the \
         central log (`anolisa logs --kind component --component x`) and the hook script before \
         retrying"
    );
    assert!(reason(ExecuteError::HookFailed {
        phase: "p".to_string(),
        component: "x".to_string(),
        summary: "boom".to_string(),
        exit_code: None,
    })
    .contains("(exit ?)"));
    assert_eq!(
        reason(ExecuteError::ManifestMismatch {
            component: "x".to_string(),
            expected_sha256: "aa".to_string(),
            actual_sha256: None,
        }),
        "component 'x': artifact's embedded component.toml does not match the registry meta.toml \
         used for planning (expected sha256 aa, actual <missing>) — published artifact and \
         meta.toml are inconsistent; nothing was installed. Re-run `anolisa enable cap --dry-run` \
         after the registry is republished"
    );
}

fn component(name: &str, artifact: bool) -> PlanComponent {
    PlanComponent {
        name: name.to_string(),
        manifest_version: None,
        status: "ready".to_string(),
        blocked_reason: None,
        artifact: if artifact {
            Some(PlanArtifact {
                artifact_type: "tar".to_string(),
                backend: "http".to_string(),
                version: "1.2".to_string(),
                url: format!("https://r/{name}"),
                sha256: None,
                meta_sha256: None,
            })
        } else {
            None
        },
        services: vec![],
        files: vec![],
        resolved_files: vec![],
        capabilities: vec![],
        requires_privilege: false,
    }
}

#[test]
fn published_metadata_is_asked_for_sorted_and_carried_in() {
    assert!(fetches_meta(true, false));
    assert!(!fetches_meta(true, true));
    assert!(!fetches_meta(false, false));
    let components =
        vec![component("a", true), component("b", false), component("c", true), component("d", true)];
    let queries = meta_queries(&components);
    let asked: Vec<&str> = queries.iter().map(|q| q.name.as_str()).collect();
    assert_eq!(asked, vec!["a", "c", "d"]);
    assert_eq!(queries[1].version, "1.2");
    assert_eq!(queries[1].url, "https://r/c");
    let replies = vec![
        MetaReply::Found("f00".to_string()),
        MetaReply::Missing,
        MetaReply::Failed("timeout".to_string()),
    ];
    let (found, warnings) = sort_replies(&queries, &replies);
    assert_eq!(found.len(), 1);
    assert_eq!((found[0].name.as_str(), found[0].sha256.as_str()), ("a", "f00"));
    assert_eq!(
        warnings,
        vec![
            "component 'c': no meta.toml published for v1.2 — plan previews the bundled manifest"
                .to_string(),
            "component 'd': meta.toml fetch failed (timeout) — plan previews the bundled manifest"
                .to_string(),
        ]
    );
    let carried = carry_digests(components, &found);
    let digest = |i: usize| carried[i].artifact.as_ref().and_then(|a| a.meta_sha256.clone());
    assert_eq!(digest(0), Some("f00".to_string()));
    assert_eq!(digest(1), None);
    assert_eq!(digest(2), None);
    assert_eq!(carried[2].name, "c");
}

// ── the course of the command ──

fn source(has_registry: bool, degraded_to_local: bool) -> IndexSource {
    IndexSource { has_registry, degraded_to_local, warnings: vec!["stale index".to_string()] }
}

/// A run that has its policy and index and waits for the plan.
fn planning(capability: &str, dry_run: bool, from: IndexSource) -> EnableRun {
    let (mut run, first) =
        EnableRun::start(args(&[capability]), ctx(true, dry_run, InstallMode::User));
    assert!(matches!(first, EnableAction::LoadPolicy));
    let next = run.advance(EnableEvent::Policy(Ok(packaged())));
    assert!(matches!(next, EnableAction::LoadIndex));
    let next = run.advance(EnableEvent::Index(Ok(from)));
    assert!(matches!(next, EnableAction::MakePlan));
    run
}

#[test]
fn run_with_bad_arguments_ends_at_once() {
    let (_, first) = EnableRun::start(args(&[]), ctx(false, true, InstallMode::User));
    match first {
        EnableAction::Fail(e) => assert_eq!(e.code(), "INVALID_ARGUMENT"),
        other => panic!("got: {:?}", other),
    }
}

#[test]
fn run_without_policy_or_index_fails() {
    let (mut run, _) = EnableRun::start(args(&["a"]), ctx(false, true, InstallMode::User));
    match run.advance(EnableEvent::Policy(Err("gone".to_string()))) {
        EnableAction::Fail(e) => {
            assert_eq!(e.reason(), "failed to load execution policy: gone");
        }
        other => panic!("got: {:?}", other),
    }
    let (mut run, _) = EnableRun::start(args(&["a"]), ctx(false, true, InstallMode::User));
    run.advance(EnableEvent::Policy(Ok(packaged())));
    let err = CliError::Runtime { command: "enable".to_string(), reason: "no index".to_string() };
    match run.advance(EnableEvent::Index(Err(err))) {
        EnableAction::Fail(e) => assert_eq!(e.reason(), "no index"),
        other => panic!("got: {:?}", other),
    }
}

#[test]
fn run_with_a_local_index_asks_for_no_metadata() {
    for from in [source(false, false), source(true, true)] {
        let mut run = planning("agent-memory", true, from);
        match run.advance(EnableEvent::Plan(Ok(vec![component("a", true)]))) {
            EnableAction::Proceed { decision, components, warnings } => {
                assert_eq!(decision.step, EnableStep::ShowJson);
                assert_eq!(components.len(), 1);
                assert_eq!(warnings, vec!["stale index".to_string()]);
            }
            other => panic!("got: {:?}", other),
        }
    }
}

#[test]
fn run_carries_published_metadata_into_a_new_plan() {
    let mut run = planning("token-optimization", false, source(true, false));
    let plan = || vec![component("a", true), component("b", false), component("c", true)];
    match run.advance(EnableEvent::Plan(Ok(plan()))) {
        EnableAction::FetchMeta(q) => assert_eq!(q.name, "a"),
        other => panic!("got: {:?}", other),
    }
    match run.advance(EnableEvent::Meta(MetaReply::Missing)) {
        EnableAction::FetchMeta(q) => assert_eq!(q.name, "c"),
        other => panic!("got: {:?}", other),
    }
    match run.advance(EnableEvent::Meta(MetaReply::Found("f00".to_string()))) {
        EnableAction::MakePlanAnew(names) => assert_eq!(names, vec!["c".to_string()]),
        other => panic!("got: {:?}", other),
    }
    match run.advance(EnableEvent::Plan(Ok(plan()))) {
        EnableAction::Proceed { decision, components, warnings } => {
            assert_eq!(decision.step, EnableStep::Execute);
            let digest = components[2].artifact.as_ref().and_then(|a| a.meta_sha256.clone());
            assert_eq!(digest, Some("f00".to_string()));
            assert_eq!(warnings.len(), 2);
            assert_eq!(warnings[0], "stale index");
            assert!(warnings[1].contains("no meta.toml published"));
        }
        other => panic!("got: {:?}", other),
    }
}

#[test]
fn run_without_any_metadata_keeps_its_first_plan() {
    let mut run = planning("agent-memory", false, source(true, false));
    run.advance(EnableEvent::Plan(Ok(vec![component("a", true)])));
    match run.advance(EnableEvent::Meta(MetaReply::Failed("timeout".to_string()))) {
        EnableAction::Fail(e) => assert_eq!(e.code(), "NOT_IMPLEMENTED"),
        other => panic!("got: {:?}", other),
    }
}

#[test]
fn run_for_an_unknown_capability_fails_before_the_policy_is_asked() {
    let mut run = planning("typo", false, source(true, false));
    let err = PlanError::UnknownCapability("typo".to_string());
    match run.advance(EnableEvent::Plan(Err(err))) {
        EnableAction::Fail(e) => assert_eq!(e.code(), "INVALID_ARGUMENT"),
        other => panic!("got: {:?}", other),
    }
}
