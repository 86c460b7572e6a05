use anolisa::cli::context::{CliContext, InstallMode};
use anolisa::cli::enable::{EnableStep, PlanArtifact, PlanComponent};
use anolisa::cli::enable_view::{
    outcome_step, render_execute_human, render_human, EnablePlan, EnvFacts, ExecuteOutcome,
    InstalledFile, LayoutSummary, Precheck,
};
use anolisa::cli::osbase::{
    dry_run_output, handle, install_finished, map_sandbox_err, phase_number, render_plan,
    BackendInfo, BackendTable, InstallPhase, InstallPlan, KernelArgs, KernelCommands, OsbaseAction,
    OsbaseArgs, OsbaseCommands, PhaseReport, PhaseStatus, PlanOutput, PlannedPhase, SandboxArgs,
    SandboxCommands, SandboxFailure, SandboxInstallError, SandboxInstallOutcome,
    SandboxInstallRequest, SandboxTarget, SecurityArgs, SecurityCommands,
};
use anolisa::cli::response::CliError;
use anolisa::cli::ui::{Line, Style};

fn context(install_mode: InstallMode, json: bool, dry_run: bool) -> CliContext {
    CliContext {
        install_mode,
        prefix: None,
        json,
        dry_run,
        verbose: false,
        quiet: false,
        no_color: true,
    }
}

fn plain(lines: &[Line]) -> Vec<String> {
    lines
        .iter()
        .map(|l| l.spans.iter().map(|s| s.text.as_str()).collect::<Vec<&str>>().join(""))
        .collect()
}

// ── enable ──

fn plan() -> EnablePlan {
    EnablePlan {
        capability: "agent-memory".to_string(),
        stability: "experimental".to_string(),
        install_mode: "user".to_string(),
        status: "blocked".to_string(),
        blocked_reason: Some("no kernel".to_string()),
        env_facts: EnvFacts {
            os: "linux".to_string(),
            arch: "x86_64".to_string(),
            libc: None,
            pkg_base: Some("rpm".to_string()),
        },
        prechecks: vec![Precheck {
            name: "os".to_string(),
            status: "fail".to_string(),
            expected: "linux".to_string(),
            actual: "macos".to_string(),
            message: Some("wrong".to_string()),
        }],
        components: vec![PlanComponent {
            name: "memory".to_string(),
            manifest_version: None,
            status: "ready".to_string(),
            blocked_reason: Some("why".to_string()),
            artifact: Some(PlanArtifact {
                artifact_type: "tar".to_string(),
                backend: "http".to_string(),
                version: "1.0".to_string(),
                url: "https://r/m".to_string(),
                sha256: Some("abc".to_string()),
                meta_sha256: None,
            }),
            services: vec!["m.service".to_string(), "n.service".to_string()],
            files: vec![],
            resolved_files: vec!["/usr/bin/m".to_string()],
            capabilities: vec![],
            requires_privilege: true,
        }],
        layout: LayoutSummary {
            bin_dir: "/tmp/bin".to_string(),
            etc_dir: "/tmp/etc".to_string(),
            state_dir: "/tmp/state".to_string(),
            log_dir: "/tmp/log".to_string(),
            manifests_overlay: "/tmp/overlay".to_string(),
        },
        warnings: vec!["careful".to_string()],
        next_actions: vec!["run it".to_string()],
    }
}

#[test]
fn plan_is_shown_line_by_line() {
    let lines = render_human(&plan(), false);
    assert_eq!(
        plain(&lines),
        vec![
            "capability: agent-memory (stability: experimental, install_mode: user, dry_run: true)",
            "status: blocked",
            "blocked: no kernel",
            "env:",
            "  os=linux arch=x86_64 libc=- pkg_base=rpm",
            "prechecks:",
            "  - os             fail  expected=linux actual=macos wrong",
            "components:",
            "  - memory v- status=ready",
            "      blocked: why",
            "      artifact: tar (http) v1.0 url=https://r/m",
            "layout:",
            "  bin_dir:           /tmp/bin",
            "  etc_dir:           /tmp/etc",
            "  state_dir:         /tmp/state",
            "  log_dir:           /tmp/log",
            "  manifests_overlay: /tmp/overlay",
            "warnings:",
            "  - careful",
            "next:",
            "  - run it",
        ]
    );
    assert_eq!(lines[2].spans[0].style, Style::Bad);
    assert_eq!(lines[6].spans[1].style, Style::Status);
}

#[test]
fn more_of_a_plan_is_shown_where_it_is_asked_for() {
    let lines = plain(&render_human(&plan(), true));
    assert_eq!(
        lines[10..15],
        [
            "      artifact: tar (http) v1.0 url=https://r/m",
            "      sha256: abc",
            "      services: m.service, n.service",
            "      resolved_files: /usr/bin/m",
            "      requires_privilege: true",
        ]
    );
}

#[test]
fn empty_parts_of_a_plan_are_left_out() {
    let mut p = plan();
    p.blocked_reason = None;
    p.prechecks = vec![];
    p.components = vec![];
    p.warnings = vec![];
    p.next_actions = vec![];
    let lines = plain(&render_human(&p, true));
    assert_eq!(lines.len(), 11);
    assert_eq!(lines[2], "env:");
    assert_eq!(lines[4], "components:");
    assert_eq!(lines[5], "layout:");
}

fn outcome(reactivated: bool) -> ExecuteOutcome {
    ExecuteOutcome {
        operation_id: "op-1".to_string(),
        capability: "agent-memory".to_string(),
        install_mode: "user".to_string(),
        components: vec!["memory".to_string()],
        installed_files: vec![InstalledFile {
            component: "memory".to_string(),
            path: "/usr/bin/m".to_string(),
            sha256: "0123456789abcdef".to_string(),
        }],
        state_path: "/s/installed.toml".to_string(),
        central_log_path: "/l/central.jsonl".to_string(),
        warnings: vec![],
        reactivated,
    }
}

#[test]
fn outcome_shows_short_digests_unless_more_is_asked_for() {
    let short = plain(&render_execute_human(&outcome(false), false)).join("\n");
    assert!(short.contains("01234567") && !short.contains("012345678"));
    assert!(short.contains("/usr/bin/m") && short.contains("agent-memory"));
    let long = plain(&render_execute_human(&outcome(false), true)).join("\n");
    assert!(long.contains("0123456789abcdef"));
    let again = plain(&render_execute_human(&outcome(true), false)).join("\n");
    assert_ne!(short, again);
}

#[test]
fn outcome_is_shown_as_the_caller_asks() {
    let mut c = context(InstallMode::User, false, false);
    assert_eq!(outcome_step(&c), EnableStep::ShowText);
    c.quiet = true;
    assert_eq!(outcome_step(&c), EnableStep::Silent);
    c.json = true;
    assert_eq!(outcome_step(&c), EnableStep::ShowJson);
}

// ── osbase ──

fn backend(label: &str) -> BackendInfo {
    BackendInfo { label: label.to_string(), default_variant: format!("{label}-default") }
}

fn table() -> BackendTable {
    BackendTable {
        container: backend("container"),
        kata: backend("kata"),
        firecracker: backend("firecracker"),
        gvisor: backend("gvisor"),
        vm: backend("vm"),
        landlock: backend("landlock"),
    }
}

fn install(target: SandboxTarget, variant: Option<&str>, dry_run: bool) -> OsbaseArgs {
    OsbaseArgs {
        command: OsbaseCommands::Sandbox(SandboxArgs {
            command: SandboxCommands::Install {
                target,
                variant: variant.map(|v| v.to_string()),
                dry_run,
                force: true,
                skip_verify: false,
            },
        }),
    }
}

#[test]
fn sandbox_is_only_installed_for_the_system() {
    let err = handle(
        install(SandboxTarget::Kata, None, true),
        &context(InstallMode::User, false, false),
        &table(),
    )
    .unwrap_err();
    assert_eq!(err.code(), "INVALID_ARGUMENT");
    assert_eq!(
        err.reason(),
        "sandbox install is system-only; pass --install-mode=system (and run as root)"
    );
    assert!(matches!(
        err,
        CliError::InvalidArgument { command, .. }
            if command == "osbase sandbox install kata --variant=kata-default"
    ));
}

#[test]
fn dry_run_of_either_kind_only_plans() {
    let system = context(InstallMode::System, true, false);
    match handle(install(SandboxTarget::Gvisor, Some("v1"), false), &system, &table()) {
        Ok(OsbaseAction::Install(r)) => {
            assert_eq!((r.backend.as_str(), r.variant.as_str()), ("gvisor", "v1"));
            assert!(r.force && !r.skip_verify && r.json && !r.dry_run);
        }
        other => panic!("got: {:?}", other),
    }
    let r = handle(install(SandboxTarget::Gvisor, None, true), &system, &table());
    assert!(matches!(r, Ok(OsbaseAction::Plan(q)) if q.variant == "gvisor-default"));
    let global = context(InstallMode::System, false, true);
    let r = handle(install(SandboxTarget::Vm, None, false), &global, &table());
    assert!(matches!(r, Ok(OsbaseAction::Plan(q)) if q.dry_run));
}

#[test]
fn other_commands_are_not_open_yet() {
    let c = context(InstallMode::System, false, false);
    let closed = |command: OsbaseCommands| {
        let err = handle(OsbaseArgs { command }, &c, &table()).unwrap_err();
        assert_eq!(err.code(), "NOT_IMPLEMENTED");
        match err {
            CliError::NotImplemented { command, hint } => {
                assert!(hint.is_none());
                command
            }
            other => panic!("got: {:?}", other),
        }
    };
    let kernel = |command: KernelCommands| OsbaseCommands::Kernel(KernelArgs { command });
    assert_eq!(closed(kernel(KernelCommands::Install { dry_run: true })), "osbase kernel install");
    assert_eq!(closed(kernel(KernelCommands::Remove)), "osbase kernel remove");
    assert_eq!(closed(kernel(KernelCommands::Status)), "osbase kernel status");
    let security = |command: SecurityCommands| OsbaseCommands::Security(SecurityArgs { command });
    assert_eq!(
        closed(security(SecurityCommands::Install { target: "x".to_string(), dry_run: false })),
        "osbase security install x"
    );
    assert_eq!(
        closed(security(SecurityCommands::Status { target: None })),
        "osbase security status"
    );
    let sandbox = |command: SandboxCommands| OsbaseCommands::Sandbox(SandboxArgs { command });
    assert_eq!(
        closed(sandbox(SandboxCommands::Status {
            target: Some(SandboxTarget::Landlock),
            json: false
        })),
        "osbase sandbox status landlock"
    );
}

fn request(json: bool) -> SandboxInstallRequest {
    SandboxInstallRequest {
        target: SandboxTarget::Kata,
        backend: "kata".to_string(),
        variant: "v".to_string(),
        dry_run: false,
        force: false,
        skip_verify: false,
        json,
    }
}

fn failure(failure: SandboxFailure) -> SandboxInstallError {
    SandboxInstallError { failure, message: "m".to_string() }
}

#[test]
fn failures_of_the_installer_are_told_apart() {
    for f in [SandboxFailure::EnvNotSatisfied, SandboxFailure::Unsupported, SandboxFailure::NotRoot]
    {
        let err = map_sandbox_err(failure(f), &request(false));
        assert_eq!((err.code(), err.exit_code(), err.reason()), ("INVALID_ARGUMENT", 2, "m"));
    }
    let err = map_sandbox_err(failure(SandboxFailure::Other), &request(false));
    assert_eq!((err.code(), err.exit_code()), ("EXECUTION_FAILED", 1));
}

#[test]
fn plan_of_an_installation_is_shown() {
    let plan = InstallPlan {
        backend: "kata".to_string(),
        variant: "v".to_string(),
        phases: vec![
            PlannedPhase {
                phase: InstallPhase::Preflight,
                label: "Preflight".to_string(),
                actions: vec!["check".to_string(), "check again".to_string()],
            },
            PlannedPhase {
                phase: InstallPhase::PostVerify,
                label: "Verify".to_string(),
                actions: vec![],
            },
        ],
    };
    let expected = vec![
        "Install plan for: kata (variant=v)",
        "",
        "Phase 1: Preflight",
        "  - check",
        "  - check again",
        "",
        "Phase 5: Verify",
        "",
    ];
    assert_eq!(render_plan(&plan), expected);
    assert_eq!(phase_number(InstallPhase::OsPrimitives), 3);
    assert!(matches!(
        dry_run_output(&request(false), Ok(plan.clone())),
        Ok(PlanOutput::Lines(l)) if l == expected
    ));
    assert!(matches!(
        dry_run_output(&request(true), Ok(plan)),
        Ok(PlanOutput::Json(c)) if c == "osbase sandbox install kata --variant=v"
    ));
    assert!(dry_run_output(&request(true), Err(failure(SandboxFailure::NotRoot))).is_err());
}

fn done(exit_code: i32) -> SandboxInstallOutcome {
    SandboxInstallOutcome {
        backend: "kata".to_string(),
        variant: "v".to_string(),
        exit_code,
        phases: vec![
            PhaseReport {
                label: "preflight".to_string(),
                status: PhaseStatus::Success,
                message: "ok".to_string(),
            },
            PhaseReport {
                label: "packages".to_string(),
                status: PhaseStatus::Warning,
                message: "old".to_string(),
            },
        ],
        warnings: vec!["w".to_string()],
    }
}

#[test]
fn outcome_of_an_installation_is_shown() {
    let c = context(InstallMode::System, false, false);
    let out = install_finished(&c, &request(false), Ok(done(0))).unwrap();
    assert!(out.result.is_ok());
    assert_eq!(
        out.stdout,
        vec![
            "[1/2] preflight  \u{2713}  (ok)",
            "[2/2] packages   \u{26A0}  (old)",
            "",
            "sandbox backend 'kata' (variant=v) installed successfully.",
        ]
    );
    assert_eq!(out.stderr, vec!["", "warning: w"]);
    let out = install_finished(&c, &request(false), Ok(done(2))).unwrap();
    match out.result {
        Err(CliError::Degraded { reason, .. }) => {
            assert_eq!(reason, "sandbox backend 'kata' (variant=v) installed with warnings");
        }
        other => panic!("got: {:?}", other),
    }
    let out = install_finished(&c, &request(false), Ok(done(-4))).unwrap();
    assert_eq!(
        out.result.unwrap_err().reason(),
        "sandbox backend 'kata' (variant=v) install failed (exit_code=-4)"
    );
    assert_eq!(out.stdout.len(), 3);
    let r = install_finished(&c, &request(false), Err(failure(SandboxFailure::Other)));
    assert!(r.is_err());
}

#[test]
fn machine_output_is_only_given_of_a_plain_success() {
    let c = context(InstallMode::System, true, false);
    let out = install_finished(&c, &request(true), Ok(done(0))).unwrap();
    assert_eq!(out.json.as_deref(), Some("osbase sandbox install kata --variant=v"));
    assert!(out.stdout.is_empty() && out.stderr.is_empty());
    let out = install_finished(&c, &request(true), Ok(done(2))).unwrap();
    assert!(out.json.is_none() && out.result.is_err());
}
