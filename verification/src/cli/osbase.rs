//! `anolisa osbase`: kernel, sandbox and security substrates.

use vstd::prelude::*;

use super::context::{CliContext, InstallMode};
use super::response::CliError;
use crate::text;
use crate::text::{cat2, cat3, i64_text, pad_right, push_decimal};

verus! {

/// Arguments of `osbase`.
#[derive(Clone, Debug)]
pub struct OsbaseArgs {
    pub command: OsbaseCommands,
}

#[derive(Clone, Debug)]
pub enum OsbaseCommands {
    /// Kernel modules and eBPF base management
    Kernel(KernelArgs),
    /// Sandbox substrate management
    Sandbox(SandboxArgs),
    /// Security overlay management
    Security(SecurityArgs),
}

#[derive(Clone, Debug)]
pub struct KernelArgs {
    pub command: KernelCommands,
}

#[derive(Clone, Debug)]
pub enum KernelCommands {
    /// Install kernel modules and eBPF programs
    Install { dry_run: bool },
    /// Remove kernel modules
    Remove,
    /// Show kernel substrate status
    Status,
}

/// Sandbox backend target (isolation engine)
#[derive(Clone, Copy, Debug, PartialEq, Eq, Structural)]
pub enum SandboxTarget {
    /// OCI container runtime
    Container,
    /// Kata Containers
    Kata,
    /// Firecracker microVM
    Firecracker,
    /// gVisor user-space kernel
    Gvisor,
    /// QEMU/KVM full virtual machine
    Vm,
    /// Landlock LSM filesystem access control
    Landlock,
}

#[derive(Clone, Debug)]
pub struct SandboxArgs {
    pub command: SandboxCommands,
}

#[derive(Clone, Debug)]
pub enum SandboxCommands {
    /// Install a sandbox backend
    Install {
        target: SandboxTarget,
        variant: Option<String>,
        dry_run: bool,
        force: bool,
        skip_verify: bool,
    },
    /// Remove a sandbox backend
    Remove {
        target: SandboxTarget,
        variant: Option<String>,
        purge: bool,
        force: bool,
        dry_run: bool,
    },
    /// List all sandbox backends and their availability
    List { available: bool, json: bool },
    /// Show sandbox backend status
    Status { target: Option<SandboxTarget>, json: bool },
}

#[derive(Clone, Debug)]
pub struct SecurityArgs {
    pub command: SecurityCommands,
}

#[derive(Clone, Debug)]
pub enum SecurityCommands {
    /// Install a security overlay
    Install { target: String, dry_run: bool },
    /// Remove a security overlay
    Remove { target: String },
    /// Show security overlay status
    Status { target: Option<String> },
}

/// Name of a target.
pub open spec fn target_text(target: SandboxTarget) -> Seq<char> {
    match target {
        SandboxTarget::Container => "container"@,
        SandboxTarget::Kata => "kata"@,
        SandboxTarget::Firecracker => "firecracker"@,
        SandboxTarget::Gvisor => "gvisor"@,
        SandboxTarget::Vm => "vm"@,
        SandboxTarget::Landlock => "landlock"@,
    }
}

impl SandboxTarget {
    /// Name of the target.
    pub fn as_str(self) -> (r: &'static str)
        ensures
            r@ == target_text(self),
            self is Container ==> r@ == "container"@,
            self is Kata ==> r@ == "kata"@,
            self is Firecracker ==> r@ == "firecracker"@,
            self is Gvisor ==> r@ == "gvisor"@,
            self is Vm ==> r@ == "vm"@,
            self is Landlock ==> r@ == "landlock"@,
    {
        match self {
            SandboxTarget::Container => "container",
            SandboxTarget::Kata => "kata",
            SandboxTarget::Firecracker => "firecracker",
            SandboxTarget::Gvisor => "gvisor",
            SandboxTarget::Vm => "vm",
            SandboxTarget::Landlock => "landlock",
        }
    }
}

/// What the installer calls a backend, and which variant it takes by default.
#[derive(Clone, Debug)]
pub struct BackendInfo {
    pub label: String,
    pub default_variant: String,
}

/// The backends of the installer.
#[derive(Clone, Debug)]
pub struct BackendTable {
    pub container: BackendInfo,
    pub kata: BackendInfo,
    pub firecracker: BackendInfo,
    pub gvisor: BackendInfo,
    pub vm: BackendInfo,
    pub landlock: BackendInfo,
}

impl BackendTable {
    /// The backend of a target.
    pub open spec fn backend(self, target: SandboxTarget) -> BackendInfo {
        match target {
            SandboxTarget::Container => self.container,
            SandboxTarget::Kata => self.kata,
            SandboxTarget::Firecracker => self.firecracker,
            SandboxTarget::Gvisor => self.gvisor,
            SandboxTarget::Vm => self.vm,
            SandboxTarget::Landlock => self.landlock,
        }
    }

    /// The backend of a target.
    pub fn sandbox_target_to_kind(&self, target: SandboxTarget) -> (r: &BackendInfo)
        ensures
            *r == self.backend(target),
            target is Container ==> *r == self.container,
            target is Kata ==> *r == self.kata,
            target is Firecracker ==> *r == self.firecracker,
            target is Gvisor ==> *r == self.gvisor,
            target is Vm ==> *r == self.vm,
            target is Landlock ==> *r == self.landlock,
    {
        match target {
            SandboxTarget::Container => &self.container,
            SandboxTarget::Kata => &self.kata,
            SandboxTarget::Firecracker => &self.firecracker,
            SandboxTarget::Gvisor => &self.gvisor,
            SandboxTarget::Vm => &self.vm,
            SandboxTarget::Landlock => &self.landlock,
        }
    }
}

/// An installation that was asked for.
#[derive(Clone, Debug)]
pub struct SandboxInstallRequest {
    pub target: SandboxTarget,
    /// What the installer calls the backend.
    pub backend: String,
    pub variant: String,
    pub dry_run: bool,
    pub force: bool,
    pub skip_verify: bool,
    pub json: bool,
}

/// What `osbase` has to do.
#[derive(Clone, Debug)]
pub enum OsbaseAction {
    /// Check the request and show its plan.
    Plan(SandboxInstallRequest),
    /// Carry the request out.
    Install(SandboxInstallRequest),
}

/// The command line of an installation.
pub open spec fn install_command(backend: Seq<char>, variant: Seq<char>) -> Seq<char> {
    "osbase sandbox install "@ + backend + " --variant="@ + variant
}

fn install_command_line(backend: &str, variant: &str) -> (r: String)
    ensures
        r@ == install_command(backend@, variant@),
{
    let mut r = cat3("osbase sandbox install ", backend, " --variant=");
    r.append(variant);
    r
}

/// A command of `osbase`, as far as it is not open yet.
pub open spec fn closed_command(args: OsbaseArgs) -> Option<Seq<char>> {
    match args.command {
        OsbaseCommands::Kernel(k) => Some(
            match k.command {
                KernelCommands::Install { .. } => "osbase kernel install"@,
                KernelCommands::Remove => "osbase kernel remove"@,
                KernelCommands::Status => "osbase kernel status"@,
            },
        ),
        OsbaseCommands::Security(s) => Some(
            match s.command {
                SecurityCommands::Install { target, dry_run } => "osbase security install "@
                    + target@,
                SecurityCommands::Remove { target } => "osbase security remove "@ + target@,
                SecurityCommands::Status { target: Some(t) } => "osbase security status "@ + t@,
                SecurityCommands::Status { target: None } => "osbase security status"@,
            },
        ),
        OsbaseCommands::Sandbox(s) => match s.command {
            SandboxCommands::Install { .. } => None,
            SandboxCommands::Remove { target, variant: Some(v), purge, force, dry_run } => Some(
                "osbase sandbox remove "@ + target_text(target) + " --variant="@ + v@,
            ),
            SandboxCommands::Remove { target, variant: None, purge, force, dry_run } => Some(
                "osbase sandbox remove "@ + target_text(target),
            ),
            SandboxCommands::List { .. } => Some("osbase sandbox list"@),
            SandboxCommands::Status { target: Some(t), json } => Some(
                "osbase sandbox status "@ + target_text(t),
            ),
            SandboxCommands::Status { target: None, json } => Some("osbase sandbox status"@),
        },
    }
}

/// The variant of an installation: the given one, or the backend's default.
pub open spec fn variant_of(variant: Option<String>, backend: BackendInfo) -> Seq<char> {
    match variant {
        Some(v) => v@,
        None => backend.default_variant@,
    }
}

/// The request that an installation makes.
pub open spec fn requests(
    req: SandboxInstallRequest,
    command: SandboxCommands,
    ctx: CliContext,
    table: BackendTable,
) -> bool {
    command matches SandboxCommands::Install { target, variant, dry_run, force, skip_verify } && {
        let backend = table.backend(target);
        &&& req.target == target
        &&& req.backend@ == backend.label@
        &&& req.variant@ == variant_of(variant, backend)
        &&& req.dry_run == (dry_run || ctx.dry_run)
        &&& req.force == force
        &&& req.skip_verify == skip_verify
        &&& req.json == ctx.json
    }
}

/// What an installation comes to before anything is done: it is refused unless
/// it is meant for the system, and a dry run only shows its plan.
pub open spec fn install_decided(
    command: SandboxCommands,
    ctx: CliContext,
    table: BackendTable,
    r: Result<OsbaseAction, CliError>,
) -> bool {
    command matches SandboxCommands::Install { target, variant, dry_run, force, skip_verify } && (
    if ctx.install_mode != InstallMode::System {
        r is Err && r->Err_0.is_invalid(
            install_command(target_text(target), variant_of(variant, table.backend(target))),
            "sandbox install is system-only; pass --install-mode=system (and run as root)"@,
        )
    } else if dry_run || ctx.dry_run {
        r matches Ok(OsbaseAction::Plan(req)) && requests(req, command, ctx, table)
    } else {
        r matches Ok(OsbaseAction::Install(req)) && requests(req, command, ctx, table)
    })
}

/// Decides what an `osbase` command does. Everything but the installation of a
/// sandbox is not open yet.
pub fn handle(args: OsbaseArgs, ctx: &CliContext, table: &BackendTable) -> (r: Result<
    OsbaseAction,
    CliError,
>)
    ensures
        match closed_command(args) {
            Some(command) => r is Err && r->Err_0.is_closed(command, None),
            None => args.command matches OsbaseCommands::Sandbox(s) && install_decided(
                s.command,
                *ctx,
                *table,
                r,
            ),
        },
        r is Ok <==> ctx.install_mode is System && args.command is Sandbox
            && args.command->Sandbox_0.command is Install,
        r matches Err(e) ==> e is NotImplemented || e is InvalidArgument,
        !(args.command is Sandbox) ==> r is Err && r->Err_0 is NotImplemented,
        r is Err && r->Err_0 is NotImplemented ==> r->Err_0->NotImplemented_command@
            == text::joined(command_words(args), " "@),
        r matches Ok(action) ==> args.command->Sandbox_0.command matches SandboxCommands::Install {
            target,
            variant,
            dry_run,
            force,
            skip_verify,
        } && {
            let req = match action {
                OsbaseAction::Plan(req) => req,
                OsbaseAction::Install(req) => req,
            };
            &&& ctx.install_mode is System
            &&& action is Plan <==> dry_run || ctx.dry_run
            &&& req.target == target
            &&& target is Container ==> req.backend@ == table.container.label@ && (variant is None
                ==> req.variant@ == table.container.default_variant@)
            &&& target is Kata ==> req.backend@ == table.kata.label@ && (variant is None
                ==> req.variant@ == table.kata.default_variant@)
            &&& target is Firecracker ==> req.backend@ == table.firecracker.label@
                && (variant is None ==> req.variant@ == table.firecracker.default_variant@)
            &&& target is Gvisor ==> req.backend@ == table.gvisor.label@ && (variant is None
                ==> req.variant@ == table.gvisor.default_variant@)
            &&& target is Vm ==> req.backend@ == table.vm.label@ && (variant is None
                ==> req.variant@ == table.vm.default_variant@)
            &&& target is Landlock ==> req.backend@ == table.landlock.label@ && (variant is None
                ==> req.variant@ == table.landlock.default_variant@)
            &&& variant matches Some(v) ==> req.variant@ == v@
            &&& req.dry_run == (dry_run || ctx.dry_run)
            &&& req.force == force
            &&& req.skip_verify == skip_verify
            &&& req.json == ctx.json
        },
{
    proof {
        closed_commands_are_spelled_out(args);
    }
    match args.command {
        OsbaseCommands::Sandbox(s) => handle_sandbox(s.command, ctx, table),
        OsbaseCommands::Kernel(k) => {
            let command = match k.command {
                KernelCommands::Install { .. } => "osbase kernel install",
                KernelCommands::Remove => "osbase kernel remove",
                KernelCommands::Status => "osbase kernel status",
            };
            Err(CliError::not_implemented(command.to_owned()))
        },
        OsbaseCommands::Security(s) => {
            let command = match s.command {
                SecurityCommands::Install { target, dry_run: _ } => cat2(
                    "osbase security install ",
                    target.as_str(),
                ),
                SecurityCommands::Remove { target } => cat2(
                    "osbase security remove ",
                    target.as_str(),
                ),
                SecurityCommands::Status { target } => match target {
                    Some(t) => cat2("osbase security status ", t.as_str()),
                    None => "osbase security status".to_owned(),
                },
            };
            Err(CliError::not_implemented(command))
        },
    }
}

/// Decides what a sandbox command does.
pub fn handle_sandbox(command: SandboxCommands, ctx: &CliContext, table: &BackendTable) -> (r:
    Result<OsbaseAction, CliError>)
    ensures
        match closed_command(
            OsbaseArgs { command: OsbaseCommands::Sandbox(SandboxArgs { command }) },
        ) {
            Some(c) => r is Err && r->Err_0.is_closed(c, None),
            None => install_decided(command, *ctx, *table, r),
        },
        r is Err && !(command is Install) ==> r->Err_0 is NotImplemented
            && r->Err_0->NotImplemented_command@ == text::joined(
            command_words(OsbaseArgs { command: OsbaseCommands::Sandbox(SandboxArgs { command }) }),
            " "@,
        ),
        r is Ok <==> command is Install && ctx.install_mode is System,
        r is Err && command is Install ==> r->Err_0 is InvalidArgument
            && r->Err_0->InvalidArgument_reason@
            == "sandbox install is system-only; pass --install-mode=system (and run as root)"@
            && text::starts_with(
            r->Err_0->InvalidArgument_command@,
            "osbase sandbox install "@ + target_text(command->Install_target) + " --variant="@,
        ),
        r matches Err(e) ==> (if command is Install {
            e is InvalidArgument
        } else {
            e is NotImplemented
        }),
        r matches Ok(action) ==> command matches SandboxCommands::Install {
            target,
            variant,
            dry_run,
            force,
            skip_verify,
        } && {
            let req = match action {
                OsbaseAction::Plan(req) => req,
                OsbaseAction::Install(req) => req,
            };
            &&& ctx.install_mode is System
            &&& action is Plan <==> dry_run || ctx.dry_run
            &&& req.target == target
            &&& target is Container ==> req.backend@ == table.container.label@ && (variant is None
                ==> req.variant@ == table.container.default_variant@)
            &&& target is Kata ==> req.backend@ == table.kata.label@ && (variant is None
                ==> req.variant@ == table.kata.default_variant@)
            &&& target is Firecracker ==> req.backend@ == table.firecracker.label@
                && (variant is None ==> req.variant@ == table.firecracker.default_variant@)
            &&& target is Gvisor ==> req.backend@ == table.gvisor.label@ && (variant is None
                ==> req.variant@ == table.gvisor.default_variant@)
            &&& target is Vm ==> req.backend@ == table.vm.label@ && (variant is None
                ==> req.variant@ == table.vm.default_variant@)
            &&& target is Landlock ==> req.backend@ == table.landlock.label@ && (variant is None
                ==> req.variant@ == table.landlock.default_variant@)
            &&& variant matches Some(v) ==> req.variant@ == v@
            &&& req.dry_run == (dry_run || ctx.dry_run)
            &&& req.force == force
            &&& req.skip_verify == skip_verify
            &&& req.json == ctx.json
        },
{
    proof {
        closed_commands_are_spelled_out(
            OsbaseArgs { command: OsbaseCommands::Sandbox(SandboxArgs { command }) },
        );
        if command is Install {
            let start = "osbase sandbox install "@ + target_text(command->Install_target)
                + " --variant="@;
            let variant = variant_of(command->Install_variant,
                table.backend(command->Install_target));
            text::a_prefix_is_followed(start + variant, start);
        }
    }
    match command {
        SandboxCommands::Install { target, variant, dry_run, force, skip_verify } => {
            let backend = table.sandbox_target_to_kind(target);
            let variant_name = match &variant {
                Some(v) => v.clone(),
                None => backend.default_variant.clone(),
            };
            match ctx.install_mode {
                InstallMode::System => {},
                InstallMode::User => {
                    return Err(
                        CliError::InvalidArgument {
                            command: install_command_line(
                                target.as_str(),
                                variant_name.as_str(),
                            ),
                            reason: "sandbox install is system-only; pass --install-mode=system (and run as root)".to_owned(),
                        },
                    );
                },
            }
            let request = SandboxInstallRequest {
                target,
                backend: backend.label.clone(),
                variant: variant_name,
                dry_run: dry_run || ctx.dry_run,
                force,
                skip_verify,
                json: ctx.json,
            };
            if request.dry_run {
                Ok(OsbaseAction::Plan(request))
            } else {
                Ok(OsbaseAction::Install(request))
            }
        },
        SandboxCommands::Remove { target, variant, purge: _, force: _, dry_run: _ } => {
            let c = match variant {
                Some(v) => {
                    let mut c = cat3("osbase sandbox remove ", target.as_str(), " --variant=");
                    c.append(v.as_str());
                    c
                },
                None => cat2("osbase sandbox remove ", target.as_str()),
            };
            Err(CliError::not_implemented(c))
        },
        SandboxCommands::List { .. } => Err(
            CliError::not_implemented("osbase sandbox list".to_owned()),
        ),
        SandboxCommands::Status { target, json: _ } => {
            let c = match target {
                Some(t) => cat2("osbase sandbox status ", t.as_str()),
                None => "osbase sandbox status".to_owned(),
            };
            Err(CliError::not_implemented(c))
        },
    }
}

// ---- failures -------------------------------------------------------------------
/// Why the installer failed.
#[derive(Clone, Copy, Debug, PartialEq, Eq, Structural)]
pub enum SandboxFailure {
    EnvNotSatisfied,
    Unsupported,
    NotRoot,
    /// Anything that went wrong on the way.
    Other,
}

/// A failure of the installer, with its message.
#[derive(Clone, Debug)]
pub struct SandboxInstallError {
    pub failure: SandboxFailure,
    pub message: String,
}

/// How a failure of the installer is reported: what the caller can mend as
/// invalid, the rest as a failure of the machine.
pub open spec fn sandbox_failed(
    err: SandboxInstallError,
    request: SandboxInstallRequest,
    r: CliError,
) -> bool {
    let command = install_command(request.backend@, request.variant@);
    if err.failure == SandboxFailure::Other {
        r.is_runtime(command, err.message@)
    } else {
        r.is_invalid(command, err.message@)
    }
}

/// Reports a failure of the installer.
pub fn map_sandbox_err(err: SandboxInstallError, request: &SandboxInstallRequest) -> (r: CliError)
    ensures
        sandbox_failed(err, *request, r),
        r is Runtime <==> err.failure is Other,
        r is InvalidArgument <==> !(err.failure is Other),
        r matches CliError::Runtime { command, reason } ==> reason@ == err.message@
            && text::mentions(command@, request.backend@) && text::mentions(
            command@,
            request.variant@,
        ),
        r matches CliError::InvalidArgument { command, reason } ==> reason@ == err.message@
            && text::mentions(command@, request.backend@) && text::mentions(
            command@,
            request.variant@,
        ),
{
    proof {
        install_command_names_both(request.backend@, request.variant@);
    }
    let command = install_command_line(request.backend.as_str(), request.variant.as_str());
    match err.failure {
        SandboxFailure::Other => CliError::Runtime { command, reason: err.message },
        _ => CliError::InvalidArgument { command, reason: err.message },
    }
}

// ---- plans ----------------------------------------------------------------------
/// The phases of an installation.
#[derive(Clone, Copy, Debug, PartialEq, Eq, Structural)]
pub enum InstallPhase {
    Preflight,
    Packages,
    OsPrimitives,
    ServiceSetup,
    PostVerify,
}

/// The number of a phase, from 1.
pub open spec fn number_of(phase: InstallPhase) -> nat {
    match phase {
        InstallPhase::Preflight => 1,
        InstallPhase::Packages => 2,
        InstallPhase::OsPrimitives => 3,
        InstallPhase::ServiceSetup => 4,
        InstallPhase::PostVerify => 5,
    }
}

/// The number of a phase.
pub fn phase_number(phase: InstallPhase) -> (r: u8)
    ensures
        r == number_of(phase),
        phase is Preflight ==> r == 1,
        phase is Packages ==> r == 2,
        phase is OsPrimitives ==> r == 3,
        phase is ServiceSetup ==> r == 4,
        phase is PostVerify ==> r == 5,
{
    match phase {
        InstallPhase::Preflight => 1,
        InstallPhase::Packages => 2,
        InstallPhase::OsPrimitives => 3,
        InstallPhase::ServiceSetup => 4,
        InstallPhase::PostVerify => 5,
    }
}

/// What a phase would do.
#[derive(Clone, Debug)]
pub struct PlannedPhase {
    pub phase: InstallPhase,
    /// What the installer calls the phase.
    pub label: String,
    pub actions: Vec<String>,
}

/// What an installation would do.
#[derive(Clone, Debug)]
pub struct InstallPlan {
    pub backend: String,
    pub variant: String,
    pub phases: Vec<PlannedPhase>,
}

/// The lines that show one phase of a plan.
pub open spec fn planned_lines(p: PlannedPhase) -> Seq<Seq<char>> {
    seq!["Phase "@ + text::decimal(number_of(p.phase)) + ": "@ + p.label@] + text::texts(
        p.actions@,
    ).map_values(|a: Seq<char>| "  - "@ + a) + seq![""@]
}

/// The lines that show the first `n` phases of a plan.
pub open spec fn phase_lines(phases: Seq<PlannedPhase>, n: int) -> Seq<Seq<char>>
    decreases n,
{
    if n <= 0 {
        Seq::empty()
    } else {
        phase_lines(phases, n - 1) + planned_lines(phases[n - 1])
    }
}

/// The lines that show a plan.
pub open spec fn plan_lines(plan: InstallPlan) -> Seq<Seq<char>> {
    seq![
        "Install plan for: "@ + plan.backend@ + " (variant="@ + plan.variant@ + ")"@,
        ""@,
    ] + phase_lines(plan.phases@, plan.phases@.len() as int)
}

fn push_text(out: &mut Vec<String>, s: String)
    ensures
        text::texts(final(out)@) == text::texts(old(out)@).push(s@),
{
    let ghost before = out@;
    out.push(s);
    assert(text::texts(out@) =~= text::texts(before).push(s@));
}

fn push_phase(out: &mut Vec<String>, p: &PlannedPhase)
    ensures
        text::texts(final(out)@) == text::texts(old(out)@) + planned_lines(*p),
{
    let ghost before = text::texts(out@);
    let ghost actions = text::texts(p.actions@);
    let ghost item = |a: Seq<char>| "  - "@ + a;
    let mut head = "Phase ".to_owned();
    push_decimal(&mut head, phase_number(p.phase) as u64);
    head.append(": ");
    head.append(p.label.as_str());
    let ghost first = head@;
    push_text(out, head);
    let mut i: usize = 0;
    assert(before.push(first) =~= before + seq![first] + actions.take(0).map_values(item));
    while i < p.actions.len()
        invariant
            i <= p.actions@.len(),
            actions == text::texts(p.actions@),
            item == (|a: Seq<char>| "  - "@ + a),
            text::texts(out@) == before + seq![first] + actions.take(i as int).map_values(item),
        decreases p.actions@.len() - i,
    {
        let line = cat2("  - ", p.actions[i].as_str());
        proof {
            assert(actions.take(i + 1).map_values(item) =~= actions.take(i as int).map_values(
                item,
            ).push(line@));
        }
        push_text(out, line);
        i = i + 1;
        assert(text::texts(out@) =~= before + seq![first] + actions.take(i as int).map_values(
            item,
        ));
    }
    assert(actions.take(i as int) =~= actions);
    push_text(out, "".to_owned());
    assert(text::texts(out@) =~= before + planned_lines(*p));
}

/// How many lines the first `n` phases of a plan take: a headline, its actions and
/// an empty line each.
pub open spec fn phase_height(phases: Seq<PlannedPhase>, n: int) -> int
    decreases n,
{
    if n <= 0 {
        0
    } else {
        phase_height(phases, n - 1) + 2 + phases[n - 1].actions@.len()
    }
}

/// Lines list a plan: what it is for, then each phase under its number and name,
/// with its actions in order.
pub open spec fn plan_is_listed(plan: InstallPlan, lines: Seq<Seq<char>>) -> bool {
    &&& lines.len() == 2 + phase_height(plan.phases@, plan.phases@.len() as int)
    &&& lines[0] == "Install plan for: "@ + plan.backend@ + " (variant="@ + plan.variant@ + ")"@
    &&& lines[1] == ""@
    &&& forall|i: int|
        #![trigger plan.phases@[i]]
        0 <= i < plan.phases@.len() ==> {
            let p = plan.phases@[i];
            let at = 2 + phase_height(plan.phases@, i);
            &&& lines[at] == (match p.phase {
                InstallPhase::Preflight => "Phase 1: "@,
                InstallPhase::Packages => "Phase 2: "@,
                InstallPhase::OsPrimitives => "Phase 3: "@,
                InstallPhase::ServiceSetup => "Phase 4: "@,
                InstallPhase::PostVerify => "Phase 5: "@,
            }) + p.label@
            &&& forall|k: int|
                #![trigger p.actions@[k]]
                0 <= k < p.actions@.len() ==> lines[at + 1 + k] == "  - "@ + p.actions@[k]@
            &&& lines[at + 1 + p.actions@.len()] == ""@
        }
}

proof fn lemma_phase_numbers(phase: InstallPhase)
    ensures
        "Phase "@ + text::decimal(number_of(phase)) + ": "@ == (match phase {
            InstallPhase::Preflight => "Phase 1: "@,
            InstallPhase::Packages => "Phase 2: "@,
            InstallPhase::OsPrimitives => "Phase 3: "@,
            InstallPhase::ServiceSetup => "Phase 4: "@,
            InstallPhase::PostVerify => "Phase 5: "@,
        }),
{
    reveal_strlit("Phase ");
    reveal_strlit(": ");
    reveal_strlit("Phase 1: ");
    reveal_strlit("Phase 2: ");
    reveal_strlit("Phase 3: ");
    reveal_strlit("Phase 4: ");
    reveal_strlit("Phase 5: ");
    let s = "Phase "@ + text::decimal(number_of(phase)) + ": "@;
    match phase {
        InstallPhase::Preflight => assert(s =~= "Phase 1: "@),
        InstallPhase::Packages => assert(s =~= "Phase 2: "@),
        InstallPhase::OsPrimitives => assert(s =~= "Phase 3: "@),
        InstallPhase::ServiceSetup => assert(s =~= "Phase 4: "@),
        InstallPhase::PostVerify => assert(s =~= "Phase 5: "@),
    }
}

proof fn lemma_phase_height(phases: Seq<PlannedPhase>, n: int)
    requires
        0 <= n <= phases.len(),
    ensures
        phase_lines(phases, n).len() == phase_height(phases, n),
    decreases n,
{
    if n > 0 {
        lemma_phase_height(phases, n - 1);
    }
}

proof fn lemma_phase_at(phases: Seq<PlannedPhase>, n: int, i: int)
    requires
        0 <= i < n <= phases.len(),
    ensures
        ({
            let from = phase_height(phases, i);
            let to = from + 2 + phases[i].actions@.len();
            &&& 0 <= from <= to <= phase_height(phases, n)
            &&& phase_lines(phases, n).subrange(from, to) == planned_lines(phases[i])
        }),
    decreases n,
{
    let from = phase_height(phases, i);
    let to = from + 2 + phases[i].actions@.len();
    let before = phase_lines(phases, n - 1);
    let all = phase_lines(phases, n);
    lemma_phase_height(phases, n - 1);
    lemma_phase_height(phases, n);
    if i < n - 1 {
        lemma_phase_at(phases, n - 1, i);
        assert(all.subrange(from, to) =~= before.subrange(from, to));
    } else {
        assert(all.subrange(from, to) =~= planned_lines(phases[i]));
    }
}

/// Every plan is listed so.
pub proof fn plans_are_listed(plan: InstallPlan)
    ensures
        plan_is_listed(plan, plan_lines(plan)),
{
    let lines = plan_lines(plan);
    let phases = plan.phases@;
    let n = phases.len() as int;
    lemma_phase_height(phases, n);
    assert forall|i: int| #![trigger plan.phases@[i]] 0 <= i < n implies {
        let p = plan.phases@[i];
        let at = 2 + phase_height(plan.phases@, i);
        &&& lines[at] == "Phase "@ + text::decimal(number_of(p.phase)) + ": "@ + p.label@
        &&& forall|k: int|
            #![trigger p.actions@[k]]
            0 <= k < p.actions@.len() ==> lines[at + 1 + k] == "  - "@ + p.actions@[k]@
        &&& lines[at + 1 + p.actions@.len()] == ""@
    } by {
        let p = phases[i];
        let own = planned_lines(p);
        let from = phase_height(phases, i);
        let to = from + 2 + p.actions@.len();
        lemma_phase_at(phases, n, i);
        assert forall|k: int| 0 <= k < own.len()
            implies #[trigger] own[k] == lines[2 + from + k] by {
            assert(phase_lines(phases, n).subrange(from, to)[k] == phase_lines(phases, n)[from
                + k]);
        }
        assert(own[0] == lines[2 + from]);
        assert forall|k: int| #![trigger p.actions@[k]] 0 <= k < p.actions@.len() implies lines[2
            + from + 1 + k] == "  - "@ + p.actions@[k]@ by {
            assert(own[1 + k] == "  - "@ + p.actions@[k]@);
        }
        assert(own[1 + p.actions@.len() as int] == ""@);
    }
    assert forall|i: int| #![trigger plan.phases@[i]] 0 <= i < n implies "Phase "@ + text::decimal(
        number_of(plan.phases@[i].phase),
    ) + ": "@ == (match plan.phases@[i].phase {
        InstallPhase::Preflight => "Phase 1: "@,
        InstallPhase::Packages => "Phase 2: "@,
        InstallPhase::OsPrimitives => "Phase 3: "@,
        InstallPhase::ServiceSetup => "Phase 4: "@,
        InstallPhase::PostVerify => "Phase 5: "@,
    }) by {
        lemma_phase_numbers(plan.phases@[i].phase);
    }
}

/// Shows a plan.
pub fn render_plan(plan: &InstallPlan) -> (r: Vec<String>)
    ensures
        text::texts(r@) == plan_lines(*plan),
        plan_is_listed(*plan, text::texts(r@)),
{
    proof {
        plans_are_listed(*plan);
    }
    let mut out: Vec<String> = Vec::new();
    let mut head = cat3("Install plan for: ", plan.backend.as_str(), " (variant=");
    head.append(plan.variant.as_str());
    head.append(")");
    let ghost first = head@;
    assert(text::texts(out@) =~= Seq::empty());
    push_text(&mut out, head);
    push_text(&mut out, "".to_owned());
    let ghost top = seq![first, ""@];
    assert(text::texts(out@) =~= top + phase_lines(plan.phases@, 0));
    let mut i: usize = 0;
    while i < plan.phases.len()
        invariant
            i <= plan.phases@.len(),
            text::texts(out@) == top + phase_lines(plan.phases@, i as int),
        decreases plan.phases@.len() - i,
    {
        push_phase(&mut out, &plan.phases[i]);
        i = i + 1;
        assert(text::texts(out@) =~= top + phase_lines(plan.phases@, i as int));
    }
    out
}

/// What a dry run shows.
#[derive(Clone, Debug)]
pub enum PlanOutput {
    /// The plan as JSON, under this command line.
    Json(String),
    Lines(Vec<String>),
}

/// What a dry run shows: an invalid request is reported as the installation
/// would report it.
pub fn dry_run_output(
    request: &SandboxInstallRequest,
    planned: Result<InstallPlan, SandboxInstallError>,
) -> (r: Result<PlanOutput, CliError>)
    ensures
        match planned {
            Err(e) => r is Err && sandbox_failed(e, *request, r->Err_0),
            Ok(plan) => if request.json {
                r matches Ok(PlanOutput::Json(c)) && c@ == install_command(
                    request.backend@,
                    request.variant@,
                )
            } else {
                r matches Ok(PlanOutput::Lines(lines)) && text::texts(lines@) == plan_lines(plan)
            },
        },
        r is Ok <==> planned is Ok,
        r is Err ==> {
            match r->Err_0 {
                CliError::InvalidArgument { command, reason } => {
                    &&& !(planned->Err_0.failure is Other)
                    &&& command@ == "osbase sandbox install "@ + request.backend@ + " --variant="@
                        + request.variant@
                    &&& reason@ == planned->Err_0.message@
                },
                CliError::Runtime { command, reason } => {
                    &&& planned->Err_0.failure is Other
                    &&& command@ == "osbase sandbox install "@ + request.backend@ + " --variant="@
                        + request.variant@
                    &&& reason@ == planned->Err_0.message@
                },
                _ => false,
            }
        },
        r matches Ok(PlanOutput::Json(c)) ==> request.json && c@ == "osbase sandbox install "@
            + request.backend@ + " --variant="@ + request.variant@,
        r matches Ok(PlanOutput::Lines(lines)) ==> !request.json && plan_is_listed(
            planned->Ok_0,
            text::texts(lines@),
        ),
{
    match planned {
        Err(e) => Err(map_sandbox_err(e, request)),
        Ok(plan) => {
            if request.json {
                Ok(
                    PlanOutput::Json(
                        install_command_line(request.backend.as_str(), request.variant.as_str()),
                    ),
                )
            } else {
                Ok(PlanOutput::Lines(render_plan(&plan)))
            }
        },
    }
}

// ---- outcomes -------------------------------------------------------------------
/// How a phase ended.
#[derive(Clone, Copy, Debug, PartialEq, Eq, Structural)]
pub enum PhaseStatus {
    Success,
    Skipped,
    Warning,
    Failed,
}

/// What a phase did.
#[derive(Clone, Debug)]
pub struct PhaseReport {
    /// What the installer calls the phase.
    pub label: String,
    pub status: PhaseStatus,
    pub message: String,
}

/// What an installation came to.
#[derive(Clone, Debug)]
pub struct SandboxInstallOutcome {
    pub backend: String,
    pub variant: String,
    pub exit_code: i32,
    pub phases: Vec<PhaseReport>,
    pub warnings: Vec<String>,
}

/// What is shown of an installation, and what the command returns.
#[derive(Debug)]
pub struct InstallOutput {
    /// The outcome goes out as JSON under this command line.
    pub json: Option<String>,
    pub stdout: Vec<String>,
    pub stderr: Vec<String>,
    pub result: Result<(), CliError>,
}

/// The sign of a status.
pub open spec fn icon_text(status: PhaseStatus) -> Seq<char> {
    match status {
        PhaseStatus::Success => "\u{2713}"@,
        PhaseStatus::Skipped => "\u{2298}"@,
        PhaseStatus::Warning => "\u{26A0}"@,
        PhaseStatus::Failed => "\u{2717}"@,
    }
}

fn icon(status: PhaseStatus) -> (r: &'static str)
    ensures
        r@ == icon_text(status),
{
    match status {
        PhaseStatus::Success => "\u{2713}",
        PhaseStatus::Skipped => "\u{2298}",
        PhaseStatus::Warning => "\u{26A0}",
        PhaseStatus::Failed => "\u{2717}",
    }
}

/// The backend and variant of an outcome, as they stand in messages.
pub open spec fn outcome_subject(o: SandboxInstallOutcome) -> Seq<char> {
    "sandbox backend '"@ + o.backend@ + "' (variant="@ + o.variant@ + ")"@
}

fn subject_of(o: &SandboxInstallOutcome) -> (r: String)
    ensures
        r@ == outcome_subject(*o),
{
    let mut r = cat3("sandbox backend '", o.backend.as_str(), "' (variant=");
    r.append(o.variant.as_str());
    r.append(")");
    r
}

/// What the command returns: success for exit code 0, a success with warnings
/// for 2, and a failure for any other.
pub open spec fn outcome_result(o: SandboxInstallOutcome, r: Result<(), CliError>) -> bool {
    let command = install_command(o.backend@, o.variant@);
    if o.exit_code == 0 {
        r is Ok
    } else if o.exit_code == 2 {
        r is Err && r->Err_0.is_degraded(
            command,
            outcome_subject(o) + " installed with warnings"@,
        )
    } else {
        r is Err && r->Err_0.is_runtime(
            command,
            outcome_subject(o) + " install failed (exit_code="@ + text::decimal_int(
                o.exit_code as int,
            ) + ")"@,
        )
    }
}

/// The line that shows phase `i`.
pub open spec fn report_line(o: SandboxInstallOutcome, i: int) -> Seq<char> {
    let p = o.phases@[i];
    "["@ + text::decimal((i + 1) as nat) + "/"@ + text::decimal(o.phases@.len()) + "] "@
        + text::padded(p.label@, 10) + " "@ + icon_text(p.status) + "  ("@ + p.message@ + ")"@
}

/// What goes to standard output.
pub open spec fn outcome_stdout(o: SandboxInstallOutcome) -> Seq<Seq<char>> {
    Seq::new(o.phases@.len(), |i: int| report_line(o, i)) + seq![""@] + (if o.exit_code == 0 {
        seq![outcome_subject(o) + " installed successfully."@]
    } else if o.exit_code == 2 {
        seq![outcome_subject(o) + " installed with warnings (degraded)."@]
    } else {
        Seq::empty()
    })
}

/// What goes to standard error.
pub open spec fn outcome_stderr(o: SandboxInstallOutcome) -> Seq<Seq<char>> {
    if o.warnings@.len() == 0 {
        Seq::empty()
    } else {
        seq![""@] + text::texts(o.warnings@).map_values(|w: Seq<char>| "warning: "@ + w)
    }
}

/// What is shown of an outcome: as JSON only where it is a plain success, since
/// the error is what a machine is told of any other.
pub open spec fn outcome_shown(json: bool, o: SandboxInstallOutcome, out: InstallOutput) -> bool {
    &&& outcome_result(o, out.result)
    &&& if json {
        &&& out.stdout@.len() == 0
        &&& out.stderr@.len() == 0
        &&& match out.json {
            Some(c) => out.result is Ok && c@ == install_command(o.backend@, o.variant@),
            None => out.result is Err,
        }
    } else {
        &&& out.json is None
        &&& text::texts(out.stdout@) == outcome_stdout(o)
        &&& text::texts(out.stderr@) == outcome_stderr(o)
    }
}

/// An outcome is told: how it ended, what was installed, and what each phase did.
pub open spec fn outcome_is_told(json: bool, o: SandboxInstallOutcome, out: InstallOutput) -> bool {
    let what = "sandbox backend '"@ + o.backend@ + "' (variant="@ + o.variant@ + ")"@;
    let command = "osbase sandbox install "@ + o.backend@ + " --variant="@ + o.variant@;
    let n = o.phases@.len() as int;
    let shown = text::texts(out.stdout@);
    &&& match out.result {
        Ok(_) => o.exit_code == 0,
        Err(CliError::Degraded { command: c, reason }) => o.exit_code == 2 && c@ == command
            && reason@ == what + " installed with warnings"@,
        Err(CliError::Runtime { command: c, reason }) => o.exit_code != 0 && o.exit_code != 2 && c@
            == command && reason@ == what + " install failed (exit_code="@ + text::decimal_int(
            o.exit_code as int,
        ) + ")"@,
        Err(_) => false,
    }
    &&& out.json is Some ==> json && out.json->Some_0@ == command
    &&& !json ==> {
        &&& shown.len() == n + 1 + (if o.exit_code == 0 || o.exit_code == 2 {
            1int
        } else {
            0
        })
        &&& forall|i: int|
            #![trigger o.phases@[i]]
            0 <= i < n ==> shown[i] == "["@ + text::decimal((i + 1) as nat) + "/"@ + text::decimal(
                n as nat,
            ) + "] "@ + text::padded(o.phases@[i].label@, 10) + " "@ + (match o.phases@[i].status {
                PhaseStatus::Success => "\u{2713}"@,
                PhaseStatus::Skipped => "\u{2298}"@,
                PhaseStatus::Warning => "\u{26A0}"@,
                PhaseStatus::Failed => "\u{2717}"@,
            }) + "  ("@ + o.phases@[i].message@ + ")"@
        &&& shown[n] == ""@
        &&& o.exit_code == 0 ==> shown[n + 1] == what + " installed successfully."@
        &&& o.exit_code == 2 ==> shown[n + 1] == what + " installed with warnings (degraded)."@
    }
}

fn result_of(o: &SandboxInstallOutcome) -> (r: Result<(), CliError>)
    ensures
        outcome_result(*o, r),
{
    if o.exit_code == 0 {
        return Ok(());
    }
    let command = install_command_line(o.backend.as_str(), o.variant.as_str());
    let mut reason = subject_of(o);
    if o.exit_code == 2 {
        reason.append(" installed with warnings");
        Err(CliError::Degraded { command, reason })
    } else {
        reason.append(" install failed (exit_code=");
        let code = i64_text(o.exit_code as i64);
        reason.append(code.as_str());
        reason.append(")");
        Err(CliError::Runtime { command, reason })
    }
}

fn phase_line(o: &SandboxInstallOutcome, i: usize) -> (r: String)
    requires
        i < o.phases@.len(),
    ensures
        r@ == report_line(*o, i as int),
{
    let p = &o.phases[i];
    let mut r = "[".to_owned();
    let n: usize = o.phases.len();
    push_decimal(&mut r, i as u64 + 1);
    r.append("/");
    push_decimal(&mut r, n as u64);
    r.append("] ");
    let name = pad_right(p.label.as_str(), 10);
    r.append(name.as_str());
    r.append(" ");
    r.append(icon(p.status));
    r.append("  (");
    r.append(p.message.as_str());
    r.append(")");
    r
}

fn stdout_of(o: &SandboxInstallOutcome) -> (r: Vec<String>)
    ensures
        text::texts(r@) == outcome_stdout(*o),
{
    let mut out: Vec<String> = Vec::new();
    let ghost all = Seq::new(o.phases@.len(), |i: int| report_line(*o, i));
    let mut i: usize = 0;
    assert(text::texts(out@) =~= all.take(0));
    while i < o.phases.len()
        invariant
            i <= o.phases@.len(),
            all == Seq::new(o.phases@.len(), |i: int| report_line(*o, i)),
            text::texts(out@) == all.take(i as int),
        decreases o.phases@.len() - i,
    {
        push_text(&mut out, phase_line(o, i));
        i = i + 1;
        assert(text::texts(out@) =~= all.take(i as int));
    }
    push_text(&mut out, "".to_owned());
    if o.exit_code == 0 {
        let mut last = subject_of(o);
        last.append(" installed successfully.");
        push_text(&mut out, last);
    } else if o.exit_code == 2 {
        let mut last = subject_of(o);
        last.append(" installed with warnings (degraded).");
        push_text(&mut out, last);
    }
    assert(text::texts(out@) =~= outcome_stdout(*o));
    out
}

fn stderr_of(o: &SandboxInstallOutcome) -> (r: Vec<String>)
    ensures
        text::texts(r@) == outcome_stderr(*o),
{
    let mut out: Vec<String> = Vec::new();
    assert(text::texts(out@) =~= Seq::empty());
    if o.warnings.len() == 0 {
        return out;
    }
    let ghost warnings = text::texts(o.warnings@);
    let ghost warn = |w: Seq<char>| "warning: "@ + w;
    push_text(&mut out, "".to_owned());
    let mut i: usize = 0;
    assert(text::texts(out@) =~= seq![""@] + warnings.take(0).map_values(warn));
    while i < o.warnings.len()
        invariant
            i <= o.warnings@.len(),
            warnings == text::texts(o.warnings@),
            warn == (|w: Seq<char>| "warning: "@ + w),
            text::texts(out@) == seq![""@] + warnings.take(i as int).map_values(warn),
        decreases o.warnings@.len() - i,
    {
        let line = cat2("warning: ", o.warnings[i].as_str());
        proof {
            assert(warnings.take(i + 1).map_values(warn) =~= warnings.take(i as int).map_values(
                warn,
            ).push(line@));
        }
        push_text(&mut out, line);
        i = i + 1;
        assert(text::texts(out@) =~= seq![""@] + warnings.take(i as int).map_values(warn));
    }
    assert(warnings.take(i as int) =~= warnings);
    out
}

/// Shows an outcome, and turns its exit code into what the command returns.
pub fn render_install_outcome(ctx: &CliContext, outcome: &SandboxInstallOutcome) -> (r:
    InstallOutput)
    ensures
        outcome_shown(ctx.json, *outcome, r),
        outcome_is_told(ctx.json, *outcome, r),
        r.result is Ok <==> outcome.exit_code == 0,
        r.result matches Err(e) ==> (e is Degraded <==> outcome.exit_code == 2),
        r.result matches Err(e) ==> (e is Runtime <==> outcome.exit_code != 2),
        r.json is Some <==> ctx.json && outcome.exit_code == 0,
        ctx.json ==> r.stdout@.len() == 0 && r.stderr@.len() == 0,
        !ctx.json ==> {
            &&& r.stdout@.len() >= outcome.phases@.len() + 1
            &&& forall|i: int|
                #![trigger outcome.phases@[i]]
                0 <= i < outcome.phases@.len() ==> {
                    let line = text::texts(r.stdout@)[i];
                    &&& text::mentions(line, outcome.phases@[i].label@)
                    &&& text::mentions(line, "  ("@ + outcome.phases@[i].message@ + ")"@)
                    &&& outcome.phases@[i].status is Success ==> text::mentions(line, "\u{2713}"@)
                    &&& outcome.phases@[i].status is Skipped ==> text::mentions(line, "\u{2298}"@)
                    &&& outcome.phases@[i].status is Warning ==> text::mentions(line, "\u{26A0}"@)
                    &&& outcome.phases@[i].status is Failed ==> text::mentions(line, "\u{2717}"@)
                }
            &&& outcome.warnings@.len() > 0 ==> r.stderr@.len() == outcome.warnings@.len() + 1
            &&& outcome.warnings@.len() == 0 ==> r.stderr@.len() == 0
            &&& forall|i: int|
                #![trigger outcome.warnings@[i]]
                0 <= i < outcome.warnings@.len() ==> text::texts(r.stderr@)[i + 1] == "warning: "@
                    + outcome.warnings@[i]@
        },
{
    let result = result_of(outcome);
    if ctx.json {
        let json = match &result {
            Ok(_) => Some(
                install_command_line(outcome.backend.as_str(), outcome.variant.as_str()),
            ),
            Err(_) => None,
        };
        return InstallOutput { json, stdout: Vec::new(), stderr: Vec::new(), result };
    }
    let out = InstallOutput {
        json: None,
        stdout: stdout_of(outcome),
        stderr: stderr_of(outcome),
        result,
    };
    proof {
        let o = *outcome;
        assert(text::texts(out.stdout@).len() == out.stdout@.len());
        assert(text::texts(out.stderr@).len() == out.stderr@.len());
        assert forall|i: int|
            #![trigger outcome.phases@[i]]
            0 <= i < outcome.phases@.len() implies {
            let line = text::texts(out.stdout@)[i];
            &&& text::mentions(line, outcome.phases@[i].label@)
            &&& text::mentions(line, "  ("@ + outcome.phases@[i].message@ + ")"@)
            &&& text::mentions(line, icon_text(outcome.phases@[i].status))
        } by {
            lemma_report_line_mentions(o, i);
            assert(text::texts(out.stdout@)[i] == report_line(o, i));
        }
    }
    out
}

/// What the command returns after the installer was run: its failure, or what
/// is shown of its outcome.
pub fn install_finished(
    ctx: &CliContext,
    request: &SandboxInstallRequest,
    ran: Result<SandboxInstallOutcome, SandboxInstallError>,
) -> (r: Result<InstallOutput, CliError>)
    ensures
        match ran {
            Err(e) => r is Err && sandbox_failed(e, *request, r->Err_0),
            Ok(o) => r is Ok && outcome_shown(ctx.json, o, r->Ok_0),
        },
        r is Ok <==> ran is Ok,
        r is Err ==> {
            match r->Err_0 {
                CliError::InvalidArgument { command, reason } => {
                    &&& !(ran->Err_0.failure is Other)
                    &&& command@ == "osbase sandbox install "@ + request.backend@ + " --variant="@
                        + request.variant@
                    &&& reason@ == ran->Err_0.message@
                },
                CliError::Runtime { command, reason } => {
                    &&& ran->Err_0.failure is Other
                    &&& command@ == "osbase sandbox install "@ + request.backend@ + " --variant="@
                        + request.variant@
                    &&& reason@ == ran->Err_0.message@
                },
                _ => false,
            }
        },
        r matches Ok(out) ==> outcome_is_told(ctx.json, ran->Ok_0, out),
{
    match ran {
        Err(e) => Err(map_sandbox_err(e, request)),
        Ok(o) => Ok(render_install_outcome(ctx, &o)),
    }
}

/// The command succeeds exactly for exit code 0, however the outcome is shown.
pub proof fn only_exit_code_zero_succeeds(json: bool, o: SandboxInstallOutcome, out: InstallOutput)
    requires
        outcome_shown(json, o, out),
    ensures
        out.result is Ok <==> o.exit_code == 0,
        out.json is Some ==> o.exit_code == 0,
{
}

/// Nothing is installed, and no plan is shown, unless the command is meant for
/// the system; and a dry run installs nothing.
pub proof fn installs_only_on_request(
    command: SandboxCommands,
    ctx: CliContext,
    table: BackendTable,
    r: Result<OsbaseAction, CliError>,
)
    requires
        install_decided(command, ctx, table, r),
    ensures
        ctx.install_mode == InstallMode::User ==> r is Err,
        ctx.dry_run ==> !(r matches Ok(OsbaseAction::Install(_))),
{
}

/// A request is for the backend of the target that was asked for: its label and,
/// where no variant was given, its default variant are those of the table's entry
/// for that target.
pub proof fn request_is_for_the_target(
    command: SandboxCommands,
    ctx: CliContext,
    table: BackendTable,
    r: Result<OsbaseAction, CliError>,
)
    requires
        install_decided(command, ctx, table, r),
    ensures
        r matches Ok(action) ==> command matches SandboxCommands::Install {
            target,
            variant,
            dry_run,
            force,
            skip_verify,
        } && {
            let req = match action {
                OsbaseAction::Plan(req) => req,
                OsbaseAction::Install(req) => req,
            };
            &&& ctx.install_mode is System
            &&& action is Plan <==> dry_run || ctx.dry_run
            &&& req.target == target
            &&& target is Container ==> req.backend@ == table.container.label@ && (variant is None
                ==> req.variant@ == table.container.default_variant@)
            &&& target is Kata ==> req.backend@ == table.kata.label@ && (variant is None
                ==> req.variant@ == table.kata.default_variant@)
            &&& target is Firecracker ==> req.backend@ == table.firecracker.label@
                && (variant is None ==> req.variant@ == table.firecracker.default_variant@)
            &&& target is Gvisor ==> req.backend@ == table.gvisor.label@ && (variant is None
                ==> req.variant@ == table.gvisor.default_variant@)
            &&& target is Vm ==> req.backend@ == table.vm.label@ && (variant is None
                ==> req.variant@ == table.vm.default_variant@)
            &&& target is Landlock ==> req.backend@ == table.landlock.label@ && (variant is None
                ==> req.variant@ == table.landlock.default_variant@)
            &&& variant matches Some(v) ==> req.variant@ == v@
            &&& req.dry_run == (dry_run || ctx.dry_run)
            &&& req.force == force
            &&& req.skip_verify == skip_verify
            &&& req.json == ctx.json
        },
{
}

/// The command line of an installation names the backend before the variant.
pub proof fn install_command_names_both(backend: Seq<char>, variant: Seq<char>)
    ensures
        text::mentions(install_command(backend, variant), backend),
        text::mentions(install_command(backend, variant), "install "@ + backend),
        text::ends_with(install_command(backend, variant), "--variant="@ + variant),
        text::mentions(install_command(backend, variant), variant),
{
    let whole = install_command(backend, variant);
    let start = "osbase sandbox install "@;
    reveal_strlit("osbase sandbox install ");
    reveal_strlit("install ");
    reveal_strlit(" --variant=");
    reveal_strlit("--variant=");
    let rest = " --variant="@ + variant;
    assert(whole =~= start + backend + rest);
    text::lemma_mentions(start, backend, rest);
    let named = "install "@ + backend;
    assert(start =~= start.take(15) + "install "@);
    assert(whole =~= start.take(15) + named + rest);
    text::lemma_mentions(start.take(15), named, rest);
    let chosen = "--variant="@ + variant;
    assert(" --variant="@ =~= seq![' '] + "--variant="@);
    assert(whole =~= (start + backend + seq![' ']) + chosen);
    assert(whole.skip(whole.len() - chosen.len()) =~= chosen);
    let front = start + backend + " --variant="@;
    assert(whole =~= front + variant + Seq::empty());
    text::lemma_mentions(front, variant, Seq::empty());
}

proof fn lemma_report_line_mentions(o: SandboxInstallOutcome, i: int)
    requires
        0 <= i < o.phases@.len(),
    ensures
        text::mentions(report_line(o, i), o.phases@[i].label@),
        text::mentions(report_line(o, i), "  ("@ + o.phases@[i].message@ + ")"@),
        text::mentions(report_line(o, i), icon_text(o.phases@[i].status)),
{
    let p = o.phases@[i];
    let line = report_line(o, i);
    let head = "["@ + text::decimal((i + 1) as nat) + "/"@ + text::decimal(o.phases@.len()) + "] "@;
    let name = text::padded(p.label@, 10);
    let sign = icon_text(p.status);
    let said = "  ("@ + p.message@ + ")"@;
    assert(line =~= head + name + (" "@ + sign + said));
    if p.label@.len() < 10 {
        let fill = text::spaces((10 - p.label@.len()) as nat);
        assert(line =~= head + p.label@ + (fill + (" "@ + sign + said)));
        text::lemma_mentions(head, p.label@, fill + (" "@ + sign + said));
    } else {
        text::lemma_mentions(head, p.label@, " "@ + sign + said);
    }
    assert(line =~= (head + name + " "@) + sign + said);
    text::lemma_mentions(head + name + " "@, sign, said);
    assert(line =~= (head + name + " "@ + sign) + said + Seq::empty());
    text::lemma_mentions(head + name + " "@ + sign, said, Seq::empty());
}

/// The words of a command that is not open yet, as they were typed.
pub open spec fn command_words(args: OsbaseArgs) -> Seq<Seq<char>> {
    let osbase = Seq::<Seq<char>>::empty().push("osbase"@);
    match args.command {
        OsbaseCommands::Kernel(k) => match k.command {
            KernelCommands::Install { .. } => osbase.push("kernel"@).push("install"@),
            KernelCommands::Remove => osbase.push("kernel"@).push("remove"@),
            KernelCommands::Status => osbase.push("kernel"@).push("status"@),
        },
        OsbaseCommands::Security(s) => match s.command {
            SecurityCommands::Install { target, dry_run } => osbase.push("security"@).push(
                "install"@,
            ).push(target@),
            SecurityCommands::Remove { target } => osbase.push("security"@).push("remove"@).push(
                target@,
            ),
            SecurityCommands::Status { target: Some(t) } => osbase.push("security"@).push(
                "status"@,
            ).push(t@),
            SecurityCommands::Status { target: None } => osbase.push("security"@).push("status"@),
        },
        OsbaseCommands::Sandbox(s) => match s.command {
            SandboxCommands::Remove { target, variant: Some(v), purge, force, dry_run } =>
                osbase.push("sandbox"@).push("remove"@).push(target_text(target)).push(
                "--variant="@ + v@,
            ),
            SandboxCommands::Remove { target, variant: None, purge, force, dry_run } =>
                osbase.push("sandbox"@).push("remove"@).push(target_text(target)),
            SandboxCommands::List { .. } => osbase.push("sandbox"@).push("list"@),
            SandboxCommands::Status { target: Some(t), json } => osbase.push("sandbox"@).push(
                "status"@,
            ).push(target_text(t)),
            SandboxCommands::Status { target: None, json } => osbase.push("sandbox"@).push(
                "status"@,
            ),
            SandboxCommands::Install { .. } => osbase.push("sandbox"@).push("install"@),
        },
    }
}

proof fn lemma_one_more_word(words: Seq<Seq<char>>, word: Seq<char>)
    requires
        words.len() > 0,
    ensures
        text::joined(words.push(word), " "@) == text::joined(words, " "@) + " "@ + word,
{
    assert(words.push(word).drop_last() =~= words);
}

/// A command that is not open yet is refused under the words that were typed, with
/// a blank between each two.
pub proof fn closed_commands_are_spelled_out(args: OsbaseArgs)
    ensures
        closed_command(args) matches Some(c) ==> c == text::joined(command_words(args), " "@),
{
    let words = command_words(args);
    let one = Seq::<Seq<char>>::empty().push("osbase"@);
    let two = one.push(words[1]);
    let three = two.push(words[2]);
    assert(text::joined(one, " "@) == "osbase"@);
    lemma_one_more_word(one, words[1]);
    lemma_one_more_word(two, words[2]);
    if words.len() == 3 {
        assert(words =~= three);
    } else if words.len() == 4 {
        lemma_one_more_word(three, words[3]);
        assert(words =~= three.push(words[3]));
    } else {
        lemma_one_more_word(three, words[3]);
        lemma_one_more_word(three.push(words[3]), words[4]);
        assert(words =~= three.push(words[3]).push(words[4]));
    }
    reveal_strlit("osbase");
    reveal_strlit(" ");
    reveal_strlit("kernel");
    reveal_strlit("security");
    reveal_strlit("sandbox");
    reveal_strlit("install");
    reveal_strlit("remove");
    reveal_strlit("status");
    reveal_strlit("list");
    reveal_strlit("--variant=");
    reveal_strlit(" --variant=");
    reveal_strlit("osbase kernel install");
    reveal_strlit("osbase kernel remove");
    reveal_strlit("osbase kernel status");
    reveal_strlit("osbase security install ");
    reveal_strlit("osbase security remove ");
    reveal_strlit("osbase security status ");
    reveal_strlit("osbase security status");
    reveal_strlit("osbase sandbox remove ");
    reveal_strlit("osbase sandbox list");
    reveal_strlit("osbase sandbox status ");
    reveal_strlit("osbase sandbox status");
    if closed_command(args) is Some {
        assert(closed_command(args)->Some_0 =~= text::joined(words, " "@));
    }
}

} // verus!
