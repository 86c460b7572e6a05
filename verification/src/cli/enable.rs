//! `anolisa enable`: capability activation.
//!
//! Exactly one capability is enabled at a time. A dry run is open for every
//! capability of the catalog; carrying it out is open for those that the
//! execution policy allows.

use vstd::prelude::*;

use super::context::CliContext;
use super::execution_policy;
use super::execution_policy::ExecutionPolicy;
use super::response::CliError;
use crate::text;
use crate::text::{cat2, cat3, i64_text, join, push_decimal, same_text};

verus! {

/// Arguments of `enable`.
#[derive(Clone, Debug)]
pub struct EnableArgs {
    /// Capability names.
    pub capabilities: Vec<String>,
    /// Only a specific part of the capability.
    pub feature: Option<String>,
    /// Adapter frameworks.
    pub with_adapter: Option<String>,
    /// Build from source.
    pub from_source: bool,
}

/// The command line that errors name.
pub open spec fn enable_command(args: EnableArgs) -> Seq<char> {
    "enable "@ + text::joined(text::texts(args.capabilities@), " "@)
}

/// What is wrong with the arguments, in the order in which it is looked at.
pub open spec fn args_refused(args: EnableArgs, r: CliError) -> bool {
    let command = enable_command(args);
    if args.capabilities@.len() != 1 {
        r.is_invalid(command, "enable currently accepts exactly one capability"@)
    } else if args.from_source {
        r.is_closed(command, Some("--from-source is not supported yet"@))
    } else if args.with_adapter is Some {
        r.is_closed(command, Some("--with-adapter is not supported yet"@))
    } else {
        r.is_closed(command, Some("--feature is not supported yet"@))
    }
}

/// The arguments ask for something that can be done.
pub open spec fn args_fine(args: EnableArgs) -> bool {
    &&& args.capabilities@.len() == 1
    &&& !args.from_source
    &&& args.with_adapter is None
    &&& args.feature is None
}

/// Looks at the arguments. Returns the capability.
pub fn check_args(args: &EnableArgs) -> (r: Result<String, CliError>)
    ensures
        r is Ok <==> args_fine(*args),
        r matches Ok(capability) ==> capability@ == args.capabilities@[0]@,
        r matches Err(e) ==> args_refused(*args, e),
        r is Ok <==> args.capabilities@.len() == 1 && !args.from_source && args.with_adapter is None
            && args.feature is None,
        r matches Err(e) ==> match e {
            CliError::InvalidArgument { command, reason } => {
                &&& args.capabilities@.len() != 1
                &&& command@ == "enable "@ + text::joined(text::texts(args.capabilities@), " "@)
                &&& reason@ == "enable currently accepts exactly one capability"@
            },
            CliError::NotImplemented { command, hint } => {
                &&& args.capabilities@.len() == 1
                &&& command@ == "enable "@ + args.capabilities@[0]@
                &&& hint is Some
                &&& args.from_source ==> hint->Some_0@ == "--from-source is not supported yet"@
                &&& !args.from_source && args.with_adapter is Some ==> hint->Some_0@
                    == "--with-adapter is not supported yet"@
                &&& !args.from_source && args.with_adapter is None ==> hint->Some_0@
                    == "--feature is not supported yet"@
            },
            _ => false,
        },
{
    proof {
        if args.capabilities@.len() == 1 {
            let names = text::texts(args.capabilities@);
            assert(names.len() == 1);
            assert(text::joined(names, " "@) == names[0]);
        }
    }
    let command = command_line(args);
    if args.capabilities.len() != 1 {
        return Err(
            CliError::InvalidArgument {
                command,
                reason: "enable currently accepts exactly one capability".to_owned(),
            },
        );
    }
    if args.from_source {
        return Err(
            CliError::not_implemented_with_hint(
                command,
                "--from-source is not supported yet".to_owned(),
            ),
        );
    }
    if args.with_adapter.is_some() {
        return Err(
            CliError::not_implemented_with_hint(
                command,
                "--with-adapter is not supported yet".to_owned(),
            ),
        );
    }
    if args.feature.is_some() {
        return Err(
            CliError::not_implemented_with_hint(
                command,
                "--feature is not supported yet".to_owned(),
            ),
        );
    }
    Ok(args.capabilities[0].clone())
}

// ---- scope ----------------------------------------------------------------------
/// The capabilities that are open, as they stand in hints.
pub open spec fn graduated_text(policy: ExecutionPolicy) -> Seq<char> {
    let names = execution_policy::open_names(policy.capabilities@);
    if names.len() == 0 {
        "<none>"@
    } else {
        text::joined(names, ", "@)
    }
}

/// Why a capability is not open, and what opens it.
pub open spec fn scope_hint(policy: ExecutionPolicy, capability: Seq<char>) -> Seq<char> {
    let start = "enable for '"@ + capability;
    match execution_policy::entry_of(policy.capabilities@, capability) {
        None => start + "' is not graduated yet (execution policy graduates: "@ + graduated_text(
            policy,
        ) + "); add '"@ + capability
            + "' to templates/execution-policy.toml with allow_execute = true to open the scope"@,
        Some(entry) => if !entry.enabled {
            start
                + "' is gated off (execution policy entry has enabled = false); graduated capabilities: "@
                + graduated_text(policy)
        } else {
            start
                + "' is gated off (execution policy entry has allow_execute = false); graduated capabilities: "@
                + graduated_text(policy)
        },
    }
}

/// A hint on a closed capability names it, tells what closes it, and names every
/// capability that is open.
pub open spec fn hint_fits(
    entries: Seq<execution_policy::PolicyEntry>,
    capability: Seq<char>,
    hint: Seq<char>,
) -> bool {
    &&& (forall|i: int| 0 <= i < entries.len() ==> (#[trigger] entries[i]).name@ != capability) ==> {
        &&& text::mentions(hint, "enable for '"@ + capability + "' is not graduated yet"@)
        &&& text::mentions(
            hint,
            "add '"@ + capability
                + "' to templates/execution-policy.toml with allow_execute = true"@,
        )
    }
    &&& forall|i: int|
        0 <= i < entries.len() && (#[trigger] entries[i]).name@ == capability && (forall|j: int|
            0 <= j < i ==> (#[trigger] entries[j]).name@ != capability) ==> text::mentions(
            hint,
            "enable for '"@ + capability + "' is gated off (execution policy entry has "@ + (
            if entries[i].enabled {
                "allow_execute = false"@
            } else {
                "enabled = false"@
            }) + ")"@,
        )
    &&& forall|i: int|
        0 <= i < entries.len() && (#[trigger] entries[i]).enabled && entries[i].allow_execute
            ==> text::mentions(hint, entries[i].name@)
    &&& (forall|i: int|
        0 <= i < entries.len() ==> !((#[trigger] entries[i]).enabled && entries[i].allow_execute))
        ==> text::mentions(hint, "<none>"@)
}

/// The hint names the capability, tells what closes it, and names every capability
/// that is open.
pub proof fn hint_tells_what_closes(policy: ExecutionPolicy, capability: Seq<char>)
    ensures
        hint_fits(policy.capabilities@, capability, scope_hint(policy, capability)),
{
    let entries = policy.capabilities@;
    let hint = scope_hint(policy, capability);
    let found = execution_policy::entry_of(entries, capability);
    execution_policy::first_entry_decides(entries, capability);
    reveal_strlit("enable for '");
    reveal_strlit("' is not graduated yet (execution policy graduates: ");
    reveal_strlit("' is not graduated yet");
    reveal_strlit(" (execution policy graduates: ");
    reveal_strlit("); add '");
    reveal_strlit("add '");
    reveal_strlit("); ");
    reveal_strlit(
        "' to templates/execution-policy.toml with allow_execute = true to open the scope",
    );
    reveal_strlit("' to templates/execution-policy.toml with allow_execute = true");
    reveal_strlit(" to open the scope");
    reveal_strlit(
        "' is gated off (execution policy entry has enabled = false); graduated capabilities: ",
    );
    reveal_strlit(
        "' is gated off (execution policy entry has allow_execute = false); graduated capabilities: ",
    );
    reveal_strlit("' is gated off (execution policy entry has ");
    reveal_strlit("allow_execute = false");
    reveal_strlit("enabled = false");
    reveal_strlit(")");
    reveal_strlit("; graduated capabilities: ");
    let list = graduated_text(policy);
    if found is None {
        let first = "enable for '"@ + capability + "' is not graduated yet"@;
        let add = "add '"@ + capability
            + "' to templates/execution-policy.toml with allow_execute = true"@;
        let middle = " (execution policy graduates: "@ + list + "); "@;
        assert(hint =~= Seq::<char>::empty() + first + (middle + add + " to open the scope"@));
        text::lemma_mentions(Seq::empty(), first, middle + add + " to open the scope"@);
        assert(hint =~= (first + middle) + add + " to open the scope"@);
        text::lemma_mentions(first + middle, add, " to open the scope"@);
        assert(hint =~= (first + " (execution policy graduates: "@) + list + ("); "@ + add
            + " to open the scope"@));
    } else {
        let why = "enable for '"@ + capability + "' is gated off (execution policy entry has "@ + (
        if found->Some_0.enabled {
            "allow_execute = false"@
        } else {
            "enabled = false"@
        }) + ")"@;
        assert(hint =~= Seq::<char>::empty() + why + ("; graduated capabilities: "@ + list));
        text::lemma_mentions(Seq::empty(), why, "; graduated capabilities: "@ + list);
        assert(hint =~= (why + "; graduated capabilities: "@) + list + Seq::<char>::empty());
    }
    if forall|i: int|
        0 <= i < entries.len() ==> !((#[trigger] entries[i]).enabled && entries[i].allow_execute) {
        lemma_none_is_listed(policy);
        if found is None {
            let first = "enable for '"@ + capability + "' is not graduated yet"@;
            let add = "add '"@ + capability
                + "' to templates/execution-policy.toml with allow_execute = true"@;
            text::lemma_mentions(
                first + " (execution policy graduates: "@,
                list,
                "); "@ + add + " to open the scope"@,
            );
        } else {
            let why = "enable for '"@ + capability + "' is gated off (execution policy entry has "@
                + (if found->Some_0.enabled {
                "allow_execute = false"@
            } else {
                "enabled = false"@
            }) + ")"@;
            text::lemma_mentions(why + "; graduated capabilities: "@, list, Seq::empty());
        }
    }
    assert forall|i: int|
        0 <= i < entries.len() && (#[trigger] entries[i]).enabled
            && entries[i].allow_execute implies text::mentions(hint, entries[i].name@) by {
        lemma_open_is_listed(policy, i);
        if found is None {
            let first = "enable for '"@ + capability + "' is not graduated yet"@;
            let add = "add '"@ + capability
                + "' to templates/execution-policy.toml with allow_execute = true"@;
            text::lemma_mentions_within(
                first + " (execution policy graduates: "@,
                list,
                "); "@ + add + " to open the scope"@,
                entries[i].name@,
            );
        } else {
            let why = "enable for '"@ + capability + "' is gated off (execution policy entry has "@
                + (if found->Some_0.enabled {
                "allow_execute = false"@
            } else {
                "enabled = false"@
            }) + ")"@;
            text::lemma_mentions_within(
                why + "; graduated capabilities: "@,
                list,
                Seq::empty(),
                entries[i].name@,
            );
        }
    }
}

proof fn lemma_none_is_listed(policy: ExecutionPolicy)
    requires
        forall|i: int|
            0 <= i < policy.capabilities@.len() ==> !((#[trigger] policy.capabilities@[i]).enabled
                && policy.capabilities@[i].allow_execute),
    ensures
        graduated_text(policy) == "<none>"@,
{
    let entries = policy.capabilities@;
    let keep = |e: execution_policy::PolicyEntry| e.open_for_all();
    let open = entries.filter(keep);
    if open.len() > 0 {
        entries.lemma_filter_pred(keep, 0);
        assert(open.contains(open[0]));
        entries.lemma_filter_contains_rev(keep, open[0]);
        let i = choose|i: int| 0 <= i < entries.len() && entries[i] == open[0];
        assert(entries[i].enabled && entries[i].allow_execute);
    }
    assert(execution_policy::open_names(entries).len() == open.len());
}

proof fn lemma_open_is_listed(policy: ExecutionPolicy, i: int)
    requires
        0 <= i < policy.capabilities@.len(),
        policy.capabilities@[i].enabled,
        policy.capabilities@[i].allow_execute,
    ensures
        text::mentions(graduated_text(policy), policy.capabilities@[i].name@),
{
    let entries = policy.capabilities@;
    let keep = |e: execution_policy::PolicyEntry| e.open_for_all();
    let name = |e: execution_policy::PolicyEntry| e.name@;
    let open = entries.filter(keep);
    assert(open.contains(entries[i])) by {
        assert(keep(entries[i]));
        assert(entries.contains(entries[i]));
        broadcast use vstd::seq_lib::group_filter_ensures;

    }
    let k = choose|k: int| 0 <= k < open.len() && open[k] == entries[i];
    let names = execution_policy::open_names(entries);
    assert(names =~= open.map_values(name));
    assert(names[k] == entries[i].name@);
    text::list_mentions_its_parts(names, ", "@, k);
}

/// Says why a capability is not open, and what opens it.
pub fn scope_hint_for(policy: &ExecutionPolicy, capability: &str) -> (r: String)
    ensures
        r@ == scope_hint(*policy, capability@),
        hint_fits(policy.capabilities@, capability@, r@),
{
    let graduated = policy.graduated();
    let list = if graduated.len() == 0 {
        "<none>".to_owned()
    } else {
        join(&graduated, ", ")
    };
    assert(text::texts(graduated@).len() == graduated@.len());
    let mut r = cat2("enable for '", capability);
    match policy.lookup(capability) {
        None => {
            r.append("' is not graduated yet (execution policy graduates: ");
            r.append(list.as_str());
            r.append("); add '");
            r.append(capability);
            r.append(
                "' to templates/execution-policy.toml with allow_execute = true to open the scope",
            );
        },
        Some(entry) => {
            if !entry.enabled {
                r.append(
                    "' is gated off (execution policy entry has enabled = false); graduated capabilities: ",
                );
            } else {
                r.append(
                    "' is gated off (execution policy entry has allow_execute = false); graduated capabilities: ",
                );
            }
            r.append(list.as_str());
        },
    }
    proof {
        hint_tells_what_closes(*policy, capability@);
    }
    r
}

/// Whether the capability may be carried out, and why not.
#[derive(Clone, Debug)]
pub struct ExecuteGate {
    pub allowed: bool,
    pub reason: Option<String>,
}

/// Whether a capability is open: a closed one has a reason.
pub open spec fn gate_of(policy: ExecutionPolicy, capability: Seq<char>, gate: ExecuteGate) -> bool {
    &&& gate.allowed == execution_policy::allowed(policy.capabilities@, capability)
    &&& match gate.reason {
        None => gate.allowed,
        Some(reason) => !gate.allowed && reason@ == scope_hint(policy, capability),
    }
}

fn gate_for(policy: &ExecutionPolicy, capability: &str) -> (r: ExecuteGate)
    ensures
        gate_of(*policy, capability@, r),
{
    if policy.allows_execute(capability) {
        ExecuteGate { allowed: true, reason: None }
    } else {
        ExecuteGate { allowed: false, reason: Some(scope_hint_for(policy, capability)) }
    }
}

/// Reports that the policy could not be loaded. It comes with the tool, so this
/// is no fault of the caller.
pub fn policy_load_err(command: &str, err: &str) -> (r: CliError)
    ensures
        r.is_runtime(command@, "failed to load execution policy: "@ + err@),
{
    CliError::Runtime {
        command: command.to_owned(),
        reason: cat2("failed to load execution policy: ", err),
    }
}

/// Why no plan could be made.
#[derive(Clone, Debug)]
pub enum PlanError {
    UnknownCapability(String),
}

/// Reports that no plan could be made.
pub fn map_plan_err(err: &PlanError) -> (r: CliError)
    ensures
        err matches PlanError::UnknownCapability(name) && r.is_invalid(
            "enable"@,
            "capability '"@ + name@ + "' is not in the catalog"@,
        ),
{
    match err {
        PlanError::UnknownCapability(name) => CliError::InvalidArgument {
            command: "enable".to_owned(),
            reason: cat3("capability '", name.as_str(), "' is not in the catalog"),
        },
    }
}

/// What is done with a plan.
#[derive(Clone, Copy, Debug, PartialEq, Eq, Structural)]
pub enum EnableStep {
    /// Show it as JSON.
    ShowJson,
    /// Show it as text.
    ShowText,
    /// Show nothing.
    Silent,
    /// Carry it out.
    Execute,
}

/// What `enable` does with the plan of a capability.
#[derive(Clone, Debug)]
pub struct EnableDecision {
    pub capability: String,
    /// To be recorded in the plan first.
    pub gate: ExecuteGate,
    pub step: EnableStep,
}

/// What is done with a plan for an open or closed capability. A dry run is
/// always open.
pub open spec fn step_of(ctx: CliContext, allowed: bool) -> Option<EnableStep> {
    if ctx.dry_run {
        if ctx.json {
            Some(EnableStep::ShowJson)
        } else if ctx.quiet {
            Some(EnableStep::Silent)
        } else {
            Some(EnableStep::ShowText)
        }
    } else if allowed {
        Some(EnableStep::Execute)
    } else {
        None
    }
}

/// What `enable` comes to once the policy was loaded and the plan was made.
pub open spec fn enable_decided(
    args: EnableArgs,
    ctx: CliContext,
    policy: Result<ExecutionPolicy, String>,
    planned: Result<(), PlanError>,
    r: Result<EnableDecision, CliError>,
) -> bool {
    let command = enable_command(args);
    let capability = args.capabilities@[0]@;
    if !args_fine(args) {
        r is Err && args_refused(args, r->Err_0)
    } else {
        match policy {
            Err(e) => r is Err && r->Err_0.is_runtime(
                command,
                "failed to load execution policy: "@ + e@,
            ),
            Ok(p) => match planned {
                Err(PlanError::UnknownCapability(name)) => r is Err && r->Err_0.is_invalid(
                    "enable"@,
                    "capability '"@ + name@ + "' is not in the catalog"@,
                ),
                Ok(_) => match step_of(
                    ctx,
                    execution_policy::allowed(p.capabilities@, capability),
                ) {
                    None => r is Err && r->Err_0.is_closed(
                        command,
                        Some(scope_hint(p, capability)),
                    ),
                    Some(step) => {
                        &&& r is Ok
                        &&& r->Ok_0.capability@ == capability
                        &&& r->Ok_0.step == step
                        &&& gate_of(p, capability, r->Ok_0.gate)
                    },
                },
            },
        }
    }
}

pub(crate) fn command_line(args: &EnableArgs) -> (r: String)
    ensures
        r@ == enable_command(*args),
{
    let names = join(&args.capabilities, " ");
    cat2("enable ", names.as_str())
}

/// Decides what is done with the plan that was made.
pub(crate) fn decide(args: &EnableArgs, ctx: &CliContext, policy: &ExecutionPolicy) -> (r: Result<
    EnableDecision,
    CliError,
>)
    requires
        args_fine(*args),
    ensures
        enable_decided(*args, *ctx, Ok(*policy), Ok(()), r),
        r is Ok <==> ctx.dry_run || exists|i: int|
                {
                    &&& 0 <= i < policy.capabilities@.len()
                    &&& (#[trigger] policy.capabilities@[i]).name@ == args.capabilities@[0]@
                    &&& policy.capabilities@[i].enabled
                    &&& policy.capabilities@[i].allow_execute
                    &&& forall|j: int|
                        0 <= j < i ==> (#[trigger] policy.capabilities@[j]).name@
                            != args.capabilities@[0]@
                },
        r matches Ok(d) ==> {
            &&& d.capability@ == args.capabilities@[0]@
            &&& d.step == EnableStep::Execute <==> !ctx.dry_run
            &&& d.step == EnableStep::ShowJson <==> ctx.dry_run && ctx.json
            &&& d.step == EnableStep::Silent <==> ctx.dry_run && !ctx.json && ctx.quiet
            &&& d.gate.allowed <==> d.gate.reason is None
            &&& d.gate.allowed <==> exists|i: int|
                {
                    &&& 0 <= i < policy.capabilities@.len()
                    &&& (#[trigger] policy.capabilities@[i]).name@ == args.capabilities@[0]@
                    &&& policy.capabilities@[i].enabled
                    &&& policy.capabilities@[i].allow_execute
                    &&& forall|j: int|
                        0 <= j < i ==> (#[trigger] policy.capabilities@[j]).name@
                            != args.capabilities@[0]@
                }
        },
{
    proof {
        execution_policy::first_entry_decides(policy.capabilities@, args.capabilities@[0]@);
    }
    let capability = args.capabilities[0].clone();
    let gate = gate_for(policy, capability.as_str());
    let step = if ctx.dry_run {
        if ctx.json {
            EnableStep::ShowJson
        } else if ctx.quiet {
            EnableStep::Silent
        } else {
            EnableStep::ShowText
        }
    } else {
        if !gate.allowed {
            return Err(
                CliError::not_implemented_with_hint(
                    command_line(args),
                    scope_hint_for(policy, capability.as_str()),
                ),
            );
        }
        EnableStep::Execute
    };
    Ok(EnableDecision { capability, gate, step })
}

/// Decides what `enable` does. What is wrong with the arguments comes before
/// the policy and the plan, an unknown capability before a closed one.
pub fn handle(
    args: EnableArgs,
    ctx: &CliContext,
    policy: &Result<ExecutionPolicy, String>,
    planned: &Result<(), PlanError>,
) -> (r: Result<EnableDecision, CliError>)
    ensures
        enable_decided(args, *ctx, *policy, *planned, r),
        r is Ok <==> {
            &&& args.capabilities@.len() == 1
            &&& !args.from_source && args.with_adapter is None && args.feature is None
            &&& policy is Ok && planned is Ok
            &&& ctx.dry_run || exists|i: int|
                {
                    &&& 0 <= i < policy->Ok_0.capabilities@.len()
                    &&& (#[trigger] policy->Ok_0.capabilities@[i]).name@ == args.capabilities@[0]@
                    &&& policy->Ok_0.capabilities@[i].enabled
                    &&& policy->Ok_0.capabilities@[i].allow_execute
                    &&& forall|j: int|
                        0 <= j < i ==> (#[trigger] policy->Ok_0.capabilities@[j]).name@
                            != args.capabilities@[0]@
                }
        },
        r matches Ok(d) ==> {
            &&& d.capability@ == args.capabilities@[0]@
            &&& d.step == EnableStep::Execute <==> !ctx.dry_run
            &&& d.step == EnableStep::ShowJson <==> ctx.dry_run && ctx.json
            &&& d.step == EnableStep::Silent <==> ctx.dry_run && !ctx.json && ctx.quiet
            &&& d.step == EnableStep::ShowText <==> ctx.dry_run && !ctx.json && !ctx.quiet
            &&& d.gate.allowed <==> d.gate.reason is None
            &&& d.gate.allowed <==> exists|i: int|
                {
                    &&& 0 <= i < policy->Ok_0.capabilities@.len()
                    &&& (#[trigger] policy->Ok_0.capabilities@[i]).name@ == args.capabilities@[0]@
                    &&& policy->Ok_0.capabilities@[i].enabled
                    &&& policy->Ok_0.capabilities@[i].allow_execute
                    &&& forall|j: int|
                        0 <= j < i ==> (#[trigger] policy->Ok_0.capabilities@[j]).name@
                            != args.capabilities@[0]@
                }
            &&& d.gate.reason is Some ==> hint_fits(
                policy->Ok_0.capabilities@,
                args.capabilities@[0]@,
                d.gate.reason->Some_0@,
            )
        },
        r is Err && args.capabilities@.len() == 1 && !args.from_source
            && args.with_adapter is None && args.feature is None ==> match (*policy, *planned) {
            (Err(why), _) => r->Err_0 matches CliError::Runtime { command, reason } && command@
                == "enable "@ + args.capabilities@[0]@ && reason@
                == "failed to load execution policy: "@ + why@,
            (Ok(_), Err(PlanError::UnknownCapability(
                name))) => r->Err_0 matches CliError::InvalidArgument {
                command,
                reason,
            } && command@ == "enable"@ && reason@ == "capability '"@ + name@
                + "' is not in the catalog"@,
            (Ok(p), Ok(_)) => r->Err_0 matches CliError::NotImplemented { command, hint } && command@
                == "enable "@ + args.capabilities@[0]@ && hint is Some && hint_fits(
                p.capabilities@,
                args.capabilities@[0]@,
                hint->Some_0@,
            ),
        },
{
    proof {
        if args.capabilities@.len() == 1 {
            let names = text::texts(args.capabilities@);
            assert(text::joined(names, " "@) == names[0]);
            if policy is Ok {
                execution_policy::first_entry_decides(
                    policy->Ok_0.capabilities@,
                    args.capabilities@[0]@,
                );
                hint_tells_what_closes(policy->Ok_0, args.capabilities@[0]@);
            }
        }
    }
    match check_args(&args) {
        Ok(_) => {},
        Err(e) => {
            return Err(e);
        },
    }
    let p = match policy {
        Ok(p) => p,
        Err(e) => {
            return Err(policy_load_err(command_line(&args).as_str(), e.as_str()));
        },
    };
    match planned {
        Err(e) => Err(map_plan_err(e)),
        Ok(_) => decide(&args, ctx, p),
    }
}

/// Nothing is carried out unless the policy allows it, nor in a dry run.
pub proof fn executes_only_what_is_allowed(
    args: EnableArgs,
    ctx: CliContext,
    policy: Result<ExecutionPolicy, String>,
    planned: Result<(), PlanError>,
    r: Result<EnableDecision, CliError>,
)
    requires
        enable_decided(args, ctx, policy, planned, r),
        r matches Ok(d) && d.step == EnableStep::Execute,
    ensures
        !ctx.dry_run,
        policy matches Ok(p) && execution_policy::allowed(p.capabilities@, args.capabilities@[0]@),
        r->Ok_0.gate.allowed,
{
}

/// What a dry run gives as the reason of a closed gate is the hint that
/// carrying it out is refused with.
pub proof fn dry_run_tells_the_refusal(
    args: EnableArgs,
    dry: CliContext,
    wet: CliContext,
    policy: ExecutionPolicy,
    shown: Result<EnableDecision, CliError>,
    refused: Result<EnableDecision, CliError>,
)
    requires
        dry.dry_run,
        !wet.dry_run,
        args_fine(args),
        enable_decided(args, dry, Ok(policy), Ok(()), shown),
        enable_decided(args, wet, Ok(policy), Ok(()), refused),
        !execution_policy::allowed(policy.capabilities@, args.capabilities@[0]@),
    ensures
        shown is Ok,
        !shown->Ok_0.gate.allowed,
        shown->Ok_0.gate.reason is Some,
        refused is Err,
        refused->Err_0.is_closed(
            enable_command(args),
            Some(shown->Ok_0.gate.reason->Some_0@),
        ),
{
}

// ---- failures of carrying out ---------------------------------------------------
/// Why a plan could not be carried out. Sources are the texts of the errors
/// below.
#[derive(Clone, Debug)]
pub enum ExecuteError {
    PlanNotExecutable { status: String, reason: String },
    MissingArtifact { component: String },
    MissingChecksum { component: String },
    LockHeld { path: String },
    Download { component: String, source: String },
    Install { component: String, source: String },
    ManifestMismatch {
        component: String,
        expected_sha256: String,
        actual_sha256: Option<String>,
    },
    State { source: String },
    Log { source: String },
    Lock { source: String },
    DisabledStateInconsistent { capability: String, mismatches: Vec<String> },
    HookFailed { phase: String, component: String, summary: String, exit_code: Option<i32> },
}

/// The caller can mend it: the plan ruled it out, or the machine's files have to
/// be put right. Else the machine failed.
pub open spec fn is_callers_fault(err: ExecuteError) -> bool {
    err is PlanNotExecutable || err is MissingArtifact || err is MissingChecksum
        || err is DisabledStateInconsistent
}

/// The command that shows the plan of a capability.
pub open spec fn dry_run_hint(capability: Seq<char>) -> Seq<char> {
    "`anolisa enable "@ + capability + " --dry-run`"@
}

/// What is said of a failure.
pub open spec fn execute_reason(capability: Seq<char>, err: ExecuteError) -> Seq<char> {
    match err {
        ExecuteError::PlanNotExecutable { status, reason } => "plan is "@ + status@ + ": "@
            + reason@ + " — run "@ + dry_run_hint(capability)
            + " for details and resolve blockers before retrying"@,
        ExecuteError::MissingArtifact { component } => "component '"@ + component@
            + "' has no resolved artifact (catalog vs distribution-index mismatch — check "@
            + dry_run_hint(capability) + ")"@,
        ExecuteError::MissingChecksum { component } => "component '"@ + component@
            + "' has no sha256 in the distribution index — refuse to install without verification (regenerate the index with checksums and retry — check "@
            + dry_run_hint(capability) + ")"@,
        ExecuteError::LockHeld { path } => "install lock at "@ + path@
            + " is held by another process — run again after the other invocation finishes"@,
        ExecuteError::Download { component, source } => "download for component '"@ + component@
            + "' failed: "@ + source@,
        ExecuteError::Install { component, source } => "install for component '"@ + component@
            + "' failed: "@ + source@,
        ExecuteError::ManifestMismatch { component, expected_sha256, actual_sha256 } => {
            "component '"@ + component@
                + "': artifact's embedded component.toml does not match the registry meta.toml used for planning (expected sha256 "@
                + expected_sha256@ + ", actual "@ + (match actual_sha256 {
                Some(a) => a@,
                None => "<missing>"@,
            })
                + ") — published artifact and meta.toml are inconsistent; nothing was installed. Re-run "@
                + dry_run_hint(capability) + " after the registry is republished"@
        },
        ExecuteError::State { source } => "installed state write failed: "@ + source@,
        ExecuteError::Log { source } => "central log write failed: "@ + source@,
        ExecuteError::Lock { source } => "install lock io: "@ + source@,
        ExecuteError::DisabledStateInconsistent { capability: cap, mismatches } => {
            "capability '"@ + cap@ + "' is currently disabled but "@ + text::decimal(
                mismatches@.len(),
            ) + " owned file(s) drifted from the recorded sha256: "@ + text::joined(
                text::texts(mismatches@),
                "; "@,
            ) + " — run `anolisa status "@ + cap@
                + " --verbose` to inspect, then restore the affected files (or wait for `anolisa uninstall`/`purge` to ship) before re-enabling"@
        },
        ExecuteError::HookFailed { phase, component, summary, exit_code } => {
            "lifecycle hook "@ + phase@ + " for component '"@ + component@ + "' failed (exit "@ + (
            match exit_code {
                Some(c) => text::decimal_int(c as int),
                None => "?"@,
            }) + "): "@ + summary@
                + " — inspect the central log (`anolisa logs --kind component --component "@
                + component@ + "`) and the hook script before retrying"@
        },
    }
}

/// How a failure is reported.
pub open spec fn execute_failed(capability: Seq<char>, err: ExecuteError, r: CliError) -> bool {
    let reason = execute_reason(capability, err);
    if is_callers_fault(err) {
        r.is_invalid("enable"@, reason)
    } else {
        r.is_runtime("enable"@, reason)
    }
}

fn reason_of(capability: &str, err: &ExecuteError) -> (r: String)
    ensures
        r@ == execute_reason(capability@, *err),
{
    let hint = cat3("`anolisa enable ", capability, " --dry-run`");
    match err {
        ExecuteError::PlanNotExecutable { status, reason } => {
            let mut r = cat3("plan is ", status.as_str(), ": ");
            r.append(reason.as_str());
            r.append(" — run ");
            r.append(hint.as_str());
            r.append(" for details and resolve blockers before retrying");
            r
        },
        ExecuteError::MissingArtifact { component } => {
            let mut r = cat3(
                "component '",
                component.as_str(),
                "' has no resolved artifact (catalog vs distribution-index mismatch — check ",
            );
            r.append(hint.as_str());
            r.append(")");
            r
        },
        ExecuteError::MissingChecksum { component } => {
            let mut r = cat3(
                "component '",
                component.as_str(),
                "' has no sha256 in the distribution index — refuse to install without verification (regenerate the index with checksums and retry — check ",
            );
            r.append(hint.as_str());
            r.append(")");
            r
        },
        ExecuteError::LockHeld { path } => cat3(
            "install lock at ",
            path.as_str(),
            " is held by another process — run again after the other invocation finishes",
        ),
        ExecuteError::Download { component, source } => {
            let mut r = cat3("download for component '", component.as_str(), "' failed: ");
            r.append(source.as_str());
            r
        },
        ExecuteError::Install { component, source } => {
            let mut r = cat3("install for component '", component.as_str(), "' failed: ");
            r.append(source.as_str());
            r
        },
        ExecuteError::ManifestMismatch { component, expected_sha256, actual_sha256 } => {
            let mut r = cat3(
                "component '",
                component.as_str(),
                "': artifact's embedded component.toml does not match the registry meta.toml used for planning (expected sha256 ",
            );
            r.append(expected_sha256.as_str());
            r.append(", actual ");
            match actual_sha256 {
                Some(a) => r.append(a.as_str()),
                None => r.append("<missing>"),
            }
            r.append(
                ") — published artifact and meta.toml are inconsistent; nothing was installed. Re-run ",
            );
            r.append(hint.as_str());
            r.append(" after the registry is republished");
            r
        },
        ExecuteError::State { source } => cat2("installed state write failed: ", source.as_str()),
        ExecuteError::Log { source } => cat2("central log write failed: ", source.as_str()),
        ExecuteError::Lock { source } => cat2("install lock io: ", source.as_str()),
        ExecuteError::DisabledStateInconsistent { capability: cap, mismatches } => {
            let detail = join(mismatches, "; ");
            let n: usize = mismatches.len();
            let mut r = cat3("capability '", cap.as_str(), "' is currently disabled but ");
            push_decimal(&mut r, n as u64);
            r.append(" owned file(s) drifted from the recorded sha256: ");
            r.append(detail.as_str());
            r.append(" — run `anolisa status ");
            r.append(cap.as_str());
            r.append(
                " --verbose` to inspect, then restore the affected files (or wait for `anolisa uninstall`/`purge` to ship) before re-enabling",
            );
            r
        },
        ExecuteError::HookFailed { phase, component, summary, exit_code } => {
            let code = match exit_code {
                Some(c) => i64_text(*c as i64),
                None => "?".to_owned(),
            };
            let mut r = cat3("lifecycle hook ", phase.as_str(), " for component '");
            r.append(component.as_str());
            r.append("' failed (exit ");
            r.append(code.as_str());
            r.append("): ");
            r.append(summary.as_str());
            r.append(" — inspect the central log (`anolisa logs --kind component --component ");
            r.append(component.as_str());
            r.append("`) and the hook script before retrying");
            r
        },
    }
}

/// A report names what a failure is about, each thing as what it is.
pub open spec fn failure_is_told(capability: Seq<char>, err: ExecuteError, said: Seq<char>) -> bool {
    match err {
        ExecuteError::PlanNotExecutable { status, reason } => {
            &&& text::mentions(said, "plan is "@ + status@ + ": "@ + reason@)
            &&& text::mentions(said, "`anolisa enable "@ + capability + " --dry-run`"@)
        },
        ExecuteError::MissingArtifact { component } => {
            &&& text::mentions(said, "component '"@ + component@ + "' has no resolved artifact"@)
            &&& text::mentions(said, "`anolisa enable "@ + capability + " --dry-run`"@)
        },
        ExecuteError::MissingChecksum { component } => {
            &&& text::mentions(
                said,
                "component '"@ + component@ + "' has no sha256 in the distribution index"@,
            )
            &&& text::mentions(said, "`anolisa enable "@ + capability + " --dry-run`"@)
        },
        ExecuteError::LockHeld { path } => text::mentions(
            said,
            "install lock at "@ + path@ + " is held by another process"@,
        ),
        ExecuteError::Download { component, source } => text::mentions(
            said,
            "download for component '"@ + component@ + "' failed: "@ + source@,
        ),
        ExecuteError::Install { component, source } => text::mentions(
            said,
            "install for component '"@ + component@ + "' failed: "@ + source@,
        ),
        ExecuteError::ManifestMismatch { component, expected_sha256, actual_sha256 } => {
            &&& text::mentions(said, "component '"@ + component@ + "'"@)
            &&& text::mentions(
                said,
                "(expected sha256 "@ + expected_sha256@ + ", actual "@ + (if actual_sha256 is Some {
                    actual_sha256->Some_0@
                } else {
                    "<missing>"@
                }) + ")"@,
            )
            &&& text::mentions(said, "`anolisa enable "@ + capability + " --dry-run`"@)
        },
        ExecuteError::State { source } => text::mentions(
            said,
            "installed state write failed: "@ + source@,
        ),
        ExecuteError::Log { source } => text::mentions(
            said,
            "central log write failed: "@ + source@,
        ),
        ExecuteError::Lock { source } => text::mentions(said, "install lock io: "@ + source@),
        ExecuteError::DisabledStateInconsistent { capability: cap, mismatches } => {
            &&& text::mentions(
                said,
                "capability '"@ + cap@ + "' is currently disabled but "@ + text::decimal(
                    mismatches@.len(),
                ) + " owned file(s) drifted"@,
            )
            &&& forall|i: int|
                0 <= i < mismatches@.len() ==> text::mentions(said, (#[trigger] mismatches@[i])@)
            &&& text::mentions(said, "`anolisa status "@ + cap@ + " --verbose`"@)
        },
        ExecuteError::HookFailed { phase, component, summary, exit_code } => {
            &&& text::mentions(
                said,
                "lifecycle hook "@ + phase@ + " for component '"@ + component@ + "' failed (exit "@
                    + (if exit_code is Some {
                    text::decimal_int(exit_code->Some_0 as int)
                } else {
                    "?"@
                }) + "): "@ + summary@,
            )
            &&& text::mentions(
                said,
                "`anolisa logs --kind component --component "@ + component@ + "`"@,
            )
        },
    }
}

/// Every failure is told with what it is about.
pub proof fn failures_are_told(capability: Seq<char>, err: ExecuteError)
    ensures
        failure_is_told(capability, err, execute_reason(capability, err)),
{
    let said = execute_reason(capability, err);
    let none = Seq::<char>::empty();
    let dry = "`anolisa enable "@ + capability + " --dry-run`"@;
    match err {
        ExecuteError::PlanNotExecutable { status, reason } => {
            let p = "plan is "@ + status@ + ": "@ + reason@;
            let end = " for details and resolve blockers before retrying"@;
            text::lemma_mentions(none, p, " — run "@ + dry + end);
            assert(said =~= none + p + (" — run "@ + dry + end));
            text::lemma_mentions(p + " — run "@, dry, end);
            assert(said =~= (p + " — run "@) + dry + end);
        },
        ExecuteError::MissingArtifact { component } => {
            let p = "component '"@ + component@ + "' has no resolved artifact"@;
            let link = " (catalog vs distribution-index mismatch — check "@;
            reveal_strlit(
                "' has no resolved artifact (catalog vs distribution-index mismatch — check ",
            );
            reveal_strlit("' has no resolved artifact");
            reveal_strlit(" (catalog vs distribution-index mismatch — check ");
            text::lemma_mentions(none, p, link + dry + ")"@);
            assert(said =~= none + p + (link + dry + ")"@));
            text::lemma_mentions(p + link, dry, ")"@);
            assert(said =~= (p + link) + dry + ")"@);
        },
        ExecuteError::MissingChecksum { component } => {
            let p = "component '"@ + component@ + "' has no sha256 in the distribution index"@;
            let link =
                " — refuse to install without verification (regenerate the index with checksums and retry — check "@;
            reveal_strlit(
                "' has no sha256 in the distribution index — refuse to install without verification (regenerate the index with checksums and retry — check ",
            );
            reveal_strlit("' has no sha256 in the distribution index");
            reveal_strlit(
                " — refuse to install without verification (regenerate the index with checksums and retry — check ",
            );
            text::lemma_mentions(none, p, link + dry + ")"@);
            assert(said =~= none + p + (link + dry + ")"@));
            text::lemma_mentions(p + link, dry, ")"@);
            assert(said =~= (p + link) + dry + ")"@);
        },
        ExecuteError::LockHeld { path } => {
            let p = "install lock at "@ + path@ + " is held by another process"@;
            let end = " — run again after the other invocation finishes"@;
            reveal_strlit(
                " is held by another process — run again after the other invocation finishes",
            );
            reveal_strlit(" is held by another process");
            reveal_strlit(" — run again after the other invocation finishes");
            text::lemma_mentions(none, p, end);
            assert(said =~= none + p + end);
        },
        ExecuteError::ManifestMismatch { component, expected_sha256, actual_sha256 } => {
            lemma_mismatch_is_told(capability, component, expected_sha256, actual_sha256);
        },
        ExecuteError::DisabledStateInconsistent { capability: cap, mismatches } => {
            lemma_drift_is_told(capability, cap, mismatches);
        },
        ExecuteError::HookFailed { phase, component, summary, exit_code } => {
            let code = if exit_code is Some {
                text::decimal_int(exit_code->Some_0 as int)
            } else {
                "?"@
            };
            let p = "lifecycle hook "@ + phase@ + " for component '"@ + component@
                + "' failed (exit "@ + code + "): "@ + summary@;
            let logs = "`anolisa logs --kind component --component "@ + component@ + "`"@;
            let link = " — inspect the central log ("@;
            let end = ") and the hook script before retrying"@;
            reveal_strlit(
                " — inspect the central log (`anolisa logs --kind component --component ",
            );
            reveal_strlit(" — inspect the central log (");
            reveal_strlit("`anolisa logs --kind component --component ");
            reveal_strlit("`) and the hook script before retrying");
            reveal_strlit("`");
            reveal_strlit(") and the hook script before retrying");
            text::lemma_mentions(none, p, link + logs + end);
            assert(said =~= none + p + (link + logs + end));
            text::lemma_mentions(p + link, logs, end);
            assert(said =~= (p + link) + logs + end);
        },
        _ => {
            text::lemma_mentions_itself(said);
        },
    }
}

proof fn lemma_mismatch_is_told(
    capability: Seq<char>,
    component: String,
    expected: String,
    actual: Option<String>,
)
    ensures
        ({
            let err = ExecuteError::ManifestMismatch {
                component,
                expected_sha256: expected,
                actual_sha256: actual,
            };
            failure_is_told(capability, err, execute_reason(capability, err))
        }),
{
    let err = ExecuteError::ManifestMismatch {
        component,
        expected_sha256: expected,
        actual_sha256: actual,
    };
    let said = execute_reason(capability, err);
    let none = Seq::<char>::empty();
    let dry = "`anolisa enable "@ + capability + " --dry-run`"@;
    let name = "component '"@ + component@ + "'"@;
    let digests = "(expected sha256 "@ + expected@ + ", actual "@ + (if actual is Some {
        actual->Some_0@
    } else {
        "<missing>"@
    }) + ")"@;
    let link =
        ": artifact's embedded component.toml does not match the registry meta.toml used for planning "@;
    let next =
        " — published artifact and meta.toml are inconsistent; nothing was installed. Re-run "@;
    let end = " after the registry is republished"@;
    reveal_strlit(
        "': artifact's embedded component.toml does not match the registry meta.toml used for planning (expected sha256 ",
    );
    reveal_strlit("'");
    reveal_strlit(
        ": artifact's embedded component.toml does not match the registry meta.toml used for planning ",
    );
    reveal_strlit("(expected sha256 ");
    reveal_strlit(
        ") — published artifact and meta.toml are inconsistent; nothing was installed. Re-run ",
    );
    reveal_strlit(")");
    reveal_strlit(
        " — published artifact and meta.toml are inconsistent; nothing was installed. Re-run ",
    );
    text::lemma_mentions(none, name, link + digests + next + dry + end);
    assert(said =~= none + name + (link + digests + next + dry + end));
    text::lemma_mentions(name + link, digests, next + dry + end);
    assert(said =~= (name + link) + digests + (next + dry + end));
    text::lemma_mentions(name + link + digests + next, dry, end);
    assert(said =~= (name + link + digests + next) + dry + end);
}

proof fn lemma_drift_is_told(capability: Seq<char>, cap: String, mismatches: Vec<String>)
    ensures
        ({
            let err = ExecuteError::DisabledStateInconsistent { capability: cap, mismatches };
            failure_is_told(capability, err, execute_reason(capability, err))
        }),
{
    let err = ExecuteError::DisabledStateInconsistent { capability: cap, mismatches };
    let said = execute_reason(capability, err);
    let none = Seq::<char>::empty();
    let first = "capability '"@ + cap@ + "' is currently disabled but "@ + text::decimal(
        mismatches@.len(),
    ) + " owned file(s) drifted"@;
    let list = text::joined(text::texts(mismatches@), "; "@);
    let from = " from the recorded sha256: "@;
    let run = " — run "@;
    let show = "`anolisa status "@ + cap@ + " --verbose`"@;
    let end =
        " to inspect, then restore the affected files (or wait for `anolisa uninstall`/`purge` to ship) before re-enabling"@;
    reveal_strlit(" owned file(s) drifted from the recorded sha256: ");
    reveal_strlit(" owned file(s) drifted");
    reveal_strlit(" from the recorded sha256: ");
    reveal_strlit(" — run `anolisa status ");
    reveal_strlit(" — run ");
    reveal_strlit("`anolisa status ");
    reveal_strlit(
        " --verbose` to inspect, then restore the affected files (or wait for `anolisa uninstall`/`purge` to ship) before re-enabling",
    );
    reveal_strlit(" --verbose`");
    reveal_strlit(
        " to inspect, then restore the affected files (or wait for `anolisa uninstall`/`purge` to ship) before re-enabling",
    );
    text::lemma_mentions(none, first, from + list + run + show + end);
    assert(said =~= none + first + (from + list + run + show + end));
    text::lemma_mentions(first + from + list + run, show, end);
    assert(said =~= (first + from + list + run) + show + end);
    assert(said =~= (first + from) + list + (run + show + end));
    assert forall|i: int| 0 <= i < mismatches@.len() implies text::mentions(
        said,
        (#[trigger] mismatches@[i])@,
    ) by {
        text::list_mentions_its_parts(text::texts(mismatches@), "; "@, i);
        text::lemma_mentions_within(first + from, list, run + show + end, mismatches@[i]@);
    }
}

/// Reports a failure of carrying out. What the caller can mend is told apart
/// from what the machine could not do.
pub fn execute_err_to_cli(capability: &str, err: ExecuteError) -> (r: CliError)
    ensures
        execute_failed(capability@, err, r),
        r is InvalidArgument <==> err is PlanNotExecutable || err is MissingArtifact
            || err is MissingChecksum || err is DisabledStateInconsistent,
        match r {
            CliError::InvalidArgument { command, reason } => command@ == "enable"@
                && failure_is_told(
                capability@,
                err,
                reason@,
            ),
            CliError::Runtime { command, reason } => command@ == "enable"@ && failure_is_told(
                capability@,
                err,
                reason@,
            ),
            _ => false,
        },
{
    proof {
        failures_are_told(capability@, err);
    }
    let reason = reason_of(capability, &err);
    let callers: bool = match &err {
        ExecuteError::PlanNotExecutable { .. } => true,
        ExecuteError::MissingArtifact { .. } => true,
        ExecuteError::MissingChecksum { .. } => true,
        ExecuteError::DisabledStateInconsistent { .. } => true,
        _ => false,
    };
    if callers {
        CliError::InvalidArgument { command: "enable".to_owned(), reason }
    } else {
        CliError::Runtime { command: "enable".to_owned(), reason }
    }
}

/// A plan that cannot be carried out is reported as the caller's to mend, and
/// the report points at the dry run of the capability that was asked for.
pub proof fn plan_refusal_points_at_dry_run(
    capability: Seq<char>,
    err: ExecuteError,
    r: CliError,
)
    requires
        execute_failed(capability, err, r),
        err is PlanNotExecutable || err is MissingArtifact || err is MissingChecksum,
    ensures
        exists|before: Seq<char>, after: Seq<char>| #[trigger]
            r.is_invalid("enable"@, before + dry_run_hint(capability) + after),
{
    let (before, after) = match err {
        ExecuteError::PlanNotExecutable { status, reason } => (
            "plan is "@ + status@ + ": "@ + reason@ + " — run "@,
            " for details and resolve blockers before retrying"@,
        ),
        ExecuteError::MissingArtifact { component } => (
            "component '"@ + component@
                + "' has no resolved artifact (catalog vs distribution-index mismatch — check "@,
            ")"@,
        ),
        ExecuteError::MissingChecksum { component } => (
            "component '"@ + component@
                + "' has no sha256 in the distribution index — refuse to install without verification (regenerate the index with checksums and retry — check "@,
            ")"@,
        ),
        _ => (Seq::empty(), Seq::empty()),
    };
    assert(r.is_invalid("enable"@, before + dry_run_hint(capability) + after));
}

// ---- component metadata ---------------------------------------------------------
/// The artifact that a component is installed from.
#[derive(Clone, Debug)]
pub struct PlanArtifact {
    pub artifact_type: String,
    pub backend: String,
    pub version: String,
    pub url: String,
    pub sha256: Option<String>,
    /// Digest of the published metadata that the plan was made from.
    pub meta_sha256: Option<String>,
}

/// A component of a plan.
#[derive(Clone, Debug)]
pub struct PlanComponent {
    pub name: String,
    pub manifest_version: Option<String>,
    pub status: String,
    pub blocked_reason: Option<String>,
    pub artifact: Option<PlanArtifact>,
    pub services: Vec<String>,
    pub files: Vec<String>,
    pub resolved_files: Vec<String>,
    pub capabilities: Vec<String>,
    pub requires_privilege: bool,
}

/// What came of asking for the published metadata of a component.
#[derive(Clone, Debug)]
pub enum MetaReply {
    /// Its digest.
    Found(String),
    Missing,
    Failed(String),
}

/// The metadata that was found: component and digest.
#[derive(Clone, Debug)]
pub struct FoundMeta {
    pub name: String,
    pub sha256: String,
}

/// Published metadata is asked for where the index came from the registry.
pub fn fetches_meta(has_registry: bool, degraded_to_local: bool) -> (r: bool)
    ensures
        r == (has_registry && !degraded_to_local),
{
    has_registry && !degraded_to_local
}

/// What is said where the metadata of a component is missing or could not be
/// had; nothing where it was found.
pub open spec fn meta_warning(name: Seq<char>, version: Seq<char>, reply: MetaReply) -> Option<
    Seq<char>,
> {
    match reply {
        MetaReply::Found(_) => None,
        MetaReply::Missing => Some(
            "component '"@ + name + "': no meta.toml published for v"@ + version
                + " — plan previews the bundled manifest"@,
        ),
        MetaReply::Failed(err) => Some(
            "component '"@ + name + "': meta.toml fetch failed ("@ + err@
                + ") — plan previews the bundled manifest"@,
        ),
    }
}

/// A component whose metadata was asked for, and the reply.
#[derive(Clone, Debug)]
pub struct MetaQuery {
    pub name: String,
    pub version: String,
    pub url: String,
}

/// The metadata to ask for: of every component with an artifact.
pub open spec fn queries_of(components: Seq<PlanComponent>) -> Seq<(Seq<char>, Seq<char>, Seq<char>)>
    decreases components.len(),
{
    if components.len() == 0 {
        Seq::empty()
    } else {
        let c = components.last();
        let before = queries_of(components.drop_last());
        match c.artifact {
            Some(a) => before.push((c.name@, a.version@, a.url@)),
            None => before,
        }
    }
}

/// The query as a value.
pub open spec fn query_view(q: MetaQuery) -> (Seq<char>, Seq<char>, Seq<char>) {
    (q.name@, q.version@, q.url@)
}

/// Lists the metadata to ask for.
pub fn meta_queries(components: &Vec<PlanComponent>) -> (r: Vec<MetaQuery>)
    ensures
        r@.map_values(|q: MetaQuery| query_view(q)) == queries_of(components@),
        r@.len() == components@.filter(|c: PlanComponent| c.artifact is Some).len(),
        forall|k: int|
            #![trigger r@[k]]
            0 <= k < r@.len() ==> {
                let c = components@.filter(|c: PlanComponent| c.artifact is Some)[k];
                &&& r@[k].name@ == c.name@
                &&& r@[k].version@ == c.artifact->Some_0.version@
                &&& r@[k].url@ == c.artifact->Some_0.url@
            },
{
    let ghost f = |q: MetaQuery| query_view(q);
    let mut r: Vec<MetaQuery> = Vec::new();
    let mut i: usize = 0;
    assert(components@.take(0) =~= Seq::empty());
    assert(r@.map_values(f) =~= Seq::empty());
    while i < components.len()
        invariant
            i <= components@.len(),
            f == (|q: MetaQuery| query_view(q)),
            r@.map_values(f) == queries_of(components@.take(i as int)),
        decreases components@.len() - i,
    {
        proof {
            assert(components@.take(i + 1).drop_last() =~= components@.take(i as int));
        }
        let c = &components[i];
        match &c.artifact {
            Some(a) => {
                let ghost before = r@;
                let q = MetaQuery {
                    name: c.name.clone(),
                    version: a.version.clone(),
                    url: a.url.clone(),
                };
                r.push(q);
                assert(r@.map_values(f) =~= before.map_values(f).push(query_view(q)));
            },
            None => {},
        }
        i = i + 1;
    }
    assert(components@.take(i as int) =~= components@);
    proof {
        every_artifact_is_asked_about(components@);
        assert forall|k: int| #![trigger r@[k]] 0 <= k < r@.len() implies {
            let c = components@.filter(|c: PlanComponent| c.artifact is Some)[k];
            &&& r@[k].name@ == c.name@
            &&& r@[k].version@ == c.artifact->Some_0.version@
            &&& r@[k].url@ == c.artifact->Some_0.url@
        } by {
            assert(query_view(r@[k]) == r@.map_values(f)[k]);
        }
    }
    r
}

/// Nothing is asked exactly where no component has an artifact.
pub proof fn artifacts_are_asked_about(components: Seq<PlanComponent>)
    ensures
        queries_of(components).len() > 0 <==> exists|i: int|
            0 <= i < components.len() && (#[trigger] components[i]).artifact is Some,
    decreases components.len(),
{
    if components.len() > 0 {
        let rest = components.drop_last();
        artifacts_are_asked_about(rest);
        assert(components.last() == components[components.len() - 1]);
        if queries_of(rest).len() > 0 {
            let i = choose|i: int| 0 <= i < rest.len() && (#[trigger] rest[i]).artifact is Some;
            assert(components[i].artifact is Some);
        }
        if exists|i: int| 0 <= i < components.len() && (#[trigger] components[i]).artifact is Some {
            let i = choose|i: int|
                0 <= i < components.len() && (#[trigger] components[i]).artifact is Some;
            if i < rest.len() {
                assert(rest[i].artifact is Some);
            }
        }
    }
}

/// The components with an artifact are asked about, each once and in order, by
/// their name and by the version and the address of the artifact.
pub proof fn every_artifact_is_asked_about(components: Seq<PlanComponent>)
    ensures
        queries_of(components).len() == components.filter(
            |c: PlanComponent| c.artifact is Some,
        ).len(),
        forall|k: int|
            #![trigger queries_of(components)[k]]
            0 <= k < queries_of(components).len() ==> {
                let c = components.filter(|c: PlanComponent| c.artifact is Some)[k];
                queries_of(components)[k] == (
                    c.name@,
                    c.artifact->Some_0.version@,
                    c.artifact->Some_0.url@,
                )
            },
    decreases components.len(),
{
    reveal(Seq::filter);
    if components.len() > 0 {
        every_artifact_is_asked_about(components.drop_last());
    }
}

/// The metadata found and the warnings of the first `n` queries.
pub open spec fn sorted_replies(queries: Seq<MetaQuery>, replies: Seq<MetaReply>, n: int) -> (
    Seq<(Seq<char>, Seq<char>)>,
    Seq<Seq<char>>,
)
    decreases n,
{
    if n <= 0 {
        (Seq::empty(), Seq::empty())
    } else {
        let (found, warnings) = sorted_replies(queries, replies, n - 1);
        let q = queries[n - 1];
        match replies[n - 1] {
            MetaReply::Found(sha) => (found.push((q.name@, sha@)), warnings),
            other => (
                found,
                warnings.push(meta_warning(q.name@, q.version@, other)->Some_0),
            ),
        }
    }
}

/// The found metadata as values.
pub open spec fn found_view(found: Seq<FoundMeta>) -> Seq<(Seq<char>, Seq<char>)> {
    found.map_values(|m: FoundMeta| (m.name@, m.sha256@))
}

/// The metadata is that of reply `i`, under the name that was asked for.
pub open spec fn answers(
    queries: Seq<MetaQuery>,
    replies: Seq<MetaReply>,
    i: int,
    m: FoundMeta,
) -> bool {
    &&& 0 <= i < replies.len()
    &&& replies[i] is Found
    &&& m.name@ == queries[i].name@
    &&& m.sha256@ == replies[i]->Found_0@
}

/// The metadata is that of some reply.
pub open spec fn was_replied(
    queries: Seq<MetaQuery>,
    replies: Seq<MetaReply>,
    m: FoundMeta,
) -> bool {
    exists|i: int| #[trigger] answers(queries, replies, i, m)
}

#[verifier::spinoff_prover]
proof fn lemma_replies_sorted(
    queries: Seq<MetaQuery>,
    replies: Seq<MetaReply>,
    found: Seq<FoundMeta>,
    warnings: Seq<String>,
)
    requires
        queries.len() == replies.len(),
        (found_view(found), text::texts(warnings)) == sorted_replies(
            queries,
            replies,
            queries.len() as int,
        ),
    ensures
        found.len() + warnings.len() == queries.len(),
        forall|k: int|
            0 <= k < found.len() ==> #[trigger] was_replied(queries, replies, found[k]),
        forall|i: int|
            #![trigger replies[i]]
            0 <= i < replies.len() ==> match replies[i] {
                MetaReply::Found(sha) => exists|k: int|
                    0 <= k < found.len() && #[trigger] answers(queries, replies, i, found[k]),
                MetaReply::Missing => exists|k: int|
                    0 <= k < warnings.len() && (#[trigger] warnings[k])@ == "component '"@
                        + queries[i].name@ + "': no meta.toml published for v"@
                        + queries[i].version@ + " — plan previews the bundled manifest"@,
                MetaReply::Failed(err) => exists|k: int|
                    0 <= k < warnings.len() && (#[trigger] warnings[k])@ == "component '"@
                        + queries[i].name@ + "': meta.toml fetch failed ("@ + err@
                        + ") — plan previews the bundled manifest"@,
            },
{
    assert forall|i: int| #![trigger replies[i]] 0 <= i < replies.len()
        implies match replies[i] {
        MetaReply::Found(sha) => exists|k: int|
            0 <= k < found.len() && #[trigger] answers(queries, replies, i, found[k]),
        MetaReply::Missing => exists|k: int|
            0 <= k < warnings.len() && (#[trigger] warnings[k])@ == "component '"@
                + queries[i].name@ + "': no meta.toml published for v"@ + queries[i].version@
                + " — plan previews the bundled manifest"@,
        MetaReply::Failed(err) => exists|k: int|
            0 <= k < warnings.len() && (#[trigger] warnings[k])@ == "component '"@
                + queries[i].name@ + "': meta.toml fetch failed ("@ + err@
                + ") — plan previews the bundled manifest"@,
    } by {
        every_reply_counts(queries, replies, queries.len() as int, i);
        let (fv, wv) = sorted_replies(queries, replies, queries.len() as int);
        assert(found_view(found) == fv && text::texts(warnings) == wv);
        match replies[i] {
            MetaReply::Found(sha) => {
                let k = choose|k: int|
                    0 <= k < fv.len() && #[trigger] fv[k] == (queries[i].name@, sha@);
                assert(found_view(found)[k] == (found[k].name@, found[k].sha256@));
                assert(answers(queries, replies, i, found[k]));
            },
            other => {
                let w = meta_warning(queries[i].name@, queries[i].version@, other)->Some_0;
                let k = choose|k: int| 0 <= k < wv.len() && #[trigger] wv[k] == w;
                assert(text::texts(warnings)[k] == warnings[k]@);
            },
        }
    }
    assert forall|k: int| 0 <= k < found.len() implies #[trigger] was_replied(
        queries,
        replies,
        found[k],
    ) by {
        let n = queries.len() as int;
        let fv = sorted_replies(queries, replies, n).0;
        found_was_replied(queries, replies, n, k);
        assert(fv[k] == (found[k].name@, found[k].sha256@));
        let i = choose|i: int|
            {
                &&& 0 <= i < n
                &&& (#[trigger] replies[i]) is Found
                &&& fv[k].0 == queries[i].name@
                &&& fv[k].1 == replies[i]->Found_0@
            };
        assert(answers(queries, replies, i, found[k]));
    }
    lemma_reply_count(queries, replies, queries.len() as int);
    assert(found_view(found).len() == found.len());
    assert(text::texts(warnings).len() == warnings.len());
}

/// Sorts the replies into what was found and what is warned of.
#[verifier::spinoff_prover]
pub fn sort_replies(queries: &Vec<MetaQuery>, replies: &Vec<MetaReply>) -> (r: (
    Vec<FoundMeta>,
    Vec<String>,
))
    requires
        queries@.len() == replies@.len(),
    ensures
        (found_view(r.0@), text::texts(r.1@)) == sorted_replies(
            queries@,
            replies@,
            queries@.len() as int,
        ),
        r.0@.len() + r.1@.len() == queries@.len(),
        forall|k: int|
            0 <= k < r.0@.len() ==> #[trigger] was_replied(queries@, replies@, r.0@[k]),
        forall|i: int|
            #![trigger replies@[i]]
            0 <= i < replies@.len() ==> match replies@[i] {
                MetaReply::Found(sha) => exists|k: int|
                    0 <= k < r.0@.len() && #[trigger] answers(queries@, replies@, i, r.0@[k]),
                MetaReply::Missing => exists|k: int|
                    0 <= k < r.1@.len() && (#[trigger] r.1@[k])@ == "component '"@
                        + queries@[i].name@ + "': no meta.toml published for v"@
                        + queries@[i].version@ + " — plan previews the bundled manifest"@,
                MetaReply::Failed(err) => exists|k: int|
                    0 <= k < r.1@.len() && (#[trigger] r.1@[k])@ == "component '"@
                        + queries@[i].name@ + "': meta.toml fetch failed ("@ + err@
                        + ") — plan previews the bundled manifest"@,
            },
{
    let mut found: Vec<FoundMeta> = Vec::new();
    let mut warnings: Vec<String> = Vec::new();
    let mut i: usize = 0;
    assert(found_view(found@) =~= Seq::empty());
    assert(text::texts(warnings@) =~= Seq::empty());
    while i < queries.len()
        invariant
            queries@.len() == replies@.len(),
            i <= queries@.len(),
            (found_view(found@), text::texts(warnings@)) == sorted_replies(
                queries@,
                replies@,
                i as int,
            ),
        decreases queries@.len() - i,
    {
        let q = &queries[i];
        let ghost f = found_view(found@);
        let ghost w = text::texts(warnings@);
        match &replies[i] {
            MetaReply::Found(sha) => {
                let m = FoundMeta { name: q.name.clone(), sha256: sha.clone() };
                found.push(m);
                assert(found_view(found@) =~= f.push((m.name@, m.sha256@)));
            },
            MetaReply::Missing => {
                let mut m = cat3(
                    "component '",
                    q.name.as_str(),
                    "': no meta.toml published for v",
                );
                m.append(q.version.as_str());
                m.append(" — plan previews the bundled manifest");
                warnings.push(m);
                assert(text::texts(warnings@) =~= w.push(m@));
            },
            MetaReply::Failed(err) => {
                let mut m = cat3("component '", q.name.as_str(), "': meta.toml fetch failed (");
                m.append(err.as_str());
                m.append(") — plan previews the bundled manifest");
                warnings.push(m);
                assert(text::texts(warnings@) =~= w.push(m@));
            },
        }
        i = i + 1;
    }
    proof {
        lemma_replies_sorted(queries@, replies@, found@, warnings@);
    }
    (found, warnings)
}

proof fn lemma_reply_count(queries: Seq<MetaQuery>, replies: Seq<MetaReply>, n: int)
    requires
        0 <= n,
    ensures
        sorted_replies(queries, replies, n).0.len() + sorted_replies(queries, replies, n).1.len()
            == n,
    decreases n,
{
    if n > 0 {
        lemma_reply_count(queries, replies, n - 1);
    }
}

/// What is found was replied, to the query of its name.
pub proof fn found_was_replied(
    queries: Seq<MetaQuery>,
    replies: Seq<MetaReply>,
    n: int,
    k: int,
)
    requires
        0 <= n <= queries.len(),
        queries.len() == replies.len(),
        0 <= k < sorted_replies(queries, replies, n).0.len(),
    ensures
        exists|i: int|
            {
                &&& 0 <= i < n
                &&& (#[trigger] replies[i]) is Found
                &&& sorted_replies(queries, replies, n).0[k].0 == queries[i].name@
                &&& sorted_replies(queries, replies, n).0[k].1 == replies[i]->Found_0@
            },
    decreases n,
{
    if n > 0 {
        let before = sorted_replies(queries, replies, n - 1).0;
        if k < before.len() {
            found_was_replied(queries, replies, n - 1, k);
            let i = choose|i: int|
                {
                    &&& 0 <= i < n - 1
                    &&& (#[trigger] replies[i]) is Found
                    &&& before[k].0 == queries[i].name@
                    &&& before[k].1 == replies[i]->Found_0@
                };
            assert(replies[i] is Found);
        } else {
            assert(replies[n - 1] is Found);
        }
    }
}

/// Every reply is either found or warned of, under the name that was asked for.
pub proof fn every_reply_counts(
    queries: Seq<MetaQuery>,
    replies: Seq<MetaReply>,
    n: int,
    i: int,
)
    requires
        0 <= i < n <= queries.len(),
        queries.len() == replies.len(),
    ensures
        match replies[i] {
            MetaReply::Found(sha) => exists|k: int|
                0 <= k < sorted_replies(queries, replies, n).0.len()
                    && #[trigger] sorted_replies(queries, replies, n).0[k] == (
                    queries[i].name@,
                    sha@,
                ),
            other => exists|k: int|
                0 <= k < sorted_replies(queries, replies, n).1.len()
                    && #[trigger] sorted_replies(queries, replies, n).1[k] == meta_warning(
                    queries[i].name@,
                    queries[i].version@,
                    other,
                )->Some_0,
        },
    decreases n,
{
    let (found, warnings) = sorted_replies(queries, replies, n);
    let (f, w) = sorted_replies(queries, replies, n - 1);
    if i == n - 1 {
        match replies[i] {
            MetaReply::Found(sha) => {
                assert(found[f.len() as int] == (queries[i].name@, sha@));
            },
            other => {
                assert(warnings[w.len() as int] == meta_warning(
                    queries[i].name@,
                    queries[i].version@,
                    other,
                )->Some_0);
            },
        }
    } else {
        every_reply_counts(queries, replies, n - 1, i);
        match replies[i] {
            MetaReply::Found(sha) => {
                let k = choose|k: int|
                    0 <= k < f.len() && #[trigger] f[k] == (queries[i].name@, sha@);
                assert(found[k] == f[k]);
            },
            other => {
                let text = meta_warning(queries[i].name@, queries[i].version@, other)->Some_0;
                let k = choose|k: int| 0 <= k < w.len() && #[trigger] w[k] == text;
                assert(warnings[k] == w[k]);
            },
        }
    }
}

/// The digest that was found for a component; the first one.
pub open spec fn digest_of(found: Seq<FoundMeta>, name: Seq<char>) -> Option<Seq<char>>
    decreases found.len(),
{
    if found.len() == 0 {
        None
    } else if found[0].name@ == name {
        Some(found[0].sha256@)
    } else {
        digest_of(found.skip(1), name)
    }
}

/// The digest of a component is the first that was found under its name.
pub proof fn first_digest_counts(found: Seq<FoundMeta>, name: Seq<char>)
    ensures
        match digest_of(found, name) {
            None => forall|k: int|
                0 <= k < found.len() ==> (#[trigger] found[k]).name@ != name,
            Some(sha) => exists|k: int|
                {
                    &&& 0 <= k < found.len()
                    &&& (#[trigger] found[k]).name@ == name
                    &&& sha == found[k].sha256@
                    &&& forall|j: int| 0 <= j < k ==> (#[trigger] found[j]).name@ != name
                },
        },
    decreases found.len(),
{
    if found.len() > 0 && found[0].name@ != name {
        let rest = found.skip(1);
        first_digest_counts(rest, name);
        match digest_of(rest, name) {
            None => {
                assert forall|k: int| 0 <= k < found.len() implies (#[trigger] found[k]).name@
                    != name by {
                    if k > 0 {
                        assert(rest[k - 1] == found[k]);
                    }
                }
            },
            Some(sha) => {
                let k = choose|k: int|
                    {
                        &&& 0 <= k < rest.len()
                        &&& (#[trigger] rest[k]).name@ == name
                        &&& sha == rest[k].sha256@
                        &&& forall|j: int| 0 <= j < k ==> (#[trigger] rest[j]).name@ != name
                    };
                assert(found[k + 1] == rest[k]);
                assert forall|j: int| 0 <= j < k + 1 implies (#[trigger] found[j]).name@ != name by {
                    if j > 0 {
                        assert(rest[j - 1] == found[j]);
                    }
                }
            },
        }
    }
}

fn find_digest(found: &Vec<FoundMeta>, name: &str) -> (r: Option<String>)
    ensures
        match r {
            Some(s) => digest_of(found@, name@) == Some(s@),
            None => digest_of(found@, name@) is None,
        },
{
    let mut i: usize = 0;
    assert(found@.skip(0) =~= found@);
    while i < found.len()
        invariant
            i <= found@.len(),
            digest_of(found@.skip(i as int), name@) == digest_of(found@, name@),
        decreases found@.len() - i,
    {
        if same_text(found[i].name.as_str(), name) {
            return Some(found[i].sha256.clone());
        }
        assert(found@.skip(i as int).skip(1) =~= found@.skip(i + 1));
        i = i + 1;
    }
    None
}

/// A component after the digests were carried in: only the digest of its
/// metadata may have changed.
pub open spec fn carries_digest(
    before: PlanComponent,
    found: Seq<FoundMeta>,
    after: PlanComponent,
) -> bool {
    match (before.artifact, digest_of(found, before.name@)) {
        (Some(a), Some(sha)) => {
            &&& after.artifact is Some
            &&& after.artifact->Some_0.meta_sha256 is Some
            &&& after.artifact->Some_0.meta_sha256->Some_0@ == sha
            &&& after == (PlanComponent {
                artifact: Some(
                    PlanArtifact { meta_sha256: after.artifact->Some_0.meta_sha256, ..a },
                ),
                ..before
            })
        },
        _ => after == before,
    }
}

/// Carries the digests of the metadata into the components, so that artifacts
/// can be held to them.
pub fn carry_digests(components: Vec<PlanComponent>, found: &Vec<FoundMeta>) -> (r: Vec<
    PlanComponent,
>)
    ensures
        r@.len() == components@.len(),
        forall|i: int|
            0 <= i < r@.len() ==> carries_digest(#[trigger] components@[i], found@, r@[i]),
        forall|i: int|
            #![trigger r@[i]]
            0 <= i < r@.len() ==> {
                &&& r@[i].name == components@[i].name
                &&& r@[i].manifest_version == components@[i].manifest_version
                &&& r@[i].status == components@[i].status
                &&& r@[i].blocked_reason == components@[i].blocked_reason
                &&& r@[i].services == components@[i].services
                &&& r@[i].files == components@[i].files
                &&& r@[i].resolved_files == components@[i].resolved_files
                &&& r@[i].capabilities == components@[i].capabilities
                &&& r@[i].requires_privilege == components@[i].requires_privilege
                &&& r@[i].artifact is Some <==> components@[i].artifact is Some
                &&& r@[i].artifact is Some ==> {
                    let a = components@[i].artifact->Some_0;
                    let b = r@[i].artifact->Some_0;
                    &&& b.artifact_type == a.artifact_type
                    &&& b.backend == a.backend
                    &&& b.version == a.version
                    &&& b.url == a.url
                    &&& b.sha256 == a.sha256
                    &&& (forall|k: int|
                        0 <= k < found@.len() ==> (#[trigger] found@[k]).name@
                            != components@[i].name@) ==> b.meta_sha256 == a.meta_sha256
                    &&& forall|k: int|
                        0 <= k < found@.len() && (#[trigger] found@[k]).name@
                            == components@[i].name@ && (forall|j: int|
                            0 <= j < k ==> (#[trigger] found@[j]).name@ != components@[i].name@)
                            ==> b.meta_sha256 is Some && b.meta_sha256->Some_0@ == found@[k].sha256@
                }
            },
{
    let mut cs = components;
    let ghost before = cs@;
    let mut i: usize = 0;
    while i < cs.len()
        invariant
            i <= cs@.len(),
            cs@.len() == before.len(),
            forall|j: int| 0 <= j < i ==> carries_digest(#[trigger] before[j], found@, cs@[j]),
            forall|j: int| i <= j < cs@.len() ==> #[trigger] cs@[j] == before[j],
        decreases cs@.len() - i,
    {
        match find_digest(found, cs[i].name.as_str()) {
            Some(sha) => {
                let mut artifact = None;
                std::mem::swap(&mut artifact, &mut cs[i].artifact);
                let artifact = match artifact {
                    Some(a) => Some(PlanArtifact { meta_sha256: Some(sha), ..a }),
                    None => None,
                };
                cs[i].artifact = artifact;
            },
            None => {},
        }
        assert(carries_digest(before[i as int], found@, cs@[i as int]));
        i = i + 1;
    }
    proof {
        assert forall|i: int| #![trigger cs@[i]] 0 <= i < cs@.len() implies carries_digest(
            before[i],
            found@,
            cs@[i],
        ) && match digest_of(found@, before[i].name@) {
            None => forall|k: int|
                0 <= k < found@.len() ==> (#[trigger] found@[k]).name@ != before[i].name@,
            Some(sha) => exists|k: int|
                {
                    &&& 0 <= k < found@.len()
                    &&& (#[trigger] found@[k]).name@ == before[i].name@
                    &&& sha == found@[k].sha256@
                    &&& forall|j: int| 0 <= j < k ==> (#[trigger] found@[j]).name@ != before[i].name@
                },
        } by {
            first_digest_counts(found@, before[i].name@);
        }
    }
    cs
}

} // verus!
