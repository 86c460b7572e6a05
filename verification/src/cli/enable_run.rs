//! The course of `enable`, from the arguments to what is done.

use vstd::prelude::*;

use super::context::CliContext;
use super::enable;
use super::enable::{
    carry_digests, check_args, command_line, decide, fetches_meta, map_plan_err, meta_queries,
    policy_load_err, sort_replies, EnableArgs, EnableDecision, FoundMeta, MetaQuery, MetaReply,
    PlanComponent, PlanError,
};
use super::execution_policy::ExecutionPolicy;
use super::response::CliError;
use crate::text;

verus! {

/// Where the distribution index came from.
#[derive(Clone, Debug)]
pub struct IndexSource {
    /// A registry is configured.
    pub has_registry: bool,
    /// The registry could not be reached: the index is the local one.
    pub degraded_to_local: bool,
    /// What is to be said of it.
    pub warnings: Vec<String>,
}

/// What a run has to do next.
#[derive(Clone, Debug)]
pub enum EnableAction {
    /// Load the execution policy.
    LoadPolicy,
    /// Load the catalog and the index.
    LoadIndex,
    /// Make a plan from the bundled manifests.
    MakePlan,
    /// Ask the registry for the metadata of a component.
    FetchMeta(MetaQuery),
    /// Make the plan anew, with the published manifests of these components in
    /// place of the bundled ones.
    MakePlanAnew(Vec<String>),
    /// The end: the plan has these components, the warnings go behind its own,
    /// and this is done with it.
    Proceed {
        decision: EnableDecision,
        components: Vec<PlanComponent>,
        warnings: Vec<String>,
    },
    /// The end: the command fails.
    Fail(CliError),
}

/// What came of an action.
#[derive(Debug)]
pub enum EnableEvent {
    Policy(Result<ExecutionPolicy, String>),
    Index(Result<IndexSource, CliError>),
    Plan(Result<Vec<PlanComponent>, PlanError>),
    Meta(MetaReply),
}

/// Where a run stands.
#[derive(Debug)]
pub enum EnableState {
    Policy,
    Index { policy: ExecutionPolicy },
    Plan { policy: ExecutionPolicy, source: IndexSource },
    /// Metadata is being asked for; `replies` are those to the first queries.
    Meta {
        policy: ExecutionPolicy,
        warnings: Vec<String>,
        components: Vec<PlanComponent>,
        queries: Vec<MetaQuery>,
        replies: Vec<MetaReply>,
    },
    Replan { policy: ExecutionPolicy, warnings: Vec<String>, found: Vec<FoundMeta> },
    Done,
}

impl EnableState {
    /// There is a query left to be answered.
    pub open spec fn wf(self) -> bool {
        self matches EnableState::Meta { queries, replies, .. } ==> replies@.len() < queries@.len()
    }

    /// The answer is of the kind that was asked for.
    pub open spec fn expects(self, event: EnableEvent) -> bool {
        match self {
            EnableState::Policy => event is Policy,
            EnableState::Index { .. } => event is Index,
            EnableState::Plan { .. } => event is Plan,
            EnableState::Meta { .. } => event is Meta,
            EnableState::Replan { .. } => event is Plan,
            EnableState::Done => false,
        }
    }
}

/// A failure to make a plan is the end.
pub open spec fn plan_failed(err: PlanError, after: EnableState, action: EnableAction) -> bool {
    &&& after is Done
    &&& err matches PlanError::UnknownCapability(name) && action matches EnableAction::Fail(e)
        && e.is_invalid("enable"@, "capability '"@ + name@ + "' is not in the catalog"@)
}

/// The end, once the plan is made: what is decided under the policy.
pub open spec fn finished(
    args: EnableArgs,
    ctx: CliContext,
    policy: ExecutionPolicy,
    components: Seq<PlanComponent>,
    warnings: Seq<Seq<char>>,
    after: EnableState,
    action: EnableAction,
) -> bool {
    &&& after is Done
    &&& match action {
        EnableAction::Fail(e) => enable::enable_decided(args, ctx, Ok(policy), Ok(()), Err(e)),
        EnableAction::Proceed { decision, components: c, warnings: w } => {
            &&& enable::enable_decided(args, ctx, Ok(policy), Ok(()), Ok(decision))
            &&& c@ == components
            &&& text::texts(w@) == warnings
        },
        _ => false,
    }
}

/// What follows the first plan: where the index came from the registry, the
/// metadata of every component with an artifact is asked for.
pub open spec fn planned(
    args: EnableArgs,
    ctx: CliContext,
    policy: ExecutionPolicy,
    source: IndexSource,
    components: Seq<PlanComponent>,
    after: EnableState,
    action: EnableAction,
) -> bool {
    let queries = enable::queries_of(components);
    let asks = source.has_registry && !source.degraded_to_local && queries.len() > 0;
    if asks {
        &&& after matches EnableState::Meta {
            policy: p,
            warnings: w,
            components: c,
            queries: q,
            replies: r,
        } && {
            &&& p == policy
            &&& w == source.warnings
            &&& c@ == components
            &&& q@.map_values(|q: MetaQuery| enable::query_view(q)) == queries
            &&& r@.len() == 0
        }
        &&& action matches EnableAction::FetchMeta(q) && enable::query_view(q) == queries[0]
    } else {
        finished(args, ctx, policy, components, text::texts(source.warnings@), after, action)
    }
}

/// What follows the last reply: where some metadata was found the plan is made
/// anew, else the first one stands.
pub open spec fn all_replied(
    args: EnableArgs,
    ctx: CliContext,
    policy: ExecutionPolicy,
    warnings: Seq<Seq<char>>,
    components: Seq<PlanComponent>,
    queries: Seq<MetaQuery>,
    replies: Seq<MetaReply>,
    after: EnableState,
    action: EnableAction,
) -> bool {
    let (found, more) = enable::sorted_replies(queries, replies, queries.len() as int);
    if found.len() > 0 {
        &&& after matches EnableState::Replan { policy: p, warnings: w, found: f } && {
            &&& p == policy
            &&& text::texts(w@) == warnings + more
            &&& enable::found_view(f@) == found
        }
        &&& action matches EnableAction::MakePlanAnew(names) && text::texts(names@)
            == found.map_values(|m: (Seq<char>, Seq<char>)| m.0)
    } else {
        finished(args, ctx, policy, components, warnings + more, after, action)
    }
}

/// The components after the digests were carried in.
pub open spec fn carried(
    before: Seq<PlanComponent>,
    found: Seq<FoundMeta>,
    after: Seq<PlanComponent>,
) -> bool {
    &&& after.len() == before.len()
    &&& forall|i: int|
        0 <= i < after.len() ==> enable::carries_digest(#[trigger] before[i], found, after[i])
}

/// One step of a run.
pub open spec fn stepped(
    args: EnableArgs,
    ctx: CliContext,
    before: EnableState,
    event: EnableEvent,
    after: EnableState,
    action: EnableAction,
) -> bool {
    match (before, event) {
        (EnableState::Policy, EnableEvent::Policy(Ok(policy))) => {
            &&& after == (EnableState::Index { policy })
            &&& action is LoadIndex
        },
        (EnableState::Policy, EnableEvent::Policy(Err(e))) => {
            &&& after is Done
            &&& action matches EnableAction::Fail(err) && err.is_runtime(
                enable::enable_command(args),
                "failed to load execution policy: "@ + e@,
            )
        },
        (EnableState::Index { policy }, EnableEvent::Index(Ok(source))) => {
            &&& after == (EnableState::Plan { policy, source })
            &&& action is MakePlan
        },
        (EnableState::Index { policy }, EnableEvent::Index(Err(e))) => {
            &&& after is Done
            &&& action == EnableAction::Fail(e)
        },
        (EnableState::Plan { policy, source }, EnableEvent::Plan(Ok(components))) => planned(
            args,
            ctx,
            policy,
            source,
            components@,
            after,
            action,
        ),
        (EnableState::Plan { .. }, EnableEvent::Plan(Err(e))) => plan_failed(e, after, action),
        (
            EnableState::Meta { policy, warnings, components, queries, replies },
            EnableEvent::Meta(reply),
        ) => {
            let all = replies@.push(reply);
            if all.len() < queries@.len() {
                &&& after matches EnableState::Meta {
                    policy: p,
                    warnings: w,
                    components: c,
                    queries: q,
                    replies: r,
                } && p == policy && w == warnings && c == components && q == queries && r@ == all
                &&& action matches EnableAction::FetchMeta(q) && enable::query_view(q)
                    == enable::query_view(queries@[all.len() as int])
            } else {
                all_replied(
                    args,
                    ctx,
                    policy,
                    text::texts(warnings@),
                    components@,
                    queries@,
                    all,
                    after,
                    action,
                )
            }
        },
        (EnableState::Replan { policy, warnings, found }, EnableEvent::Plan(Ok(components))) => {
            exists|with_digests: Seq<PlanComponent>|
                #[trigger] carried(components@, found@, with_digests) && finished(
                    args,
                    ctx,
                    policy,
                    with_digests,
                    text::texts(warnings@),
                    after,
                    action,
                )
        },
        (EnableState::Replan { .. }, EnableEvent::Plan(Err(e))) => plan_failed(e, after, action),
        _ => false,
    }
}

/// A run of `enable`.
pub struct EnableRun {
    args: EnableArgs,
    ctx: CliContext,
    state: EnableState,
}

fn finish(
    args: &EnableArgs,
    ctx: &CliContext,
    policy: &ExecutionPolicy,
    components: Vec<PlanComponent>,
    warnings: Vec<String>,
) -> (r: EnableAction)
    requires
        enable::args_fine(*args),
    ensures
        finished(
            *args,
            *ctx,
            *policy,
            components@,
            text::texts(warnings@),
            EnableState::Done,
            r,
        ),
        r is Proceed ==> r->components == components && r->warnings == warnings,
{
    match decide(args, ctx, policy) {
        Ok(decision) => EnableAction::Proceed { decision, components, warnings },
        Err(e) => EnableAction::Fail(e),
    }
}

fn query_at(queries: &Vec<MetaQuery>, i: usize) -> (r: MetaQuery)
    requires
        i < queries@.len(),
    ensures
        enable::query_view(r) == enable::query_view(queries@[i as int]),
{
    let q = &queries[i];
    MetaQuery { name: q.name.clone(), version: q.version.clone(), url: q.url.clone() }
}

fn names_of(found: &Vec<FoundMeta>) -> (r: Vec<String>)
    ensures
        text::texts(r@) == enable::found_view(found@).map_values(
            |m: (Seq<char>, Seq<char>)| m.0,
        ),
        r@.len() == found@.len(),
        forall|k: int| 0 <= k < r@.len() ==> (#[trigger] r@[k])@ == found@[k].name@,
{
    let ghost names = enable::found_view(found@).map_values(|m: (Seq<char>, Seq<char>)| m.0);
    let mut r: Vec<String> = Vec::new();
    let mut i: usize = 0;
    assert(text::texts(r@) =~= names.take(0));
    while i < found.len()
        invariant
            i <= found@.len(),
            names == enable::found_view(found@).map_values(|m: (Seq<char>, Seq<char>)| m.0),
            text::texts(r@) == names.take(i as int),
        decreases found@.len() - i,
    {
        let ghost before = text::texts(r@);
        r.push(found[i].name.clone());
        proof {
            assert(text::texts(r@) =~= before.push(names[i as int]));
            assert(names.take(i + 1) =~= names.take(i as int).push(names[i as int]));
        }
        i = i + 1;
    }
    assert(names.take(i as int) =~= names);
    proof {
        assert(text::texts(r@).len() == r@.len());
        assert forall|k: int| 0 <= k < r@.len() implies (#[trigger] r@[k])@ == found@[k].name@ by {
            assert(text::texts(r@)[k] == names[k]);
        }
    }
    r
}

impl EnableRun {
    pub closed spec fn args(&self) -> EnableArgs {
        self.args
    }

    pub closed spec fn ctx(&self) -> CliContext {
        self.ctx
    }

    pub closed spec fn state(&self) -> EnableState {
        self.state
    }

    /// The run goes on only where the arguments are fine.
    pub closed spec fn wf(&self) -> bool {
        &&& self.state.wf()
        &&& !(self.state is Done) ==> enable::args_fine(self.args)
    }

    /// Begins a run. What is wrong with the arguments ends it at once.
    pub fn start(args: EnableArgs, ctx: CliContext) -> (r: (Self, EnableAction))
        ensures
            r.0.wf(),
            r.0.args() == args,
            r.0.ctx() == ctx,
            if enable::args_fine(args) {
                r.0.state() is Policy && r.1 is LoadPolicy
            } else {
                &&& r.0.state() is Done
                &&& r.1 matches EnableAction::Fail(e) && enable::args_refused(args, e)
            },
            r.1 is LoadPolicy <==> args.capabilities@.len() == 1 && !args.from_source
                && args.with_adapter is None && args.feature is None,
            r.1 is LoadPolicy || r.1 is Fail,
    {
        match check_args(&args) {
            Ok(_) => (
                EnableRun { args, ctx, state: EnableState::Policy },
                EnableAction::LoadPolicy,
            ),
            Err(e) => (EnableRun { args, ctx, state: EnableState::Done }, EnableAction::Fail(e)),
        }
    }

    /// Goes on with what came of the last action.
    pub fn advance(&mut self, event: EnableEvent) -> (r: EnableAction)
        requires
            old(self).wf(),
            old(self).state().expects(event),
        ensures
            final(self).wf(),
            final(self).args() == old(self).args(),
            final(self).ctx() == old(self).ctx(),
            stepped(
                old(self).args(),
                old(self).ctx(),
                old(self).state(),
                event,
                final(self).state(),
                r,
            ),
            r is LoadIndex <==> event is Policy && event->Policy_0 is Ok,
            r is MakePlan <==> event is Index && event->Index_0 is Ok,
            !(r is LoadPolicy),
            r is Proceed || r is Fail <==> final(self).state() is Done,
            event is Policy && event->Policy_0 is Err ==> r is Fail,
            event is Index && event->Index_0 is Err ==> r is Fail,
            event is Plan && event->Plan_0 is Err ==> r is Fail,
            old(self).state() matches EnableState::Plan { policy, source } ==> {
                let components = event->Plan_0->Ok_0;
                &&& r is FetchMeta <==> {
                    &&& event->Plan_0 is Ok
                    &&& source.has_registry && !source.degraded_to_local
                    &&& exists|i: int|
                        0 <= i < components@.len() && (#[trigger] components@[i]).artifact is Some
                }
                &&& !(r is MakePlanAnew)
                &&& r is Proceed ==> r->components@ == components@ && text::texts(r->warnings@)
                    == text::texts(source.warnings@)
            },
            old(self).state() matches EnableState::Meta {
                policy,
                warnings,
                components,
                queries,
                replies,
            } ==> {
                let all = replies@.push(event->Meta_0);
                &&& r is FetchMeta <==> replies@.len() + 1 < queries@.len()
                &&& r is FetchMeta ==> {
                    &&& r->FetchMeta_0.name@ == queries@[replies@.len() as int + 1].name@
                    &&& r->FetchMeta_0.version@ == queries@[replies@.len() as int + 1].version@
                    &&& r->FetchMeta_0.url@ == queries@[replies@.len() as int + 1].url@
                }
                &&& r is MakePlanAnew <==> replies@.len() + 1 >= queries@.len() && exists|i: int|
                    0 <= i < all.len() && (#[trigger] all[i]) is Found
                &&& r is MakePlanAnew ==> (final(self).state() matches EnableState::Replan {
                    policy: kept,
                    warnings: told,
                    found,
                } && {
                    &&& kept == policy
                    &&& told@.len() + found@.len() == warnings@.len() + queries@.len()
                    &&& forall|i: int|
                        0 <= i < warnings@.len() ==> (#[trigger] told@[i])@ == warnings@[i]@
                    &&& forall|k: int|
                        0 <= k < found@.len() ==> #[trigger] enable::was_replied(
                            queries@,
                            all,
                            found@[k],
                        )
                    &&& r->MakePlanAnew_0@.len() == found@.len()
                    &&& forall|k: int|
                        0 <= k < found@.len() ==> (#[trigger] r->MakePlanAnew_0@[k])@
                            == found@[k].name@
                })
                &&& r is Proceed ==> {
                    &&& r->components@ == components@
                    &&& r->warnings@.len() == warnings@.len() + queries@.len()
                    &&& forall|i: int|
                        0 <= i < warnings@.len() ==> (#[trigger] r->warnings@[i])@ == warnings@[i]@
                }
            },
            old(self).state() matches EnableState::Replan { policy, warnings, found } ==> {
                let components = event->Plan_0->Ok_0;
                r is Proceed ==> {
                    &&& event->Plan_0 is Ok
                    &&& text::texts(r->warnings@) == text::texts(warnings@)
                    &&& r->components@.len() == components@.len()
                    &&& forall|i: int|
                        0 <= i < components@.len() ==> (#[trigger] r->components@[i]).name
                            == components@[i].name
                    &&& forall|i: int, k: int|
                        #![trigger r->components@[i], found@[k]]
                        0 <= i < components@.len() && components@[i].artifact is Some && 0 <= k
                            < found@.len() && found@[k].name@ == components@[i].name@ && (forall|
                            j: int,
                        |
                            0 <= j < k ==> (#[trigger] found@[j]).name@ != components@[i].name@)
                            ==> {
                            &&& r->components@[i].artifact is Some
                            &&& r->components@[i].artifact->Some_0.meta_sha256 is Some
                            &&& r->components@[i].artifact->Some_0.meta_sha256->Some_0@
                                == found@[k].sha256@
                        }
                }
            },
    {
        let mut state = EnableState::Done;
        std::mem::swap(&mut state, &mut self.state);
        match (state, event) {
            (EnableState::Policy, EnableEvent::Policy(Ok(policy))) => {
                self.state = EnableState::Index { policy };
                EnableAction::LoadIndex
            },
            (EnableState::Policy, EnableEvent::Policy(Err(e))) => {
                let command = command_line(&self.args);
                EnableAction::Fail(policy_load_err(command.as_str(), e.as_str()))
            },
            (EnableState::Index { policy }, EnableEvent::Index(Ok(source))) => {
                self.state = EnableState::Plan { policy, source };
                EnableAction::MakePlan
            },
            (EnableState::Index { .. }, EnableEvent::Index(Err(e))) => EnableAction::Fail(e),
            (EnableState::Plan { policy, source }, EnableEvent::Plan(Ok(components))) => {
                proof {
                    enable::artifacts_are_asked_about(components@);
                }
                if fetches_meta(source.has_registry, source.degraded_to_local) {
                    let queries = meta_queries(&components);
                    let ghost views = queries@.map_values(|q: MetaQuery| enable::query_view(q));
                    assert(views.len() == queries@.len());
                    if queries.len() > 0 {
                        let first = query_at(&queries, 0);
                        assert(enable::query_view(first) == views[0]);
                        self.state = EnableState::Meta {
                            policy,
                            warnings: source.warnings,
                            components,
                            queries,
                            replies: Vec::new(),
                        };
                        return EnableAction::FetchMeta(first);
                    }
                }
                finish(&self.args, &self.ctx, &policy, components, source.warnings)
            },
            (EnableState::Plan { .. }, EnableEvent::Plan(Err(e))) => {
                EnableAction::Fail(map_plan_err(&e))
            },
            (
                EnableState::Meta { policy, warnings, components, queries, replies },
                EnableEvent::Meta(reply),
            ) => {
                let mut replies = replies;
                replies.push(reply);
                if replies.len() < queries.len() {
                    let next = query_at(&queries, replies.len());
                    self.state = EnableState::Meta {
                        policy,
                        warnings,
                        components,
                        queries,
                        replies,
                    };
                    return EnableAction::FetchMeta(next);
                }
                let ghost before = text::texts(warnings@);
                let (found, more) = sort_replies(&queries, &replies);
                let mut warnings = warnings;
                let mut more = more;
                let ghost told = text::texts(more@);
                let ghost own = warnings@;
                let ghost added = more@;
                warnings.append(&mut more);
                proof {
                    assert(text::texts(own + added) =~= before + told);
                    if found@.len() > 0 {
                        let first = found@[0];
                        assert(enable::was_replied(queries@, replies@, found@[0]));
                        let i = choose|i: int| #[trigger]
                            enable::answers(queries@, replies@, i, first);
                        assert(replies@[i] is Found);
                    }
                    if exists|i: int| 0 <= i < replies@.len() && (#[trigger] replies@[i]) is Found {
                        let i = choose|i: int|
                            0 <= i < replies@.len() && (#[trigger] replies@[i]) is Found;
                        assert(found@.len() > 0);
                    }
                }
                if found.len() > 0 {
                    let names = names_of(&found);
                    assert(enable::found_view(found@).len() == found@.len());
                    self.state = EnableState::Replan { policy, warnings, found };
                    EnableAction::MakePlanAnew(names)
                } else {
                    assert(enable::found_view(found@).len() == found@.len());
                    finish(&self.args, &self.ctx, &policy, components, warnings)
                }
            },
            (
                EnableState::Replan { policy, warnings, found },
                EnableEvent::Plan(Ok(components)),
            ) => {
                let ghost planned = components@;
                let with_digests = carry_digests(components, &found);
                assert(carried(planned, found@, with_digests@));
                finish(&self.args, &self.ctx, &policy, with_digests, warnings)
            },
            (EnableState::Replan { .. }, EnableEvent::Plan(Err(e))) => {
                EnableAction::Fail(map_plan_err(&e))
            },
            (_, _) => EnableAction::LoadPolicy,
        }
    }
}

/// A run only ever carries something out where its policy allows it and no dry
/// run was asked for, and only as its last step.
pub proof fn run_executes_only_what_is_allowed(
    args: EnableArgs,
    ctx: CliContext,
    before: EnableState,
    event: EnableEvent,
    after: EnableState,
    action: EnableAction,
)
    requires
        stepped(args, ctx, before, event, after, action),
        enable::args_fine(args),
        action matches EnableAction::Proceed { decision, .. } && decision.step
            == enable::EnableStep::Execute,
    ensures
        after is Done,
        !ctx.dry_run,
        before matches EnableState::Plan { policy, .. }
            ==> super::execution_policy::allowed(policy.capabilities@, args.capabilities@[0]@),
        before matches EnableState::Meta { policy, .. }
            ==> super::execution_policy::allowed(policy.capabilities@, args.capabilities@[0]@),
        before matches EnableState::Replan { policy, .. }
            ==> super::execution_policy::allowed(policy.capabilities@, args.capabilities@[0]@),
{
}

/// The registry is only asked where the index came from it.
pub proof fn meta_is_asked_of_a_reached_registry(
    args: EnableArgs,
    ctx: CliContext,
    policy: ExecutionPolicy,
    source: IndexSource,
    event: EnableEvent,
    after: EnableState,
    action: EnableAction,
)
    requires
        stepped(args, ctx, EnableState::Plan { policy, source }, event, after, action),
        action is FetchMeta,
    ensures
        source.has_registry && !source.degraded_to_local,
{
}

} // verus!
