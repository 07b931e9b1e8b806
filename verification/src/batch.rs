//! Running a planned reconciliation over a batch of submodules: which native action each
//! plan asks for, how a finished module is recorded, and the summary or the incomplete
//! batch that the run ends with.
use vstd::prelude::*;

use crate::config::texts;
use crate::errors::SubmoduleError;
use crate::plan::{
    is_skip_kind, join, join_texts, ModuleOutcomeKind, OperationSummary, ReconcilePlan,
    ReconcileScope,
};
use crate::text::{debug_str, debug_text, owned};

verus! {

/// The native work that one plan asks for.
#[derive(Debug, Clone, Copy, PartialEq, Eq, Structural)]
pub enum ReconcileAction {
    /// Nothing: the plan found the module already matching.
    Nothing,
    /// Initialize the module.
    Init,
    /// Update the module, from its remote when `remote` holds.
    Update { remote: bool },
    /// Initialize the module, then update it (from its remote when `remote` holds).
    InitThenUpdate { remote: bool },
}

/// The action for plan `p` in a reconciliation of `scope`: nothing for an unchanged
/// module when neither the remote nor recursion was requested; else initialization for
/// `init`; for `update`, initialization (then a remote update when `remote`) of a module
/// whose registration changes, else an update; for `sync`, initialization then a local
/// update.
pub open spec fn action_for(scope: ReconcileScope, remote: bool, p: ReconcilePlan) -> ReconcileAction {
    if p.kind == ModuleOutcomeKind::Unchanged && !p.remote_requested && !p.recursive_requested {
        ReconcileAction::Nothing
    } else {
        match scope {
            ReconcileScope::Init => ReconcileAction::Init,
            ReconcileScope::Update => if p.registration_changed {
                if remote {
                    ReconcileAction::InitThenUpdate { remote: true }
                } else {
                    ReconcileAction::Init
                }
            } else {
                ReconcileAction::Update { remote }
            },
            ReconcileScope::Sync => ReconcileAction::InitThenUpdate { remote: false },
        }
    }
}

/// The action for plan `p` (see [`action_for`]).
pub fn reconcile_action(scope: ReconcileScope, remote: bool, p: &ReconcilePlan) -> (r: ReconcileAction)
    ensures
        r == action_for(scope, remote, *p),
{
    if matches!(p.kind, ModuleOutcomeKind::Unchanged) && !p.remote_requested
        && !p.recursive_requested {
        ReconcileAction::Nothing
    } else {
        match scope {
            ReconcileScope::Init => ReconcileAction::Init,
            ReconcileScope::Update => if p.registration_changed {
                if remote {
                    ReconcileAction::InitThenUpdate { remote: true }
                } else {
                    ReconcileAction::Init
                }
            } else {
                ReconcileAction::Update { remote }
            },
            ReconcileScope::Sync => ReconcileAction::InitThenUpdate { remote: false },
        }
    }
}

/// What to check of one module before a reconciliation changes anything.
#[derive(Debug, Clone, Copy, PartialEq, Eq, Structural)]
pub enum PreflightCheck {
    /// Its registration is complete (or it is skipped): check its settings can be synced.
    Settings,
    /// It is registered without a gitlink: check the registration can be completed.
    CompleteRegistration,
    /// It has a gitlink without a registration: check the registration can be restored.
    RestoreRegistration,
    /// Neither registered nor pinned: check it can be added.
    Add,
    /// Skipped and neither registered nor pinned: nothing to check.
    Nothing,
}

/// The preflight check for a module (registered in `.gitmodules`, pinned by a gitlink,
/// skipped as inactive or not updated) in a reconciliation of `scope`, or `None` when an
/// update finds a module neither registered nor pinned that is not skipped (it must be
/// initialized or synced first).
pub open spec fn preflight_check_for(registered: bool, pinned: bool, skipped: bool, scope: ReconcileScope) -> Option<
    PreflightCheck,
> {
    if registered {
        if pinned || skipped {
            Some(PreflightCheck::Settings)
        } else {
            Some(PreflightCheck::CompleteRegistration)
        }
    } else if pinned {
        Some(PreflightCheck::RestoreRegistration)
    } else if skipped {
        Some(PreflightCheck::Nothing)
    } else if scope == ReconcileScope::Update {
        None
    } else {
        Some(PreflightCheck::Add)
    }
}

/// The preflight check for a module (see [`preflight_check_for`]).
pub fn preflight_check(registered: bool, pinned: bool, skipped: bool, scope: ReconcileScope) -> (r: Option<
    PreflightCheck,
>)
    ensures
        r == preflight_check_for(registered, pinned, skipped, scope),
{
    if registered {
        if pinned || skipped {
            Some(PreflightCheck::Settings)
        } else {
            Some(PreflightCheck::CompleteRegistration)
        }
    } else if pinned {
        Some(PreflightCheck::RestoreRegistration)
    } else if skipped {
        Some(PreflightCheck::Nothing)
    } else if matches!(scope, ReconcileScope::Update) {
        None
    } else {
        Some(PreflightCheck::Add)
    }
}

/// The name of a scope as reports spell it.
pub open spec fn scope_word(s: ReconcileScope) -> Seq<char> {
    match s {
        ReconcileScope::Init => "Init"@,
        ReconcileScope::Update => "Update"@,
        ReconcileScope::Sync => "Sync"@,
    }
}

fn scope_str(s: ReconcileScope) -> (r: &'static str)
    ensures
        r@ == scope_word(s),
{
    match s {
        ReconcileScope::Init => "Init",
        ReconcileScope::Update => "Update",
        ReconcileScope::Sync => "Sync",
    }
}

/// The name of the operation a reconciliation of `scope` reports, when it completed or
/// when it stopped incomplete.
pub open spec fn operation_text(scope: ReconcileScope, incomplete: bool) -> Seq<char> {
    match scope {
        ReconcileScope::Init => if incomplete {
            "Initialization incomplete"@
        } else {
            "Initialization"@
        },
        ReconcileScope::Update => if incomplete {
            "Update incomplete"@
        } else {
            "Update"@
        },
        ReconcileScope::Sync => if incomplete {
            "Sync incomplete"@
        } else {
            "Sync"@
        },
    }
}

/// The name of the operation a reconciliation of `scope` reports (see
/// [`operation_text`]).
pub fn operation_name(scope: ReconcileScope, incomplete: bool) -> (r: &'static str)
    ensures
        r@ == operation_text(scope, incomplete),
{
    match scope {
        ReconcileScope::Init => if incomplete {
            "Initialization incomplete"
        } else {
            "Initialization"
        },
        ReconcileScope::Update => if incomplete {
            "Update incomplete"
        } else {
            "Update"
        },
        ReconcileScope::Sync => if incomplete {
            "Sync incomplete"
        } else {
            "Sync"
        },
    }
}

/// The report of the module whose native work failed with `error`.
pub open spec fn failed_detail(scope: ReconcileScope, planned: Seq<char>, error: Seq<char>) -> Seq<
    char,
> {
    scope_word(scope) + " failed while attempting "@ + planned + ": "@ + error
        + "; repair the reported cause and retry"@
}

/// The report of a module left unattempted after an earlier failure.
pub open spec fn pending_detail(planned: Seq<char>) -> Seq<char> {
    "not attempted; planned action: "@ + planned
}

/// The cause of a batch that stopped at module `name` (at `path`) with `error`.
pub open spec fn failure_cause(
    scope: ReconcileScope,
    name: Seq<char>,
    path: Seq<char>,
    error: Seq<char>,
) -> Seq<char> {
    "module "@ + debug_text(name) + " failed during "@ + scope_word(scope) + " at "@ + debug_text(
        path,
    ) + ": "@ + error
}

/// What is added to the report of a policy-skipped module whose checkout has changes.
pub open spec fn unresolved_note() -> Seq<char> {
    "; checkout changes were preserved and remain unresolved by this policy"@
}

/// The cause of a batch that completed with changes left in policy-skipped modules.
pub open spec fn unresolved_cause(names: Seq<Seq<char>>) -> Seq<char> {
    "local changes remain in policy-skipped module(s) "@ + join(names, ", "@)
        + "; preserve or resolve them explicitly"@
}

/// `q` is `p` with only its outcome kind and report replaced.
pub open spec fn relabeled(p: ReconcilePlan, q: ReconcilePlan, kind: ModuleOutcomeKind, detail: Seq<
    char,
>) -> bool {
    q == (ReconcilePlan { kind: q.kind, detail: q.detail, ..p }) && q.kind == kind && q.detail@
        == detail
}

fn append(a: &mut String, b: &str)
    ensures
        final(a)@ == old(a)@ + b@,
{
    a.append(b);
}

/// A reconciliation under way: the plans in order, the outcomes of the modules done so
/// far, and the policy-skipped modules whose checkouts were left with changes.
#[derive(Debug)]
pub struct BatchRun {
    scope: ReconcileScope,
    remote: bool,
    plans: Vec<ReconcilePlan>,
    outcomes: Vec<ReconcilePlan>,
    unresolved: Vec<String>,
}

impl BatchRun {
    /// The scope being reconciled.
    pub closed spec fn scope_of(self) -> ReconcileScope {
        self.scope
    }

    /// Whether the remote was requested.
    pub closed spec fn remote_of(self) -> bool {
        self.remote
    }

    /// The plans, in order.
    pub closed spec fn plans_of(self) -> Seq<ReconcilePlan> {
        self.plans@
    }

    /// The outcomes of the modules done so far, in order.
    pub closed spec fn outcomes_of(self) -> Seq<ReconcilePlan> {
        self.outcomes@
    }

    /// The names of the policy-skipped modules left with changes, in order.
    pub closed spec fn unresolved_of(self) -> Seq<Seq<char>> {
        texts(self.unresolved@)
    }

    /// Whether every plan has an outcome.
    pub open spec fn is_done(self) -> bool {
        self.outcomes_of().len() >= self.plans_of().len()
    }

    /// The plan of the next module.
    pub open spec fn next_plan(self) -> ReconcilePlan {
        self.plans_of()[self.outcomes_of().len() as int]
    }

    /// A run over `plans`, with nothing done yet.
    pub fn start(scope: ReconcileScope, remote: bool, plans: Vec<ReconcilePlan>) -> (r: Self)
        ensures
            r.scope_of() == scope,
            r.remote_of() == remote,
            r.plans_of() == plans@,
            r.outcomes_of() == Seq::<ReconcilePlan>::empty(),
            r.unresolved_of() == Seq::<Seq<char>>::empty(),
    {
        let r = BatchRun { scope, remote, plans, outcomes: Vec::new(), unresolved: Vec::new() };
        proof {
            assert(texts(r.unresolved@) =~= Seq::<Seq<char>>::empty());
        }
        r
    }

    /// The next module's plan and the action it asks for, or `None` when every plan has
    /// an outcome.
    pub fn current(&self) -> (r: Option<(&ReconcilePlan, ReconcileAction)>)
        ensures
            r is None <==> self.is_done(),
            r matches Some((p, a)) ==> *p == self.next_plan() && a == action_for(
                self.scope_of(),
                self.remote_of(),
                *p,
            ),
    {
        let i = self.outcomes.len();
        if i >= self.plans.len() {
            None
        } else {
            let p = &self.plans[i];
            Some((p, reconcile_action(self.scope, self.remote, p)))
        }
    }

    /// Record the outcome of the next module. A policy-skipped outcome whose checkout was
    /// left with changes (`dirty`) gets the unresolved note added to its report, and the
    /// module's name is remembered.
    pub fn record_success(&mut self, outcome: ReconcilePlan, dirty: bool)
        requires
            !old(self).is_done(),
        ensures
            final(self).scope_of() == old(self).scope_of(),
            final(self).remote_of() == old(self).remote_of(),
            final(self).plans_of() == old(self).plans_of(),
            final(self).outcomes_of().len() == old(self).outcomes_of().len() + 1,
            final(self).outcomes_of().drop_last() == old(self).outcomes_of(),
            is_skip_kind(outcome.kind) && dirty ==> relabeled(
                outcome,
                final(self).outcomes_of().last(),
                outcome.kind,
                outcome.detail@ + unresolved_note(),
            ) && final(self).unresolved_of() == old(self).unresolved_of().push(
                old(self).next_plan().name@,
            ),
            !(is_skip_kind(outcome.kind) && dirty) ==> final(self).outcomes_of().last() == outcome
                && final(self).unresolved_of() == old(self).unresolved_of(),
    {
        let i = self.outcomes.len();
        let name = owned(self.plans[i].name.as_str());
        let ghost before = self.unresolved@;
        if outcome.is_skipped() && dirty {
            let mut marked = outcome;
            append(
                &mut marked.detail,
                "; checkout changes were preserved and remain unresolved by this policy",
            );
            self.outcomes.push(marked);
            self.unresolved.push(name);
            proof {
                assert(texts(self.unresolved@) =~= texts(before).push(name@));
            }
        } else {
            self.outcomes.push(outcome);
        }
        proof {
            assert(self.outcomes@.drop_last() =~= old(self).outcomes@);
        }
    }

    /// The error that ends the run when the next module's native work failed with the
    /// message `error`: an incomplete batch with the outcomes so far, the failed module,
    /// and every later module as pending.
    pub fn record_failure(self, error: &str) -> (r: SubmoduleError)
        requires
            !self.is_done(),
        ensures
            r matches SubmoduleError::IncompleteBatch { summary, cause } && ({
                let i = self.outcomes_of().len() as int;
                let n = self.plans_of().len() as int;
                let ms = summary.module_seq();
                let p = self.plans_of()[i];
                &&& summary.operation_name() == operation_text(self.scope_of(), true)
                &&& !summary.is_preview()
                &&& ms.len() == n
                &&& ms.subrange(0, i) == self.outcomes_of()
                &&& relabeled(
                    p,
                    ms[i],
                    ModuleOutcomeKind::Failed,
                    failed_detail(self.scope_of(), p.detail@, error@),
                )
                &&& forall|k: int|
                    i < k < n ==> relabeled(
                        self.plans_of()[k],
                        #[trigger] ms[k],
                        ModuleOutcomeKind::Pending,
                        pending_detail(self.plans_of()[k].detail@),
                    )
                &&& cause@ == failure_cause(self.scope_of(), p.name@, p.path@, error@)
            }),
    {
        let BatchRun { scope, remote: _, plans, outcomes, unresolved: _ } = self;
        let i = outcomes.len();
        let ghost all = plans@;
        let mut rest = plans;
        assert(i < rest.len());
        let mut later = rest.split_off(i + 1);
        let failed_plan = rest.pop().unwrap();
        proof {
            assert(failed_plan == all[i as int]);
            assert(later@ == all.subrange(i + 1, all.len() as int));
        }
        let mut cause = owned("module ");
        let dn = debug_str(failed_plan.name.as_str());
        append(&mut cause, dn.as_str());
        append(&mut cause, " failed during ");
        append(&mut cause, scope_str(scope));
        append(&mut cause, " at ");
        let dp = debug_str(failed_plan.path.as_str());
        append(&mut cause, dp.as_str());
        append(&mut cause, ": ");
        append(&mut cause, error);
        let mut detail = owned(scope_str(scope));
        append(&mut detail, " failed while attempting ");
        append(&mut detail, failed_plan.detail.as_str());
        append(&mut detail, ": ");
        append(&mut detail, error);
        append(&mut detail, "; repair the reported cause and retry");
        let failed = ReconcilePlan { kind: ModuleOutcomeKind::Failed, detail, ..failed_plan };
        let mut modules = outcomes;
        modules.push(failed);
        let ghost base = modules@;
        let ghost tail = later@;
        let mut j: usize = 0;
        while later.len() > 0
            invariant
                j + later@.len() == tail.len(),
                tail.len() <= usize::MAX,
                later@ == tail.subrange(j as int, tail.len() as int),
                modules@.len() == base.len() + j,
                modules@.subrange(0, base.len() as int) == base,
                forall|k: int|
                    0 <= k < j ==> relabeled(
                        tail[k],
                        #[trigger] modules@[base.len() + k],
                        ModuleOutcomeKind::Pending,
                        pending_detail(tail[k].detail@),
                    ),
            decreases later@.len(),
        {
            let p = later.remove(0);
            let mut d = owned("not attempted; planned action: ");
            append(&mut d, p.detail.as_str());
            let q = ReconcilePlan { kind: ModuleOutcomeKind::Pending, detail: d, ..p };
            let ghost prev = modules@;
            modules.push(q);
            proof {
                assert(p == tail[j as int]);
                assert(modules@.subrange(0, base.len() as int) =~= prev.subrange(
                    0,
                    base.len() as int,
                ));
                assert forall|k: int| 0 <= k < j + 1 implies relabeled(
                    tail[k],
                    #[trigger] modules@[base.len() + k],
                    ModuleOutcomeKind::Pending,
                    pending_detail(tail[k].detail@),
                ) by {
                    if k < j {
                        assert(modules@[base.len() + k] == prev[base.len() + k]);
                    }
                }
                assert(later@ =~= tail.subrange(j + 1, tail.len() as int));
            }
            j = j + 1;
        }
        proof {
            let n = all.len() as int;
            assert(modules@.subrange(0, i as int) =~= base.subrange(0, i as int));
            assert forall|k: int| i < k < n implies relabeled(
                all[k],
                #[trigger] modules@[k],
                ModuleOutcomeKind::Pending,
                pending_detail(all[k].detail@),
            ) by {
                assert(tail[k - i - 1] == all[k]);
                assert(modules@[base.len() + (k - i - 1)] == modules@[k]);
            }
            assert(modules@[i as int] == base[i as int]);
        }
        let summary = OperationSummary::new(operation_name(scope, true), false, modules);
        SubmoduleError::IncompleteBatch { summary, cause }
    }

    /// The end of a run where every plan has an outcome: the summary, unless
    /// policy-skipped modules were left with changes, which makes it an incomplete
    /// batch naming them.
    pub fn finish(self) -> (r: Result<OperationSummary, SubmoduleError>)
        requires
            self.is_done(),
        ensures
            self.unresolved_of().len() == 0 <==> r is Ok,
            r matches Ok(s) ==> s.operation_name() == operation_text(self.scope_of(), false)
                && !s.is_preview() && s.module_seq() == self.outcomes_of(),
            r matches Err(e) ==> e matches SubmoduleError::IncompleteBatch { summary, cause }
                && summary.operation_name() == operation_text(self.scope_of(), true)
                && !summary.is_preview() && summary.module_seq() == self.outcomes_of() && cause@
                == unresolved_cause(self.unresolved_of()),
    {
        let BatchRun { scope, remote: _, plans: _, outcomes, unresolved } = self;
        if unresolved.len() == 0 {
            Ok(OperationSummary::new(operation_name(scope, false), false, outcomes))
        } else {
            let mut cause = owned("local changes remain in policy-skipped module(s) ");
            let names = join_texts(&unresolved, ", ");
            append(&mut cause, names.as_str());
            append(&mut cause, "; preserve or resolve them explicitly");
            let summary = OperationSummary::new(operation_name(scope, true), false, outcomes);
            Err(SubmoduleError::IncompleteBatch { summary, cause })
        }
    }
}

/// The native action for a plan: a plan with nothing to do (unchanged, with no remote
/// target or recursion asked for) runs nothing; otherwise `init` initializes, `sync`
/// initializes then updates, and `update` initializes first exactly when the plan changes
/// the registration (then updating only when the remote target is asked for), and
/// otherwise updates.
pub proof fn lemma_action_follows_plan(scope: ReconcileScope, remote: bool, p: ReconcilePlan)
    ensures
        ({
            let idle = p.kind == ModuleOutcomeKind::Unchanged && !p.remote_requested && !p.recursive_requested;
            let a = action_for(scope, remote, p);
            &&& idle ==> a == ReconcileAction::Nothing
            &&& !idle && scope == ReconcileScope::Init ==> a == ReconcileAction::Init
            &&& !idle && scope == ReconcileScope::Sync ==> a == (ReconcileAction::InitThenUpdate { remote: false })
            &&& !idle && scope == ReconcileScope::Update && p.registration_changed && !remote ==> a == ReconcileAction::Init
            &&& !idle && scope == ReconcileScope::Update && p.registration_changed && remote ==> a == (ReconcileAction::InitThenUpdate { remote: true })
            &&& !idle && scope == ReconcileScope::Update && !p.registration_changed ==> a == (ReconcileAction::Update { remote })
        }),
{
}

} // verus!
