//! Planning one submodule's reconciliation from its resolved settings and what was
//! observed of its checkout, and reporting the outcome of a batch.
use vstd::prelude::*;

use crate::config::{opt_text, or_value, SubmoduleEntry, EntryView};
use crate::options::{branch_text, BranchView, SerializableUpdate};
use crate::sparse::SparseStatus;
use crate::text::{debug_str, debug_text, owned};
use crate::errors::SubmoduleError;

verus! {

/// Which lifecycle command a reconciliation serves.
#[derive(Clone, Copy, Debug, PartialEq, Eq, Structural)]
pub enum ReconcileScope {
    Init,
    Update,
    Sync,
}

/// How one submodule fared (or would fare) in a reconciliation.
#[derive(Clone, Copy, Debug, PartialEq, Eq, Structural)]
pub enum ModuleOutcomeKind {
    Changed,
    Unchanged,
    SkippedDisabled,
    SkippedPolicy,
    ChangedSkippedDisabled,
    ChangedSkippedPolicy,
    Failed,
    Pending,
}

/// The plan for, and then the outcome of, one submodule's reconciliation.
#[derive(Clone, Debug)]
pub struct ReconcilePlan {
    pub name: String,
    pub path: String,
    pub kind: ModuleOutcomeKind,
    pub detail: String,
    pub target: Option<String>,
    pub verbose_detail: Option<String>,
    pub registration_changed: bool,
    pub metadata_changed: bool,
    pub sparse_changed: bool,
    pub remote_requested: bool,
    pub recursive_requested: bool,
    pub initial_head: Option<String>,
    pub initial_recursive_state: Option<Vec<u8>>,
}

/// What was observed of a submodule before planning.
#[derive(Clone, Debug)]
pub struct ModuleFacts {
    /// Whether `.gitmodules` registers the path.
    pub registered: bool,
    /// The commit the superproject's index records for the path.
    pub parent_pin: Option<String>,
    /// Whether the checkout exists.
    pub initialized: bool,
    /// Whether the native metadata differs from the managed settings.
    pub metadata_changed: bool,
}

/// What is observed of an initialized, registered, eligible submodule to find the work
/// left to do.
#[derive(Clone, Debug)]
pub struct WorkFacts {
    /// Whether the checkout already satisfies the configured update strategy (only
    /// asked when the remote is not requested).
    pub update_matches: Option<bool>,
    /// The checkout's sparse state against the expected patterns.
    pub sparse: SparseStatus,
}

/// The model of the planned fields of a [`ReconcilePlan`].
pub struct PlanView {
    pub kind: ModuleOutcomeKind,
    pub detail: Seq<char>,
    pub target: Option<Seq<char>>,
    pub registration_changed: bool,
    pub metadata_changed: bool,
    pub sparse_changed: bool,
    pub remote_requested: bool,
    pub recursive_requested: bool,
}

/// The plan `r` that finishing `p` with work gives, after the checkout ended at
/// `final_head` with `target` selected and the nested submodules in
/// `final_recursive_state`.
pub open spec fn work_finished(
    p: ReconcilePlan,
    final_head: Seq<char>,
    target: Seq<char>,
    final_recursive_state: Option<Vec<u8>>,
    r: ReconcilePlan,
) -> bool {
    &&& ({
        let head_changed = opt_text(p.initial_head) != Some(final_head);
        let recursive_changed = p.recursive_requested && opt_bytes(p.initial_recursive_state)
            != opt_bytes(final_recursive_state);
        &&& r.kind == if p.registration_changed || p.metadata_changed || p.sparse_changed
            || head_changed || recursive_changed {
            ModuleOutcomeKind::Changed
        } else {
            ModuleOutcomeKind::Unchanged
        }
        &&& r.detail@ == join(finish_items(p, final_head, head_changed, recursive_changed), "; "@)
        &&& opt_text(r.target) == Some(target)
        &&& opt_text(r.verbose_detail) == match p.verbose_detail {
            Some(v) => Some(v@ + ", result_head="@ + final_head + ", selected_target="@ + target),
            None => None,
        }
    })
    &&& r.name == p.name
    &&& r.path == p.path
    &&& r.registration_changed == p.registration_changed
    &&& r.metadata_changed == p.metadata_changed
    &&& r.sparse_changed == p.sparse_changed
    &&& r.remote_requested == p.remote_requested
    &&& r.recursive_requested == p.recursive_requested
    &&& r.initial_head == p.initial_head
    &&& r.initial_recursive_state == p.initial_recursive_state
}

impl ReconcilePlan {
    /// The planned fields.
    pub open spec fn planned(&self) -> PlanView {
        PlanView {
            kind: self.kind,
            detail: self.detail@,
            target: opt_text(self.target),
            registration_changed: self.registration_changed,
            metadata_changed: self.metadata_changed,
            sparse_changed: self.sparse_changed,
            remote_requested: self.remote_requested,
            recursive_requested: self.recursive_requested,
        }
    }
}

/// Whether an entry's checkout is enabled.
pub open spec fn is_enabled(e: EntryView) -> bool {
    or_value(e.active, true)
}

/// Whether an entry's update policy is `none`.
pub open spec fn policy_none(e: EntryView) -> bool {
    e.update == Some(SerializableUpdate::Nothing)
}

/// Whether the selected remote target is requested.
pub open spec fn remote_requested_by(scope: ReconcileScope, remote: bool) -> bool {
    scope == ReconcileScope::Update && remote
}

/// Whether planning needs the work facts: the module is enabled, its policy is not
/// `none`, and it is registered, pinned and initialized.
pub open spec fn needs_work_facts(e: EntryView, registered: bool, pinned: bool, initialized: bool) -> bool {
    is_enabled(e) && !policy_none(e) && registered && pinned && initialized
}

/// "branch X", or "the remote default branch".
pub open spec fn branch_phrase(b: Option<BranchView>) -> Seq<char> {
    match b {
        Some(v) => "branch "@ + branch_text(v),
        None => "the remote default branch"@,
    }
}

/// "remote branch X", or "remote default branch".
pub open spec fn remote_branch_phrase(b: Option<BranchView>) -> Seq<char> {
    match b {
        Some(v) => "remote branch "@ + branch_text(v),
        None => "remote default branch"@,
    }
}

/// The parts joined with `sep` between them.
pub open spec fn join(parts: Seq<Seq<char>>, sep: Seq<char>) -> Seq<char>
    decreases parts.len(),
{
    if parts.len() == 0 {
        Seq::empty()
    } else if parts.len() == 1 {
        parts[0]
    } else {
        join(parts.drop_last(), sep) + sep + parts.last()
    }
}

/// A plan's fields.
pub open spec fn plan_view(
    kind: ModuleOutcomeKind,
    detail: Seq<char>,
    target: Option<Seq<char>>,
    registration_changed: bool,
    metadata_changed: bool,
    sparse_changed: bool,
    remote_requested: bool,
    recursive_requested: bool,
) -> PlanView {
    PlanView {
        kind,
        detail,
        target,
        registration_changed,
        metadata_changed,
        sparse_changed,
        remote_requested,
        recursive_requested,
    }
}

/// The plan for a module that needs no work facts.
pub open spec fn early_plan(
    e: EntryView,
    registered: bool,
    pin: Option<Seq<char>>,
    initialized: bool,
    mc: bool,
    rr: bool,
    recursive: bool,
) -> PlanView {
    if !is_enabled(e) {
        plan_view(
            if mc {
                ModuleOutcomeKind::ChangedSkippedDisabled
            } else {
                ModuleOutcomeKind::SkippedDisabled
            },
            if mc {
                "checkout disabled; reconcile managed metadata without materializing or moving HEAD"@
            } else {
                "checkout disabled; managed metadata already matches"@
            },
            pin,
            false,
            mc,
            false,
            false,
            false,
        )
    } else if policy_none(e) {
        plan_view(
            if mc {
                ModuleOutcomeKind::ChangedSkippedPolicy
            } else {
                ModuleOutcomeKind::SkippedPolicy
            },
            if mc {
                "update=none; reconcile managed metadata without fetching, materializing, or moving HEAD"@
            } else {
                "update=none; managed metadata already matches"@
            },
            pin,
            false,
            mc,
            false,
            false,
            false,
        )
    } else if !registered || pin is None {
        let b = branch_phrase(e.branch);
        let action = if registered {
            "complete registration, stage .gitmodules and its gitlink, then initialize from "@ + b
        } else if pin is Some {
            "restore the missing registration, stage .gitmodules, and materialize the recorded parent pin"@
        } else {
            "register and initialize from "@ + b + "; stage .gitmodules and the resulting gitlink"@
        };
        plan_view(
            ModuleOutcomeKind::Changed,
            if rr {
                action + "; then fetch and update from the selected "@ + b
                    + "; final remote target unresolved until execution"@
            } else {
                action
            },
            if rr {
                None
            } else {
                pin
            },
            true,
            mc,
            false,
            rr,
            recursive,
        )
    } else {
        let b = remote_branch_phrase(e.branch);
        plan_view(
            ModuleOutcomeKind::Changed,
            if rr {
                "materialize the recorded parent pin, then fetch and update from the selected "@ + b
                    + "; final remote target unresolved until execution"@
            } else {
                "materialize the existing registration at its recorded parent pin"@
            },
            if rr {
                None
            } else {
                pin
            },
            true,
            mc,
            false,
            rr,
            recursive,
        )
    }
}

/// The work items for a registered, initialized module, in order.
pub open spec fn work_items(
    e: EntryView,
    mc: bool,
    rr: bool,
    update_matches: bool,
    sparse_changed: bool,
    recursive: bool,
) -> Seq<Seq<char>> {
    let a = if mc {
        seq![
            "reconcile managed metadata and native-resolved local URL from "@ + or_value(
                e.url,
                "<unset>"@,
            ) + " (portable edits remain unstaged)"@,
        ]
    } else {
        Seq::empty()
    };
    let b = if rr {
        a.push(
            "fetch and update from the selected "@ + remote_branch_phrase(e.branch)
                + "; resolve its target during execution"@,
        )
    } else if !update_matches {
        a.push("apply the configured strategy to the recorded parent pin"@)
    } else {
        a
    };
    let c = if sparse_changed {
        b.push("reconcile the ordered sparse-checkout policy"@)
    } else {
        b
    };
    if recursive {
        c.push("reconcile selected nested submodules recursively"@)
    } else {
        c
    }
}

/// The plan for a module with work facts.
pub open spec fn work_plan(
    e: EntryView,
    pin: Option<Seq<char>>,
    mc: bool,
    rr: bool,
    recursive: bool,
    update_matches: bool,
    sparse_changed: bool,
) -> PlanView {
    let items = work_items(e, mc, rr, update_matches, sparse_changed, recursive);
    plan_view(
        if items.len() == 0 {
            ModuleOutcomeKind::Unchanged
        } else {
            ModuleOutcomeKind::Changed
        },
        if items.len() == 0 {
            "registration, metadata, checkout target, and sparse policy already match"@
        } else {
            join(items, "; "@)
        },
        if rr {
            None
        } else {
            pin
        },
        false,
        mc,
        sparse_changed,
        rr,
        recursive,
    )
}

/// Append `b` to `a`.
fn append(a: &mut String, b: &str)
    ensures
        final(a)@ == old(a)@ + b@,
{
    a.append(b);
}

/// The text of an optional branch phrase.
fn branch_words(b: &Option<crate::options::SerializableBranch>, remote: bool) -> (r: String)
    ensures
        r@ == if remote {
            remote_branch_phrase(crate::config::opt_branch(*b))
        } else {
            branch_phrase(crate::config::opt_branch(*b))
        },
{
    match b {
        Some(v) => {
            let mut s = if remote {
                owned("remote branch ")
            } else {
                owned("branch ")
            };
            let t = v.display_text();
            append(&mut s, t.as_str());
            s
        },
        None => if remote {
            owned("remote default branch")
        } else {
            owned("the remote default branch")
        },
    }
}

/// The parts joined with `sep` (see [`join`]).
pub fn join_texts(parts: &Vec<String>, sep: &str) -> (r: String)
    ensures
        r@ == join(crate::config::texts(parts@), sep@),
{
    join_parts(parts, sep)
}

/// The parts joined with `sep`.
fn join_parts(parts: &Vec<String>, sep: &str) -> (r: String)
    ensures
        r@ == join(crate::config::texts(parts@), sep@),
{
    let ghost ps = crate::config::texts(parts@);
    let mut out = String::new();
    let mut i: usize = 0;
    proof {
        assert(ps.subrange(0, 0) =~= Seq::<Seq<char>>::empty());
    }
    while i < parts.len()
        invariant
            i <= parts@.len(),
            ps == crate::config::texts(parts@),
            out@ == join(ps.subrange(0, i as int), sep@),
        decreases parts@.len() - i,
    {
        let ghost before = out@;
        if i > 0 {
            append(&mut out, sep);
        }
        append(&mut out, parts[i].as_str());
        proof {
            let sub = ps.subrange(0, i + 1);
            assert(sub.drop_last() =~= ps.subrange(0, i as int));
            assert(sub.last() == parts@[i as int]@);
            if i == 0 {
                assert(before =~= Seq::<char>::empty());
                assert(out@ =~= sub[0]);
            } else {
                assert(out@ =~= join(sub.drop_last(), sep@) + sep@ + sub.last());
            }
        }
        i = i + 1;
    }
    proof {
        assert(ps.subrange(0, parts@.len() as int) =~= ps);
    }
    out
}

/// Whether the planner needs work facts for this module.
pub fn needs_work(effective: &SubmoduleEntry, facts: &ModuleFacts) -> (r: bool)
    ensures
        r == needs_work_facts(
            effective@,
            facts.registered,
            facts.parent_pin is Some,
            facts.initialized,
        ),
{
    let enabled = match effective.active {
        Some(a) => a,
        None => true,
    };
    let none_policy = match effective.update {
        Some(SerializableUpdate::Nothing) => true,
        _ => false,
    };
    enabled && !none_policy && facts.registered && facts.parent_pin.is_some() && facts.initialized
}

/// The plan for one module: from its resolved entry, the scope, whether the remote
/// and recursion were asked for, what was observed of it, and (when [`needs_work`]
/// says so) what was observed of its checkout. The rest is carried into the plan.
pub fn plan_module(
    name: String,
    path: String,
    effective: &SubmoduleEntry,
    scope: ReconcileScope,
    remote: bool,
    recursive: bool,
    facts: &ModuleFacts,
    work: Option<WorkFacts>,
    verbose_detail: Option<String>,
    initial_head: Option<String>,
    initial_recursive_state: Option<Vec<u8>>,
) -> (r: ReconcilePlan)
    requires
        needs_work_facts(effective@, facts.registered, facts.parent_pin is Some, facts.initialized)
            ==> (work matches Some(w) && (!remote_requested_by(scope, remote) ==> w.update_matches
            is Some)),
    ensures
        r.name == name,
        r.path == path,
        r.verbose_detail == verbose_detail,
        r.initial_head == initial_head,
        r.initial_recursive_state == initial_recursive_state,
        r.planned() == if needs_work_facts(
            effective@,
            facts.registered,
            facts.parent_pin is Some,
            facts.initialized,
        ) {
            work_plan(
                effective@,
                opt_text(facts.parent_pin),
                facts.metadata_changed,
                remote_requested_by(scope, remote),
                recursive,
                match work {
                    Some(w) => or_value(w.update_matches, true),
                    None => true,
                },
                match work {
                    Some(w) => !(w.sparse is NotEnabled || w.sparse is Correct),
                    None => false,
                },
            )
        } else {
            early_plan(
                effective@,
                facts.registered,
                opt_text(facts.parent_pin),
                facts.initialized,
                facts.metadata_changed,
                remote_requested_by(scope, remote),
                recursive,
            )
        },
{
    let mc = facts.metadata_changed;
    let rr = scope == ReconcileScope::Update && remote;
    let pin = crate::config::copy_text(&facts.parent_pin);
    let enabled = match effective.active {
        Some(a) => a,
        None => true,
    };
    let none_policy = match effective.update {
        Some(SerializableUpdate::Nothing) => true,
        _ => false,
    };
    if !enabled || none_policy {
        let (kind, detail) = if !enabled {
            if mc {
                (
                    ModuleOutcomeKind::ChangedSkippedDisabled,
                    "checkout disabled; reconcile managed metadata without materializing or moving HEAD",
                )
            } else {
                (
                    ModuleOutcomeKind::SkippedDisabled,
                    "checkout disabled; managed metadata already matches",
                )
            }
        } else if mc {
            (
                ModuleOutcomeKind::ChangedSkippedPolicy,
                "update=none; reconcile managed metadata without fetching, materializing, or moving HEAD",
            )
        } else {
            (ModuleOutcomeKind::SkippedPolicy, "update=none; managed metadata already matches")
        };
        return ReconcilePlan {
            name,
            path,
            kind,
            detail: owned(detail),
            target: pin,
            verbose_detail,
            registration_changed: false,
            metadata_changed: mc,
            sparse_changed: false,
            remote_requested: false,
            recursive_requested: false,
            initial_head,
            initial_recursive_state,
        };
    }
    if !facts.registered || facts.parent_pin.is_none() {
        let b = branch_words(&effective.branch, false);
        let mut detail = if facts.registered {
            let mut s = owned(
                "complete registration, stage .gitmodules and its gitlink, then initialize from ",
            );
            append(&mut s, b.as_str());
            s
        } else if facts.parent_pin.is_some() {
            owned(
                "restore the missing registration, stage .gitmodules, and materialize the recorded parent pin",
            )
        } else {
            let mut s = owned("register and initialize from ");
            append(&mut s, b.as_str());
            append(&mut s, "; stage .gitmodules and the resulting gitlink");
            s
        };
        if rr {
            append(&mut detail, "; then fetch and update from the selected ");
            append(&mut detail, b.as_str());
            append(&mut detail, "; final remote target unresolved until execution");
        }
        return ReconcilePlan {
            name,
            path,
            kind: ModuleOutcomeKind::Changed,
            detail,
            target: if rr {
                None
            } else {
                pin
            },
            verbose_detail,
            registration_changed: true,
            metadata_changed: mc,
            sparse_changed: false,
            remote_requested: rr,
            recursive_requested: recursive,
            initial_head,
            initial_recursive_state,
        };
    }
    if !facts.initialized {
        let detail = if rr {
            let b = branch_words(&effective.branch, true);
            let mut s = owned(
                "materialize the recorded parent pin, then fetch and update from the selected ",
            );
            append(&mut s, b.as_str());
            append(&mut s, "; final remote target unresolved until execution");
            s
        } else {
            owned("materialize the existing registration at its recorded parent pin")
        };
        return ReconcilePlan {
            name,
            path,
            kind: ModuleOutcomeKind::Changed,
            detail,
            target: if rr {
                None
            } else {
                pin
            },
            verbose_detail,
            registration_changed: true,
            metadata_changed: mc,
            sparse_changed: false,
            remote_requested: rr,
            recursive_requested: recursive,
            initial_head,
            initial_recursive_state,
        };
    }
    let (update_matches, sparse_changed) = match &work {
        Some(w) => (
            match w.update_matches {
                Some(m) => m,
                None => true,
            },
            w.sparse.needs_change(),
        ),
        None => (true, false),
    };
    let ghost items = work_items(effective@, mc, rr, update_matches, sparse_changed, recursive);
    let mut work_list: Vec<String> = Vec::new();
    if mc {
        let mut s = owned("reconcile managed metadata and native-resolved local URL from ");
        match &effective.url {
            Some(u) => append(&mut s, u.as_str()),
            None => append(&mut s, "<unset>"),
        }
        append(&mut s, " (portable edits remain unstaged)");
        work_list.push(s);
    }
    if rr {
        let mut s = owned("fetch and update from the selected ");
        let b = branch_words(&effective.branch, true);
        append(&mut s, b.as_str());
        append(&mut s, "; resolve its target during execution");
        work_list.push(s);
    } else if !update_matches {
        work_list.push(owned("apply the configured strategy to the recorded parent pin"));
    }
    if sparse_changed {
        work_list.push(owned("reconcile the ordered sparse-checkout policy"));
    }
    if recursive {
        work_list.push(owned("reconcile selected nested submodules recursively"));
    }
    proof {
        assert(crate::config::texts(work_list@) =~= items);
    }
    let (kind, detail) = if work_list.len() == 0 {
        (
            ModuleOutcomeKind::Unchanged,
            owned("registration, metadata, checkout target, and sparse policy already match"),
        )
    } else {
        (ModuleOutcomeKind::Changed, join_parts(&work_list, "; "))
    };
    ReconcilePlan {
        name,
        path,
        kind,
        detail,
        target: if rr {
            None
        } else {
            pin
        },
        verbose_detail,
        registration_changed: false,
        metadata_changed: mc,
        sparse_changed,
        remote_requested: rr,
        recursive_requested: recursive,
        initial_head,
        initial_recursive_state,
    }
}

/// Whether an outcome skips the checkout (the module's metadata may still change).
pub open spec fn is_skip_kind(k: ModuleOutcomeKind) -> bool {
    k is SkippedDisabled || k is SkippedPolicy || k is ChangedSkippedDisabled
        || k is ChangedSkippedPolicy
}

/// The report of a skipped module once its metadata (if it had to change) was
/// reconciled.
pub open spec fn skipped_detail(k: ModuleOutcomeKind) -> Seq<char> {
    match k {
        ModuleOutcomeKind::ChangedSkippedDisabled => "managed metadata reconciled; checkout remained skipped-disabled without materializing or moving HEAD"@,
        ModuleOutcomeKind::ChangedSkippedPolicy => "managed metadata reconciled; checkout remained skipped-policy (update=none) without fetching, materializing, or moving HEAD"@,
        ModuleOutcomeKind::SkippedDisabled => "checkout skipped-disabled; managed metadata already matched"@,
        _ => "checkout skipped-policy (update=none); managed metadata already matched"@,
    }
}

/// The view of optional bytes.
pub open spec fn opt_bytes(o: Option<Vec<u8>>) -> Option<Seq<u8>> {
    match o {
        Some(v) => Some(v@),
        None => None,
    }
}

/// The report items of a finished module, in order.
pub open spec fn finish_items(
    p: ReconcilePlan,
    final_head: Seq<char>,
    head_changed: bool,
    recursive_changed: bool,
) -> Seq<Seq<char>> {
    let a = if p.registration_changed {
        seq!["registration/materialization reconciled"@]
    } else {
        Seq::empty()
    };
    let b = if p.metadata_changed {
        a.push("managed metadata reconciled"@)
    } else {
        a
    };
    let c = if head_changed {
        b.push(
            match p.initial_head {
                Some(i) => "checkout moved from "@ + i@ + " to "@ + final_head,
                None => "checkout materialized at "@ + final_head,
            },
        )
    } else {
        b
    };
    let d = if p.sparse_changed {
        c.push("ordered sparse-checkout policy reconciled"@)
    } else {
        c
    };
    let e = if recursive_changed {
        d.push("nested submodule state reconciled"@)
    } else if p.recursive_requested {
        d.push("nested submodules already matched"@)
    } else {
        d
    };
    let f = if p.remote_requested && !head_changed {
        e.push("selected remote target already satisfied"@)
    } else {
        e
    };
    if f.len() == 0 {
        seq!["registration, managed metadata, checkout target, and sparse policy already matched"@]
    } else {
        f
    }
}

/// Whether two optional byte strings are equal.
fn same_bytes(a: &Option<Vec<u8>>, b: &Option<Vec<u8>>) -> (r: bool)
    ensures
        r == (opt_bytes(*a) == opt_bytes(*b)),
{
    match (a, b) {
        (Some(x), Some(y)) => {
            if x.len() != y.len() {
                assert(x@.len() != y@.len());
                return false;
            }
            let mut i: usize = 0;
            while i < x.len()
                invariant
                    opt_bytes(*a) == Some(x@),
                    opt_bytes(*b) == Some(y@),
                    x@.len() == y@.len(),
                    i <= x@.len(),
                    forall|j: int| 0 <= j < i ==> x@[j] == y@[j],
                decreases x@.len() - i,
            {
                if x[i] != y[i] {
                    assert(x@[i as int] != y@[i as int]);
                    assert(x@ != y@);
                    return false;
                }
                i = i + 1;
            }
            assert(x@ =~= y@);
            true
        },
        (None, None) => true,
        _ => false,
    }
}

/// Whether two optional strings are equal.
fn same_text(a: &Option<String>, b: &str) -> (r: bool)
    ensures
        r == (opt_text(*a) == Some(b@)),
{
    match a {
        Some(x) => crate::text::str_eq(x.as_str(), b),
        None => false,
    }
}

impl ReconcilePlan {
    /// Whether the plan skips the checkout.
    pub fn is_skipped(&self) -> (r: bool)
        ensures
            r == is_skip_kind(self.kind),
    {
        match self.kind {
            ModuleOutcomeKind::SkippedDisabled | ModuleOutcomeKind::SkippedPolicy
            | ModuleOutcomeKind::ChangedSkippedDisabled
            | ModuleOutcomeKind::ChangedSkippedPolicy => true,
            _ => false,
        }
    }

    /// The error when the repository does not hold the module's managed settings after
    /// its work.
    pub open spec fn metadata_failure(self) -> Seq<char> {
        "managed metadata postcondition failed for "@ + debug_text(self.name@) + " at "@
            + debug_text(self.path@)
    }

    fn metadata_error(&self) -> (r: SubmoduleError)
        ensures
            r matches SubmoduleError::CliError(m) && m@ == self.metadata_failure(),
    {
        let mut m = owned("managed metadata postcondition failed for ");
        m.append(debug_str(self.name.as_str()).as_str());
        m.append(" at ");
        m.append(debug_str(self.path.as_str()).as_str());
        SubmoduleError::CliError(m)
    }

    /// Finish a skipped module once it is known whether the repository holds its
    /// managed settings (`metadata_holds`): refused when its metadata had to change and
    /// does not hold, else as [`ReconcilePlan::finish_skipped`] gives it.
    pub fn finish_skipped_checked(self, metadata_holds: bool) -> (r: Result<ReconcilePlan, SubmoduleError>)
        requires
            self.metadata_changed ==> (self.kind is ChangedSkippedDisabled
                || self.kind is ChangedSkippedPolicy),
            !self.metadata_changed ==> (self.kind is SkippedDisabled || self.kind is SkippedPolicy),
        ensures
            if self.metadata_changed && !metadata_holds {
                r matches Err(SubmoduleError::CliError(m)) && m@ == self.metadata_failure()
            } else {
                r matches Ok(p) && p == (ReconcilePlan { detail: p.detail, ..self }) && p.detail@
                    == skipped_detail(self.kind)
            },
    {
        if self.metadata_changed && !metadata_holds {
            Err(self.metadata_error())
        } else {
            Ok(self.finish_skipped())
        }
    }

    /// Finish a module after its work, from what is observed afterwards: the checkout's
    /// HEAD, the target the update selects (`None`: the index records none), whether the
    /// checkout satisfies its update strategy, whether the repository holds the managed
    /// settings, and the nested submodules' state. Refused, in this order, when there is
    /// no target, when the checkout does not satisfy the update, and when the metadata
    /// had to change and does not hold; else as [`ReconcilePlan::finish_with_work`]
    /// gives it.
    pub fn finish_checked(
        self,
        final_head: String,
        target: Option<String>,
        update_holds: bool,
        metadata_holds: bool,
        final_recursive_state: Option<Vec<u8>>,
    ) -> (r: Result<ReconcilePlan, SubmoduleError>)
        ensures
            match target {
                None => r matches Err(SubmoduleError::CliError(m)) && m@
                    == "Parent index has no mode-160000 target for "@ + self.path@,
                Some(t) => if !update_holds {
                    r matches Err(SubmoduleError::CliError(m)) && m@ == "checkout postcondition failed for "@
                        + debug_text(self.name@) + " at "@ + debug_text(self.path@) + ": expected target "@
                        + t@
                } else if self.metadata_changed && !metadata_holds {
                    r matches Err(SubmoduleError::CliError(m)) && m@ == self.metadata_failure()
                } else {
                    r matches Ok(p) && work_finished(self, final_head@, t@, final_recursive_state, p)
                },
            },
    {
        let t = match target {
            None => {
                let mut m = owned("Parent index has no mode-160000 target for ");
                m.append(self.path.as_str());
                return Err(SubmoduleError::CliError(m));
            },
            Some(t) => t,
        };
        if !update_holds {
            let mut m = owned("checkout postcondition failed for ");
            m.append(debug_str(self.name.as_str()).as_str());
            m.append(" at ");
            m.append(debug_str(self.path.as_str()).as_str());
            m.append(": expected target ");
            m.append(t.as_str());
            return Err(SubmoduleError::CliError(m));
        }
        if self.metadata_changed && !metadata_holds {
            return Err(self.metadata_error());
        }
        Ok(self.finish_with_work(final_head, t, final_recursive_state))
    }

    /// The outcome of a skipped module after its metadata (if it had to change) was
    /// reconciled: only the report changes.
    pub fn finish_skipped(self) -> (r: ReconcilePlan)
        requires
            self.metadata_changed ==> (self.kind is ChangedSkippedDisabled
                || self.kind is ChangedSkippedPolicy),
            !self.metadata_changed ==> (self.kind is SkippedDisabled || self.kind is SkippedPolicy),
        ensures
            r == (ReconcilePlan { detail: r.detail, ..self }),
            r.detail@ == skipped_detail(self.kind),
    {
        let detail = match self.kind {
            ModuleOutcomeKind::ChangedSkippedDisabled => owned(
                "managed metadata reconciled; checkout remained skipped-disabled without materializing or moving HEAD",
            ),
            ModuleOutcomeKind::ChangedSkippedPolicy => owned(
                "managed metadata reconciled; checkout remained skipped-policy (update=none) without fetching, materializing, or moving HEAD",
            ),
            ModuleOutcomeKind::SkippedDisabled => owned(
                "checkout skipped-disabled; managed metadata already matched",
            ),
            _ => owned("checkout skipped-policy (update=none); managed metadata already matched"),
        };
        ReconcilePlan { detail, ..self }
    }

    /// The outcome of a module that was worked on, from the head it ended at, the
    /// selected target, and (when recursion was asked for) its nested state.
    pub fn finish_with_work(
        self,
        final_head: String,
        target: String,
        final_recursive_state: Option<Vec<u8>>,
    ) -> (r: ReconcilePlan)
        ensures
            work_finished(self, final_head@, target@, final_recursive_state, r),
    {
        let head_changed = !same_text(&self.initial_head, final_head.as_str());
        let recursive_changed = self.recursive_requested && !same_bytes(
            &self.initial_recursive_state,
            &final_recursive_state,
        );
        let changed = self.registration_changed || self.metadata_changed || self.sparse_changed
            || head_changed || recursive_changed;
        let ghost items = finish_items(self, final_head@, head_changed, recursive_changed);
        let mut details: Vec<String> = Vec::new();
        if self.registration_changed {
            details.push(owned("registration/materialization reconciled"));
        }
        if self.metadata_changed {
            details.push(owned("managed metadata reconciled"));
        }
        if head_changed {
            let item = match &self.initial_head {
                Some(initial) => {
                    let mut s = owned("checkout moved from ");
                    append(&mut s, initial.as_str());
                    append(&mut s, " to ");
                    append(&mut s, final_head.as_str());
                    s
                },
                None => {
                    let mut s = owned("checkout materialized at ");
                    append(&mut s, final_head.as_str());
                    s
                },
            };
            details.push(item);
        }
        if self.sparse_changed {
            details.push(owned("ordered sparse-checkout policy reconciled"));
        }
        if recursive_changed {
            details.push(owned("nested submodule state reconciled"));
        } else if self.recursive_requested {
            details.push(owned("nested submodules already matched"));
        }
        if self.remote_requested && !head_changed {
            details.push(owned("selected remote target already satisfied"));
        }
        if details.len() == 0 {
            details.push(
                owned(
                    "registration, managed metadata, checkout target, and sparse policy already matched",
                ),
            );
        }
        proof {
            assert(crate::config::texts(details@) =~= items);
        }
        let detail = join_parts(&details, "; ");
        let verbose_detail = match self.verbose_detail {
            Some(v) => {
                let mut v = v;
                append(&mut v, ", result_head=");
                append(&mut v, final_head.as_str());
                append(&mut v, ", selected_target=");
                append(&mut v, target.as_str());
                Some(v)
            },
            None => None,
        };
        ReconcilePlan {
            name: self.name,
            path: self.path,
            kind: if changed {
                ModuleOutcomeKind::Changed
            } else {
                ModuleOutcomeKind::Unchanged
            },
            detail,
            target: Some(target),
            verbose_detail,
            registration_changed: self.registration_changed,
            metadata_changed: self.metadata_changed,
            sparse_changed: self.sparse_changed,
            remote_requested: self.remote_requested,
            recursive_requested: self.recursive_requested,
            initial_head: self.initial_head,
            initial_recursive_state: self.initial_recursive_state,
        }
    }
}

/// The digit for `d < 10`.
pub open spec fn digit_char(d: nat) -> char {
    (48 + d) as char
}

/// The decimal spelling of `n`.
pub open spec fn decimal(n: nat) -> Seq<char>
    decreases n,
{
    if n < 10 {
        seq![digit_char(n)]
    } else {
        decimal(n / 10).push(digit_char(n % 10))
    }
}

fn digit(d: usize) -> (r: char)
    requires
        d < 10,
    ensures
        r == digit_char(d as nat),
{
    match d {
        0 => '0',
        1 => '1',
        2 => '2',
        3 => '3',
        4 => '4',
        5 => '5',
        6 => '6',
        7 => '7',
        8 => '8',
        _ => '9',
    }
}

/// Append the decimal spelling of `n`.
pub fn push_decimal(out: &mut String, n: usize)
    ensures
        final(out)@ == old(out)@ + decimal(n as nat),
    decreases n,
{
    if n >= 10 {
        push_decimal(out, n / 10);
    }
    let ghost mid = out@;
    crate::text::push_char(out, digit(n % 10));
    proof {
        if n >= 10 {
            assert(out@ =~= old(out)@ + decimal(n as nat));
        } else {
            assert(out@ =~= old(out)@ + decimal(n as nat));
        }
    }
}

/// Outcomes counted as changed (a combined outcome counts as changed and skipped).
pub open spec fn counts_changed(k: ModuleOutcomeKind) -> bool {
    k is Changed || k is ChangedSkippedDisabled || k is ChangedSkippedPolicy
}

/// Outcomes counted as skipped.
pub open spec fn counts_skipped(k: ModuleOutcomeKind) -> bool {
    is_skip_kind(k)
}

/// Outcomes counted as both changed and skipped.
pub open spec fn is_combined(k: ModuleOutcomeKind) -> bool {
    k is ChangedSkippedDisabled || k is ChangedSkippedPolicy
}

/// The number of outcomes that satisfy `p`.
pub open spec fn count_where(ks: Seq<ModuleOutcomeKind>, p: spec_fn(ModuleOutcomeKind) -> bool) -> nat {
    ks.filter(p).len()
}

/// The counts a summary reports.
#[derive(Clone, Copy, Debug, PartialEq, Eq, Structural)]
pub struct Tally {
    pub changed: usize,
    pub unchanged: usize,
    pub skipped: usize,
    pub failed: usize,
    pub pending: usize,
}

/// Structured results for one lifecycle operation.
#[derive(Debug)]
pub struct OperationSummary {
    operation: String,
    preview: bool,
    modules: Vec<ReconcilePlan>,
}

impl OperationSummary {
    /// The operation's name.
    pub closed spec fn operation_name(&self) -> Seq<char> {
        self.operation@
    }

    /// Whether the summary is a preview.
    pub closed spec fn is_preview(&self) -> bool {
        self.preview
    }

    /// The module results, in order.
    pub closed spec fn module_seq(&self) -> Seq<ReconcilePlan> {
        self.modules@
    }

    /// The outcome kinds, in order.
    pub open spec fn kinds(&self) -> Seq<ModuleOutcomeKind> {
        self.module_seq().map_values(|p: ReconcilePlan| p.kind)
    }

    /// A summary of the given results.
    pub fn new(operation: &str, preview: bool, modules: Vec<ReconcilePlan>) -> (r: Self)
        ensures
            r.operation_name() == operation@,
            r.is_preview() == preview,
            r.module_seq() == modules@,
    {
        OperationSummary { operation: owned(operation), preview, modules }
    }

    /// The operation's name.
    pub fn operation(&self) -> (r: &str)
        ensures
            r@ == self.operation_name(),
    {
        self.operation.as_str()
    }

    /// Whether the summary is a preview.
    pub fn preview(&self) -> (r: bool)
        ensures
            r == self.is_preview(),
    {
        self.preview
    }

    /// The module results, in order.
    pub fn modules(&self) -> (r: &Vec<ReconcilePlan>)
        ensures
            r@ == self.module_seq(),
    {
        &self.modules
    }

    /// The label of an outcome: what happened, or in a preview what would happen.
    pub fn status_label(kind: ModuleOutcomeKind, preview: bool) -> (r: &'static str)
        ensures
            r@ == status_text(kind, preview),
    {
        if preview {
            match kind {
                ModuleOutcomeKind::Changed => "would-change",
                ModuleOutcomeKind::Unchanged => "unchanged",
                ModuleOutcomeKind::SkippedDisabled => "would-skip-disabled",
                ModuleOutcomeKind::SkippedPolicy => "would-skip-policy",
                ModuleOutcomeKind::ChangedSkippedDisabled => "would-change/would-skip-disabled",
                ModuleOutcomeKind::ChangedSkippedPolicy => "would-change/would-skip-policy",
                ModuleOutcomeKind::Failed => "would-fail",
                ModuleOutcomeKind::Pending => "pending",
            }
        } else {
            match kind {
                ModuleOutcomeKind::Changed => "changed",
                ModuleOutcomeKind::Unchanged => "unchanged",
                ModuleOutcomeKind::SkippedDisabled => "skipped-disabled",
                ModuleOutcomeKind::SkippedPolicy => "skipped-policy",
                ModuleOutcomeKind::ChangedSkippedDisabled => "changed/skipped-disabled",
                ModuleOutcomeKind::ChangedSkippedPolicy => "changed/skipped-policy",
                ModuleOutcomeKind::Failed => "failed",
                ModuleOutcomeKind::Pending => "pending",
            }
        }
    }

    /// The counts of the results: changed, unchanged, skipped, failed and pending (a
    /// combined outcome counts as changed and as skipped).
    pub fn tally(&self) -> (r: Tally)
        ensures
            r.changed == count_where(self.kinds(), |k: ModuleOutcomeKind| counts_changed(k)),
            r.unchanged == count_where(self.kinds(), |k: ModuleOutcomeKind| k is Unchanged),
            r.skipped == count_where(self.kinds(), |k: ModuleOutcomeKind| counts_skipped(k)),
            r.failed == count_where(self.kinds(), |k: ModuleOutcomeKind| k is Failed),
            r.pending == count_where(self.kinds(), |k: ModuleOutcomeKind| k is Pending),
    {
        let ghost ks = self.kinds();
        let ghost pc = |k: ModuleOutcomeKind| counts_changed(k);
        let ghost pu = |k: ModuleOutcomeKind| k is Unchanged;
        let ghost ps = |k: ModuleOutcomeKind| counts_skipped(k);
        let ghost pf = |k: ModuleOutcomeKind| k is Failed;
        let ghost pp = |k: ModuleOutcomeKind| k is Pending;
        let mut t = Tally { changed: 0, unchanged: 0, skipped: 0, failed: 0, pending: 0 };
        let mut i: usize = 0;
        proof {
            assert(ks.subrange(0, 0) =~= Seq::<ModuleOutcomeKind>::empty());
            reveal(Seq::filter);
        }
        while i < self.modules.len()
            invariant
                i <= self.modules@.len(),
                ks == self.kinds(),
                ks.len() == self.modules@.len(),
                pc == (|k: ModuleOutcomeKind| counts_changed(k)),
                pu == (|k: ModuleOutcomeKind| k is Unchanged),
                ps == (|k: ModuleOutcomeKind| counts_skipped(k)),
                pf == (|k: ModuleOutcomeKind| k is Failed),
                pp == (|k: ModuleOutcomeKind| k is Pending),
                t.changed == ks.subrange(0, i as int).filter(pc).len(),
                t.unchanged == ks.subrange(0, i as int).filter(pu).len(),
                t.skipped == ks.subrange(0, i as int).filter(ps).len(),
                t.failed == ks.subrange(0, i as int).filter(pf).len(),
                t.pending == ks.subrange(0, i as int).filter(pp).len(),
            decreases self.modules@.len() - i,
        {
            let k = self.modules[i].kind;
            proof {
                let pre = ks.subrange(0, i as int);
                assert(ks.subrange(0, i + 1) =~= pre.push(k));
                pre.lemma_filter_push(k, pc);
                pre.lemma_filter_push(k, pu);
                pre.lemma_filter_push(k, ps);
                pre.lemma_filter_push(k, pf);
                pre.lemma_filter_push(k, pp);
                pre.lemma_filter_len(pc);
                pre.lemma_filter_len(pu);
                pre.lemma_filter_len(ps);
                pre.lemma_filter_len(pf);
                pre.lemma_filter_len(pp);
            }
            match k {
                ModuleOutcomeKind::Changed => t.changed = t.changed + 1,
                ModuleOutcomeKind::Unchanged => t.unchanged = t.unchanged + 1,
                ModuleOutcomeKind::SkippedDisabled | ModuleOutcomeKind::SkippedPolicy => {
                    t.skipped = t.skipped + 1;
                },
                ModuleOutcomeKind::ChangedSkippedDisabled
                | ModuleOutcomeKind::ChangedSkippedPolicy => {
                    t.changed = t.changed + 1;
                    t.skipped = t.skipped + 1;
                },
                ModuleOutcomeKind::Failed => t.failed = t.failed + 1,
                ModuleOutcomeKind::Pending => t.pending = t.pending + 1,
            }
            i = i + 1;
        }
        proof {
            assert(ks.subrange(0, ks.len() as int) =~= ks);
        }
        t
    }

    /// The closing line: `"{operation} summary: {changed} changed, {unchanged}
    /// unchanged, {skipped} skipped, {failed} failed, {pending} pending."`.
    pub fn summary_line(&self) -> (r: String)
        ensures
            ({
                let t = self.tally_spec();
                r@ == self.operation_name() + " summary: "@ + decimal(t.0) + " changed, "@ + decimal(
                    t.1,
                ) + " unchanged, "@ + decimal(t.2) + " skipped, "@ + decimal(t.3) + " failed, "@
                    + decimal(t.4) + " pending."@
            }),
    {
        let t = self.tally();
        let mut s = owned(self.operation.as_str());
        append(&mut s, " summary: ");
        push_decimal(&mut s, t.changed);
        append(&mut s, " changed, ");
        push_decimal(&mut s, t.unchanged);
        append(&mut s, " unchanged, ");
        push_decimal(&mut s, t.skipped);
        append(&mut s, " skipped, ");
        push_decimal(&mut s, t.failed);
        append(&mut s, " failed, ");
        push_decimal(&mut s, t.pending);
        append(&mut s, " pending.");
        s
    }

    /// The full report: one line per module result (followed by its verbose detail, if
    /// any, indented on a line of its own) and the closing summary line; or, when there
    /// is no result, `No submodules configured.`.
    pub fn render(&self) -> (r: String)
        ensures
            r@ == if self.module_seq().len() == 0 {
                "No submodules configured.\n"@
            } else {
                module_lines(self.module_seq(), self.is_preview()) + self.summary_text() + "\n"@
            },
    {
        if self.modules.len() == 0 {
            return owned("No submodules configured.\n");
        }
        let mut out = String::new();
        let mut i: usize = 0;
        proof {
            assert(self.modules@.subrange(0, 0) =~= Seq::<ReconcilePlan>::empty());
        }
        while i < self.modules.len()
            invariant
                i <= self.modules@.len(),
                out@ == module_lines(self.modules@.subrange(0, i as int), self.preview),
            decreases self.modules@.len() - i,
        {
            let m = &self.modules[i];
            let ghost before = out@;
            push_module_line(&mut out, m, self.preview);
            proof {
                let sub = self.modules@.subrange(0, i + 1);
                assert(sub.drop_last() =~= self.modules@.subrange(0, i as int));
                assert(out@ =~= before + module_line(*m, self.preview));
            }
            i = i + 1;
        }
        proof {
            assert(self.modules@.subrange(0, self.modules@.len() as int) =~= self.modules@);
        }
        let line = self.summary_line();
        append(&mut out, line.as_str());
        append(&mut out, "\n");
        out
    }

    /// The closing line of the report (see [`OperationSummary::summary_line`]).
    pub open spec fn summary_text(&self) -> Seq<char> {
        let t = self.tally_spec();
        self.operation_name() + " summary: "@ + decimal(t.0) + " changed, "@ + decimal(t.1)
            + " unchanged, "@ + decimal(t.2) + " skipped, "@ + decimal(t.3) + " failed, "@
            + decimal(t.4) + " pending."@
    }

    /// The counts, as the summary line reports them.
    pub open spec fn tally_spec(&self) -> (nat, nat, nat, nat, nat) {
        (
            count_where(self.kinds(), |k: ModuleOutcomeKind| counts_changed(k)),
            count_where(self.kinds(), |k: ModuleOutcomeKind| k is Unchanged),
            count_where(self.kinds(), |k: ModuleOutcomeKind| counts_skipped(k)),
            count_where(self.kinds(), |k: ModuleOutcomeKind| k is Failed),
            count_where(self.kinds(), |k: ModuleOutcomeKind| k is Pending),
        )
    }
}

/// The report line of one module result, with its verbose detail on a line of its own.
pub open spec fn module_line(p: ReconcilePlan, preview: bool) -> Seq<char> {
    let base = p.name@ + " at "@ + p.path@ + ": "@ + status_text(p.kind, preview) + ": "@
        + p.detail@;
    let with_target = match p.target {
        Some(t) => base + " (target "@ + t@ + ")"@,
        None => base,
    };
    match p.verbose_detail {
        Some(v) => with_target + "\n"@ + "  "@ + v@ + "\n"@,
        None => with_target + "\n"@,
    }
}

/// Append the report line of `m` (see [`module_line`]).
fn push_module_line(out: &mut String, m: &ReconcilePlan, preview: bool)
    ensures
        final(out)@ == old(out)@ + module_line(*m, preview),
{
    let mut line = owned(m.name.as_str());
    append(&mut line, " at ");
    append(&mut line, m.path.as_str());
    append(&mut line, ": ");
    append(&mut line, OperationSummary::status_label(m.kind, preview));
    append(&mut line, ": ");
    append(&mut line, m.detail.as_str());
    match &m.target {
        Some(t) => {
            append(&mut line, " (target ");
            append(&mut line, t.as_str());
            append(&mut line, ")");
        },
        None => {},
    }
    append(&mut line, "\n");
    match &m.verbose_detail {
        Some(v) => {
            append(&mut line, "  ");
            append(&mut line, v.as_str());
            append(&mut line, "\n");
        },
        None => {},
    }
    proof {
        assert(line@ =~= module_line(*m, preview));
    }
    append(out, line.as_str());
}

/// The report lines of the module results, in order.
pub open spec fn module_lines(ms: Seq<ReconcilePlan>, preview: bool) -> Seq<char>
    decreases ms.len(),
{
    if ms.len() == 0 {
        Seq::empty()
    } else {
        module_lines(ms.drop_last(), preview) + module_line(ms.last(), preview)
    }
}

/// The label of an outcome.
pub open spec fn status_text(kind: ModuleOutcomeKind, preview: bool) -> Seq<char> {
    if preview {
        match kind {
            ModuleOutcomeKind::Changed => "would-change"@,
            ModuleOutcomeKind::Unchanged => "unchanged"@,
            ModuleOutcomeKind::SkippedDisabled => "would-skip-disabled"@,
            ModuleOutcomeKind::SkippedPolicy => "would-skip-policy"@,
            ModuleOutcomeKind::ChangedSkippedDisabled => "would-change/would-skip-disabled"@,
            ModuleOutcomeKind::ChangedSkippedPolicy => "would-change/would-skip-policy"@,
            ModuleOutcomeKind::Failed => "would-fail"@,
            ModuleOutcomeKind::Pending => "pending"@,
        }
    } else {
        match kind {
            ModuleOutcomeKind::Changed => "changed"@,
            ModuleOutcomeKind::Unchanged => "unchanged"@,
            ModuleOutcomeKind::SkippedDisabled => "skipped-disabled"@,
            ModuleOutcomeKind::SkippedPolicy => "skipped-policy"@,
            ModuleOutcomeKind::ChangedSkippedDisabled => "changed/skipped-disabled"@,
            ModuleOutcomeKind::ChangedSkippedPolicy => "changed/skipped-policy"@,
            ModuleOutcomeKind::Failed => "failed"@,
            ModuleOutcomeKind::Pending => "pending"@,
        }
    }
}

/// Every result is counted: the five counts add up to the number of results plus the
/// combined outcomes, which count as changed and as skipped.
pub proof fn lemma_tally_counts_every_module(ks: Seq<ModuleOutcomeKind>)
    ensures
        count_where(ks, |k: ModuleOutcomeKind| counts_changed(k)) + count_where(
            ks,
            |k: ModuleOutcomeKind| k is Unchanged,
        ) + count_where(ks, |k: ModuleOutcomeKind| counts_skipped(k)) + count_where(
            ks,
            |k: ModuleOutcomeKind| k is Failed,
        ) + count_where(ks, |k: ModuleOutcomeKind| k is Pending) == ks.len() + count_where(
            ks,
            |k: ModuleOutcomeKind| is_combined(k),
        ),
    decreases ks.len(),
{
    let pc = |k: ModuleOutcomeKind| counts_changed(k);
    let pu = |k: ModuleOutcomeKind| k is Unchanged;
    let ps = |k: ModuleOutcomeKind| counts_skipped(k);
    let pf = |k: ModuleOutcomeKind| k is Failed;
    let pp = |k: ModuleOutcomeKind| k is Pending;
    let pb = |k: ModuleOutcomeKind| is_combined(k);
    if ks.len() == 0 {
        reveal(Seq::filter);
    } else {
        let pre = ks.drop_last();
        let k = ks.last();
        lemma_tally_counts_every_module(pre);
        assert(pre.push(k) =~= ks);
        pre.lemma_filter_push(k, pc);
        pre.lemma_filter_push(k, pu);
        pre.lemma_filter_push(k, ps);
        pre.lemma_filter_push(k, pf);
        pre.lemma_filter_push(k, pp);
        pre.lemma_filter_push(k, pb);
    }
}

/// An enabled module whose update policy is not `none`, and that is not yet registered,
/// pinned and initialized, changes its registration: its plan materializes it (so an
/// update initializes it first), and the plan is a change that targets the recorded pin
/// unless the remote target is asked for.
pub proof fn lemma_unmaterialized_module_changes_registration(
    e: EntryView,
    registered: bool,
    pin: Option<Seq<char>>,
    initialized: bool,
    mc: bool,
    rr: bool,
    recursive: bool,
)
    requires
        is_enabled(e),
        !policy_none(e),
        !(registered && pin is Some && initialized),
    ensures
        ({
            let p = early_plan(e, registered, pin, initialized, mc, rr, recursive);
            &&& p.registration_changed
            &&& p.kind == ModuleOutcomeKind::Changed
            &&& p.target == if rr {
                None
            } else {
                pin
            }
            &&& p.metadata_changed == mc
            &&& p.remote_requested == rr
            &&& p.recursive_requested == recursive
        }),
{
}

/// A module that is registered, pinned and initialized keeps its registration: its plan
/// changes nothing of it.
pub proof fn lemma_materialized_module_keeps_registration(
    e: EntryView,
    pin: Option<Seq<char>>,
    mc: bool,
    rr: bool,
    recursive: bool,
    update_matches: bool,
    sparse_changed: bool,
)
    ensures
        !work_plan(e, pin, mc, rr, recursive, update_matches, sparse_changed).registration_changed,
{
}

/// A disabled module, and one whose update policy is `none`, is skipped: its
/// registration and checkout are left alone, and the outcome says whether its managed
/// metadata still had to be reconciled.
pub proof fn lemma_skipped_modules_leave_checkout(
    e: EntryView,
    registered: bool,
    pin: Option<Seq<char>>,
    initialized: bool,
    mc: bool,
    rr: bool,
    recursive: bool,
)
    ensures
        ({
            let p = early_plan(e, registered, pin, initialized, mc, rr, recursive);
            &&& !is_enabled(e) ==> p.kind == (if mc {
                ModuleOutcomeKind::ChangedSkippedDisabled
            } else {
                ModuleOutcomeKind::SkippedDisabled
            })
            &&& is_enabled(e) && policy_none(e) ==> p.kind == (if mc {
                ModuleOutcomeKind::ChangedSkippedPolicy
            } else {
                ModuleOutcomeKind::SkippedPolicy
            })
            &&& !is_enabled(e) || policy_none(e) ==> !p.registration_changed && !p.sparse_changed
                && !p.remote_requested && !p.recursive_requested && p.metadata_changed == mc
                && p.target == pin
        }),
{
}

/// A registered, pinned, initialized module is unchanged exactly when nothing is to be
/// done: its metadata matches, no remote target or recursion is asked for, its checkout
/// satisfies its update strategy, and its sparse policy holds; its target is the recorded
/// pin unless the remote target is asked for.
pub proof fn lemma_work_plan_unchanged_iff_nothing_to_do(
    e: EntryView,
    pin: Option<Seq<char>>,
    mc: bool,
    rr: bool,
    recursive: bool,
    update_matches: bool,
    sparse_changed: bool,
)
    ensures
        ({
            let p = work_plan(e, pin, mc, rr, recursive, update_matches, sparse_changed);
            &&& p.kind == ModuleOutcomeKind::Unchanged <==> (!mc && !rr && update_matches
                && !sparse_changed && !recursive)
            &&& p.kind == ModuleOutcomeKind::Unchanged || p.kind == ModuleOutcomeKind::Changed
            &&& p.target == if rr {
                None
            } else {
                pin
            }
            &&& p.metadata_changed == mc && p.sparse_changed == sparse_changed
            &&& p.remote_requested == rr && p.recursive_requested == recursive
        }),
{
    let items = work_items(e, mc, rr, update_matches, sparse_changed, recursive);
    if mc || rr || !update_matches || sparse_changed || recursive {
        assert(items.len() > 0);
    }
}

/// The report of a finished module names what changed, in order: the registration or
/// materialization first when it changed, then the managed metadata when it changed.
pub proof fn lemma_finish_reports_changes(p: ReconcilePlan, final_head: Seq<char>, head_changed: bool, recursive_changed: bool)
    ensures
        ({
            let items = finish_items(p, final_head, head_changed, recursive_changed);
            &&& p.registration_changed ==> items.len() > 0 && items[0] == "registration/materialization reconciled"@
            &&& p.metadata_changed ==> items.contains("managed metadata reconciled"@)
            &&& p.sparse_changed ==> items.contains("ordered sparse-checkout policy reconciled"@)
        }),
{
    let a = if p.registration_changed {
        seq!["registration/materialization reconciled"@]
    } else {
        Seq::empty()
    };
    let b = if p.metadata_changed {
        a.push("managed metadata reconciled"@)
    } else {
        a
    };
    let c = if head_changed {
        b.push(
            match p.initial_head {
                Some(i) => "checkout moved from "@ + i@ + " to "@ + final_head,
                None => "checkout materialized at "@ + final_head,
            },
        )
    } else {
        b
    };
    let d = if p.sparse_changed {
        c.push("ordered sparse-checkout policy reconciled"@)
    } else {
        c
    };
    let items = finish_items(p, final_head, head_changed, recursive_changed);
    assert(items.len() >= d.len());
    assert(forall|i: int| 0 <= i < d.len() ==> items[i] == d[i]);
    assert(forall|i: int| 0 <= i < c.len() ==> d[i] == c[i]);
    assert(forall|i: int| 0 <= i < b.len() ==> c[i] == b[i]);
    assert(forall|i: int| 0 <= i < a.len() ==> b[i] == a[i]);
    if p.metadata_changed {
        assert(items[a.len() as int] == "managed metadata reconciled"@);
    }
    if p.sparse_changed {
        assert(items[c.len() as int] == "ordered sparse-checkout policy reconciled"@);
    }
}

} // verus!
