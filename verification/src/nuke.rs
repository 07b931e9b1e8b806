//! Rebuilding or removing submodules: which declarations a request selects, the plan of
//! each, the order they are worked in, and what is reported.
use vstd::prelude::*;

use crate::config::{
    copy_branch, copy_text, effective_view, opt_texts, or_value, texts, Config, EntryView,
    SubmoduleAddOptions, SubmoduleEntry, SubmoduleUpdateOptions,
};
use crate::errors::SubmoduleError;
use crate::gitconfig::{managed_settings, managed_view};
use crate::options::SerializableUpdate;
use crate::order::{lemma_ordered_duplicates, lemma_same_names_duplicates, sort_texts, text_order};
use crate::plan::{decimal, push_decimal};
use crate::text::{owned, str_eq};

verus! {

/// The names a rebuild or removal request asks for: every declaration's name when `all`,
/// else the names given (none when none are given).
pub open spec fn requested_names(
    declared: Seq<Seq<char>>,
    all: bool,
    names: Option<Seq<Seq<char>>>,
) -> Seq<Seq<char>> {
    if all {
        declared
    } else {
        match names {
            Some(n) => n,
            None => Seq::empty(),
        }
    }
}

fn append(a: &mut String, b: &str)
    ensures
        final(a)@ == old(a)@ + b@,
{
    a.append(b);
}

/// The names a request asks for (see [`requested_names`]).
fn requested_list(config: &Config, all: bool, names: &Option<Vec<String>>) -> (r: Vec<String>)
    ensures
        texts(r@) == requested_names(config.submodules.names(), all, opt_texts(*names)),
{
    if all {
        match config.submodules.submodule_names() {
            Some(v) => v,
            None => Vec::new(),
        }
    } else {
        match names {
            Some(v) => crate::config::copy_texts(v),
            None => {
                let r: Vec<String> = Vec::new();
                proof {
                    assert(texts(r@) =~= Seq::<Seq<char>>::empty());
                }
                r
            },
        }
    }
}

/// The names a selection works on, in the order of strings: the error `empty` when the
/// request names nothing, and the error `duplicate` when it names a submodule twice.
fn sorted_targets(
    config: &Config,
    all: bool,
    names: &Option<Vec<String>>,
    empty: &str,
    duplicate: &str,
) -> (r: Result<Vec<String>, SubmoduleError>)
    ensures
        ({
            let req = requested_names(config.submodules.names(), all, opt_texts(*names));
            &&& req.len() == 0 ==> (r matches Err(SubmoduleError::ConfigError(m)) && m@ == empty@)
            &&& req.len() > 0 && !req.no_duplicates() ==> (r matches Err(
                SubmoduleError::ConfigError(m),
            ) && m@ == duplicate@)
            &&& req.len() > 0 && req.no_duplicates() ==> (r matches Ok(v) && texts(v@)
                == req.sort_by(text_order()))
        }),
{
    let requested = requested_list(config, all, names);
    let ghost req = texts(requested@);
    if requested.len() == 0 {
        return Err(SubmoduleError::ConfigError(owned(empty)));
    }
    let sorted = sort_texts(&requested);
    let ghost s = texts(sorted@);
    proof {
        crate::order::lemma_text_order_total();
        req.lemma_sort_by_ensures(text_order());
        lemma_same_names_duplicates(req, s);
        assert(crate::order::ordered(s)) by {
            assert forall|i: int, j: int| 0 <= i < j < s.len() implies crate::order::text_le(
                #[trigger] s[i],
                #[trigger] s[j],
            ) by {
                assert((text_order())(s[i], s[j]));
            }
        }
        lemma_ordered_duplicates(s);
        vstd::seq_lib::to_multiset_len(s);
        vstd::seq_lib::to_multiset_len(req);
        assert(s.len() == req.len());
    }
    let n = sorted.len();
    let mut k: usize = 0;
    while k + 1 < n
        invariant
            s == texts(sorted@),
            n == sorted@.len(),
            k < n,
            req == requested_names(config.submodules.names(), all, opt_texts(*names)),
            req.len() > 0,
            s == req.sort_by(text_order()),
            req.no_duplicates() <==> s.no_duplicates(),
            s.no_duplicates() <==> forall|m: int| 0 <= m < s.len() - 1 ==> s[m] != #[trigger] s[m + 1],
            forall|m: int| 0 <= m < k ==> s[m] != #[trigger] s[m + 1],
        decreases n - k,
    {
        if str_eq(sorted[k].as_str(), sorted[k + 1].as_str()) {
            proof {
                assert(s[k as int] == s[k + 1]);
                assert(!s.no_duplicates());
            }
            return Err(SubmoduleError::ConfigError(owned(duplicate)));
        }
        k = k + 1;
    }
    Ok(sorted)
}

/// The names a rebuild or removal works on, in the order of strings: the error that none
/// was specified when the request names nothing (neither `--all` nor a name), and the
/// error that a target is duplicated when it names a submodule twice.
pub fn select_nuke_targets(config: &Config, all: bool, names: Option<Vec<String>>) -> (r: Result<
    Vec<String>,
    SubmoduleError,
>)
    ensures
        ({
            let req = requested_names(config.submodules.names(), all, opt_texts(names));
            &&& req.len() == 0 ==> (r matches Err(SubmoduleError::ConfigError(m))
                && m@ == "No submodules specified. Use --all or provide names."@)
            &&& req.len() > 0 && !req.no_duplicates() ==> (r matches Err(
                SubmoduleError::ConfigError(m),
            ) && m@ == "Duplicate submodule target in nuke selection"@)
            &&& req.len() > 0 && req.no_duplicates() ==> (r matches Ok(v) && texts(v@)
                == req.sort_by(text_order()))
        }),
{
    sorted_targets(
        config,
        all,
        &names,
        "No submodules specified. Use --all or provide names.",
        "Duplicate submodule target in nuke selection",
    )
}

/// The names a reset works on, in the order of strings: the error that none was
/// specified when the request names nothing, and the error that a target is duplicated
/// when it names a submodule twice.
pub fn select_reset_targets(config: &Config, all: bool, names: Vec<String>) -> (r: Result<
    Vec<String>,
    SubmoduleError,
>)
    ensures
        ({
            let req = requested_names(config.submodules.names(), all, Some(texts(names@)));
            &&& req.len() == 0 ==> (r matches Err(SubmoduleError::ConfigError(m))
                && m@ == "No submodules specified for reset"@)
            &&& req.len() > 0 && !req.no_duplicates() ==> (r matches Err(
                SubmoduleError::ConfigError(m),
            ) && m@ == "Duplicate submodule target in reset selection"@)
            &&& req.len() > 0 && req.no_duplicates() ==> (r matches Ok(v) && texts(v@)
                == req.sort_by(text_order()))
        }),
{
    let names = Some(names);
    sorted_targets(
        config,
        all,
        &names,
        "No submodules specified for reset",
        "Duplicate submodule target in reset selection",
    )
}

/// What a rebuild or removal knows of one selected submodule before it changes anything.
#[derive(Debug, Clone)]
pub struct NukePlan {
    /// The declaration's name.
    pub name: String,
    /// The resolved entry.
    pub effective: SubmoduleEntry,
    /// How the submodule is registered again when it is rebuilt from its declaration.
    pub options: SubmoduleAddOptions,
    /// Whether `.gitmodules` registers the path.
    pub registered: bool,
}

/// `o` registers the submodule declared as `name` under `reg_name`, with the path and URL
/// of `eff` and the managed settings `managed`.
pub open spec fn add_options_match(
    o: SubmoduleAddOptions,
    reg_name: Seq<char>,
    eff: EntryView,
    managed: EntryView,
) -> bool {
    &&& o.name@ == reg_name
    &&& Some(o.path@) == eff.path
    &&& Some(o.url@) == eff.url
    &&& crate::config::opt_branch(o.branch) == managed.branch
    &&& o.ignore == managed.ignore
    &&& o.update == managed.update
    &&& o.fetch_recurse == managed.fetch_recurse
    &&& o.shallow == or_value(managed.shallow, false)
    &&& !o.no_init
}

/// The options that register the declared submodule `name` again under `reg_name`.
fn registration_options(config: &Config, name: &str, reg_name: String) -> (r: SubmoduleAddOptions)
    requires
        config.submodules@.contains_key(name@),
        config.submodules@[name@].url is Some,
    ensures
        add_options_match(
            r,
            reg_name@,
            effective_view(name@, config.submodules@[name@], config.defaults),
            managed_view(config.submodules@[name@], config.defaults),
        ),
{
    let effective = config.effective_entry(name).unwrap();
    let managed = match managed_settings(config, name) {
        Ok(m) => m,
        Err(_) => {
            proof {
                assert(false);
            }
            effective.duplicate()
        },
    };
    let path = match copy_text(&effective.path) {
        Some(p) => p,
        None => owned(name),
    };
    let url = match copy_text(&effective.url) {
        Some(u) => u,
        None => String::new(),
    };
    SubmoduleAddOptions {
        name: reg_name,
        path,
        url,
        branch: copy_branch(&managed.branch),
        ignore: managed.ignore,
        update: managed.update,
        fetch_recurse: managed.fetch_recurse,
        shallow: match managed.shallow {
            Some(s) => s,
            None => false,
        },
        no_init: false,
    }
}

/// The options that register the declared submodule `name` under its own name, or the
/// error that it is not declared.
pub fn add_options_for(config: &Config, name: &str) -> (r: Result<SubmoduleAddOptions, SubmoduleError>)
    requires
        config.submodules@.contains_key(name@) ==> config.submodules@[name@].url is Some,
    ensures
        r is Ok <==> config.submodules@.contains_key(name@),
        r matches Ok(o) ==> add_options_match(
            o,
            name@,
            effective_view(name@, config.submodules@[name@], config.defaults),
            managed_view(config.submodules@[name@], config.defaults),
        ),
        r matches Err(e) ==> e matches SubmoduleError::SubmoduleNotFound { name: n } && n@
            == name@,
{
    if !config.submodules.contains_key(name) {
        return Err(SubmoduleError::SubmoduleNotFound { name: owned(name) });
    }
    Ok(registration_options(config, name, owned(name)))
}

/// The plan of the declared submodule `name`, given the name `.gitmodules` registers its
/// path under (if it does): it is rebuilt under that name, else under its own.
pub fn nuke_plan(config: &Config, name: &str, registration: Option<String>) -> (r: NukePlan)
    requires
        config.submodules@.contains_key(name@),
        config.submodules@[name@].url is Some,
    ensures
        r.name@ == name@,
        r.effective@ == effective_view(name@, config.submodules@[name@], config.defaults),
        r.registered == registration is Some,
        add_options_match(
            r.options,
            match registration {
                Some(n) => n@,
                None => name@,
            },
            effective_view(name@, config.submodules@[name@], config.defaults),
            managed_view(config.submodules@[name@], config.defaults),
        ),
{
    let registered = registration.is_some();
    let reg_name = match registration {
        Some(n) => n,
        None => owned(name),
    };
    let options = registration_options(config, name, reg_name);
    let effective = config.effective_entry(name).unwrap();
    NukePlan { name: owned(name), effective, options, registered }
}

/// The order plans are worked in: as selected for a removal; for a rebuild, the
/// unregistered ones first, then the registered ones, each group in selection order.
pub open spec fn nuke_order_of(plans: Seq<NukePlan>, kill: bool) -> Seq<NukePlan> {
    if kill {
        plans
    } else {
        plans.filter(|p: NukePlan| !p.registered) + plans.filter(|p: NukePlan| p.registered)
    }
}

proof fn lemma_split_multiset<A>(s: Seq<A>, p: spec_fn(A) -> bool)
    ensures
        (s.filter(p) + s.filter(|a: A| !p(a))).to_multiset() == s.to_multiset(),
    decreases s.len(),
{
    let q = |a: A| !p(a);
    broadcast use vstd::seq_lib::group_to_multiset_ensures;
    if s.len() == 0 {
        reveal(Seq::filter);
        assert(s.filter(p) + s.filter(q) =~= Seq::<A>::empty());
    } else {
        let pre = s.drop_last();
        let x = s.last();
        lemma_split_multiset(pre, p);
        assert(pre.push(x) =~= s);
        pre.lemma_filter_push(x, p);
        pre.lemma_filter_push(x, q);
        vstd::seq_lib::lemma_multiset_commutative(pre.filter(p), pre.filter(q));
        if p(x) {
            vstd::seq_lib::lemma_multiset_commutative(pre.filter(p).push(x), pre.filter(q));
            vstd::seq_lib::lemma_multiset_commutative(pre.filter(p), pre.filter(q));
            assert(pre.filter(p).push(x) + pre.filter(q) =~= (pre.filter(p) + pre.filter(q)).insert(pre.filter(p).len() as int, x));
            vstd::seq_lib::to_multiset_insert(pre.filter(p) + pre.filter(q), pre.filter(p).len() as int, x);
        } else {
            assert(pre.filter(p) + pre.filter(q).push(x) =~= (pre.filter(p) + pre.filter(q)).push(x));
        }
    }
}

/// Every selected submodule is worked exactly once, whatever the order: the work order
/// holds the same plans, each as often, as the selection.
pub proof fn lemma_nuke_order_keeps_every_plan(plans: Seq<NukePlan>, kill: bool)
    ensures
        nuke_order_of(plans, kill).to_multiset() == plans.to_multiset(),
{
    if !kill {
        let reg = |p: NukePlan| p.registered;
        lemma_split_multiset(plans, |p: NukePlan| !p.registered);
        assert(plans.filter(|a: NukePlan| !(|p: NukePlan| !p.registered)(a)) =~= plans.filter(reg)) by {
            assert((|a: NukePlan| !(|p: NukePlan| !p.registered)(a)) =~= reg);
        }
    }
}

/// The plans in the order they are worked in (see [`nuke_order_of`]).
pub fn nuke_order(plans: Vec<NukePlan>, kill: bool) -> (r: Vec<NukePlan>)
    ensures
        r@ == nuke_order_of(plans@, kill),
{
    if kill {
        return plans;
    }
    let ghost all = plans@;
    let ghost pu = |p: NukePlan| !p.registered;
    let ghost pr = |p: NukePlan| p.registered;
    let mut first: Vec<NukePlan> = Vec::new();
    let mut second: Vec<NukePlan> = Vec::new();
    let n = plans.len();
    let mut rest = plans;
    let mut i: usize = 0;
    proof {
        reveal(Seq::filter);
        assert(all.subrange(0, 0) =~= Seq::<NukePlan>::empty());
    }
    while rest.len() > 0
        invariant
            i + rest@.len() == all.len(),
            all.len() == n,
            rest@ == all.subrange(i as int, all.len() as int),
            pu == (|p: NukePlan| !p.registered),
            pr == (|p: NukePlan| p.registered),
            first@ == all.subrange(0, i as int).filter(pu),
            second@ == all.subrange(0, i as int).filter(pr),
        decreases rest@.len(),
    {
        let p = rest.remove(0);
        proof {
            assert(p == all[i as int]);
            assert(all.subrange(0, i + 1) =~= all.subrange(0, i as int).push(p));
            all.subrange(0, i as int).lemma_filter_push(p, pu);
            all.subrange(0, i as int).lemma_filter_push(p, pr);
            assert(rest@ =~= all.subrange(i + 1, all.len() as int));
        }
        if p.registered {
            second.push(p);
        } else {
            first.push(p);
        }
        i = i + 1;
    }
    proof {
        assert(all.subrange(0, all.len() as int) =~= all);
    }
    first.append(&mut second);
    first
}

/// The update options a registered submodule is rebuilt with: those of its entry, with
/// the update strategy `none` replaced by `checkout`.
pub fn rebuild_update_options(effective: &SubmoduleEntry) -> (r: SubmoduleUpdateOptions)
    ensures
        r == (SubmoduleUpdateOptions {
            strategy: match or_value(effective.update, SerializableUpdate::Checkout) {
                SerializableUpdate::Nothing => SerializableUpdate::Checkout,
                s => s,
            },
            recursive: false,
            force: false,
            remote: false,
        }),
{
    let mut update = SubmoduleUpdateOptions::from_options(effective.git_options());
    if matches!(update.strategy, SerializableUpdate::Nothing) {
        update.strategy = SerializableUpdate::Checkout;
    }
    update
}

/// The line that previews the rebuild (or, with `kill`, the removal) of submodule `name`
/// at `path`.
pub open spec fn nuke_preview_text(name: Seq<char>, path: Seq<char>, kill: bool, force: bool) -> Seq<
    char,
> {
    let discard = if force {
        ", discarding selected checkout content"@
    } else {
        ""@
    };
    if kill {
        "Would permanently remove submodule '"@ + name + "' at '"@ + path + "'"@ + discard
            + " and retain only its recoverable Git repository."@
    } else {
        "Would rebuild submodule '"@ + name + "' at '"@ + path + "'"@ + discard
            + " while retaining its declaration, parent pin, and repository history."@
    }
}

/// The line that previews the work of `plan` (its path, or its name when it has none).
pub fn nuke_preview_line(plan: &NukePlan, kill: bool, force: bool) -> (r: String)
    ensures
        r@ == nuke_preview_text(
            plan.name@,
            match plan.effective.path {
                Some(p) => p@,
                None => plan.name@,
            },
            kill,
            force,
        ),
{
    let mut line = if kill {
        owned("Would permanently remove submodule '")
    } else {
        owned("Would rebuild submodule '")
    };
    append(&mut line, plan.name.as_str());
    append(&mut line, "' at '");
    match &plan.effective.path {
        Some(p) => append(&mut line, p.as_str()),
        None => append(&mut line, plan.name.as_str()),
    }
    append(&mut line, "'");
    if force {
        append(&mut line, ", discarding selected checkout content");
    }
    if kill {
        append(&mut line, " and retain only its recoverable Git repository.");
    } else {
        append(&mut line, " while retaining its declaration, parent pin, and repository history.");
    }
    proof {
        reveal_strlit("");
        let path = match &plan.effective.path {
            Some(p) => p@,
            None => plan.name@,
        };
        assert(line@ =~= nuke_preview_text(plan.name@, path, kill, force));
    }
    line
}

/// The closing line of a rebuild or removal of `n` submodules.
pub open spec fn nuke_summary_text(n: nat) -> Seq<char> {
    "Nuke summary: "@ + decimal(n) + " changed, 0 unchanged, 0 skipped, 0 failed."@
}

/// The closing line of a rebuild or removal of `n` submodules.
pub fn nuke_summary_line(n: usize) -> (r: String)
    ensures
        r@ == nuke_summary_text(n as nat),
{
    let mut line = owned("Nuke summary: ");
    push_decimal(&mut line, n);
    append(&mut line, " changed, 0 unchanged, 0 skipped, 0 failed.");
    line
}

/// The report of a removed submodule once every selected removal succeeded.
pub open spec fn removed_text(name: Seq<char>) -> Seq<char> {
    name
        + ": changed: removed its checkout, Git registration, and TOML declaration; retained repository history remains recoverable"@
}

/// The report of a removed submodule once every selected removal succeeded.
pub fn removed_line(name: &str) -> (r: String)
    ensures
        r@ == removed_text(name@),
{
    let mut line = owned(name);
    append(
        &mut line,
        ": changed: removed its checkout, Git registration, and TOML declaration; retained repository history remains recoverable",
    );
    line
}

/// The report of a rebuild or removal that stopped at `failed` with `error`, after
/// `completed` and before `pending`.
pub open spec fn nuke_failure_texts(
    completed: Seq<Seq<char>>,
    failed: Seq<char>,
    error: Seq<char>,
    pending: Seq<Seq<char>>,
    kill: bool,
) -> Seq<Seq<char>> {
    let head = seq![
        "Nuke stopped with a partial outcome after a runtime failure."@,
        "  completed: "@ + crate::plan::join(completed, ", "@),
        "  failed: "@ + failed + ": "@ + error,
        "  pending: "@ + crate::plan::join(pending, ", "@),
    ];
    if kill {
        head.push(
            "  completed removals already removed their checkout and registration; TOML declarations remain until every selected removal succeeds, and retained repositories remain recoverable"@,
        )
    } else {
        head.push(
            "  intended declarations, gitlinks, and retained repositories remain; repair the reported cause and retry"@,
        ).push(
            "  if native deinit left a deletion-only checkout, inspect it and rerun this nuke command with --force only when no local work is needed"@,
        )
    }
}

/// The report of a rebuild or removal that stopped at `failed` with `error` (see
/// [`nuke_failure_texts`]).
pub fn nuke_failure_report(
    completed: &Vec<String>,
    failed: &str,
    error: &str,
    pending: &Vec<String>,
    kill: bool,
) -> (r: Vec<String>)
    ensures
        texts(r@) == nuke_failure_texts(texts(completed@), failed@, error@, texts(pending@), kill),
{
    let mut lines: Vec<String> = Vec::new();
    lines.push(owned("Nuke stopped with a partial outcome after a runtime failure."));
    let mut c = owned("  completed: ");
    let cj = crate::plan::join_texts(completed, ", ");
    append(&mut c, cj.as_str());
    lines.push(c);
    let mut f = owned("  failed: ");
    append(&mut f, failed);
    append(&mut f, ": ");
    append(&mut f, error);
    lines.push(f);
    let mut p = owned("  pending: ");
    let pj = crate::plan::join_texts(pending, ", ");
    append(&mut p, pj.as_str());
    lines.push(p);
    if kill {
        lines.push(
            owned(
                "  completed removals already removed their checkout and registration; TOML declarations remain until every selected removal succeeds, and retained repositories remain recoverable",
            ),
        );
    } else {
        lines.push(
            owned(
                "  intended declarations, gitlinks, and retained repositories remain; repair the reported cause and retry",
            ),
        );
        lines.push(
            owned(
                "  if native deinit left a deletion-only checkout, inspect it and rerun this nuke command with --force only when no local work is needed",
            ),
        );
    }
    proof {
        assert(texts(lines@) =~= nuke_failure_texts(
            texts(completed@),
            failed@,
            error@,
            texts(pending@),
            kill,
        ));
    }
    lines
}

/// One step of removing or rebuilding a submodule.
#[derive(Debug, Clone, Copy, PartialEq, Eq, Structural)]
pub enum NukeStep {
    /// Remove the registered submodule (its checkout and registration).
    Delete,
    /// Rebuild the registered submodule from its declaration.
    Rebuild,
    /// Register the unregistered submodule from its declaration.
    Add,
    /// Write the managed settings into git's metadata.
    Sync,
    /// Apply the declared sparse checkout.
    ConfigureSparse,
}

/// The steps for a submodule: with `kill`, a registered one is deleted (an unregistered
/// one needs nothing); else it is rebuilt (registered) or added (unregistered), its
/// settings synced, and its sparse checkout applied when it declares sparse paths.
pub open spec fn nuke_steps_of(registered: bool, kill: bool, sparse: bool) -> Seq<NukeStep> {
    if kill {
        if registered {
            seq![NukeStep::Delete]
        } else {
            Seq::empty()
        }
    } else {
        let first = if registered {
            NukeStep::Rebuild
        } else {
            NukeStep::Add
        };
        if sparse {
            seq![first, NukeStep::Sync, NukeStep::ConfigureSparse]
        } else {
            seq![first, NukeStep::Sync]
        }
    }
}

/// The steps that remove (`kill`) or rebuild the planned submodule (see
/// [`nuke_steps_of`]).
pub fn nuke_steps(plan: &NukePlan, kill: bool) -> (r: Vec<NukeStep>)
    ensures
        r@ == nuke_steps_of(plan.registered, kill, plan.effective.sparse_paths is Some),
{
    let mut steps: Vec<NukeStep> = Vec::new();
    if kill {
        if plan.registered {
            steps.push(NukeStep::Delete);
        }
    } else {
        steps.push(if plan.registered { NukeStep::Rebuild } else { NukeStep::Add });
        steps.push(NukeStep::Sync);
        if plan.effective.sparse_paths.is_some() {
            steps.push(NukeStep::ConfigureSparse);
        }
    }
    proof {
        assert(steps@ =~= nuke_steps_of(plan.registered, kill, plan.effective.sparse_paths is Some));
    }
    steps
}

/// The line shown as a submodule is removed (`kill`) or rebuilt.
pub fn nuke_progress_line(name: &str, kill: bool) -> (r: String)
    ensures
        r@ == (if kill {
            "Removing"@
        } else {
            "Rebuilding"@
        }) + " submodule '"@ + name@ + "'..."@,
{
    let mut line = if kill {
        owned("Removing")
    } else {
        owned("Rebuilding")
    };
    line.append(" submodule '");
    line.append(name);
    line.append("'...");
    line
}

/// The line shown once a rebuilt submodule's settings are written again.
pub fn reinitialized_line(name: &str) -> (r: String)
    ensures
        r@ == "Reinitialized submodule '"@ + name@ + "'."@,
{
    let mut line = owned("Reinitialized submodule '");
    line.append(name);
    line.append("'.");
    line
}

/// What rebuilding or removing does to one submodule: with `kill`, a registered
/// submodule is deleted and nothing else happens; without it, a registered submodule is
/// rebuilt and an unregistered one added, its settings are synced, and its sparse
/// checkout is applied exactly when it declares sparse paths, last, whether it was
/// registered or not.
pub proof fn lemma_nuke_steps(registered: bool, kill: bool, sparse: bool)
    ensures
        ({
            let s = nuke_steps_of(registered, kill, sparse);
            &&& kill ==> s == (if registered {
                seq![NukeStep::Delete]
            } else {
                Seq::<NukeStep>::empty()
            })
            &&& !kill ==> s.len() >= 2 && s[0] == (if registered {
                NukeStep::Rebuild
            } else {
                NukeStep::Add
            }) && s[1] == NukeStep::Sync
            &&& !kill ==> (s.contains(NukeStep::ConfigureSparse) <==> sparse)
            &&& !kill && sparse ==> s.last() == NukeStep::ConfigureSparse
            &&& !kill ==> !s.contains(NukeStep::Delete)
        }),
{
    let s = nuke_steps_of(registered, kill, sparse);
    if !kill {
        if sparse {
            assert(s[2] == NukeStep::ConfigureSparse);
        } else {
            assert(s.len() == 2);
            assert(s[0] != NukeStep::ConfigureSparse);
            assert(s[1] != NukeStep::ConfigureSparse);
        }
        assert(forall|i: int| 0 <= i < s.len() ==> s[i] != NukeStep::Delete);
    }
}

} // verus!
