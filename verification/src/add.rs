//! Adding a submodule: the check that its name is free, the declaration and the native
//! registration it leads to, and how a preview describes it.
use vstd::prelude::*;

use crate::config::{
    copy_branch, opt_branch, or_value, Config, EntryView, SubmoduleAddOptions, SubmoduleDefaults,
    SubmoduleEntry,
};
use crate::errors::SubmoduleError;
use crate::gitconfig::{managed_entry, managed_view};
use crate::options::{
    branch_text, SerializableBranch, SerializableFetchRecurse, SerializableIgnore,
    SerializableUpdate,
};
use crate::text::{debug_str, debug_text, owned};

verus! {

fn append(a: &mut String, b: &str)
    ensures
        final(a)@ == old(a)@ + b@,
{
    a.append(b);
}

/// The error when `name` is already declared: `submodule "name" is already declared`
/// (the name quoted as `Debug` shows it).
pub fn check_addable(config: &Config, name: &str) -> (r: Result<(), SubmoduleError>)
    ensures
        r is Ok <==> !config.submodules@.contains_key(name@),
        r matches Err(e) ==> (e matches SubmoduleError::ConfigError(m) && m@ == "submodule "@
            + debug_text(name@) + " is already declared"@),
{
    if config.submodules.contains_key(name) {
        let mut m = owned("submodule ");
        let q = debug_str(name);
        append(&mut m, q.as_str());
        append(&mut m, " is already declared");
        Err(SubmoduleError::ConfigError(m))
    } else {
        Ok(())
    }
}

/// `v` without the "not given" sentinel: `None` where it holds `sentinel`.
pub open spec fn without_sentinel<T>(v: Option<T>, sentinel: T) -> Option<T> {
    if v == Some(sentinel) {
        None
    } else {
        v
    }
}

/// The declaration stored for an added submodule: `e` with the sparse patterns asked for
/// (when given) and without the "not given" sentinels of its ignore, fetch-recurse and
/// update settings.
pub open spec fn stored_view(e: EntryView, sparse: Option<Seq<Seq<char>>>) -> EntryView {
    EntryView {
        sparse_paths: if sparse is Some {
            sparse
        } else {
            e.sparse_paths
        },
        ignore: without_sentinel(e.ignore, SerializableIgnore::Unspecified),
        fetch_recurse: without_sentinel(e.fetch_recurse, SerializableFetchRecurse::Unspecified),
        update: without_sentinel(e.update, SerializableUpdate::Unspecified),
        ..e
    }
}

/// The declaration stored for an added submodule (see [`stored_view`]).
pub fn stored_entry(entry: SubmoduleEntry, sparse_paths: Option<Vec<String>>) -> (r: SubmoduleEntry)
    ensures
        r@ == stored_view(entry@, crate::config::opt_texts(sparse_paths)),
{
    let mut e = entry;
    match sparse_paths {
        Some(p) => {
            e.sparse_paths = Some(p);
        },
        None => {},
    }
    if matches!(e.ignore, Some(SerializableIgnore::Unspecified)) {
        e.ignore = None;
    }
    if matches!(e.fetch_recurse, Some(SerializableFetchRecurse::Unspecified)) {
        e.fetch_recurse = None;
    }
    if matches!(e.update, Some(SerializableUpdate::Unspecified)) {
        e.update = None;
    }
    e
}

/// What an `add` command asks for, with the checkout path already validated and stored
/// in its portable form.
#[derive(Debug, Clone)]
pub struct AddRequest {
    pub name: String,
    pub path: String,
    pub url: String,
    pub sparse_paths: Option<Vec<String>>,
    pub branch: Option<SerializableBranch>,
    pub ignore: Option<SerializableIgnore>,
    pub fetch_recurse: Option<SerializableFetchRecurse>,
    pub update: Option<SerializableUpdate>,
    pub shallow: Option<bool>,
    pub no_init: bool,
    pub use_git_default_sparse_checkout: Option<bool>,
}

/// What an add writes and registers.
#[derive(Debug, Clone)]
pub struct AddPlan {
    /// The submodule's name.
    pub name: String,
    /// The stored checkout path.
    pub path: String,
    /// The declaration written to `submod.toml`.
    pub raw_entry: SubmoduleEntry,
    /// The declaration's managed settings under the project defaults.
    pub managed: SubmoduleEntry,
    /// How the submodule is registered natively.
    pub options: SubmoduleAddOptions,
    /// The sparse patterns asked for.
    pub sparse_paths: Option<Vec<String>>,
    /// Whether only the declaration is written.
    pub no_init: bool,
}

/// The declaration an add request writes: its path, URL and settings, with the active
/// and no-init flags left unset.
pub open spec fn declared_entry(q: AddRequest) -> EntryView {
    EntryView {
        path: Some(q.path@),
        url: Some(q.url@),
        branch: opt_branch(q.branch),
        ignore: q.ignore,
        update: q.update,
        fetch_recurse: q.fetch_recurse,
        active: None,
        shallow: q.shallow,
        no_init: None,
        sparse_paths: crate::config::opt_texts(q.sparse_paths),
        use_git_default_sparse_checkout: q.use_git_default_sparse_checkout,
    }
}

/// The plan of an add request under the project defaults `d` (see [`declared_entry`]):
/// the native registration uses the request's name, path and URL with the managed
/// settings, shallow only when asked.
pub fn plan_add(d: &SubmoduleDefaults, q: AddRequest) -> (r: AddPlan)
    ensures
        r.name == q.name,
        r.path == q.path,
        r.raw_entry@ == declared_entry(q),
        r.managed@ == managed_view(declared_entry(q), *d),
        r.options.name == q.name,
        r.options.path@ == q.path@,
        r.options.url == q.url,
        opt_branch(r.options.branch) == r.managed@.branch,
        r.options.ignore == r.managed@.ignore,
        r.options.update == r.managed@.update,
        r.options.fetch_recurse == r.managed@.fetch_recurse,
        r.options.shallow == or_value(q.shallow, false),
        r.options.no_init == q.no_init,
        crate::config::opt_texts(r.sparse_paths) == crate::config::opt_texts(q.sparse_paths),
        r.no_init == q.no_init,
{
    let raw_entry = SubmoduleEntry {
        path: Some(q.path.clone()),
        url: Some(q.url.clone()),
        branch: copy_branch(&q.branch),
        ignore: q.ignore,
        update: q.update,
        fetch_recurse: q.fetch_recurse,
        active: None,
        shallow: q.shallow,
        no_init: None,
        sparse_paths: match &q.sparse_paths {
            Some(v) => Some(crate::config::copy_texts(v)),
            None => None,
        },
        use_git_default_sparse_checkout: q.use_git_default_sparse_checkout,
    };
    let managed = managed_entry(&raw_entry, d);
    let options = SubmoduleAddOptions {
        name: q.name.clone(),
        path: q.path.clone(),
        url: q.url.clone(),
        branch: copy_branch(&managed.branch),
        ignore: managed.ignore,
        update: managed.update,
        fetch_recurse: managed.fetch_recurse,
        shallow: match managed.shallow {
            Some(s) => s,
            None => false,
        },
        no_init: q.no_init,
    };
    AddPlan {
        name: q.name,
        path: q.path,
        raw_entry,
        managed,
        options,
        sparse_paths: q.sparse_paths,
        no_init: q.no_init,
    }
}

/// The line that previews an add: a declaration-only add writes the TOML declaration
/// only; otherwise the clone, its branch (or the remote default branch), the staging,
/// the settings and the declaration are described, with a note when the update policy
/// is `none`.
pub open spec fn add_preview_text(
    name: Seq<char>,
    path: Seq<char>,
    url: Seq<char>,
    managed: EntryView,
    no_init: bool,
) -> Seq<char> {
    if no_init {
        name + " at "@ + path
            + ": would-change: write the TOML declaration only; no Git metadata, index, checkout, or remote access."@
    } else {
        let branch = match managed.branch {
            Some(b) => "branch "@ + branch_text(b),
            None => "the remote default branch"@,
        };
        let policy = if managed.update == Some(SerializableUpdate::Nothing) {
            "; the explicit add still creates this initial checkout despite update=none"@
        } else {
            ""@
        };
        name + " at "@ + path + ": would-change: clone from "@ + url + " using "@ + branch
            + ", stage its .gitmodules registration and resulting gitlink, reconcile managed Git settings, and write the TOML declaration"@
            + policy + "."@
    }
}

/// The line that previews the add of `plan` (see [`add_preview_text`]).
pub fn add_preview_line(plan: &AddPlan) -> (r: String)
    ensures
        r@ == add_preview_text(plan.name@, plan.path@, plan.options.url@, plan.managed@, plan.no_init),
{
    let mut line = owned(plan.name.as_str());
    append(&mut line, " at ");
    append(&mut line, plan.path.as_str());
    if plan.no_init {
        append(
            &mut line,
            ": would-change: write the TOML declaration only; no Git metadata, index, checkout, or remote access.",
        );
        return line;
    }
    append(&mut line, ": would-change: clone from ");
    append(&mut line, plan.options.url.as_str());
    append(&mut line, " using ");
    match &plan.managed.branch {
        Some(b) => {
            append(&mut line, "branch ");
            let t = b.display_text();
            append(&mut line, t.as_str());
        },
        None => append(&mut line, "the remote default branch"),
    }
    append(
        &mut line,
        ", stage its .gitmodules registration and resulting gitlink, reconcile managed Git settings, and write the TOML declaration",
    );
    if matches!(plan.managed.update, Some(SerializableUpdate::Nothing)) {
        append(&mut line, "; the explicit add still creates this initial checkout despite update=none");
    }
    append(&mut line, ".");
    proof {
        reveal_strlit("");
        let m = plan.managed@;
        let branch = match m.branch {
            Some(b) => "branch "@ + branch_text(b),
            None => "the remote default branch"@,
        };
        let policy = if m.update == Some(SerializableUpdate::Nothing) {
            "; the explicit add still creates this initial checkout despite update=none"@
        } else {
            ""@
        };
        assert(line@ =~= plan.name@ + " at "@ + plan.path@ + ": would-change: clone from "@ + plan.options.url@ + " using "@ + branch
            + ", stage its .gitmodules registration and resulting gitlink, reconcile managed Git settings, and write the TOML declaration"@
            + policy + "."@);
    }
    line
}

} // verus!
