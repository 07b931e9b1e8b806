//! Edits of the declarations requested on the command line: a submodule's settings
//! (`change`) and the project defaults (`change-global`), with the fields each edit
//! touches.
use vstd::prelude::*;

use crate::commands::UnsetSetting;
use crate::config::{
    copy_texts, opt_branch, opt_text, texts, EntryView, SubmoduleDefaults, SubmoduleEntry,
};
use crate::declarations::{defaults_view, DefaultsView};
use crate::errors::SubmoduleError;
use crate::options::{
    branch_from_text, BranchView, SerializableBranch, SerializableFetchRecurse, SerializableIgnore,
    SerializableUpdate,
};
use crate::text::{concat2, trim_seq};

verus! {

/// The field of `submod.toml` an unset setting removes.
pub open spec fn unset_field(s: UnsetSetting) -> Seq<char> {
    match s {
        UnsetSetting::Branch => "branch"@,
        UnsetSetting::Ignore => "ignore"@,
        UnsetSetting::Fetch => "fetchRecurse"@,
        UnsetSetting::Update => "update"@,
        UnsetSetting::Shallow => "shallow"@,
        UnsetSetting::Active => "active"@,
        UnsetSetting::UseGitDefaultSparseCheckout => "use_git_default_sparse_checkout"@,
    }
}

fn unset_field_name(s: UnsetSetting) -> (r: &'static str)
    ensures
        r@ == unset_field(s),
{
    match s {
        UnsetSetting::Branch => "branch",
        UnsetSetting::Ignore => "ignore",
        UnsetSetting::Fetch => "fetchRecurse",
        UnsetSetting::Update => "update",
        UnsetSetting::Shallow => "shallow",
        UnsetSetting::Active => "active",
        UnsetSetting::UseGitDefaultSparseCheckout => "use_git_default_sparse_checkout",
    }
}

/// The settings a `change` command gives for one submodule.
#[derive(Debug, Clone)]
pub struct ChangeRequest {
    pub path: Option<String>,
    pub branch: Option<String>,
    pub sparse_paths: Option<Vec<String>>,
    pub append_sparse: bool,
    pub ignore: Option<SerializableIgnore>,
    pub fetch: Option<SerializableFetchRecurse>,
    pub update: Option<SerializableUpdate>,
    pub shallow: Option<bool>,
    pub url: Option<String>,
    pub active: Option<bool>,
    pub use_git_default_sparse_checkout: Option<bool>,
    pub unset: Vec<UnsetSetting>,
    pub clear_sparse_paths: bool,
}

/// An entry with one setting removed.
pub open spec fn entry_without(e: EntryView, s: UnsetSetting) -> EntryView {
    match s {
        UnsetSetting::Branch => EntryView { branch: None, ..e },
        UnsetSetting::Ignore => EntryView { ignore: None, ..e },
        UnsetSetting::Fetch => EntryView { fetch_recurse: None, ..e },
        UnsetSetting::Update => EntryView { update: None, ..e },
        UnsetSetting::Shallow => EntryView { shallow: None, ..e },
        UnsetSetting::Active => EntryView { active: None, ..e },
        UnsetSetting::UseGitDefaultSparseCheckout => EntryView {
            use_git_default_sparse_checkout: None,
            ..e
        },
    }
}

/// An entry with the settings in `unset` removed.
pub open spec fn entry_without_all(e: EntryView, unset: Seq<UnsetSetting>) -> EntryView
    decreases unset.len(),
{
    if unset.len() == 0 {
        e
    } else {
        entry_without(entry_without_all(e, unset.drop_last()), unset.last())
    }
}

/// The branch that a `--branch` value sets: the trimmed text read as an alias or a
/// name, and `HEAD` for an empty value.
pub open spec fn branch_setting(b: Seq<char>) -> BranchView {
    if b.len() > 0 {
        branch_from_text(trim_seq(b))
    } else {
        BranchView::Name("HEAD"@)
    }
}

/// The entry after the settings given by a change request are set (before the sparse
/// patterns).
pub open spec fn given_settings(a: EntryView, q: ChangeRequest) -> EntryView {
    EntryView {
        path: match q.path {
            Some(p) => Some(p@),
            None => a.path,
        },
        branch: match q.branch {
            Some(x) => Some(branch_setting(x@)),
            None => a.branch,
        },
        ignore: match q.ignore {
            Some(x) => Some(x),
            None => a.ignore,
        },
        fetch_recurse: match q.fetch {
            Some(x) => Some(x),
            None => a.fetch_recurse,
        },
        update: match q.update {
            Some(x) => Some(x),
            None => a.update,
        },
        url: match q.url {
            Some(x) => Some(x@),
            None => a.url,
        },
        active: match q.active {
            Some(x) => Some(x),
            None => a.active,
        },
        shallow: match q.shallow {
            Some(x) => Some(x),
            None => a.shallow,
        },
        use_git_default_sparse_checkout: match q.use_git_default_sparse_checkout {
            Some(x) => Some(x),
            None => a.use_git_default_sparse_checkout,
        },
        ..a
    }
}

/// The sparse patterns after a change request.
pub open spec fn given_sparse(old: Option<Seq<Seq<char>>>, q: ChangeRequest) -> Option<Seq<Seq<char>>> {
    let c = if q.clear_sparse_paths {
        Some(Seq::empty())
    } else {
        old
    };
    match q.sparse_paths {
        Some(ps) => if q.append_sparse {
            Some(crate::config::or_value(c, Seq::empty()) + texts(ps@))
        } else {
            Some(texts(ps@))
        },
        None => c,
    }
}

/// The entry after a change request: settings in `unset` are removed first, then
/// every given setting is set; `clear_sparse_paths` empties the patterns, and new
/// patterns replace them (or are appended to them with `append_sparse`).
pub open spec fn changed_entry(e: EntryView, q: ChangeRequest) -> EntryView {
    let b = given_settings(entry_without_all(e, q.unset@), q);
    EntryView { sparse_paths: given_sparse(b.sparse_paths, q), ..b }
}

/// `s` with `name` appended when `given`.
#[verifier::opaque]
pub open spec fn push_if(s: Seq<Seq<char>>, given: bool, name: Seq<char>) -> Seq<Seq<char>> {
    if given {
        s.push(name)
    } else {
        s
    }
}

/// The fields that the given settings of a change request edit, in order.
pub open spec fn given_fields(q: ChangeRequest) -> Seq<Seq<char>> {
    let a = push_if(Seq::empty(), q.path is Some, "path"@);
    let b = push_if(a, q.branch is Some, "branch"@);
    let c = push_if(b, q.ignore is Some, "ignore"@);
    let d = push_if(c, q.fetch is Some, "fetchRecurse"@);
    let e = push_if(d, q.update is Some, "update"@);
    let f = push_if(e, q.url is Some, "url"@);
    let g = push_if(f, q.active is Some, "active"@);
    let h = push_if(g, q.shallow is Some, "shallow"@);
    let i = push_if(h, q.use_git_default_sparse_checkout is Some, "use_git_default_sparse_checkout"@);
    let j = push_if(i, q.clear_sparse_paths, "sparse_paths"@);
    push_if(j, q.sparse_paths is Some, "sparse_paths"@)
}

/// The fields a change request edits, in the order it edits them: the unset ones,
/// then the given ones.
pub open spec fn changed_fields(q: ChangeRequest) -> Seq<Seq<char>> {
    q.unset@.map_values(|s: UnsetSetting| unset_field(s)) + given_fields(q)
}

/// The views of static strings.
pub open spec fn texts_of(v: Seq<&'static str>) -> Seq<Seq<char>> {
    v.map_values(|s: &'static str| s@)
}

/// Append the field to the list when `given`.
fn note(fields: &mut Vec<&'static str>, given: bool, name: &'static str)
    ensures
        texts_of(final(fields)@) == push_if(texts_of(old(fields)@), given, name@),
{
    proof {
        reveal(push_if);
        if !given {
            assert(texts_of(fields@) == push_if(texts_of(old(fields)@), given, name@));
        }
    }
    if given {
        fields.push(name);
        proof {
            assert(texts_of(fields@) =~= texts_of(old(fields)@).push(name@));
        }
    }
}

/// Remove the settings in `unset` and list their fields.
fn remove_settings(e: &mut SubmoduleEntry, unset: &Vec<UnsetSetting>) -> (r: Vec<&'static str>)
    ensures
        final(e)@ == entry_without_all(old(e)@, unset@),
        texts_of(r@) == unset@.map_values(|s: UnsetSetting| unset_field(s)),
{
    let ghost start = e@;
    let ghost uf = |s: UnsetSetting| unset_field(s);
    let mut fields: Vec<&'static str> = Vec::new();
    let mut i: usize = 0;
    proof {
        assert(unset@.subrange(0, 0) =~= Seq::<UnsetSetting>::empty());
        assert(texts_of(fields@) =~= unset@.subrange(0, 0).map_values(uf));
    }
    while i < unset.len()
        invariant
            i <= unset@.len(),
            uf == (|s: UnsetSetting| unset_field(s)),
            e@ == entry_without_all(start, unset@.subrange(0, i as int)),
            texts_of(fields@) == unset@.subrange(0, i as int).map_values(uf),
        decreases unset@.len() - i,
    {
        let s = unset[i];
        match s {
            UnsetSetting::Branch => e.branch = None,
            UnsetSetting::Ignore => e.ignore = None,
            UnsetSetting::Fetch => e.fetch_recurse = None,
            UnsetSetting::Update => e.update = None,
            UnsetSetting::Shallow => e.shallow = None,
            UnsetSetting::Active => e.active = None,
            UnsetSetting::UseGitDefaultSparseCheckout => e.use_git_default_sparse_checkout = None,
        }
        let ghost before = texts_of(fields@);
        fields.push(unset_field_name(s));
        proof {
            assert(unset@.subrange(0, i + 1).drop_last() =~= unset@.subrange(0, i as int));
            assert(texts_of(fields@) =~= before.push(unset_field(s)));
            assert(unset@.subrange(0, i + 1).map_values(uf) =~= unset@.subrange(
                0,
                i as int,
            ).map_values(uf).push(uf(s)));
        }
        i = i + 1;
    }
    proof {
        assert(unset@.subrange(0, unset@.len() as int) =~= unset@);
    }
    fields
}

/// The fields the given settings edit (see [`given_fields`]).
fn given_field_names(q: &ChangeRequest) -> (r: Vec<&'static str>)
    ensures
        texts_of(r@) == given_fields(*q),
{
    let mut fields: Vec<&'static str> = Vec::new();
    proof {
        assert(texts_of(fields@) =~= Seq::<Seq<char>>::empty());
    }
    note(&mut fields, q.path.is_some(), "path");
    note(&mut fields, q.branch.is_some(), "branch");
    note(&mut fields, q.ignore.is_some(), "ignore");
    note(&mut fields, q.fetch.is_some(), "fetchRecurse");
    note(&mut fields, q.update.is_some(), "update");
    note(&mut fields, q.url.is_some(), "url");
    note(&mut fields, q.active.is_some(), "active");
    note(&mut fields, q.shallow.is_some(), "shallow");
    note(
        &mut fields,
        q.use_git_default_sparse_checkout.is_some(),
        "use_git_default_sparse_checkout",
    );
    note(&mut fields, q.clear_sparse_paths, "sparse_paths");
    note(&mut fields, q.sparse_paths.is_some(), "sparse_paths");
    fields
}

/// Set the settings a change request gives (see [`given_settings`]).
fn set_given(e: &mut SubmoduleEntry, q: &ChangeRequest)
    ensures
        final(e)@ == given_settings(old(e)@, *q),
{
    match &q.path {
        Some(p) => e.path = Some(p.clone()),
        None => {},
    }
    match &q.branch {
        Some(b) => {
            e.branch = match SerializableBranch::set_branch(Some(b.clone())) {
                Ok(v) => Some(v),
                Err(()) => None,
            };
        },
        None => {},
    }
    match q.ignore {
        Some(x) => e.ignore = Some(x),
        None => {},
    }
    match q.fetch {
        Some(x) => e.fetch_recurse = Some(x),
        None => {},
    }
    match q.update {
        Some(x) => e.update = Some(x),
        None => {},
    }
    match &q.url {
        Some(x) => e.url = Some(x.clone()),
        None => {},
    }
    match q.active {
        Some(x) => e.active = Some(x),
        None => {},
    }
    match q.shallow {
        Some(x) => e.shallow = Some(x),
        None => {},
    }
    match q.use_git_default_sparse_checkout {
        Some(x) => e.use_git_default_sparse_checkout = Some(x),
        None => {},
    }
}

/// Set the sparse patterns a change request gives (see [`given_sparse`]).
fn set_sparse(e: &mut SubmoduleEntry, q: &ChangeRequest)
    ensures
        final(e)@ == (EntryView { sparse_paths: given_sparse(old(e)@.sparse_paths, *q), ..old(e)@ }),
{
    if q.clear_sparse_paths {
        e.sparse_paths = Some(Vec::new());
        proof {
            assert(texts(Seq::<String>::empty()) =~= Seq::<Seq<char>>::empty());
        }
    }
    let ghost mid = e@.sparse_paths;
    assert(mid == if q.clear_sparse_paths { Some(Seq::<Seq<char>>::empty()) } else { old(e)@.sparse_paths });
    match &q.sparse_paths {
        Some(ps) => {
            if q.append_sparse {
                let mut all = match &e.sparse_paths {
                    Some(old) => copy_texts(old),
                    None => Vec::new(),
                };
                let ghost start = all@;
                let mut j: usize = 0;
                while j < ps.len()
                    invariant
                        j <= ps@.len(),
                        all@ == start + ps@.subrange(0, j as int),
                    decreases ps@.len() - j,
                {
                    all.push(ps[j].clone());
                    proof {
                        assert(start + ps@.subrange(0, j + 1) =~= (start + ps@.subrange(
                            0,
                            j as int,
                        )).push(ps@[j as int]));
                    }
                    j = j + 1;
                }
                proof {
                    assert(ps@.subrange(0, ps@.len() as int) =~= ps@);
                    assert(texts(all@) =~= texts(start) + texts(ps@));
                    assert(texts(start) == crate::config::or_value(mid, Seq::empty())) by {
                        if mid is None {
                            assert(texts(start) =~= Seq::<Seq<char>>::empty());
                        }
                    }
                }
                e.sparse_paths = Some(all);
            } else {
                e.sparse_paths = Some(copy_texts(ps));
            }
        },
        None => {},
    }
}

/// Apply a change request to the entry (see [`changed_entry`]) and list the fields it
/// edits (see [`changed_fields`]).
pub fn change_entry(entry: &SubmoduleEntry, q: &ChangeRequest) -> (r: (SubmoduleEntry, Vec<&'static str>))
    ensures
        r.0@ == changed_entry(entry@, *q),
        texts_of(r.1@) == changed_fields(*q),
{
    let mut e = entry.duplicate();
    let mut fields = remove_settings(&mut e, &q.unset);
    set_given(&mut e, q);
    set_sparse(&mut e, q);
    let mut more = given_field_names(q);
    let ghost f0 = texts_of(fields@);
    let ghost m0 = texts_of(more@);
    fields.append(&mut more);
    proof {
        assert(texts_of(fields@) =~= f0 + m0);
    }
    (e, fields)
}

/// The defaults a `change-global` command gives.
#[derive(Debug, Clone)]
pub struct GlobalChange {
    pub branch: Option<SerializableBranch>,
    pub ignore: Option<SerializableIgnore>,
    pub fetch_recurse: Option<SerializableFetchRecurse>,
    pub update: Option<SerializableUpdate>,
    pub use_git_default_sparse_checkout: Option<bool>,
    pub unset: Vec<UnsetSetting>,
}

/// Defaults with one setting removed (settings without a default are left alone).
pub open spec fn defaults_without(d: DefaultsView, s: UnsetSetting) -> DefaultsView {
    match s {
        UnsetSetting::Branch => DefaultsView { branch: None, ..d },
        UnsetSetting::Ignore => DefaultsView { ignore: None, ..d },
        UnsetSetting::Fetch => DefaultsView { fetch_recurse: None, ..d },
        UnsetSetting::Update => DefaultsView { update: None, ..d },
        UnsetSetting::UseGitDefaultSparseCheckout => DefaultsView {
            use_git_default_sparse_checkout: None,
            ..d
        },
        _ => d,
    }
}

/// Defaults with the settings in `unset` removed.
pub open spec fn defaults_without_all(d: DefaultsView, unset: Seq<UnsetSetting>) -> DefaultsView
    decreases unset.len(),
{
    if unset.len() == 0 {
        d
    } else {
        defaults_without(defaults_without_all(d, unset.drop_last()), unset.last())
    }
}

/// Whether a change-global command gives nothing to change.
pub open spec fn global_change_empty(q: GlobalChange) -> bool {
    q.branch is None && q.ignore is None && q.fetch_recurse is None && q.update is None
        && q.use_git_default_sparse_checkout is None && q.unset@.len() == 0
}

/// The defaults after a change-global command.
pub open spec fn changed_defaults(d: DefaultsView, q: GlobalChange) -> DefaultsView {
    let a = defaults_without_all(d, q.unset@);
    DefaultsView {
        branch: match q.branch {
            Some(b) => Some(b@),
            None => a.branch,
        },
        ignore: match q.ignore {
            Some(x) => Some(x),
            None => a.ignore,
        },
        fetch_recurse: match q.fetch_recurse {
            Some(x) => Some(x),
            None => a.fetch_recurse,
        },
        update: match q.update {
            Some(x) => Some(x),
            None => a.update,
        },
        use_git_default_sparse_checkout: match q.use_git_default_sparse_checkout {
            Some(x) => Some(x),
            None => a.use_git_default_sparse_checkout,
        },
    }
}

/// The fields a change-global command edits, in order.
pub open spec fn changed_default_fields(q: GlobalChange) -> Seq<Seq<char>> {
    let u = q.unset@.map_values(|s: UnsetSetting| unset_field(s));
    let a = push_if(u, q.branch is Some, "branch"@);
    let b = push_if(a, q.ignore is Some, "ignore"@);
    let c = push_if(b, q.fetch_recurse is Some, "fetchRecurse"@);
    let d = push_if(c, q.update is Some, "update"@);
    push_if(d, q.use_git_default_sparse_checkout is Some, "use_git_default_sparse_checkout"@)
}

/// The index of the first unset setting without a project-wide default, or -1.
pub open spec fn first_unsupported(unset: Seq<UnsetSetting>, i: int) -> int
    decreases unset.len() - i,
{
    if i < 0 || i >= unset.len() {
        -1
    } else if unset[i] is Shallow || unset[i] is Active {
        i
    } else {
        first_unsupported(unset, i + 1)
    }
}

/// The view of a configuration error.
pub open spec fn config_error(e: SubmoduleError) -> Option<Seq<char>> {
    match e {
        SubmoduleError::ConfigError(m) => Some(m@),
        _ => None,
    }
}

/// Apply a change-global command to the defaults: the error "No settings provided to
/// change." when it gives nothing, the error "Unsupported global setting to unset:
/// {setting}" for the first unset setting without a default, else the new defaults and
/// the fields edited.
pub fn change_defaults(d: &SubmoduleDefaults, q: &GlobalChange) -> (r: Result<
    (SubmoduleDefaults, Vec<&'static str>),
    SubmoduleError,
>)
    ensures
        global_change_empty(*q) ==> (r matches Err(e) && config_error(e) == Some(
            "No settings provided to change."@,
        )),
        !global_change_empty(*q) && 0 <= first_unsupported(q.unset@, 0) ==> (r matches Err(e)
            && config_error(e) == Some(
            "Unsupported global setting to unset: "@ + crate::commands::unset_name(
                q.unset@[first_unsupported(q.unset@, 0)],
            ),
        )),
        !global_change_empty(*q) && first_unsupported(q.unset@, 0) < 0 ==> (r matches Ok(p)
            && defaults_view(p.0) == changed_defaults(defaults_view(*d), *q) && texts_of(p.1@)
            == changed_default_fields(*q)),
{
    if q.branch.is_none() && q.ignore.is_none() && q.fetch_recurse.is_none() && q.update.is_none()
        && q.use_git_default_sparse_checkout.is_none() && q.unset.len() == 0 {
        return Err(SubmoduleError::ConfigError(String::from_str("No settings provided to change.")));
    }
    let mut out = SubmoduleDefaults {
        branch: crate::config::copy_branch(&d.branch),
        ignore: d.ignore,
        fetch_recurse: d.fetch_recurse,
        update: d.update,
        use_git_default_sparse_checkout: d.use_git_default_sparse_checkout,
    };
    let ghost uf = |s: UnsetSetting| unset_field(s);
    let mut fields: Vec<&'static str> = Vec::new();
    let mut i: usize = 0;
    proof {
        assert(q.unset@.subrange(0, 0) =~= Seq::<UnsetSetting>::empty());
        assert(texts_of(fields@) =~= q.unset@.subrange(0, 0).map_values(uf));
    }
    while i < q.unset.len()
        invariant
            i <= q.unset@.len(),
            uf == (|s: UnsetSetting| unset_field(s)),
            first_unsupported(q.unset@, 0) == first_unsupported(q.unset@, i as int),
            defaults_view(out) == defaults_without_all(defaults_view(*d), q.unset@.subrange(0, i as int)),
            texts_of(fields@) == q.unset@.subrange(0, i as int).map_values(uf),
        decreases q.unset@.len() - i,
    {
        let s = q.unset[i];
        match s {
            UnsetSetting::Branch => out.branch = None,
            UnsetSetting::Ignore => out.ignore = None,
            UnsetSetting::Fetch => out.fetch_recurse = None,
            UnsetSetting::Update => out.update = None,
            UnsetSetting::UseGitDefaultSparseCheckout => out.use_git_default_sparse_checkout = None,
            UnsetSetting::Shallow | UnsetSetting::Active => {
                return Err(
                    SubmoduleError::ConfigError(
                        concat2("Unsupported global setting to unset: ", s.as_str()),
                    ),
                );
            },
        }
        let ghost before = texts_of(fields@);
        fields.push(unset_field_name(s));
        proof {
            assert(q.unset@.subrange(0, i + 1).drop_last() =~= q.unset@.subrange(0, i as int));
            assert(texts_of(fields@) =~= before.push(unset_field(s)));
            assert(q.unset@.subrange(0, i + 1).map_values(uf) =~= q.unset@.subrange(
                0,
                i as int,
            ).map_values(uf).push(uf(s)));
        }
        i = i + 1;
    }
    proof {
        assert(q.unset@.subrange(0, q.unset@.len() as int) =~= q.unset@);
    }
    match &q.branch {
        Some(b) => out.branch = Some(b.duplicate()),
        None => {},
    }
    note(&mut fields, q.branch.is_some(), "branch");
    match q.ignore {
        Some(x) => out.ignore = Some(x),
        None => {},
    }
    note(&mut fields, q.ignore.is_some(), "ignore");
    match q.fetch_recurse {
        Some(x) => out.fetch_recurse = Some(x),
        None => {},
    }
    note(&mut fields, q.fetch_recurse.is_some(), "fetchRecurse");
    match q.update {
        Some(x) => out.update = Some(x),
        None => {},
    }
    note(&mut fields, q.update.is_some(), "update");
    match q.use_git_default_sparse_checkout {
        Some(x) => out.use_git_default_sparse_checkout = Some(x),
        None => {},
    }
    note(
        &mut fields,
        q.use_git_default_sparse_checkout.is_some(),
        "use_git_default_sparse_checkout",
    );
    Ok((out, fields))
}

} // verus!
