//! Bringing git's layers of a submodule's settings to the managed values: `.gitmodules`
//! (the portable layer), the superproject's `.git/config` (the local layer) and, when
//! the repository keeps per-worktree configuration, the worktree layer.
use vstd::prelude::*;

use crate::config::opt_text;
use crate::text::{owned, str_eq};

verus! {

/// What syncing one managed field writes.
#[derive(Debug, Clone, Copy, PartialEq, Eq, Structural)]
pub struct FieldSync {
    /// Write the desired value (or its absence) into `.gitmodules`.
    pub write_portable: bool,
    /// Write the desired value (or its absence) into the local layer; never for `url`,
    /// whose local value git derives when it syncs the URL.
    pub write_local: bool,
    /// Remove the worktree layer's value, which would override the others.
    pub clear_worktree: bool,
    /// The URL's layers changed, so git must sync the URL.
    pub url_changed: bool,
}

/// What syncing the managed field `field` to `desired` writes, given its `.gitmodules`
/// value `portable`, its local value `local`, and whether the worktree layer (when the
/// repository has one) sets it.
pub open spec fn sync_of(
    field: Seq<char>,
    desired: Option<Seq<char>>,
    portable: Option<Seq<char>>,
    local: Option<Seq<char>>,
    worktree_set: bool,
    worktree_config: bool,
) -> FieldSync {
    let write_portable = portable != desired;
    let clear_worktree = worktree_config && worktree_set;
    FieldSync {
        write_portable,
        write_local: field != "url"@ && local != desired,
        clear_worktree,
        url_changed: field == "url"@ && (write_portable || clear_worktree),
    }
}

/// Nothing to write.
pub open spec fn settled() -> FieldSync {
    FieldSync { write_portable: false, write_local: false, clear_worktree: false, url_changed: false }
}

/// Once what [`sync_of`] asks for is written, the field is settled: asked again about
/// the written layers, it asks for nothing.
pub proof fn lemma_synced_field_is_settled(
    field: Seq<char>,
    desired: Option<Seq<char>>,
    portable: Option<Seq<char>>,
    local: Option<Seq<char>>,
    worktree_set: bool,
    worktree_config: bool,
)
    ensures
        ({
            let step = sync_of(field, desired, portable, local, worktree_set, worktree_config);
            let portable2 = if step.write_portable {
                desired
            } else {
                portable
            };
            let local2 = if step.write_local {
                desired
            } else {
                local
            };
            let worktree2 = worktree_set && !step.clear_worktree;
            sync_of(field, desired, portable2, local2, worktree2, worktree_config) == settled()
        }),
{
}

/// Whether two optional texts differ.
fn differ(a: &Option<String>, b: &Option<String>) -> (r: bool)
    ensures
        r == (opt_text(*a) != opt_text(*b)),
{
    match (a, b) {
        (Some(x), Some(y)) => !str_eq(x.as_str(), y.as_str()),
        (None, None) => false,
        _ => true,
    }
}

/// What syncing the managed field `field` to `desired` writes, given its `.gitmodules`
/// value `portable`, its local value `local`, and whether the worktree layer (when the
/// repository has one) sets it.
pub fn field_sync(
    field: &str,
    desired: &Option<String>,
    portable: &Option<String>,
    local: &Option<String>,
    worktree_set: bool,
    worktree_config: bool,
) -> (r: FieldSync)
    ensures
        r == sync_of(
            field@,
            opt_text(*desired),
            opt_text(*portable),
            opt_text(*local),
            worktree_set,
            worktree_config,
        ),
{
    let is_url = str_eq(field, "url");
    let write_portable = differ(portable, desired);
    let write_local = !is_url && differ(local, desired);
    let clear_worktree = worktree_config && worktree_set;
    FieldSync {
        write_portable,
        write_local,
        clear_worktree,
        url_changed: is_url && (write_portable || clear_worktree),
    }
}

/// Whether git must sync a declared URL: its layers changed, the local URL is not the
/// one the declared URL resolves to, or the checkout's selected remote does not fetch
/// from the URL it should (`child` pairs that remote's URL with the expected one).
pub open spec fn url_sync_needed(
    changed: bool,
    local_url: Option<Seq<char>>,
    expected_local: Seq<char>,
    child: Option<(Option<Seq<char>>, Seq<char>)>,
) -> bool {
    changed || local_url != Some(expected_local) || match child {
        Some((actual, expected)) => actual != Some(expected),
        None => false,
    }
}

/// Whether git must sync a declared URL (see [`url_sync_needed`]).
pub fn url_needs_sync(
    changed: bool,
    local_url: &Option<String>,
    expected_local: &str,
    child: &Option<(Option<String>, String)>,
) -> (r: bool)
    ensures
        r == url_sync_needed(
            changed,
            opt_text(*local_url),
            expected_local@,
            match child {
                Some(c) => Some((opt_text(c.0), c.1@)),
                None => None,
            },
        ),
{
    if changed {
        return true;
    }
    let local_differs = match local_url {
        Some(u) => !str_eq(u.as_str(), expected_local),
        None => true,
    };
    if local_differs {
        return true;
    }
    match child {
        Some((actual, expected)) => match actual {
            Some(a) => !str_eq(a.as_str(), expected.as_str()),
            None => true,
        },
        None => false,
    }
}

/// The local `active` value a declaration asks for: its spelling, or none when unset.
pub open spec fn active_value(active: Option<bool>) -> Option<Seq<char>> {
    match active {
        Some(true) => Some("true"@),
        Some(false) => Some("false"@),
        None => None,
    }
}

/// The local `active` value a declaration asks for (see [`active_value`]).
pub fn active_text(active: Option<bool>) -> (r: Option<String>)
    ensures
        opt_text(r) == active_value(active),
{
    match active {
        Some(true) => Some(owned("true")),
        Some(false) => Some(owned("false")),
        None => None,
    }
}

} // verus!
