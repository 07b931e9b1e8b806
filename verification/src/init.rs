//! Initializing one declared submodule: the entry it is initialized from, and the native
//! steps that what was observed of it calls for, in order.
use vstd::prelude::*;

use crate::config::{effective_view, or_value, Config, EntryView, SubmoduleEntry, SubmoduleGitOptions, SubmoduleUpdateOptions};
use crate::errors::SubmoduleError;
use crate::options::SerializableUpdate;
use crate::text::owned;

verus! {

/// The resolved entry of the declared submodule `name`, or the error that it is not
/// declared or has no URL.
pub fn init_target(config: &Config, name: &str) -> (r: Result<SubmoduleEntry, SubmoduleError>)
    ensures
        !config.submodules@.contains_key(name@) ==> (r matches Err(
            SubmoduleError::SubmoduleNotFound { name: n },
        ) && n@ == name@),
        config.submodules@.contains_key(name@) && config.submodules@[name@].url is None ==> (r matches Err(
            SubmoduleError::ConfigError(m),
        ) && m@ == "No URL configured for submodule"@),
        config.submodules@.contains_key(name@) && config.submodules@[name@].url is Some ==> (r matches Ok(
            e,
        ) && e@ == effective_view(name@, config.submodules@[name@], config.defaults)),
{
    match config.effective_entry(name) {
        None => Err(SubmoduleError::SubmoduleNotFound { name: owned(name) }),
        Some(e) => if e.url.is_none() {
            Err(SubmoduleError::ConfigError(owned("No URL configured for submodule")))
        } else {
            Ok(e)
        },
    }
}

/// What was observed of a submodule before it is initialized.
#[derive(Debug, Clone, Copy, PartialEq, Eq, Structural)]
pub struct InitFacts {
    /// Whether `.gitmodules` registers the path.
    pub registered: bool,
    /// Whether the superproject's index records a commit for the path.
    pub pinned: bool,
    /// Whether the checkout exists with a `.git` entry.
    pub checkout_present: bool,
}

/// One native step of an initialization.
#[derive(Debug, Clone, Copy, PartialEq, Eq, Structural)]
pub enum InitStep {
    /// Register the path again from the recorded commit and the managed settings.
    RestoreRegistration,
    /// Write the managed settings into the native metadata.
    SyncSettings,
    /// Check that the existing checkout is the submodule's.
    VerifyCheckout,
    /// Update the checkout with the entry's update options (recursively when asked).
    Update { recursive: bool },
    /// Apply the entry's sparse-checkout policy.
    ConfigureSparse,
    /// Finish a registration whose commit is not yet recorded.
    CompleteRegistration,
    /// Add the submodule from its declaration.
    AddRegistration,
    /// Initialize the registered submodule.
    InitRegistered,
}

/// The steps that initialize a submodule with resolved entry `e`: a registration whose
/// commit is recorded but whose `.gitmodules` entry is gone is restored first; an inactive
/// module or one with update policy `none` only has its settings synchronized (when it is
/// registered); an existing checkout is verified, synchronized, updated and given its
/// sparse policy; otherwise the registration is completed, or added (updated at once
/// only when recursion is asked for), or the registered module is initialized and
/// updated, and the settings and sparse policy follow.
pub open spec fn init_steps(e: EntryView, f: InitFacts, recursive: bool) -> Seq<InitStep> {
    let restore = !f.registered && f.pinned;
    let registered = f.registered || restore;
    let head: Seq<InitStep> = if restore {
        seq![InitStep::RestoreRegistration]
    } else {
        Seq::empty()
    };
    if !or_value(e.active, true) || e.update == Some(SerializableUpdate::Nothing) {
        if registered {
            head.push(InitStep::SyncSettings)
        } else {
            head
        }
    } else if f.checkout_present {
        head + seq![
            InitStep::VerifyCheckout,
            InitStep::SyncSettings,
            InitStep::Update { recursive },
            InitStep::ConfigureSparse,
        ]
    } else {
        let complete: Seq<InitStep> = if registered && !f.pinned {
            seq![InitStep::CompleteRegistration]
        } else {
            Seq::empty()
        };
        let work: Seq<InitStep> = if !registered {
            if recursive {
                seq![InitStep::AddRegistration, InitStep::Update { recursive: true }]
            } else {
                seq![InitStep::AddRegistration]
            }
        } else {
            seq![InitStep::SyncSettings, InitStep::InitRegistered, InitStep::Update { recursive }]
        };
        head + complete + work + seq![InitStep::SyncSettings, InitStep::ConfigureSparse]
    }
}

/// An inactive module, or one whose update policy is `none`, is never cloned, checked out
/// or updated by an initialization: at most its lost registration is restored and its
/// settings are synchronized.
pub proof fn lemma_skipped_module_is_not_checked_out(e: EntryView, f: InitFacts, recursive: bool)
    requires
        !or_value(e.active, true) || e.update == Some(SerializableUpdate::Nothing),
    ensures
        forall|i: int|
            0 <= i < init_steps(e, f, recursive).len() ==> (#[trigger] init_steps(e, f, recursive)[i]
                is RestoreRegistration || init_steps(e, f, recursive)[i] is SyncSettings),
{
}

/// Every initialization of an active module that is not skipped synchronizes its
/// settings and ends by applying its sparse policy.
pub proof fn lemma_initialization_ends_configured(e: EntryView, f: InitFacts, recursive: bool)
    requires
        or_value(e.active, true),
        e.update != Some(SerializableUpdate::Nothing),
    ensures
        init_steps(e, f, recursive).len() > 0,
        init_steps(e, f, recursive).last() == InitStep::ConfigureSparse,
        init_steps(e, f, recursive).contains(InitStep::SyncSettings),
{
    let s = init_steps(e, f, recursive);
    assert(s[s.len() - 2] == InitStep::SyncSettings || (f.checkout_present && s[s.len() - 3]
        == InitStep::SyncSettings));
}

/// The steps that initialize a submodule with resolved entry `effective` (see
/// [`init_steps`]).
pub fn plan_init(effective: &SubmoduleEntry, facts: InitFacts, recursive: bool) -> (r: Vec<InitStep>)
    ensures
        r@ == init_steps(effective@, facts, recursive),
{
    let restore = !facts.registered && facts.pinned;
    let registered = facts.registered || restore;
    let mut steps: Vec<InitStep> = Vec::new();
    if restore {
        steps.push(InitStep::RestoreRegistration);
    }
    let active = match effective.active {
        Some(a) => a,
        None => true,
    };
    if !active || matches!(effective.update, Some(SerializableUpdate::Nothing)) {
        if registered {
            steps.push(InitStep::SyncSettings);
        }
        proof {
            assert(steps@ =~= init_steps(effective@, facts, recursive));
        }
        return steps;
    }
    if facts.checkout_present {
        steps.push(InitStep::VerifyCheckout);
        steps.push(InitStep::SyncSettings);
        steps.push(InitStep::Update { recursive });
        steps.push(InitStep::ConfigureSparse);
        proof {
            assert(steps@ =~= init_steps(effective@, facts, recursive));
        }
        return steps;
    }
    if registered && !facts.pinned {
        steps.push(InitStep::CompleteRegistration);
    }
    if !registered {
        steps.push(InitStep::AddRegistration);
        if recursive {
            steps.push(InitStep::Update { recursive: true });
        }
    } else {
        steps.push(InitStep::SyncSettings);
        steps.push(InitStep::InitRegistered);
        steps.push(InitStep::Update { recursive });
    }
    steps.push(InitStep::SyncSettings);
    steps.push(InitStep::ConfigureSparse);
    proof {
        assert(steps@ =~= init_steps(effective@, facts, recursive));
    }
    steps
}

/// The update options an initialization updates with: the entry's update strategy
/// (`checkout` when unset), recursive when asked.
pub fn init_update_options(effective: &SubmoduleEntry, recursive: bool) -> (r: SubmoduleUpdateOptions)
    ensures
        r == (SubmoduleUpdateOptions {
            strategy: or_value(effective.update, SerializableUpdate::Checkout),
            recursive,
            force: false,
            remote: false,
        }),
{
    let options = SubmoduleGitOptions::new(
        effective.ignore,
        effective.fetch_recurse,
        crate::config::copy_branch(&effective.branch),
        effective.update,
    );
    let mut update = SubmoduleUpdateOptions::from_options(options);
    update.recursive = recursive;
    update
}

} // verus!
