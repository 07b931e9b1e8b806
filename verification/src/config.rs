//! The `submod.toml` model: project-wide defaults, per-submodule entries, and how an
//! entry's effective settings are resolved from them.
use vstd::prelude::*;

use crate::name_map::NameMap;
use vstd::std_specs::cmp::PartialEqSpec;
use vstd::std_specs::iter::IteratorSpec;
use crate::options::{
    branch_parse, fetch_parse, ignore_parse, update_parse, BranchView, GitmodulesConvert,
    SerializableBranch, SerializableFetchRecurse, SerializableIgnore,
    SerializableUpdate,
};
use crate::text::{
    after_last_sep, after_last_separator, owned, starts_with, str_eq, trim_end_char,
    trim_end_char_seq, trim_end_pat, trim_end_pat_seq,
};

verus! {

/// A submodule's name in `submod.toml`.
pub type SubmoduleName = String;

/// The first of two optional values that is set.
pub open spec fn pick<T>(a: Option<T>, b: Option<T>) -> Option<T> {
    match a {
        Some(_) => a,
        None => b,
    }
}

/// The value, or `d` when it is unset.
pub open spec fn or_value<T>(a: Option<T>, d: T) -> T {
    match a {
        Some(v) => v,
        None => d,
    }
}

/// The view of an optional string.
pub open spec fn opt_text(o: Option<String>) -> Option<Seq<char>> {
    match o {
        Some(s) => Some(s@),
        None => None,
    }
}

/// The view of an optional branch.
pub open spec fn opt_branch(o: Option<SerializableBranch>) -> Option<BranchView> {
    match o {
        Some(b) => Some(b@),
        None => None,
    }
}

/// The views of a list of strings.
pub open spec fn texts(v: Seq<String>) -> Seq<Seq<char>> {
    v.map_values(|s: String| s@)
}

/// The view of an optional list of strings.
pub open spec fn opt_texts(o: Option<Vec<String>>) -> Option<Seq<Seq<char>>> {
    match o {
        Some(v) => Some(texts(v@)),
        None => None,
    }
}

/// A copy of an optional string.
pub fn copy_text(o: &Option<String>) -> (r: Option<String>)
    ensures
        r == *o,
{
    match o {
        Some(s) => Some(s.clone()),
        None => None,
    }
}

/// A copy of an optional branch.
pub fn copy_branch(o: &Option<SerializableBranch>) -> (r: Option<SerializableBranch>)
    ensures
        r == *o,
{
    match o {
        Some(b) => Some(b.duplicate()),
        None => None,
    }
}

/// A copy of a list of strings.
pub fn copy_texts(v: &Vec<String>) -> (r: Vec<String>)
    ensures
        r@ == v@,
{
    let mut r: Vec<String> = Vec::new();
    let mut i: usize = 0;
    while i < v.len()
        invariant
            i <= v.len(),
            r@ == v@.subrange(0, i as int),
        decreases v.len() - i,
    {
        r.push(v[i].clone());
        i = i + 1;
    }
    assert(v@.subrange(0, v.len() as int) =~= v@);
    r
}

/// A copy of an optional list of strings.
pub fn copy_opt_texts(o: &Option<Vec<String>>) -> (r: Option<Vec<String>>)
    ensures
        opt_texts(r) == opt_texts(*o),
        r is Some <==> o is Some,
        r matches Some(v) ==> v@ == o->0@,
{
    match o {
        Some(v) => Some(copy_texts(v)),
        None => None,
    }
}

/// Git-specific options for a submodule.
#[derive(Debug, Clone, Ord, PartialOrd, Eq, PartialEq, Hash)]
pub struct SubmoduleGitOptions {
    /// How to handle dirty files when updating submodules
    pub ignore: Option<SerializableIgnore>,
    /// Whether to fetch submodules recursively
    pub fetch_recurse: Option<SerializableFetchRecurse>,
    /// Branch to track for the submodule
    pub branch: Option<SerializableBranch>,
    /// Update strategy for the submodule
    pub update: Option<SerializableUpdate>,
}

impl Default for SubmoduleGitOptions {
    fn default() -> (r: Self)
        ensures
            r.ignore == Some(SerializableIgnore::Nothing),
            r.fetch_recurse == Some(SerializableFetchRecurse::OnDemand),
            r.branch is None,
            r.update == Some(SerializableUpdate::Checkout),
    {
        SubmoduleGitOptions {
            ignore: Some(SerializableIgnore::Nothing),
            fetch_recurse: Some(SerializableFetchRecurse::OnDemand),
            branch: None,
            update: Some(SerializableUpdate::Checkout),
        }
    }
}

impl SubmoduleGitOptions {
    /// Options with the given values.
    pub fn new(
        ignore: Option<SerializableIgnore>,
        fetch_recurse: Option<SerializableFetchRecurse>,
        branch: Option<SerializableBranch>,
        update: Option<SerializableUpdate>,
    ) -> (r: Self)
        ensures
            r == (SubmoduleGitOptions { ignore, fetch_recurse, branch, update }),
    {
        SubmoduleGitOptions { ignore, fetch_recurse, branch, update }
    }

    /// An equal copy.
    pub fn duplicate(&self) -> (r: Self)
        ensures
            r == *self,
    {
        SubmoduleGitOptions {
            ignore: self.ignore,
            fetch_recurse: self.fetch_recurse,
            branch: copy_branch(&self.branch),
            update: self.update,
        }
    }
}

/// Project-level defaults for the options of every submodule; a submodule's own
/// setting takes precedence.
#[derive(Debug, Clone, Ord, PartialOrd, Eq, PartialEq, Hash)]
pub struct SubmoduleDefaults {
    /// Branch inherited by modules without an explicit branch declaration.
    pub branch: Option<SerializableBranch>,
    /// Ignore setting for submodules
    pub ignore: Option<SerializableIgnore>,
    /// Fetch-recurse setting for submodules
    pub fetch_recurse: Option<SerializableFetchRecurse>,
    /// Update setting for submodules
    pub update: Option<SerializableUpdate>,
    /// When `true`, git's own sparse-checkout behavior is used (no deny-all pattern first).
    pub use_git_default_sparse_checkout: Option<bool>,
}

impl Default for SubmoduleDefaults {
    fn default() -> (r: Self)
        ensures
            r == (SubmoduleDefaults {
                branch: None,
                ignore: None,
                fetch_recurse: None,
                update: None,
                use_git_default_sparse_checkout: None,
            }),
    {
        SubmoduleDefaults {
            branch: None,
            ignore: None,
            fetch_recurse: None,
            update: None,
            use_git_default_sparse_checkout: None,
        }
    }
}

/// What merging `other` into `base` gives: `other` wins where it is set; ignore,
/// fetch-recurse and update are then filled with git's defaults.
pub open spec fn merged_defaults(base: SubmoduleDefaults, other: SubmoduleDefaults) -> SubmoduleDefaults {
    SubmoduleDefaults {
        branch: pick(other.branch, base.branch),
        ignore: Some(or_value(pick(other.ignore, base.ignore), SerializableIgnore::Nothing)),
        fetch_recurse: Some(
            or_value(pick(other.fetch_recurse, base.fetch_recurse), SerializableFetchRecurse::OnDemand),
        ),
        update: Some(or_value(pick(other.update, base.update), SerializableUpdate::Checkout)),
        use_git_default_sparse_checkout: pick(
            other.use_git_default_sparse_checkout,
            base.use_git_default_sparse_checkout,
        ),
    }
}

impl SubmoduleDefaults {
    /// An equal copy.
    pub fn duplicate(&self) -> (r: Self)
        ensures
            r == *self,
    {
        SubmoduleDefaults {
            branch: copy_branch(&self.branch),
            ignore: self.ignore,
            fetch_recurse: self.fetch_recurse,
            update: self.update,
            use_git_default_sparse_checkout: self.use_git_default_sparse_checkout,
        }
    }

    /// The current values, as a one-element list (for comparison).
    pub fn get_values(&self) -> (r: Vec<Self>)
        ensures
            r@ == seq![*self],
    {
        let mut r = Vec::new();
        r.push(self.duplicate());
        assert(r@ =~= seq![*self]);
        r
    }

    /// Merge `other` into these defaults: each field set in `other` replaces this one;
    /// ignore, fetch-recurse and update fall back to git's defaults when neither sets them.
    pub fn merge_from(&self, other: Self) -> (r: Self)
        ensures
            r == merged_defaults(*self, other),
    {
        let branch = match other.branch {
            Some(b) => Some(b),
            None => copy_branch(&self.branch),
        };
        let ignore = match other.ignore {
            Some(v) => v,
            None => match self.ignore {
                Some(v) => v,
                None => SerializableIgnore::Nothing,
            },
        };
        let fetch_recurse = match other.fetch_recurse {
            Some(v) => v,
            None => match self.fetch_recurse {
                Some(v) => v,
                None => SerializableFetchRecurse::OnDemand,
            },
        };
        let update = match other.update {
            Some(v) => v,
            None => match self.update {
                Some(v) => v,
                None => SerializableUpdate::Checkout,
            },
        };
        let sparse = match other.use_git_default_sparse_checkout {
            Some(v) => Some(v),
            None => self.use_git_default_sparse_checkout,
        };
        SubmoduleDefaults {
            branch,
            ignore: Some(ignore),
            fetch_recurse: Some(fetch_recurse),
            update: Some(update),
            use_git_default_sparse_checkout: sparse,
        }
    }
}

/// The spelling of a submodule path in `submod.toml`: git's forward-slash spelling,
/// which on this platform is the path as given.
pub(crate) fn stored_submodule_path(path: &str) -> (r: String)
    ensures
        r@ == path@,
{
    owned(path)
}

/// The name a URL suggests for a submodule: its last path component, after trailing
/// slashes and `.git` suffixes are removed.
pub open spec fn url_name(url: Seq<char>) -> Seq<char> {
    after_last_sep(trim_end_pat_seq(trim_end_char_seq(url, '/'), ".git"@))
}

/// Options for adding a submodule.
#[derive(Debug, Clone)]
pub struct SubmoduleAddOptions {
    /// Name of the submodule
    pub name: SubmoduleName,
    /// Local path where the submodule will be checked out
    pub path: String,
    /// URL of the submodule repository
    pub url: String,
    /// Branch to track (optional)
    pub branch: Option<SerializableBranch>,
    /// Ignore rule for the submodule (optional)
    pub ignore: Option<SerializableIgnore>,
    /// Update strategy for the submodule (optional)
    pub update: Option<SerializableUpdate>,
    /// Fetch recurse setting (optional)
    pub fetch_recurse: Option<SerializableFetchRecurse>,
    /// Whether to create a shallow clone
    pub shallow: bool,
    /// Whether to skip initialization after adding
    pub no_init: bool,
}

/// Options for updating a submodule.
#[derive(Debug, Clone, PartialEq, Eq, Hash, Structural)]
pub struct SubmoduleUpdateOptions {
    /// Update strategy to use
    pub strategy: SerializableUpdate,
    /// Whether to update recursively
    pub recursive: bool,
    /// Whether to force the update
    pub force: bool,
    /// Whether to advance to the configured remote tracking target.
    pub remote: bool,
}

impl Default for SubmoduleUpdateOptions {
    fn default() -> (r: Self)
        ensures
            r == (SubmoduleUpdateOptions {
                strategy: SerializableUpdate::Checkout,
                recursive: false,
                force: false,
                remote: false,
            }),
    {
        SubmoduleUpdateOptions {
            strategy: SerializableUpdate::Checkout,
            recursive: false,
            force: false,
            remote: false,
        }
    }
}

impl SubmoduleUpdateOptions {
    /// Options with the given strategy and flags, not tracking the remote.
    pub fn new(strategy: SerializableUpdate, recursive: bool, force: bool) -> (r: Self)
        ensures
            r == (SubmoduleUpdateOptions { strategy, recursive, force, remote: false }),
    {
        SubmoduleUpdateOptions { strategy, recursive, force, remote: false }
    }

    /// The same options with the recursive flag set (and `force` set).
    pub fn forced(&self) -> (r: Self)
        ensures
            r == (SubmoduleUpdateOptions { force: true, recursive: true, ..*self }),
    {
        SubmoduleUpdateOptions {
            strategy: self.strategy,
            recursive: true,
            force: true,
            remote: self.remote,
        }
    }

    /// Update options from a submodule's git options: its update strategy (checkout when
    /// unset), never recursive, forced or remote-tracking.
    pub fn from_options(options: SubmoduleGitOptions) -> (r: Self)
        ensures
            r == (SubmoduleUpdateOptions {
                strategy: or_value(options.update, SerializableUpdate::Checkout),
                recursive: false,
                force: false,
                remote: false,
            }),
    {
        let strategy = match options.update {
            Some(u) => u,
            None => SerializableUpdate::Checkout,
        };
        SubmoduleUpdateOptions { strategy, recursive: false, force: false, remote: false }
    }
}

/// Settings of a submodule that are not git options.
#[derive(Debug, Clone, PartialEq, Eq, Hash)]
pub struct OtherSubmoduleSettings {
    /// URL of the submodule repository (remote, or a relative local path).
    pub url: Option<String>,
    /// Where to put the submodule in the working directory (relative path)
    pub path: Option<String>,
    /// Optional nickname used in submod.toml and on the command line.
    pub name: Option<SubmoduleName>,
    /// Whether this submodule is active
    pub active: bool,
    /// Whether to perform a shallow clone (depth 1).
    pub shallow: bool,
    /// Whether to skip initialization after adding the submodule
    pub no_init: bool,
}

impl Default for OtherSubmoduleSettings {
    fn default() -> (r: Self)
        ensures
            r == (OtherSubmoduleSettings {
                url: None,
                path: None,
                name: None,
                active: true,
                shallow: false,
                no_init: false,
            }),
    {
        OtherSubmoduleSettings {
            url: None,
            path: None,
            name: None,
            active: true,
            shallow: false,
            no_init: false,
        }
    }
}

impl OtherSubmoduleSettings {
    /// Settings from optional values: the name defaults to the path, else to the URL's
    /// name; the path defaults to the URL's name; the URL defaults to `.`; active to
    /// true, shallow and no-init to false.
    fn new(
        url: Option<String>,
        path: Option<String>,
        name: Option<String>,
        active: Option<bool>,
        shallow: Option<bool>,
        no_init: Option<bool>,
    ) -> (r: Self)
        ensures
            opt_text(r.name) == match name {
                Some(n) => Some(n@),
                None => match path {
                    Some(p) => Some(p@),
                    None => match url {
                        Some(u) => Some(url_name(u@)),
                        None => None,
                    },
                },
            },
            opt_text(r.path) == match path {
                Some(p) => Some(p@),
                None => match url {
                    Some(u) => Some(url_name(u@)),
                    None => None,
                },
            },
            opt_text(r.url) == match url {
                Some(u) => Some(u@),
                None => Some("."@),
            },
            r.active == or_value(active, true),
            r.shallow == or_value(shallow, false),
            r.no_init == or_value(no_init, false),
    {
        let name = match name {
            Some(n) => Some(n),
            None => match &path {
                Some(p) => Some(p.clone()),
                None => match &url {
                    Some(u) => Some(Self::name_from_url(u.as_str())),
                    None => None,
                },
            },
        };
        let final_path = match path {
            Some(p) => Some(p),
            None => match &url {
                Some(u) => Some(Self::name_from_url(u.as_str())),
                None => None,
            },
        };
        let final_url = match url {
            Some(u) => Some(u),
            None => Some(owned(".")),
        };
        OtherSubmoduleSettings {
            url: final_url,
            path: final_path,
            name,
            active: match active {
                Some(a) => a,
                None => true,
            },
            shallow: match shallow {
                Some(a) => a,
                None => false,
            },
            no_init: match no_init {
                Some(a) => a,
                None => false,
            },
        }
    }

    /// The name a URL suggests: its last path component, without trailing slashes and
    /// `.git` suffixes.
    pub fn name_from_url(url: &str) -> (r: String)
        ensures
            r@ == url_name(url@),
    {
        proof {
            reveal_strlit(".git");
        }
        let t = trim_end_char(url, '/');
        let t = trim_end_pat(t, ".git");
        owned(after_last_separator(t))
    }

    /// Settings taken from an entry, with an optional name.
    pub fn from_entry(entry: &SubmoduleEntry, name: Option<String>) -> (r: Self)
        ensures
            opt_text(r.name) == match name {
                Some(n) => Some(n@),
                None => match entry.path {
                    Some(p) => Some(p@),
                    None => match entry.url {
                        Some(u) => Some(url_name(u@)),
                        None => None,
                    },
                },
            },
            opt_text(r.path) == match entry.path {
                Some(p) => Some(p@),
                None => match entry.url {
                    Some(u) => Some(url_name(u@)),
                    None => None,
                },
            },
            opt_text(r.url) == match entry.url {
                Some(u) => Some(u@),
                None => Some("."@),
            },
            r.active == or_value(entry.active, true),
            r.shallow == or_value(entry.shallow, false),
            r.no_init == or_value(entry.no_init, false),
    {
        Self::new(
            copy_text(&entry.url),
            copy_text(&entry.path),
            name,
            entry.active,
            entry.shallow,
            entry.no_init,
        )
    }

    /// The same settings with the given name.
    pub fn update_with_name(&self, name: SubmoduleName) -> (r: Self)
        ensures
            r == (OtherSubmoduleSettings { name: Some(name), ..*self }),
    {
        OtherSubmoduleSettings {
            url: copy_text(&self.url),
            path: copy_text(&self.path),
            name: Some(name),
            active: self.active,
            shallow: self.shallow,
            no_init: self.no_init,
        }
    }
}

/// A submodule entry of `submod.toml` (and of `.gitmodules`). Every setting is
/// optional, so that entries can be built and merged before all values are known.
#[derive(Debug, Clone, PartialEq, Eq, Hash)]
pub struct SubmoduleEntry {
    /// Path where the submodule is checked out
    pub path: Option<String>,
    /// URL of the submodule repository
    pub url: Option<String>,
    /// Branch to track (optional)
    pub branch: Option<SerializableBranch>,
    /// Ignore rule (optional)
    pub ignore: Option<SerializableIgnore>,
    /// Update strategy (optional)
    pub update: Option<SerializableUpdate>,
    /// Fetch recurse setting (optional)
    pub fetch_recurse: Option<SerializableFetchRecurse>,
    /// Whether the submodule is active
    pub active: Option<bool>,
    /// Whether the submodule is shallow (depth 1)
    pub shallow: Option<bool>,
    /// Whether to skip initialization after adding (never written to the file)
    pub no_init: Option<bool>,
    /// Sparse checkout patterns for this submodule (optional)
    pub sparse_paths: Option<Vec<String>>,
    /// When `true`, git's own sparse-checkout behavior is used; overrides the default.
    pub use_git_default_sparse_checkout: Option<bool>,
}

/// The mathematical model of a submodule entry.
pub struct EntryView {
    pub path: Option<Seq<char>>,
    pub url: Option<Seq<char>>,
    pub branch: Option<BranchView>,
    pub ignore: Option<SerializableIgnore>,
    pub update: Option<SerializableUpdate>,
    pub fetch_recurse: Option<SerializableFetchRecurse>,
    pub active: Option<bool>,
    pub shallow: Option<bool>,
    pub no_init: Option<bool>,
    pub sparse_paths: Option<Seq<Seq<char>>>,
    pub use_git_default_sparse_checkout: Option<bool>,
}

impl View for SubmoduleEntry {
    type V = EntryView;

    open spec fn view(&self) -> EntryView {
        EntryView {
            path: opt_text(self.path),
            url: opt_text(self.url),
            branch: opt_branch(self.branch),
            ignore: self.ignore,
            update: self.update,
            fetch_recurse: self.fetch_recurse,
            active: self.active,
            shallow: self.shallow,
            no_init: self.no_init,
            sparse_paths: opt_texts(self.sparse_paths),
            use_git_default_sparse_checkout: self.use_git_default_sparse_checkout,
        }
    }
}

/// The entry that adding a submodule with `o` declares.
pub open spec fn added_entry(o: SubmoduleAddOptions) -> EntryView {
    EntryView {
        path: Some(o.path@),
        url: Some(o.url@),
        branch: opt_branch(o.branch),
        ignore: o.ignore,
        update: o.update,
        fetch_recurse: o.fetch_recurse,
        active: Some(!o.no_init),
        shallow: Some(o.shallow),
        no_init: Some(o.no_init),
        sparse_paths: None,
        use_git_default_sparse_checkout: None,
    }
}

impl SubmoduleAddOptions {
    /// The entry that adding the submodule declares: active unless `no_init`.
    pub fn into_submodule_entry(self) -> (r: SubmoduleEntry)
        ensures
            r@ == added_entry(self),
    {
        SubmoduleEntry {
            url: Some(self.url),
            path: Some(stored_submodule_path(self.path.as_str())),
            branch: self.branch,
            ignore: self.ignore,
            update: self.update,
            fetch_recurse: self.fetch_recurse,
            shallow: Some(self.shallow),
            active: Some(!self.no_init),
            no_init: Some(self.no_init),
            sparse_paths: None,
            use_git_default_sparse_checkout: None,
        }
    }

    /// Add options for a named entry: a missing URL falls back to the path, then to the
    /// name; a missing path to the name.
    pub fn from_submodule_entries_tuple(entry: (SubmoduleName, SubmoduleEntry)) -> (r: Self)
        ensures
            r.name == entry.0,
            r.url@ == match entry.1.url {
                Some(u) => u@,
                None => match entry.1.path {
                    Some(p) => p@,
                    None => entry.0@,
                },
            },
            r.path@ == match entry.1.path {
                Some(p) => p@,
                None => entry.0@,
            },
            r.branch == entry.1.branch,
            r.ignore == entry.1.ignore,
            r.update == entry.1.update,
            r.fetch_recurse == entry.1.fetch_recurse,
            r.shallow == (entry.1.shallow == Some(true)),
            r.no_init == (entry.1.no_init == Some(true)),
    {
        let (name, e) = entry;
        let url = match &e.url {
            Some(u) => u.clone(),
            None => match &e.path {
                Some(p) => p.clone(),
                None => name.clone(),
            },
        };
        let path = match &e.path {
            Some(p) => p.clone(),
            None => name.clone(),
        };
        let shallow = match e.shallow {
            Some(s) => s,
            None => false,
        };
        let no_init = match e.no_init {
            Some(s) => s,
            None => false,
        };
        SubmoduleAddOptions {
            name,
            path,
            url,
            branch: e.branch,
            ignore: e.ignore,
            update: e.update,
            fetch_recurse: e.fetch_recurse,
            shallow,
            no_init,
        }
    }

    /// The name with the entry that adding the submodule declares.
    pub fn into_entries_tuple(self) -> (r: (SubmoduleName, SubmoduleEntry))
        ensures
            r.0 == self.name,
            r.1@ == added_entry(self),
    {
        let name = self.name.clone();
        (name, self.into_submodule_entry())
    }
}

/// Declares std's `PathBuf` so that entries can hand out filesystem paths.
#[verifier::external_type_specification]
#[verifier::external_body]
pub struct ExPathBuf(std::path::PathBuf);

/// The path std's `PathBuf::from` builds from the text `s` (it holds the text as it is).
pub uninterp spec fn path_of_text(s: Seq<char>) -> std::path::PathBuf;

/// std's `PathBuf::from` on a string. Stated: the result is [`path_of_text`] of the
/// text; what the path holds is not stated beyond that.
#[verifier::external_body]
fn path_from(s: &String) -> (r: std::path::PathBuf)
    ensures
        r == path_of_text(s@),
{
    std::path::PathBuf::from(s)
}

/// The value that a key has in a `.gitmodules` section, if the key is there.
pub open spec fn lookup(m: Map<Seq<char>, String>, k: Seq<char>) -> Option<Seq<char>> {
    if m.contains_key(k) {
        Some(m[k]@)
    } else {
        None
    }
}

/// The boolean a string spells, as Rust's `bool::from_str` reads it.
pub open spec fn bool_parse(s: Seq<char>) -> Option<bool> {
    if s == "true"@ {
        Some(true)
    } else if s == "false"@ {
        Some(false)
    } else {
        None
    }
}

/// Rust's `bool::from_str`: exactly `true` or `false`.
pub fn parse_bool(s: &str) -> (r: Option<bool>)
    ensures
        r == bool_parse(s@),
{
    if str_eq(s, "true") {
        Some(true)
    } else if str_eq(s, "false") {
        Some(false)
    } else {
        None
    }
}

/// A parsed option value, or none when the text is absent or not a valid spelling.
pub open spec fn parsed<T>(text: Option<Seq<char>>, parse: spec_fn(Seq<char>) -> Option<T>) -> Option<T> {
    match text {
        Some(t) => parse(t),
        None => None,
    }
}

/// The entry that a `.gitmodules` section `m` of the module `name` describes. Values
/// that git would not accept are left unset; `active` defaults to true, `shallow` to
/// false.
pub open spec fn gitmodules_entry(name: Seq<char>, m: Map<Seq<char>, String>) -> EntryView {
    EntryView {
        url: lookup(m, "url"@),
        path: Some(or_value(lookup(m, "path"@), name)),
        branch: branch_parse(or_value(lookup(m, "branch"@), ""@)),
        ignore: parsed(lookup(m, "ignore"@), |t: Seq<char>| ignore_parse(t)),
        fetch_recurse: parsed(
            pick(lookup(m, "fetchRecurseSubmodules"@), lookup(m, "fetchRecurse"@)),
            |t: Seq<char>| fetch_parse(t),
        ),
        update: parsed(lookup(m, "update"@), |t: Seq<char>| update_parse(t)),
        active: Some(or_value(parsed(lookup(m, "active"@), |t: Seq<char>| bool_parse(t)), true)),
        shallow: Some(
            or_value(parsed(lookup(m, "shallow"@), |t: Seq<char>| bool_parse(t)), false),
        ),
        no_init: Some(false),
        sparse_paths: None,
        use_git_default_sparse_checkout: None,
    }
}

/// `prefix` starts the optional URL (an unset URL is empty).
pub open spec fn url_starts(url: Option<String>, prefix: Seq<char>) -> bool {
    prefix.is_prefix_of(or_value(opt_text(url), Seq::empty()))
}

impl SubmoduleEntry {
    /// An entry with the given settings and no sparse patterns.
    pub fn new(
        url: Option<String>,
        path: Option<String>,
        branch: Option<SerializableBranch>,
        ignore: Option<SerializableIgnore>,
        update: Option<SerializableUpdate>,
        fetch_recurse: Option<SerializableFetchRecurse>,
        active: Option<bool>,
        shallow: Option<bool>,
        no_init: Option<bool>,
    ) -> (r: Self)
        ensures
            r == (SubmoduleEntry {
                url,
                path,
                branch,
                ignore,
                update,
                fetch_recurse,
                active,
                shallow,
                no_init,
                sparse_paths: None,
                use_git_default_sparse_checkout: None,
            }),
    {
        SubmoduleEntry {
            url,
            path,
            branch,
            ignore,
            update,
            fetch_recurse,
            active,
            shallow,
            no_init,
            sparse_paths: None,
            use_git_default_sparse_checkout: None,
        }
    }

    /// A copy with the same view.
    pub fn duplicate(&self) -> (r: Self)
        ensures
            r@ == self@,
    {
        SubmoduleEntry {
            url: copy_text(&self.url),
            path: copy_text(&self.path),
            branch: copy_branch(&self.branch),
            ignore: self.ignore,
            update: self.update,
            fetch_recurse: self.fetch_recurse,
            active: self.active,
            shallow: self.shallow,
            no_init: self.no_init,
            sparse_paths: copy_opt_texts(&self.sparse_paths),
            use_git_default_sparse_checkout: self.use_git_default_sparse_checkout,
        }
    }

    /// An entry from git options and the other settings.
    pub fn from_options_and_settings(
        options: SubmoduleGitOptions,
        other_settings: OtherSubmoduleSettings,
    ) -> (r: Self)
        ensures
            r == (SubmoduleEntry {
                url: other_settings.url,
                path: other_settings.path,
                branch: options.branch,
                ignore: options.ignore,
                update: options.update,
                fetch_recurse: options.fetch_recurse,
                active: Some(other_settings.active),
                shallow: Some(other_settings.shallow),
                no_init: Some(other_settings.no_init),
                sparse_paths: None,
                use_git_default_sparse_checkout: None,
            }),
    {
        Self::new(
            other_settings.url,
            other_settings.path,
            options.branch,
            options.ignore,
            options.update,
            options.fetch_recurse,
            Some(other_settings.active),
            Some(other_settings.shallow),
            Some(other_settings.no_init),
        )
    }

    /// The entry that the `.gitmodules` section `entries` of the module `name` describes.
    pub fn from_gitmodules(name: &str, entries: &NameMap<String>) -> (r: Self)
        ensures
            r@ == gitmodules_entry(name@, entries@),
    {
        let url = match entries.get("url") {
            Some(u) => Some(u.clone()),
            None => None,
        };
        let path = match entries.get("path") {
            Some(p) => p.clone(),
            None => owned(name),
        };
        let branch = match entries.get("branch") {
            Some(b) => SerializableBranch::from_git_branch(b.as_str()),
            None => SerializableBranch::from_git_branch(""),
        };
        let branch = match branch {
            Ok(b) => Some(b),
            Err(_) => None,
        };
        let ignore = match entries.get("ignore") {
            Some(i) => match <SerializableIgnore as GitmodulesConvert>::from_gitmodules(i.as_str()) {
                Ok(v) => Some(v),
                Err(_) => None,
            },
            None => None,
        };
        let fetch_text = match entries.get("fetchRecurseSubmodules") {
            Some(f) => Some(f),
            None => entries.get("fetchRecurse"),
        };
        let fetch_recurse = match fetch_text {
            Some(f) => match <SerializableFetchRecurse as GitmodulesConvert>::from_gitmodules(f.as_str()) {
                Ok(v) => Some(v),
                Err(_) => None,
            },
            None => None,
        };
        let update = match entries.get("update") {
            Some(u) => match <SerializableUpdate as GitmodulesConvert>::from_gitmodules(u.as_str()) {
                Ok(v) => Some(v),
                Err(_) => None,
            },
            None => None,
        };
        let active = match entries.get("active") {
            Some(a) => match parse_bool(a.as_str()) {
                Some(b) => b,
                None => true,
            },
            None => true,
        };
        let shallow = match entries.get("shallow") {
            Some(a) => match parse_bool(a.as_str()) {
                Some(b) => b,
                None => false,
            },
            None => false,
        };
        Self::new(
            url,
            Some(path),
            branch,
            ignore,
            update,
            fetch_recurse,
            Some(active),
            Some(shallow),
            Some(false),
        )
    }

    /// The entry with each git option that `options` sets replaced.
    pub fn update_with_options(&self, options: SubmoduleGitOptions) -> (r: Self)
        ensures
            r@ == (EntryView {
                ignore: pick(options.ignore, self.ignore),
                fetch_recurse: pick(options.fetch_recurse, self.fetch_recurse),
                branch: opt_branch(pick(options.branch, self.branch)),
                update: pick(options.update, self.update),
                ..self@
            }),
    {
        let mut r = self.duplicate();
        if options.ignore.is_some() {
            r.ignore = options.ignore;
        }
        if options.fetch_recurse.is_some() {
            r.fetch_recurse = options.fetch_recurse;
        }
        if options.branch.is_some() {
            r.branch = options.branch;
        }
        if options.update.is_some() {
            r.update = options.update;
        }
        r
    }

    /// The entry with the URL and path that `other_settings` sets replaced, and its
    /// active, shallow and no-init flags taken.
    pub fn update_with_settings(&self, other_settings: OtherSubmoduleSettings) -> (r: Self)
        ensures
            r@ == (EntryView {
                url: opt_text(pick(other_settings.url, self.url)),
                path: opt_text(pick(other_settings.path, self.path)),
                active: Some(other_settings.active),
                shallow: Some(other_settings.shallow),
                no_init: Some(other_settings.no_init),
                ..self@
            }),
    {
        let mut r = self.duplicate();
        if other_settings.url.is_some() {
            r.url = other_settings.url;
        }
        if other_settings.path.is_some() {
            r.path = other_settings.path;
        }
        r.active = Some(other_settings.active);
        r.shallow = Some(other_settings.shallow);
        r.no_init = Some(other_settings.no_init);
        r
    }

    /// Whether the URL is a local path: it starts with `./`, `../` or `/`.
    pub fn is_local(&self) -> (r: bool)
        ensures
            r == (url_starts(self.url, "./"@) || url_starts(self.url, "../"@) || url_starts(
                self.url,
                "/"@,
            )),
    {
        match &self.url {
            Some(u) => starts_with(u.as_str(), "./") || starts_with(u.as_str(), "../")
                || starts_with(u.as_str(), "/"),
            None => {
                proof {
                    reveal_strlit("./");
                    reveal_strlit("../");
                    reveal_strlit("/");
                }
                false
            },
        }
    }

    /// Whether the URL names a remote repository: it starts with `http://`, `https://`,
    /// `ssh://`, `git@` or `git://`.
    pub fn is_remote(&self) -> (r: bool)
        ensures
            r == (url_starts(self.url, "http://"@) || url_starts(self.url, "https://"@)
                || url_starts(self.url, "ssh://"@) || url_starts(self.url, "git@"@) || url_starts(
                self.url,
                "git://"@,
            )),
    {
        match &self.url {
            Some(u) => {
                let u = u.as_str();
                starts_with(u, "http://") || starts_with(u, "https://") || starts_with(u, "ssh://")
                    || starts_with(u, "git@") || starts_with(u, "git://")
            },
            None => {
                proof {
                    reveal_strlit("http://");
                    reveal_strlit("https://");
                    reveal_strlit("ssh://");
                    reveal_strlit("git@");
                    reveal_strlit("git://");
                }
                false
            },
        }
    }

    /// The name a URL suggests (see [`OtherSubmoduleSettings::name_from_url`]).
    fn name_from_url(url: &str) -> (r: String)
        ensures
            r@ == url_name(url@),
    {
        OtherSubmoduleSettings::name_from_url(url)
    }

    /// The entry's git options.
    pub fn git_options(&self) -> (r: SubmoduleGitOptions)
        ensures
            r == (SubmoduleGitOptions {
                ignore: self.ignore,
                fetch_recurse: self.fetch_recurse,
                branch: self.branch,
                update: self.update,
            }),
    {
        SubmoduleGitOptions {
            ignore: self.ignore,
            fetch_recurse: self.fetch_recurse,
            branch: copy_branch(&self.branch),
            update: self.update,
        }
    }

    /// The entry's other settings, with no name; active defaults to true, shallow and
    /// no-init to false.
    pub fn settings(&self) -> (r: OtherSubmoduleSettings)
        ensures
            r == (OtherSubmoduleSettings {
                name: None,
                url: self.url,
                path: self.path,
                active: or_value(self.active, true),
                shallow: or_value(self.shallow, false),
                no_init: or_value(self.no_init, false),
            }),
    {
        OtherSubmoduleSettings {
            name: None,
            url: copy_text(&self.url),
            path: copy_text(&self.path),
            active: match self.active {
                Some(a) => a,
                None => true,
            },
            shallow: match self.shallow {
                Some(a) => a,
                None => false,
            },
            no_init: match self.no_init {
                Some(a) => a,
                None => false,
            },
        }
    }

    /// The path as a filesystem path, when the entry has one.
    pub fn path_as_pathbuf(&self) -> (r: Option<std::path::PathBuf>)
        ensures
            r == match self.path {
                Some(p) => Some(path_of_text(p@)),
                None => None,
            },
    {
        match &self.path {
            Some(p) => Some(path_from(p)),
            None => None,
        }
    }

    /// The URL, or the empty string when unset.
    pub fn url_as_string(&self) -> (r: String)
        ensures
            r@ == or_value(opt_text(self.url), Seq::empty()),
    {
        match &self.url {
            Some(u) => u.clone(),
            None => String::new(),
        }
    }

    /// Whether the submodule is active; unset means active.
    pub fn is_active(&self) -> (r: bool)
        ensures
            r == or_value(self.active, true),
    {
        match self.active {
            Some(a) => a,
            None => true,
        }
    }

    /// The entry that the settings give with git's default options (what converting
    /// settings into an entry yields).
    pub fn from_settings(other: OtherSubmoduleSettings) -> (r: Self)
        ensures
            r == (SubmoduleEntry {
                url: other.url,
                path: other.path,
                active: Some(other.active),
                shallow: Some(other.shallow),
                ignore: Some(SerializableIgnore::Nothing),
                fetch_recurse: Some(SerializableFetchRecurse::OnDemand),
                branch: None,
                update: Some(SerializableUpdate::Checkout),
                no_init: Some(other.no_init),
                sparse_paths: None,
                use_git_default_sparse_checkout: None,
            }),
    {
        let defaults = SubmoduleGitOptions::default();
        SubmoduleEntry {
            url: other.url,
            path: other.path,
            active: Some(other.active),
            shallow: Some(other.shallow),
            ignore: defaults.ignore,
            fetch_recurse: defaults.fetch_recurse,
            branch: defaults.branch,
            update: defaults.update,
            no_init: Some(other.no_init),
            sparse_paths: None,
            use_git_default_sparse_checkout: None,
        }
    }
}

impl From<OtherSubmoduleSettings> for SubmoduleEntry {
    fn from(other: OtherSubmoduleSettings) -> (r: Self) {
        Self::from_settings(other)
    }
}

impl vstd::std_specs::convert::FromSpecImpl<OtherSubmoduleSettings> for SubmoduleEntry {
    open spec fn obeys_from_spec() -> bool {
        true
    }

    open spec fn from_spec(other: OtherSubmoduleSettings) -> Self {
        SubmoduleEntry {
            url: other.url,
            path: other.path,
            active: Some(other.active),
            shallow: Some(other.shallow),
            ignore: Some(SerializableIgnore::Nothing),
            fetch_recurse: Some(SerializableFetchRecurse::OnDemand),
            branch: None,
            update: Some(SerializableUpdate::Checkout),
            no_init: Some(other.no_init),
            sparse_paths: None,
            use_git_default_sparse_checkout: None,
        }
    }
}

/// The views of the entries of a name map.
pub open spec fn entry_views(m: Map<Seq<char>, SubmoduleEntry>) -> Map<Seq<char>, EntryView> {
    m.map_values(|e: SubmoduleEntry| e@)
}

/// A pattern list that is present and not empty.
pub open spec fn has_patterns(p: Option<Seq<Seq<char>>>) -> bool {
    match p {
        Some(q) => q.len() > 0,
        None => false,
    }
}

/// The entry with other sparse patterns.
pub open spec fn with_sparse(e: EntryView, p: Option<Seq<Seq<char>>>) -> EntryView {
    EntryView { sparse_paths: p, ..e }
}

/// `m` with the sparse patterns of the entry `k` (if there is one) set to `p`.
pub open spec fn set_sparse(
    m: Map<Seq<char>, EntryView>,
    k: Seq<char>,
    p: Option<Seq<Seq<char>>>,
) -> Map<Seq<char>, EntryView> {
    if m.contains_key(k) {
        m.insert(k, with_sparse(m[k], p))
    } else {
        m
    }
}

/// The patterns of an entry after adding `checkout` (replacing the old ones if asked).
pub open spec fn added_patterns(
    old: Option<Seq<Seq<char>>>,
    checkout: Seq<Seq<char>>,
    replace: bool,
) -> Seq<Seq<char>> {
    if replace {
        checkout
    } else {
        or_value(old, Seq::empty()) + checkout
    }
}

proof fn lemma_views_insert(m: Map<Seq<char>, SubmoduleEntry>, k: Seq<char>, e: SubmoduleEntry)
    ensures
        entry_views(m.insert(k, e)) == entry_views(m).insert(k, e@),
{
    assert(entry_views(m.insert(k, e)) =~= entry_views(m).insert(k, e@));
}

proof fn lemma_views_remove(m: Map<Seq<char>, SubmoduleEntry>, k: Seq<char>)
    ensures
        entry_views(m.remove(k)) == entry_views(m).remove(k),
{
    assert(entry_views(m.remove(k)) =~= entry_views(m).remove(k));
}

/// The submodule entries of a configuration, by name. Each entry owns its sparse
/// patterns.
#[derive(Debug, Clone, PartialEq, Eq)]
pub struct SubmoduleEntries {
    submodules: NameMap<SubmoduleEntry>,
}

impl View for SubmoduleEntries {
    type V = Map<Seq<char>, EntryView>;

    closed spec fn view(&self) -> Map<Seq<char>, EntryView> {
        entry_views(self.submodules@)
    }
}

impl Default for SubmoduleEntries {
    fn default() -> (r: Self)
        ensures
            r@ == Map::<Seq<char>, EntryView>::empty(),
    {
        let r = SubmoduleEntries { submodules: NameMap::new() };
        assert(r@ =~= Map::<Seq<char>, EntryView>::empty());
        r
    }
}

impl SubmoduleEntries {
    /// The names of the entries, in order.
    pub closed spec fn names(&self) -> Seq<Seq<char>> {
        self.submodules.key_seq()
    }

    /// The names occur once and are those of the map.
    proof fn lemma_names(&self)
        requires
            self.submodules.inv(),
        ensures
            self.names().no_duplicates(),
            self.names().to_set() == self@.dom(),
            self@.dom().finite(),
    {
        self.submodules.lemma_unique();
        self.submodules.lemma_len();
    }

    /// Entries from an optional map, with the given sparse patterns set on the entries
    /// that exist.
    pub fn new(
        submodules: Option<NameMap<SubmoduleEntry>>,
        sparse_checkouts: Option<NameMap<Vec<String>>>,
    ) -> (r: Self)
        ensures
            r@.dom() == match submodules {
                Some(m) => m@.dom(),
                None => Set::<Seq<char>>::empty(),
            },
            forall|k: Seq<char>|
                #![trigger r@[k]]
                r@.dom().contains(k) ==> r@[k] == match sparse_checkouts {
                    Some(sp) => if sp@.contains_key(k) {
                        with_sparse(submodules->0@[k]@, Some(texts(sp@[k]@)))
                    } else {
                        submodules->0@[k]@
                    },
                    None => submodules->0@[k]@,
                },
    {
        let mut entries = SubmoduleEntries {
            submodules: match submodules {
                Some(m) => m,
                None => NameMap::new(),
            },
        };
        let ghost base = entries@;
        match sparse_checkouts {
            Some(sp) => {
                proof {
                    use_type_invariant(&sp);
                }
                let pairs = sp.pair_refs();
                let n = pairs.len();
                let mut i: usize = 0;
                while i < n
                    invariant
                        n == pairs@.len(),
                        n == sp.pairs().len(),
                        i <= n,
                        forall|j: int|
                            0 <= j < n ==> *pairs@[j].0 == sp.pairs()[j].0 && *pairs@[j].1
                                == sp.pairs()[j].1,
                        entries@.dom() == base.dom(),
                        sp.inv(),
                        forall|k: Seq<char>|
                            #![trigger entries@[k]]
                            entries@.dom().contains(k) ==> entries@[k] == if (exists|j: int|
                                0 <= j < i && sp.pairs()[j].0@ == k) {
                                with_sparse(base[k], Some(texts(sp@[k]@)))
                            } else {
                                base[k]
                            },
                    decreases n - i,
                {
                    let (name, paths) = pairs[i];
                    let ghost before = entries@;
                    entries.add_checkout(name.as_str(), paths.as_slice(), true);
                    proof {
                        sp.lemma_index(i as int);
                        assert forall|k: Seq<char>| #![trigger entries@[k]] entries@.dom().contains(k) implies entries@[k] == if (exists|j: int|
                            0 <= j < i + 1 && sp.pairs()[j].0@ == k) {
                            with_sparse(base[k], Some(texts(sp@[k]@)))
                        } else {
                            base[k]
                        } by {
                            if k == name@ {
                                assert(0 <= i < i + 1 && sp.pairs()[i as int].0@ == k);
                            } else {
                                assert(before[k] == entries@[k]);
                                if exists|j: int| 0 <= j < i + 1 && sp.pairs()[j].0@ == k {
                                    let j = choose|j: int| 0 <= j < i + 1 && sp.pairs()[j].0@ == k;
                                    assert(j != i);
                                }
                            }
                        }
                    }
                    i = i + 1;
                }
                proof {
                    assert forall|k: Seq<char>| #![trigger entries@[k]] entries@.dom().contains(k) implies entries@[k] == if sp@.contains_key(k) {
                        with_sparse(base[k], Some(texts(sp@[k]@)))
                    } else {
                        base[k]
                    } by {
                        if sp@.contains_key(k) {
                            sp.lemma_key(k);
                            let j = sp.index_of_key(k);
                            assert(0 <= j < n && sp.pairs()[j].0@ == k);
                        } else if exists|j: int| 0 <= j < n && sp.pairs()[j].0@ == k {
                            let j = choose|j: int| 0 <= j < n && sp.pairs()[j].0@ == k;
                            sp.lemma_index(j);
                        }
                    }
                }
            },
            None => {},
        }
        entries
    }

    /// The entries with `entry` stored under `name`.
    pub fn add_submodule(self, name: SubmoduleName, entry: SubmoduleEntry) -> (r: Self)
        ensures
            r@ == self@.insert(name@, entry@),
    {
        let mut entries = self;
        entries.update_entry(name, entry);
        entries
    }

    /// Remove the entry named `name`, returning it.
    pub fn remove_submodule(&mut self, name: &str) -> (r: Option<SubmoduleEntry>)
        ensures
            final(self)@ == old(self)@.remove(name@),
            r is Some <==> old(self)@.contains_key(name@),
            r matches Some(e) ==> e@ == old(self)@[name@],
    {
        let r = self.submodules.remove(name);
        proof {
            lemma_views_remove(old(self).submodules@, name@);
        }
        r
    }

    /// The names of the entries, in order.
    pub fn submodule_names(&self) -> (r: Option<Vec<String>>)
        ensures
            r matches Some(v) && texts(v@) == self.names(),
            self.names().no_duplicates(),
            forall|k: Seq<char>| self.names().contains(k) <==> #[trigger] self@.contains_key(k),
    {
        proof {
            use_type_invariant(&self.submodules);
            self.lemma_names();
            assert forall|k: Seq<char>| self.names().contains(k) <==> #[trigger] self@.contains_key(k) by {
                assert(self.names().to_set().contains(k) <==> self.names().contains(k));
            }
        }
        let pairs = self.submodules.pair_refs();
        let mut names: Vec<String> = Vec::new();
        let mut i: usize = 0;
        while i < pairs.len()
            invariant
                i <= pairs@.len(),
                pairs@.len() == self.submodules.pairs().len(),
                forall|j: int| 0 <= j < pairs@.len() ==> *pairs@[j].0 == self.submodules.pairs()[j].0,
                texts(names@) == self.names().subrange(0, i as int),
            decreases pairs@.len() - i,
        {
            let name = pairs[i].0.clone();
            proof {
                assert(name@ == self.names()[i as int]);
            }
            let ghost before = names@;
            names.push(name);
            proof {
                assert(texts(names@) =~= texts(before).push(name@));
                assert(self.names().subrange(0, i + 1) =~= self.names().subrange(0, i as int).push(
                    name@,
                ));
            }
            i = i + 1;
        }
        assert(self.names().subrange(0, pairs@.len() as int) =~= self.names());
        Some(names)
    }

    /// The map of entries.
    pub fn submodules(&self) -> (r: Option<&NameMap<SubmoduleEntry>>)
        ensures
            r matches Some(m) && entry_views(m@) == self@ && m.key_seq() == self.names(),
    {
        Some(&self.submodules)
    }

    /// The nonempty sparse pattern lists, by entry name.
    pub fn sparse_checkouts(&self) -> (r: Option<NameMap<Vec<String>>>)
        ensures
            r matches Some(m) && (forall|k: Seq<char>|
                #[trigger] m@.contains_key(k) <==> (self@.contains_key(k) && has_patterns(
                    self@[k].sparse_paths,
                ))) && (forall|k: Seq<char>|
                #[trigger] m@.contains_key(k) ==> Some(texts(m@[k]@)) == self@[k].sparse_paths),
    {
        proof {
            use_type_invariant(&self.submodules);
        }
        let pairs = self.submodules.pair_refs();
        let n = pairs.len();
        let mut out: NameMap<Vec<String>> = NameMap::new();
        let mut i: usize = 0;
        while i < n
            invariant
                n == pairs@.len(),
                n == self.submodules.pairs().len(),
                i <= n,
                forall|j: int|
                    0 <= j < n ==> *pairs@[j].0 == self.submodules.pairs()[j].0 && *pairs@[j].1
                        == self.submodules.pairs()[j].1,
                self.submodules.inv(),
                forall|k: Seq<char>|
                    #[trigger] out@.contains_key(k) <==> exists|j: int|
                        0 <= j < i && self.submodules.pairs()[j].0@ == k
                            && has_patterns(self.submodules.pairs()[j].1@.sparse_paths),
                forall|k: Seq<char>|
                    #[trigger] out@.contains_key(k) ==> Some(texts(out@[k]@)) == self@[k].sparse_paths,
            decreases n - i,
        {
            let (name, entry) = pairs[i];
            proof {
                self.submodules.lemma_index(i as int);
            }
            match &entry.sparse_paths {
                Some(p) => {
                    if p.len() > 0 {
                        let ghost before = out@;
                        proof {
                            assert(!before.contains_key(name@)) by {
                                if before.contains_key(name@) {
                                    let j = choose|j: int|
                                        0 <= j < i && self.submodules.pairs()[j].0@ == name@
                                            && has_patterns(
                                            self.submodules.pairs()[j].1@.sparse_paths,
                                        );
                                    self.submodules.lemma_unique();
                                }
                            }
                        }
                        out.insert(name.clone(), copy_texts(p));
                    }
                },
                None => {},
            }
            i = i + 1;
        }
        proof {
            assert forall|k: Seq<char>| #[trigger] out@.contains_key(k) <==> (self@.contains_key(k)
                && has_patterns(self@[k].sparse_paths)) by {
                if self@.contains_key(k) {
                    self.submodules.lemma_key(k);
                    let j = self.submodules.index_of_key(k);
                    if has_patterns(self@[k].sparse_paths) {
                        assert(0 <= j < n && self.submodules.pairs()[j].0@ == k && has_patterns(
                            self.submodules.pairs()[j].1@.sparse_paths,
                        ));
                    }
                }
                if out@.contains_key(k) {
                    let j = choose|j: int|
                        0 <= j < n && self.submodules.pairs()[j].0@ == k
                            && has_patterns(self.submodules.pairs()[j].1@.sparse_paths);
                    self.submodules.lemma_index(j);
                }
            }
        }
        Some(out)
    }

    /// Add sparse patterns to the entry named `name` (replacing its patterns when
    /// `replace`); nothing happens when there is no such entry.
    pub fn add_checkout(&mut self, name: &str, checkout: &[String], replace: bool)
        ensures
            final(self)@ == set_sparse(
                old(self)@,
                name@,
                Some(added_patterns(old(self)@[name@].sparse_paths, texts(checkout@), replace)),
            ),
            final(self).names() == old(self).names(),
    {
        match self.submodules.find(name) {
            Some(i) => {
                proof {
                    use_type_invariant(&self.submodules);
                    self.submodules.lemma_index(i as int);
                }
                let (_, entry) = self.submodules.entry_at(i);
                let mut e = entry.duplicate();
                let mut paths: Vec<String> = if replace {
                    Vec::new()
                } else {
                    match &entry.sparse_paths {
                        Some(p) => copy_texts(p),
                        None => Vec::new(),
                    }
                };
                let ghost start = paths@;
                let mut j: usize = 0;
                while j < checkout.len()
                    invariant
                        j <= checkout@.len(),
                        paths@ == start + checkout@.subrange(0, j as int),
                    decreases checkout@.len() - j,
                {
                    paths.push(checkout[j].clone());
                    proof {
                        assert(start + checkout@.subrange(0, j + 1) =~= start + checkout@.subrange(
                            0,
                            j as int,
                        ) + seq![checkout@[j as int]]);
                    }
                    j = j + 1;
                }
                proof {
                    assert(checkout@.subrange(0, checkout@.len() as int) =~= checkout@);
                    assert(texts(paths@) =~= added_patterns(
                        old(self)@[name@].sparse_paths,
                        texts(checkout@),
                        replace,
                    ));
                }
                e.sparse_paths = Some(paths);
                let ghost old_map = self.submodules@;
                self.submodules.set_value_at(i, e);
                proof {
                    lemma_views_insert(old_map, name@, e);
                }
            },
            None => {},
        }
    }

    /// Remove all sparse patterns of the entry named `name`.
    pub fn delete_checkout(&mut self, name: &str)
        ensures
            final(self)@ == set_sparse(old(self)@, name@, None),
            final(self).names() == old(self).names(),
    {
        self.set_sparse_paths_for(name, Vec::new());
    }

    /// Remove every occurrence of the pattern `path` from the entry named `name`.
    pub fn remove_sparse_path(&mut self, name: &str, path: &str)
        ensures
            final(self)@ == if old(self)@.contains_key(name@) && old(self)@[name@].sparse_paths is Some {
                set_sparse(
                    old(self)@,
                    name@,
                    Some(old(self)@[name@].sparse_paths->0.filter(|p: Seq<char>| p != path@)),
                )
            } else {
                old(self)@
            },
            final(self).names() == old(self).names(),
    {
        match self.submodules.find(name) {
            Some(i) => {
                proof {
                    use_type_invariant(&self.submodules);
                    self.submodules.lemma_index(i as int);
                }
                let (_, entry) = self.submodules.entry_at(i);
                match &entry.sparse_paths {
                    Some(p) => {
                        let mut e = entry.duplicate();
                        let ghost keep = |q: Seq<char>| q != path@;
                        let mut kept: Vec<String> = Vec::new();
                        let mut j: usize = 0;
                        while j < p.len()
                            invariant
                                j <= p@.len(),
                                texts(kept@) == texts(p@.subrange(0, j as int)).filter(keep),
                                keep == (|q: Seq<char>| q != path@),
                            decreases p@.len() - j,
                        {
                            proof {
                                assert(texts(p@.subrange(0, j + 1)) =~= texts(
                                    p@.subrange(0, j as int),
                                ).push(p@[j as int]@));
                                texts(p@.subrange(0, j as int)).lemma_filter_push(p@[j as int]@, keep);
                            }
                            if !str_eq(p[j].as_str(), path) {
                                kept.push(p[j].clone());
                                proof {
                                    assert(texts(kept@) =~= texts(p@.subrange(0, j as int)).filter(
                                        keep,
                                    ).push(p@[j as int]@));
                                }
                            }
                            j = j + 1;
                        }
                        proof {
                            assert(p@.subrange(0, p@.len() as int) =~= p@);
                        }
                        e.sparse_paths = Some(kept);
                        let ghost old_map = self.submodules@;
                        self.submodules.set_value_at(i, e);
                        proof {
                            lemma_views_insert(old_map, name@, e);
                        }
                    },
                    None => {},
                }
            },
            None => {},
        }
    }

    /// Append the pattern `path` to the entry named `name`.
    pub fn add_sparse_path(&mut self, name: &str, path: String)
        ensures
            final(self)@ == set_sparse(
                old(self)@,
                name@,
                Some(or_value(old(self)@[name@].sparse_paths, Seq::empty()).push(path@)),
            ),
            final(self).names() == old(self).names(),
    {
        let ghost pv = path@;
        let mut one: Vec<String> = Vec::new();
        one.push(path);
        self.add_checkout(name, one.as_slice(), false);
        proof {
            assert(texts(one@) =~= seq![pv]);
            assert(or_value(old(self)@[name@].sparse_paths, Seq::empty()) + seq![pv] =~= or_value(
                old(self)@[name@].sparse_paths,
                Seq::empty(),
            ).push(pv));
        }
    }

    /// The entry named `name`, if any.
    pub fn get(&self, name: &str) -> (r: Option<&SubmoduleEntry>)
        ensures
            r is Some <==> self@.contains_key(name@),
            r matches Some(e) ==> e@ == self@[name@],
    {
        self.submodules.get(name)
    }

    /// Whether an entry is named `name`.
    pub fn contains_key(&self, name: &str) -> (r: bool)
        ensures
            r == self@.contains_key(name@),
    {
        self.submodules.contains_key(name)
    }

    /// The entries with their names, in order.
    pub fn submodule_list(&self) -> (r: Vec<(&SubmoduleName, &SubmoduleEntry)>)
        ensures
            r@.len() == self.names().len(),
            forall|i: int|
                0 <= i < r@.len() ==> r@[i].0@ == self.names()[i] && self@[self.names()[i]]
                    == r@[i].1@,
    {
        proof {
            use_type_invariant(&self.submodules);
        }
        let r = self.submodules.pair_refs();
        proof {
            assert forall|i: int| 0 <= i < r@.len() implies r@[i].0@ == self.names()[i] && self@[self.names()[i]] == r@[i].1@ by {
                self.submodules.lemma_index(i);
            }
        }
        r
    }

    /// An iterator over the entries with their names, in order.
    pub fn submodule_iter(&self) -> (r: std::vec::IntoIter<(&SubmoduleName, &SubmoduleEntry)>)
        ensures
            r.remaining().len() == self.names().len(),
            forall|i: int|
                0 <= i < r.remaining().len() ==> r.remaining()[i].0@ == self.names()[i]
                    && self@[self.names()[i]] == r.remaining()[i].1@,
    {
        self.submodule_list().into_iter()
    }

    /// The nonempty sparse pattern lists with their entry names, in entry order.
    pub fn sparse_list(&self) -> (r: Vec<(&SubmoduleName, &Vec<String>)>)
        ensures
            forall|i: int|
                0 <= i < r@.len() ==> self@.contains_key(r@[i].0@) && self@[r@[i].0@].sparse_paths
                    == Some(texts(r@[i].1@)) && r@[i].1@.len() > 0,
            forall|k: Seq<char>|
                self@.contains_key(k) && has_patterns(self@[k].sparse_paths)
                    ==> exists|i: int| 0 <= i < r@.len() && r@[i].0@ == k,
            forall|a: int, b: int| 0 <= a < b < r@.len() ==> r@[a].0@ != r@[b].0@,
    {
        let all = self.submodule_list();
        let mut out: Vec<(&SubmoduleName, &Vec<String>)> = Vec::new();
        let mut i: usize = 0;
        let ghost mut pos: Seq<int> = Seq::empty();
        proof {
            use_type_invariant(&self.submodules);
            self.lemma_names();
        }
        while i < all.len()
            invariant
                i <= all@.len(),
                all@.len() == self.names().len(),
                forall|j: int|
                    0 <= j < all@.len() ==> all@[j].0@ == self.names()[j] && self@[self.names()[j]]
                        == all@[j].1@,
                forall|j: int|
                    0 <= j < out@.len() ==> self@.contains_key(out@[j].0@)
                        && self@[out@[j].0@].sparse_paths == Some(texts(out@[j].1@))
                        && out@[j].1@.len() > 0,
                forall|j: int|
                    0 <= j < i && has_patterns(self@[self.names()[j]].sparse_paths) ==> exists|m: int| 0 <= m < out@.len() && out@[m].0@ == self.names()[j],
                self.names().no_duplicates(),
                pos.len() == out@.len(),
                forall|j: int| 0 <= j < pos.len() ==> 0 <= #[trigger] pos[j] < i && out@[j].0@ == self.names()[pos[j]],
                forall|a: int, b: int| 0 <= a < b < pos.len() ==> pos[a] < pos[b],
            decreases all@.len() - i,
        {
            proof {
                use_type_invariant(&self.submodules);
                self.lemma_names();
                assert(self.names().to_set().contains(self.names()[i as int]));
            }
            let (name, entry) = all[i];
            let ghost before = out@;
            match &entry.sparse_paths {
                Some(p) => {
                    if p.len() > 0 {
                        out.push((name, p));
                        proof {
                            assert(out@[out@.len() - 1].0@ == self.names()[i as int]);
                            pos = pos.push(i as int);
                        }
                    }
                },
                None => {},
            }
            proof {
                assert forall|j: int|
                    0 <= j < i + 1 && has_patterns(
                        self@[self.names()[j]].sparse_paths,
                    ) implies exists|m: int| 0 <= m < out@.len() && out@[m].0@ == self.names()[j] by {
                    if j < i {
                        let m = choose|m: int| 0 <= m < before.len() && before[m].0@ == self.names()[j];
                        assert(out@[m] == before[m]);
                    } else {
                        assert(out@[out@.len() - 1].0@ == self.names()[j]);
                    }
                }
            }
            i = i + 1;
        }
        proof {
            use_type_invariant(&self.submodules);
            self.lemma_names();
            assert forall|k: Seq<char>| self@.contains_key(k) && has_patterns(self@[k].sparse_paths) implies exists|m: int| 0 <= m < out@.len() && out@[m].0@ == k by {
                assert(self.names().to_set().contains(k));
                let j = choose|j: int| 0 <= j < self.names().len() && self.names()[j] == k;
                assert(0 <= j < all@.len());
            }
            assert forall|a: int, b: int| 0 <= a < b < out@.len() implies out@[a].0@ != out@[b].0@ by {
                assert(pos[a] < pos[b]);
                assert(0 <= pos[a] < self.names().len());
                assert(0 <= pos[b] < self.names().len());
            }
        }
        out
    }

    /// An iterator over the nonempty sparse pattern lists with their entry names.
    pub fn sparse_iter(&self) -> (r: std::vec::IntoIter<(&SubmoduleName, &Vec<String>)>)
        ensures
            forall|i: int|
                0 <= i < r.remaining().len() ==> self@.contains_key(r.remaining()[i].0@)
                    && self@[r.remaining()[i].0@].sparse_paths == Some(texts(r.remaining()[i].1@))
                    && r.remaining()[i].1@.len() > 0,
            forall|k: Seq<char>|
                self@.contains_key(k) && has_patterns(self@[k].sparse_paths) ==> exists|i: int|
                    0 <= i < r.remaining().len() && r.remaining()[i].0@ == k,
            forall|a: int, b: int|
                0 <= a < b < r.remaining().len() ==> r.remaining()[a].0@ != r.remaining()[b].0@,
    {
        self.sparse_list().into_iter()
    }

    /// Each entry with its name and its sparse patterns (empty when it has none), in order.
    pub fn entry_list(&self) -> (r: Vec<(&SubmoduleName, (&SubmoduleEntry, &[String]))>)
        ensures
            r@.len() == self.names().len(),
            forall|i: int|
                0 <= i < r@.len() ==> r@[i].0@ == self.names()[i] && self@[self.names()[i]]
                    == (r@[i].1).0@ && texts((r@[i].1).1@) == or_value(
                    self@[self.names()[i]].sparse_paths,
                    Seq::empty(),
                ),
    {
        let all = self.submodule_list();
        let mut out: Vec<(&SubmoduleName, (&SubmoduleEntry, &[String]))> = Vec::new();
        let mut i: usize = 0;
        while i < all.len()
            invariant
                i <= all@.len(),
                all@.len() == self.names().len(),
                forall|j: int|
                    0 <= j < all@.len() ==> all@[j].0@ == self.names()[j] && self@[self.names()[j]]
                        == all@[j].1@,
                out@.len() == i,
                forall|j: int|
                    0 <= j < i ==> out@[j].0@ == self.names()[j] && self@[self.names()[j]] == (
                    out@[j].1).0@ && texts((out@[j].1).1@) == or_value(
                        self@[self.names()[j]].sparse_paths,
                        Seq::empty(),
                    ),
            decreases all@.len() - i,
        {
            let (name, entry) = all[i];
            let sparse: &[String] = match &entry.sparse_paths {
                Some(p) => p.as_slice(),
                None => &[],
            };
            proof {
                if entry.sparse_paths is None {
                    assert(texts(sparse@) =~= Seq::<Seq<char>>::empty());
                }
            }
            out.push((name, (entry, sparse)));
            i = i + 1;
        }
        out
    }

    /// An iterator over each entry with its name and its sparse patterns.
    pub fn iter(&self) -> (r: std::vec::IntoIter<(&SubmoduleName, (&SubmoduleEntry, &[String]))>)
        ensures
            r.remaining().len() == self.names().len(),
            forall|i: int|
                0 <= i < r.remaining().len() ==> r.remaining()[i].0@ == self.names()[i]
                    && self@[self.names()[i]] == (r.remaining()[i].1).0@ && texts(
                    (r.remaining()[i].1).1@,
                ) == or_value(self@[self.names()[i]].sparse_paths, Seq::empty()),
    {
        self.entry_list().into_iter()
    }

    /// Entries from the sections of a `.gitmodules` file, by module name.
    pub fn from_gitmodules(entries: NameMap<NameMap<String>>) -> (r: Self)
        ensures
            r@.dom() == entries@.dom(),
            forall|k: Seq<char>|
                #[trigger] r@.contains_key(k) ==> r@[k] == gitmodules_entry(k, entries@[k]@),
    {
        proof {
            use_type_invariant(&entries);
        }
        let pairs = entries.pair_refs();
        let n = pairs.len();
        let mut out = SubmoduleEntries::default();
        let mut i: usize = 0;
        while i < n
            invariant
                n == pairs@.len(),
                n == entries.pairs().len(),
                i <= n,
                entries.inv(),
                forall|j: int|
                    0 <= j < n ==> *pairs@[j].0 == entries.pairs()[j].0 && *pairs@[j].1
                        == entries.pairs()[j].1,
                forall|k: Seq<char>|
                    #[trigger] out@.contains_key(k) <==> exists|j: int|
                        0 <= j < i && entries.pairs()[j].0@ == k,
                forall|k: Seq<char>|
                    #[trigger] out@.contains_key(k) ==> out@[k] == gitmodules_entry(k, entries@[k]@),
            decreases n - i,
        {
            let (name, section) = pairs[i];
            proof {
                entries.lemma_index(i as int);
            }
            let entry = SubmoduleEntry::from_gitmodules(name.as_str(), section);
            out.update_entry(name.clone(), entry);
            i = i + 1;
        }
        proof {
            assert forall|k: Seq<char>| out@.dom().contains(k) <==> entries@.dom().contains(k) by {
                if entries@.contains_key(k) {
                    entries.lemma_key(k);
                    let j = entries.index_of_key(k);
                    assert(0 <= j < n && entries.pairs()[j].0@ == k);
                }
                if out@.contains_key(k) {
                    let j = choose|j: int| 0 <= j < n && entries.pairs()[j].0@ == k;
                    entries.lemma_index(j);
                }
            }
            assert(out@.dom() =~= entries@.dom());
        }
        out
    }

    /// Insert or replace the entry named `name`.
    pub fn update_entry(&mut self, name: SubmoduleName, entry: SubmoduleEntry)
        ensures
            final(self)@ == old(self)@.insert(name@, entry@),
            old(self)@.contains_key(name@) ==> final(self).names() == old(self).names(),
            !old(self)@.contains_key(name@) ==> final(self).names() == old(self).names().push(
                name@,
            ),
    {
        let ghost e = entry;
        let ghost k = name@;
        self.submodules.insert(name, entry);
        proof {
            lemma_views_insert(old(self).submodules@, k, e);
        }
    }

    /// Set the sparse patterns of the entry named `name`; an empty list removes them.
    pub fn set_sparse_paths_for(&mut self, name: &str, paths: Vec<String>)
        ensures
            final(self)@ == set_sparse(
                old(self)@,
                name@,
                if paths@.len() == 0 {
                    None
                } else {
                    Some(texts(paths@))
                },
            ),
            final(self).names() == old(self).names(),
    {
        match self.submodules.find(name) {
            Some(i) => {
                proof {
                    use_type_invariant(&self.submodules);
                    self.submodules.lemma_index(i as int);
                }
                let (_, entry) = self.submodules.entry_at(i);
                let mut e = entry.duplicate();
                e.sparse_paths = if paths.len() == 0 {
                    None
                } else {
                    Some(paths)
                };
                let ghost old_map = self.submodules@;
                self.submodules.set_value_at(i, e);
                proof {
                    lemma_views_insert(old_map, name@, e);
                }
            },
            None => {},
        }
    }

    /// The entries with their names, in order, taking them out of the collection.
    pub fn into_entries(self) -> (r: Vec<(SubmoduleName, SubmoduleEntry)>)
        ensures
            r@.len() == self.names().len(),
            forall|i: int|
                0 <= i < r@.len() ==> r@[i].0@ == self.names()[i] && self@[self.names()[i]]
                    == r@[i].1@,
    {
        proof {
            use_type_invariant(&self.submodules);
            assert forall|i: int| 0 <= i < self.names().len() implies self@[self.names()[i]] == self.submodules.pairs()[i].1@ by {
                self.submodules.lemma_index(i);
            }
        }
        self.submodules.into_pairs()
    }
}

/// An entry with every inherited setting resolved: the path defaults to the name; the
/// branch, ignore, update, fetch-recurse and sparse-checkout settings fall back to the
/// project defaults and then to git's defaults; active defaults to true and shallow to
/// false.
pub open spec fn effective_view(name: Seq<char>, e: EntryView, d: SubmoduleDefaults) -> EntryView {
    EntryView {
        path: Some(or_value(e.path, name)),
        url: e.url,
        branch: pick(e.branch, opt_branch(d.branch)),
        ignore: Some(or_value(pick(e.ignore, d.ignore), SerializableIgnore::Nothing)),
        update: Some(or_value(pick(e.update, d.update), SerializableUpdate::Checkout)),
        fetch_recurse: Some(
            or_value(pick(e.fetch_recurse, d.fetch_recurse), SerializableFetchRecurse::OnDemand),
        ),
        active: Some(or_value(e.active, true)),
        shallow: Some(or_value(e.shallow, false)),
        no_init: e.no_init,
        sparse_paths: e.sparse_paths,
        use_git_default_sparse_checkout: Some(
            or_value(pick(e.use_git_default_sparse_checkout, d.use_git_default_sparse_checkout), false),
        ),
    }
}

/// What `apply_option_default` leaves in a value.
pub open spec fn option_default<T: PartialEqSpec>(value: Option<T>, default: Option<T>, unspecified: T) -> Option<T> {
    match value {
        Some(v) => if v.eq_spec(&unspecified) {
            Some(or_value(default, unspecified))
        } else {
            value
        },
        None => Some(or_value(default, unspecified)),
    }
}

/// The defaults after a command line's defaults are laid over them: a field set on the
/// command line replaces the configured one, an unset one leaves it alone.
pub open spec fn overridden_defaults(file: SubmoduleDefaults, cli: SubmoduleDefaults) -> SubmoduleDefaults {
    SubmoduleDefaults {
        branch: pick(cli.branch, file.branch),
        ignore: pick(cli.ignore, file.ignore),
        fetch_recurse: pick(cli.fetch_recurse, file.fetch_recurse),
        update: pick(cli.update, file.update),
        use_git_default_sparse_checkout: pick(
            cli.use_git_default_sparse_checkout,
            file.use_git_default_sparse_checkout,
        ),
    }
}

/// The tool's configuration: project defaults and the submodule entries.
#[derive(Debug, Clone)]
pub struct Config {
    /// Global default settings that apply to all submodules
    pub defaults: SubmoduleDefaults,
    /// Individual submodule configurations, keyed by submodule name
    pub submodules: SubmoduleEntries,
}

impl Default for Config {
    fn default() -> (r: Self)
        ensures
            r.defaults == (SubmoduleDefaults {
                branch: None,
                ignore: None,
                fetch_recurse: None,
                update: None,
                use_git_default_sparse_checkout: None,
            }),
            r.submodules@ == Map::<Seq<char>, EntryView>::empty(),
    {
        Config { defaults: SubmoduleDefaults::default(), submodules: SubmoduleEntries::default() }
    }
}

impl Config {
    /// A configuration with the given defaults and submodules.
    pub fn new(defaults: SubmoduleDefaults, submodules: SubmoduleEntries) -> (r: Self)
        ensures
            r.defaults == defaults,
            r.submodules == submodules,
    {
        Config { defaults, submodules }
    }

    /// The entry named `name` with every inherited setting resolved; its raw declaration
    /// is left as it is.
    pub fn effective_entry(&self, name: &str) -> (r: Option<SubmoduleEntry>)
        ensures
            r is Some <==> self.submodules@.contains_key(name@),
            r matches Some(e) ==> e@ == effective_view(name@, self.submodules@[name@], self.defaults),
    {
        let entry = match self.submodules.get(name) {
            Some(e) => e,
            None => {
                return None;
            },
        };
        let d = &self.defaults;
        let path = match &entry.path {
            Some(p) => p.clone(),
            None => owned(name),
        };
        let branch = match &entry.branch {
            Some(b) => Some(b.duplicate()),
            None => copy_branch(&d.branch),
        };
        let ignore = match entry.ignore {
            Some(v) => v,
            None => match d.ignore {
                Some(v) => v,
                None => SerializableIgnore::Nothing,
            },
        };
        let update = match entry.update {
            Some(v) => v,
            None => match d.update {
                Some(v) => v,
                None => SerializableUpdate::Checkout,
            },
        };
        let fetch_recurse = match entry.fetch_recurse {
            Some(v) => v,
            None => match d.fetch_recurse {
                Some(v) => v,
                None => SerializableFetchRecurse::OnDemand,
            },
        };
        let use_default = match entry.use_git_default_sparse_checkout {
            Some(v) => v,
            None => match d.use_git_default_sparse_checkout {
                Some(v) => v,
                None => false,
            },
        };
        Some(
            SubmoduleEntry {
                path: Some(path),
                url: copy_text(&entry.url),
                branch,
                ignore: Some(ignore),
                update: Some(update),
                fetch_recurse: Some(fetch_recurse),
                active: Some(
                    match entry.active {
                        Some(a) => a,
                        None => true,
                    },
                ),
                shallow: Some(
                    match entry.shallow {
                        Some(a) => a,
                        None => false,
                    },
                ),
                no_init: entry.no_init,
                sparse_paths: copy_opt_texts(&entry.sparse_paths),
                use_git_default_sparse_checkout: Some(use_default),
            },
        )
    }

    /// The raw entry named `name`.
    fn get_submodule_entry(&self, name: &str) -> (r: Option<&SubmoduleEntry>)
        ensures
            r is Some <==> self.submodules@.contains_key(name@),
            r matches Some(e) ==> e@ == self.submodules@[name@],
    {
        self.submodules.get(name)
    }

    /// Give `value` the default when it is unset or equal to `unspecified`; the default is
    /// `unspecified` itself when there is none. Which of the two a set value gets rests on
    /// `T`'s `==`, so it is stated exactly for types whose `==` has a specification.
    pub fn apply_option_default<T: Copy + PartialEq + PartialEqSpec>(
        value: &mut Option<T>,
        default: Option<&T>,
        unspecified: T,
    )
        ensures
            T::obeys_eq_spec() ==> *final(value) == option_default(
                *old(value),
                match default {
                    Some(d) => Some(*d),
                    None => None,
                },
                unspecified,
            ),
            (*old(value)) is None ==> *final(value) == Some(
                match default {
                    Some(d) => *d,
                    None => unspecified,
                },
            ),
            (*old(value)) is Some ==> (*final(value) == *old(value) || *final(value) == Some(
                match default {
                    Some(d) => *d,
                    None => unspecified,
                },
            )),
    {
        let missing = match value {
            Some(v) => *v == unspecified,
            None => true,
        };
        if missing {
            *value = match default {
                Some(d) => Some(*d),
                None => Some(unspecified),
            };
        }
    }

    /// The configuration with every entry replaced by its resolved form.
    pub fn apply_defaults(self) -> (r: Self)
        ensures
            r.defaults == self.defaults,
            r.submodules@.dom() == self.submodules@.dom(),
            forall|k: Seq<char>|
                #[trigger] r.submodules@.contains_key(k) ==> r.submodules@[k] == effective_view(
                    k,
                    self.submodules@[k],
                    self.defaults,
                ),
    {
        let mut config = self;
        let ghost orig = config.submodules@;
        let ghost ns = config.submodules.names();
        proof {
            use_type_invariant(&config.submodules.submodules);
            config.submodules.lemma_names();
        }
        let names = match config.submodules.submodule_names() {
            Some(v) => v,
            None => Vec::new(),
        };
        let mut i: usize = 0;
        while i < names.len()
            invariant
                i <= names@.len(),
                texts(names@) == ns,
                ns.no_duplicates(),
                ns.to_set() == orig.dom(),
                config.defaults == self.defaults,
                config.submodules@.dom() == orig.dom(),
                forall|k: Seq<char>|
                    #[trigger] config.submodules@.contains_key(k) ==> config.submodules@[k] == if (
                    exists|j: int| 0 <= j < i && ns[j] == k) {
                        effective_view(k, orig[k], self.defaults)
                    } else {
                        orig[k]
                    },
            decreases names@.len() - i,
        {
            let ghost k = names@[i as int]@;
            proof {
                assert(ns[i as int] == k);
                assert(ns.to_set().contains(k));
                assert forall|j: int| 0 <= j < i implies ns[j] != k by {
                    assert(ns[j] != ns[i as int]);
                }
            }
            let ghost before = config.submodules@;
            let entry = config.effective_entry(names[i].as_str());
            match entry {
                Some(e) => {
                    config.submodules.update_entry(names[i].clone(), e);
                },
                None => {},
            }
            proof {
                assert forall|q: Seq<char>|
                    #[trigger] config.submodules@.contains_key(q) implies config.submodules@[q] == if (
                    exists|j: int| 0 <= j < i + 1 && ns[j] == q) {
                        effective_view(q, orig[q], self.defaults)
                    } else {
                        orig[q]
                    } by {
                    if q == k {
                        assert(0 <= i < i + 1 && ns[i as int] == q);
                    } else {
                        assert(config.submodules@[q] == before[q]);
                        if exists|j: int| 0 <= j < i + 1 && ns[j] == q {
                            let j = choose|j: int| 0 <= j < i + 1 && ns[j] == q;
                            assert(j != i);
                        }
                    }
                }
                assert(config.submodules@.dom() =~= orig.dom());
            }
            i = i + 1;
        }
        proof {
            assert forall|k: Seq<char>|
                #[trigger] config.submodules@.contains_key(k) implies config.submodules@[k]
                == effective_view(k, orig[k], self.defaults) by {
                assert(ns.to_set().contains(k));
                let j = choose|j: int| 0 <= j < ns.len() && ns[j] == k;
                assert(0 <= j < names@.len());
            }
        }
        config
    }

    /// Add or replace the submodule named `name`.
    pub fn add_submodule(&mut self, name: String, submodule: SubmoduleEntry)
        ensures
            final(self).defaults == old(self).defaults,
            final(self).submodules@ == old(self).submodules@.insert(name@, submodule@),
    {
        self.submodules.update_entry(name, submodule);
    }

    /// Every submodule with its name, in order.
    pub fn get_submodules(&self) -> (r: std::vec::IntoIter<(&SubmoduleName, &SubmoduleEntry)>)
        ensures
            r.remaining().len() == self.submodules.names().len(),
            forall|i: int|
                0 <= i < r.remaining().len() ==> r.remaining()[i].0@ == self.submodules.names()[i]
                    && self.submodules@[self.submodules.names()[i]] == r.remaining()[i].1@,
    {
        self.submodules.submodule_iter()
    }

    /// Every nonempty sparse pattern list with its submodule's name.
    pub fn get_sparse_checkouts(&self) -> (r: std::vec::IntoIter<(&SubmoduleName, &Vec<String>)>)
        ensures
            forall|i: int|
                0 <= i < r.remaining().len() ==> self.submodules@.contains_key(r.remaining()[i].0@)
                    && self.submodules@[r.remaining()[i].0@].sparse_paths == Some(
                    texts(r.remaining()[i].1@),
                ) && r.remaining()[i].1@.len() > 0,
            forall|k: Seq<char>|
                self.submodules@.contains_key(k) && has_patterns(self.submodules@[k].sparse_paths)
                    ==> exists|i: int| 0 <= i < r.remaining().len() && r.remaining()[i].0@ == k,
            forall|a: int, b: int|
                0 <= a < b < r.remaining().len() ==> r.remaining()[a].0@ != r.remaining()[b].0@,
    {
        self.submodules.sparse_iter()
    }

    /// Every submodule with its name and its sparse patterns.
    pub fn entries(&self) -> (r: std::vec::IntoIter<(&SubmoduleName, (&SubmoduleEntry, &[String]))>)
        ensures
            r.remaining().len() == self.submodules.names().len(),
            forall|i: int|
                0 <= i < r.remaining().len() ==> r.remaining()[i].0@ == self.submodules.names()[i]
                    && self.submodules@[self.submodules.names()[i]] == (r.remaining()[i].1).0@
                    && texts((r.remaining()[i].1).1@) == or_value(
                    self.submodules@[self.submodules.names()[i]].sparse_paths,
                    Seq::empty(),
                ),
    {
        self.submodules.iter()
    }

    /// The raw entry named `name`, if there is one.
    pub fn get_submodule(&self, name: &str) -> (r: Option<&SubmoduleEntry>)
        ensures
            r is Some <==> self.submodules@.contains_key(name@),
            r matches Some(e) ==> e@ == self.submodules@[name@],
    {
        self.get_submodule_entry(name)
    }

    /// Lay command-line options over this configuration: each default set on the
    /// command line replaces the configured one, an unset one never erases it; the
    /// command line's submodule entries replace or extend those of the same name.
    pub fn merge_cli_overrides(&mut self, cli: Self)
        ensures
            final(self).defaults == overridden_defaults(old(self).defaults, cli.defaults),
            final(self).submodules@ == old(self).submodules@.union_prefer_right(cli.submodules@),
    {
        let cli_defaults = cli.defaults;
        if cli_defaults.branch.is_some() {
            self.defaults.branch = cli_defaults.branch;
        }
        if cli_defaults.ignore.is_some() {
            self.defaults.ignore = cli_defaults.ignore;
        }
        if cli_defaults.fetch_recurse.is_some() {
            self.defaults.fetch_recurse = cli_defaults.fetch_recurse;
        }
        if cli_defaults.update.is_some() {
            self.defaults.update = cli_defaults.update;
        }
        if cli_defaults.use_git_default_sparse_checkout.is_some() {
            self.defaults.use_git_default_sparse_checkout =
                cli_defaults.use_git_default_sparse_checkout;
        }
        let ghost start = self.submodules@;
        let ghost extra = cli.submodules@;
        let ghost fixed = self.defaults;
        proof {
            use_type_invariant(&cli.submodules.submodules);
            cli.submodules.lemma_names();
        }
        let ghost ns = cli.submodules.names();
        let items = cli.submodules.into_entries();
        proof {
            assert(ns.subrange(0, 0).to_set() =~= Set::<Seq<char>>::empty());
            assert(self.submodules@ =~= start.union_prefer_right(
                extra.restrict(ns.subrange(0, 0).to_set()),
            ));
        }
        let mut i: usize = 0;
        while i < items.len()
            invariant
                i <= items@.len(),
                items@.len() == ns.len(),
                forall|j: int|
                    0 <= j < items@.len() ==> items@[j].0@ == ns[j] && extra[ns[j]] == items@[j].1@,
                ns.no_duplicates(),
                ns.to_set() == extra.dom(),
                self.defaults == fixed,
                self.submodules@ == start.union_prefer_right(
                    extra.restrict(ns.subrange(0, i as int).to_set()),
                ),
            decreases items@.len() - i,
        {
            let name = items[i].0.clone();
            let entry = items[i].1.duplicate();
            let ghost before = self.submodules@;
            self.submodules.update_entry(name, entry);
            proof {
                let k = ns[i as int];
                assert(ns.to_set().contains(k));
                assert(ns.subrange(0, i + 1).to_set() =~= ns.subrange(0, i as int).to_set().insert(k)) by {
                    assert(ns.subrange(0, i + 1) =~= ns.subrange(0, i as int).push(k));
                    ns.subrange(0, i as int).lemma_push_to_set_commute(k);
                }
                assert(self.submodules@ =~= start.union_prefer_right(
                    extra.restrict(ns.subrange(0, i + 1).to_set()),
                ));
            }
            i = i + 1;
        }
        proof {
            assert(ns.subrange(0, ns.len() as int) =~= ns);
            assert(extra.restrict(ns.to_set()) =~= extra);
        }
    }
}

/// Resolving an entry that is already resolved changes nothing.
pub proof fn lemma_effective_idempotent(name: Seq<char>, e: EntryView, d: SubmoduleDefaults)
    ensures
        effective_view(name, effective_view(name, e, d), d) == effective_view(name, e, d),
{
}

/// A configuration whose entries were all resolved (as `apply_defaults` leaves it)
/// resolves every entry to what the original configuration resolves it to.
pub proof fn lemma_resolution_is_stable(c: Config, r: Config)
    requires
        r.defaults == c.defaults,
        r.submodules@.dom() == c.submodules@.dom(),
        forall|k: Seq<char>|
            #[trigger] r.submodules@.contains_key(k) ==> r.submodules@[k] == effective_view(
                k,
                c.submodules@[k],
                c.defaults,
            ),
    ensures
        forall|k: Seq<char>|
            #[trigger] r.submodules@.contains_key(k) ==> effective_view(k, r.submodules@[k], r.defaults)
                == effective_view(k, c.submodules@[k], c.defaults),
{
}

/// An entry without a branch of its own inherits the global branch; a branch declared
/// on the entry (`HEAD` included) is kept whatever the global branch is.
pub proof fn lemma_branch_inheritance(name: Seq<char>, e: EntryView, d: SubmoduleDefaults)
    ensures
        e.branch is None ==> effective_view(name, e, d).branch == opt_branch(d.branch),
        e.branch is Some ==> effective_view(name, e, d).branch == e.branch,
{
}

/// A default that the command line leaves unset keeps the configured value; one it
/// sets replaces it.
pub proof fn lemma_unset_cli_keeps_file(file: SubmoduleDefaults, cli: SubmoduleDefaults)
    ensures
        cli.branch is None ==> overridden_defaults(file, cli).branch == file.branch,
        cli.ignore is None ==> overridden_defaults(file, cli).ignore == file.ignore,
        cli.fetch_recurse is None ==> overridden_defaults(file, cli).fetch_recurse
            == file.fetch_recurse,
        cli.update is None ==> overridden_defaults(file, cli).update == file.update,
        cli.use_git_default_sparse_checkout is None ==> overridden_defaults(
            file,
            cli,
        ).use_git_default_sparse_checkout == file.use_git_default_sparse_checkout,
        cli.branch is Some ==> overridden_defaults(file, cli).branch == cli.branch,
        cli.ignore is Some ==> overridden_defaults(file, cli).ignore == cli.ignore,
        cli.fetch_recurse is Some ==> overridden_defaults(file, cli).fetch_recurse
            == cli.fetch_recurse,
        cli.update is Some ==> overridden_defaults(file, cli).update == cli.update,
        cli.use_git_default_sparse_checkout is Some ==> overridden_defaults(
            file,
            cli,
        ).use_git_default_sparse_checkout == cli.use_git_default_sparse_checkout,
{
}

/// Laying an empty command line (no defaults, no entries) over a configuration leaves
/// it as it is.
pub proof fn lemma_empty_cli_changes_nothing(
    file: SubmoduleDefaults,
    entries: Map<Seq<char>, EntryView>,
)
    ensures
        overridden_defaults(
            file,
            SubmoduleDefaults {
                branch: None,
                ignore: None,
                fetch_recurse: None,
                update: None,
                use_git_default_sparse_checkout: None,
            },
        ) == file,
        entries.union_prefer_right(Map::<Seq<char>, EntryView>::empty()) == entries,
{
    assert(entries.union_prefer_right(Map::<Seq<char>, EntryView>::empty()) =~= entries);
}

/// Merging defaults into empty defaults keeps the merged branch and sparse-checkout
/// setting, and fills ignore, fetch-recurse and update.
pub proof fn lemma_merge_into_empty(other: SubmoduleDefaults)
    ensures
        merged_defaults(
            SubmoduleDefaults {
                branch: None,
                ignore: None,
                fetch_recurse: None,
                update: None,
                use_git_default_sparse_checkout: None,
            },
            other,
        ) == (SubmoduleDefaults {
            branch: other.branch,
            ignore: Some(or_value(other.ignore, SerializableIgnore::Nothing)),
            fetch_recurse: Some(or_value(other.fetch_recurse, SerializableFetchRecurse::OnDemand)),
            update: Some(or_value(other.update, SerializableUpdate::Checkout)),
            use_git_default_sparse_checkout: other.use_git_default_sparse_checkout,
        }),
{
}

/// Reading a `.gitmodules` section: `active` and `shallow` are the booleans that their
/// values spell (`true` or `false`), and only a missing or unreadable value falls back
/// (active: true; shallow: false); the URL is the section's own, and the path defaults
/// to the name.
pub proof fn lemma_gitmodules_flags_read(name: Seq<char>, m: Map<Seq<char>, String>)
    ensures
        ({
            let e = gitmodules_entry(name, m);
            &&& m.contains_key("active"@) && m["active"@]@ == "false"@ ==> e.active == Some(false)
            &&& m.contains_key("active"@) && m["active"@]@ == "true"@ ==> e.active == Some(true)
            &&& !m.contains_key("active"@) ==> e.active == Some(true)
            &&& m.contains_key("shallow"@) && m["shallow"@]@ == "true"@ ==> e.shallow == Some(true)
            &&& m.contains_key("shallow"@) && m["shallow"@]@ == "false"@ ==> e.shallow == Some(false)
            &&& !m.contains_key("shallow"@) ==> e.shallow == Some(false)
            &&& m.contains_key("url"@) ==> e.url == Some(m["url"@]@)
            &&& !m.contains_key("url"@) ==> e.url is None
            &&& m.contains_key("path"@) ==> e.path == Some(m["path"@]@)
            &&& !m.contains_key("path"@) ==> e.path == Some(name)
        }),
{
    reveal_strlit("true");
    reveal_strlit("false");
    assert("true"@ != "false"@) by {
        assert("true"@.len() != "false"@.len());
    }
}

/// Reading a `.gitmodules` section: the ignore and update values are read from their git
/// spellings, `fetchRecurseSubmodules` is read before the `fetchRecurse` spelling, and a
/// missing key leaves the setting unset.
pub proof fn lemma_gitmodules_options_read(name: Seq<char>, m: Map<Seq<char>, String>)
    ensures
        ({
            let e = gitmodules_entry(name, m);
            let ig = lookup(m, "ignore"@);
            let up = lookup(m, "update"@);
            let fr = lookup(m, "fetchRecurseSubmodules"@);
            &&& ig == Some("all"@) ==> e.ignore == Some(SerializableIgnore::All)
            &&& ig == Some("dirty"@) ==> e.ignore == Some(SerializableIgnore::Dirty)
            &&& ig == Some("untracked"@) ==> e.ignore == Some(SerializableIgnore::Untracked)
            &&& ig == Some("none"@) ==> e.ignore == Some(SerializableIgnore::Nothing)
            &&& ig is None ==> e.ignore is None
            &&& up == Some("checkout"@) ==> e.update == Some(SerializableUpdate::Checkout)
            &&& up == Some("rebase"@) ==> e.update == Some(SerializableUpdate::Rebase)
            &&& up == Some("merge"@) ==> e.update == Some(SerializableUpdate::Merge)
            &&& up == Some("none"@) ==> e.update == Some(SerializableUpdate::Nothing)
            &&& up is None ==> e.update is None
            &&& fr == Some("on-demand"@) ==> e.fetch_recurse == Some(SerializableFetchRecurse::OnDemand)
            &&& fr == Some("true"@) ==> e.fetch_recurse == Some(SerializableFetchRecurse::Always)
            &&& fr == Some("false"@) ==> e.fetch_recurse == Some(SerializableFetchRecurse::Never)
            &&& fr is None && lookup(m, "fetchRecurse"@) is None ==> e.fetch_recurse is None
            &&& e.no_init == Some(false) && e.sparse_paths is None
        }),
{
    crate::options::lemma_ignore_spelling_round_trip(SerializableIgnore::All, "all"@);
    crate::options::lemma_ignore_spelling_round_trip(SerializableIgnore::Dirty, "dirty"@);
    crate::options::lemma_ignore_spelling_round_trip(SerializableIgnore::Untracked, "untracked"@);
    crate::options::lemma_ignore_spelling_round_trip(SerializableIgnore::Nothing, "none"@);
    crate::options::lemma_update_spelling_round_trip(SerializableUpdate::Checkout, "checkout"@);
    crate::options::lemma_update_spelling_round_trip(SerializableUpdate::Rebase, "rebase"@);
    crate::options::lemma_update_spelling_round_trip(SerializableUpdate::Merge, "merge"@);
    crate::options::lemma_update_spelling_round_trip(SerializableUpdate::Nothing, "none"@);
    crate::options::lemma_fetch_spelling_round_trip(SerializableFetchRecurse::OnDemand, "on-demand"@);
    crate::options::lemma_fetch_spelling_round_trip(SerializableFetchRecurse::Always, "true"@);
    crate::options::lemma_fetch_spelling_round_trip(SerializableFetchRecurse::Never, "false"@);
    reveal_strlit("all");
    reveal_strlit("dirty");
    reveal_strlit("untracked");
    reveal_strlit("none");
    reveal_strlit("checkout");
    reveal_strlit("rebase");
    reveal_strlit("merge");
    reveal_strlit("on-demand");
    reveal_strlit("true");
    reveal_strlit("false");
}

} // verus!
