//! Git's submodule option values (`ignore`, `fetchRecurseSubmodules`, `branch`, `update`)
//! and their spellings in `.gitmodules` / `.git/config`.
use vstd::prelude::*;
use vstd::utf8::*;

use crate::text::{concat2, owned, str_eq, trim, trim_seq};

verus! {

/// Configuration levels for git config operations.
#[derive(Debug, Clone, Copy, PartialEq, Eq, Structural)]
pub enum ConfigLevel {
    /// System-wide configuration
    System,
    /// Global user configuration
    Global,
    /// Local repository configuration
    Local,
    /// Worktree-specific configuration
    Worktree,
}

/// std's display of the error of decoding `bytes` as UTF-8.
pub uninterp spec fn utf8_error_text(bytes: Seq<u8>) -> Seq<char>;

/// Decode UTF-8 bytes (std's `str::from_utf8`), with the error as std displays it.
///
/// Claims what std documents: the call succeeds exactly on valid UTF-8, and the string
/// then holds the decoded characters; the error's display is named
/// ([`utf8_error_text`] of the bytes).
#[verifier::external_body]
pub(crate) fn utf8_decode(bytes: &[u8]) -> (r: Result<&str, String>)
    ensures
        r is Ok <==> valid_utf8(bytes@),
        r matches Ok(s) ==> s@ == decode_utf8(bytes@),
        r matches Err(m) ==> m@ == utf8_error_text(bytes@),
{
    std::str::from_utf8(bytes).map_err(|error| error.to_string())
}

/// The bytes of a string (std's `String::into_bytes`), its UTF-8 encoding.
#[verifier::external_body]
pub(crate) fn string_bytes(s: String) -> (r: Vec<u8>)
    ensures
        r@ == encode_utf8(s@),
{
    s.into_bytes()
}

/// The git configuration key of a module option: `submodule.<name>.<key>`.
pub open spec fn key_path_text(name: Seq<char>, key: Seq<char>) -> Seq<char> {
    "submodule."@ + name + "."@ + key
}

/// Conversion between an option value and its `.gitmodules` spelling.
pub trait GitmodulesConvert: Sized {
    /// The option's key in a module section.
    spec fn key_text(&self) -> Seq<char>;

    /// The value as git spells it.
    spec fn gitmodules_text(&self) -> Seq<char>;

    /// `v` is the value that the git spelling `s` stands for.
    spec fn parses_to(s: Seq<char>, v: Self) -> bool;

    /// The git spelling `s` stands for no value.
    spec fn parse_fails(s: Seq<char>) -> bool;

    /// The key of this option in a module section.
    fn gitmodules_key(&self) -> (r: &'static str)
        ensures
            r@ == self.key_text(),
    ;

    /// The full git key of this option for the module `name`.
    fn gitmodules_key_path(&self, name: &str) -> (r: String)
        ensures
            r@ == key_path_text(name@, self.key_text()),
    {
        let mut r = concat2("submodule.", name);
        r.append(".");
        r.append(self.gitmodules_key());
        r
    }

    /// The key and the full key of this option joined by `=`.
    fn as_gitmodules_key_value(&self, name: &str) -> (r: String)
        ensures
            r@ == self.key_text() + "="@ + key_path_text(name@, self.key_text()),
    {
        let mut r = concat2(self.gitmodules_key(), "=");
        let path = self.gitmodules_key_path(name);
        r.append(path.as_str());
        r
    }

    /// [`GitmodulesConvert::as_gitmodules_key_value`] as UTF-8 bytes.
    fn as_gitmodules_byte_key_value(&self, name: &str) -> (r: Vec<u8>)
        ensures
            r@ == encode_utf8(self.key_text() + "="@ + key_path_text(name@, self.key_text())),
    {
        string_bytes(self.as_gitmodules_key_value(name))
    }

    /// The git spelling of the value.
    fn to_gitmodules(&self) -> (r: String)
        ensures
            r@ == self.gitmodules_text(),
    ;

    /// The value of a git spelling; `Err` for a spelling git does not use.
    fn from_gitmodules(options: &str) -> (r: Result<Self, ()>)
        ensures
            r is Err <==> Self::parse_fails(options@),
            r matches Ok(v) ==> Self::parses_to(options@, v),
    ;

    /// The value of a git spelling given as bytes; `Err` for invalid UTF-8.
    fn from_gitmodules_bytes(options: &[u8]) -> (r: Result<Self, ()>)
        ensures
            !valid_utf8(options@) ==> r is Err,
            valid_utf8(options@) ==> (r is Err <==> Self::parse_fails(decode_utf8(options@))),
            r matches Ok(v) ==> Self::parses_to(decode_utf8(options@), v),
    {
        match utf8_decode(options).ok() {
            Some(s) => Self::from_gitmodules(s),
            None => Err(()),
        }
    }
}

/// Whether a value is the internal "not given" sentinel or git's default.
pub trait OptionsChecks: Sized {
    /// The value is the "not given" sentinel.
    spec fn unspecified_spec(&self) -> bool;

    /// The value is git's default.
    spec fn default_spec(&self) -> bool;

    /// Whether the value is the "not given" sentinel.
    fn is_unspecified(&self) -> (r: bool)
        ensures
            r == self.unspecified_spec(),
    ;

    /// Whether the value is git's default.
    fn is_default(&self) -> (r: bool)
        ensures
            r == self.default_spec(),
    ;
}

/// What git should ignore when reporting a submodule's changes.
#[derive(Debug, Clone, Copy, Ord, PartialOrd, Eq, PartialEq, Hash, Structural)]
pub enum SerializableIgnore {
    /// Ignore all changes in the submodule, including untracked files.
    All,
    /// Ignore changes to the submodule working tree, only showing committed differences.
    Dirty,
    /// Ignore untracked files in the submodule.
    Untracked,
    /// No modifications are ignored. The default.
    Nothing,
    /// Internal sentinel for "not given".
    Unspecified,
}

impl Default for SerializableIgnore {
    fn default() -> (r: Self)
        ensures
            r == SerializableIgnore::Nothing,
    {
        SerializableIgnore::Nothing
    }
}

/// The git spelling of an ignore value.
pub open spec fn ignore_text(v: SerializableIgnore) -> Seq<char> {
    match v {
        SerializableIgnore::All => "all"@,
        SerializableIgnore::Dirty => "dirty"@,
        SerializableIgnore::Untracked => "untracked"@,
        SerializableIgnore::Nothing => "none"@,
        SerializableIgnore::Unspecified => ""@,
    }
}

/// The ignore value of a git spelling.
pub open spec fn ignore_parse(s: Seq<char>) -> Option<SerializableIgnore> {
    if s == "all"@ {
        Some(SerializableIgnore::All)
    } else if s == "dirty"@ {
        Some(SerializableIgnore::Dirty)
    } else if s == "untracked"@ {
        Some(SerializableIgnore::Untracked)
    } else if s == "none"@ {
        Some(SerializableIgnore::Nothing)
    } else if s.len() == 0 {
        Some(SerializableIgnore::Unspecified)
    } else {
        None
    }
}

impl GitmodulesConvert for SerializableIgnore {
    open spec fn key_text(&self) -> Seq<char> {
        "ignore"@
    }

    open spec fn gitmodules_text(&self) -> Seq<char> {
        ignore_text(*self)
    }

    open spec fn parses_to(s: Seq<char>, v: Self) -> bool {
        ignore_parse(s) == Some(v)
    }

    open spec fn parse_fails(s: Seq<char>) -> bool {
        ignore_parse(s) is None
    }

    fn gitmodules_key(&self) -> (r: &'static str) {
        "ignore"
    }

    fn to_gitmodules(&self) -> (r: String) {
        match self {
            SerializableIgnore::All => owned("all"),
            SerializableIgnore::Dirty => owned("dirty"),
            SerializableIgnore::Untracked => owned("untracked"),
            SerializableIgnore::Nothing => owned("none"),
            SerializableIgnore::Unspecified => owned(""),
        }
    }

    fn from_gitmodules(options: &str) -> (r: Result<Self, ()>) {
        if str_eq(options, "all") {
            Ok(SerializableIgnore::All)
        } else if str_eq(options, "dirty") {
            Ok(SerializableIgnore::Dirty)
        } else if str_eq(options, "untracked") {
            Ok(SerializableIgnore::Untracked)
        } else if str_eq(options, "none") {
            Ok(SerializableIgnore::Nothing)
        } else if options.unicode_len() == 0 {
            Ok(SerializableIgnore::Unspecified)
        } else {
            Err(())
        }
    }
}

impl OptionsChecks for SerializableIgnore {
    open spec fn unspecified_spec(&self) -> bool {
        *self == SerializableIgnore::Unspecified
    }

    open spec fn default_spec(&self) -> bool {
        *self == SerializableIgnore::Nothing
    }

    fn is_unspecified(&self) -> (r: bool) {
        *self == SerializableIgnore::Unspecified
    }

    fn is_default(&self) -> (r: bool) {
        *self == SerializableIgnore::Nothing
    }
}

impl SerializableIgnore {
    /// The text that displaying the value shows: its git spelling.
    pub fn display_text(&self) -> (r: String)
        ensures
            r@ == ignore_text(*self),
    {
        self.to_gitmodules()
    }
}

/// How git fetches a submodule's own submodules.
#[derive(Debug, Clone, Copy, Ord, PartialOrd, Eq, PartialEq, Hash, Structural)]
pub enum SerializableFetchRecurse {
    /// Fetch only changed submodules. The default.
    OnDemand,
    /// Fetch all populated submodules.
    Always,
    /// Never fetch submodules.
    Never,
    /// Internal sentinel for "not given".
    Unspecified,
}

impl Default for SerializableFetchRecurse {
    fn default() -> (r: Self)
        ensures
            r == SerializableFetchRecurse::OnDemand,
    {
        SerializableFetchRecurse::OnDemand
    }
}

/// The git spelling of a fetch-recurse value (the sentinel is spelled as the default).
pub open spec fn fetch_text(v: SerializableFetchRecurse) -> Seq<char> {
    match v {
        SerializableFetchRecurse::OnDemand => "on-demand"@,
        SerializableFetchRecurse::Unspecified => "on-demand"@,
        SerializableFetchRecurse::Always => "true"@,
        SerializableFetchRecurse::Never => "false"@,
    }
}

/// The fetch-recurse value of a git spelling.
pub open spec fn fetch_parse(s: Seq<char>) -> Option<SerializableFetchRecurse> {
    if s == "on-demand"@ {
        Some(SerializableFetchRecurse::OnDemand)
    } else if s == "true"@ {
        Some(SerializableFetchRecurse::Always)
    } else if s == "false"@ {
        Some(SerializableFetchRecurse::Never)
    } else if s.len() == 0 {
        Some(SerializableFetchRecurse::Unspecified)
    } else {
        None
    }
}

impl GitmodulesConvert for SerializableFetchRecurse {
    open spec fn key_text(&self) -> Seq<char> {
        "fetchRecurseSubmodules"@
    }

    open spec fn gitmodules_text(&self) -> Seq<char> {
        fetch_text(*self)
    }

    open spec fn parses_to(s: Seq<char>, v: Self) -> bool {
        fetch_parse(s) == Some(v)
    }

    open spec fn parse_fails(s: Seq<char>) -> bool {
        fetch_parse(s) is None
    }

    fn gitmodules_key(&self) -> (r: &'static str) {
        "fetchRecurseSubmodules"
    }

    fn to_gitmodules(&self) -> (r: String) {
        match self {
            SerializableFetchRecurse::OnDemand => owned("on-demand"),
            SerializableFetchRecurse::Unspecified => owned("on-demand"),
            SerializableFetchRecurse::Always => owned("true"),
            SerializableFetchRecurse::Never => owned("false"),
        }
    }

    fn from_gitmodules(options: &str) -> (r: Result<Self, ()>) {
        if str_eq(options, "on-demand") {
            Ok(SerializableFetchRecurse::OnDemand)
        } else if str_eq(options, "true") {
            Ok(SerializableFetchRecurse::Always)
        } else if str_eq(options, "false") {
            Ok(SerializableFetchRecurse::Never)
        } else if options.unicode_len() == 0 {
            Ok(SerializableFetchRecurse::Unspecified)
        } else {
            Err(())
        }
    }
}

impl OptionsChecks for SerializableFetchRecurse {
    open spec fn unspecified_spec(&self) -> bool {
        *self == SerializableFetchRecurse::Unspecified
    }

    open spec fn default_spec(&self) -> bool {
        *self == SerializableFetchRecurse::OnDemand
    }

    fn is_unspecified(&self) -> (r: bool) {
        *self == SerializableFetchRecurse::Unspecified
    }

    fn is_default(&self) -> (r: bool) {
        *self == SerializableFetchRecurse::OnDemand
    }
}

impl SerializableFetchRecurse {
    /// The text that displaying the value shows: its git spelling.
    pub fn display_text(&self) -> (r: String)
        ensures
            r@ == fetch_text(*self),
    {
        self.to_gitmodules()
    }
}

/// The strategy `git submodule update` uses for a submodule.
#[derive(Debug, Clone, Copy, Ord, PartialOrd, Eq, PartialEq, Hash, Structural)]
pub enum SerializableUpdate {
    /// Check out the commit recorded in the superproject. The default.
    Checkout,
    /// Rebase the current branch onto the recorded commit.
    Rebase,
    /// Merge the recorded commit into the current branch.
    Merge,
    /// Do not update the submodule.
    Nothing,
    /// Internal sentinel for "not given".
    Unspecified,
}

impl Default for SerializableUpdate {
    fn default() -> (r: Self)
        ensures
            r == SerializableUpdate::Checkout,
    {
        SerializableUpdate::Checkout
    }
}

/// The git spelling of an update value.
pub open spec fn update_text(v: SerializableUpdate) -> Seq<char> {
    match v {
        SerializableUpdate::Checkout => "checkout"@,
        SerializableUpdate::Rebase => "rebase"@,
        SerializableUpdate::Merge => "merge"@,
        SerializableUpdate::Nothing => "none"@,
        SerializableUpdate::Unspecified => ""@,
    }
}

/// The update value of a git spelling.
pub open spec fn update_parse(s: Seq<char>) -> Option<SerializableUpdate> {
    if s == "checkout"@ {
        Some(SerializableUpdate::Checkout)
    } else if s == "rebase"@ {
        Some(SerializableUpdate::Rebase)
    } else if s == "merge"@ {
        Some(SerializableUpdate::Merge)
    } else if s == "none"@ {
        Some(SerializableUpdate::Nothing)
    } else if s.len() == 0 {
        Some(SerializableUpdate::Unspecified)
    } else {
        None
    }
}

impl GitmodulesConvert for SerializableUpdate {
    open spec fn key_text(&self) -> Seq<char> {
        "update"@
    }

    open spec fn gitmodules_text(&self) -> Seq<char> {
        update_text(*self)
    }

    open spec fn parses_to(s: Seq<char>, v: Self) -> bool {
        update_parse(s) == Some(v)
    }

    open spec fn parse_fails(s: Seq<char>) -> bool {
        update_parse(s) is None
    }

    fn gitmodules_key(&self) -> (r: &'static str) {
        "update"
    }

    fn to_gitmodules(&self) -> (r: String) {
        match self {
            SerializableUpdate::Checkout => owned("checkout"),
            SerializableUpdate::Rebase => owned("rebase"),
            SerializableUpdate::Merge => owned("merge"),
            SerializableUpdate::Nothing => owned("none"),
            SerializableUpdate::Unspecified => owned(""),
        }
    }

    fn from_gitmodules(options: &str) -> (r: Result<Self, ()>) {
        if str_eq(options, "checkout") {
            Ok(SerializableUpdate::Checkout)
        } else if str_eq(options, "rebase") {
            Ok(SerializableUpdate::Rebase)
        } else if str_eq(options, "merge") {
            Ok(SerializableUpdate::Merge)
        } else if str_eq(options, "none") {
            Ok(SerializableUpdate::Nothing)
        } else if options.unicode_len() == 0 {
            Ok(SerializableUpdate::Unspecified)
        } else {
            Err(())
        }
    }
}

impl OptionsChecks for SerializableUpdate {
    open spec fn unspecified_spec(&self) -> bool {
        *self == SerializableUpdate::Unspecified
    }

    open spec fn default_spec(&self) -> bool {
        *self == SerializableUpdate::Checkout
    }

    fn is_unspecified(&self) -> (r: bool) {
        *self == SerializableUpdate::Unspecified
    }

    fn is_default(&self) -> (r: bool) {
        *self == SerializableUpdate::Checkout
    }
}

impl SerializableUpdate {
    /// The text that displaying the value shows: its git spelling.
    pub fn display_text(&self) -> (r: String)
        ensures
            r@ == update_text(*self),
    {
        self.to_gitmodules()
    }
}

/// The remote branch a submodule tracks.
#[derive(Debug, Clone, Ord, PartialOrd, Eq, PartialEq, Hash)]
pub enum SerializableBranch {
    /// Track the branch of the same name as the one checked out in the superproject
    /// (spelled `.` in git's files).
    CurrentInSuperproject,
    /// Track a branch by name.
    Name(String),
}

/// The mathematical model of a branch setting.
pub enum BranchView {
    /// Same branch as the superproject.
    CurrentInSuperproject,
    /// A named branch.
    Name(Seq<char>),
}

impl View for SerializableBranch {
    type V = BranchView;

    open spec fn view(&self) -> BranchView {
        match self {
            SerializableBranch::CurrentInSuperproject => BranchView::CurrentInSuperproject,
            SerializableBranch::Name(n) => BranchView::Name(n@),
        }
    }
}

/// The spellings that stand for "the superproject's current branch".
pub open spec fn is_current_alias(s: Seq<char>) -> bool {
    s == "."@ || s == "current"@ || s == "current-in-super-project"@ || s == "superproject"@
        || s == "super"@
}

/// The git spelling of a branch setting.
pub open spec fn branch_text(b: BranchView) -> Seq<char> {
    match b {
        BranchView::CurrentInSuperproject => "."@,
        BranchView::Name(n) => n,
    }
}

/// The branch setting of a git spelling: an alias, or the trimmed nonblank name.
pub open spec fn branch_parse(s: Seq<char>) -> Option<BranchView> {
    if is_current_alias(s) {
        Some(BranchView::CurrentInSuperproject)
    } else if trim_seq(s).len() == 0 {
        None
    } else {
        Some(BranchView::Name(trim_seq(s)))
    }
}

/// The branch setting a command-line string stands for: an alias, or the string as a name.
pub open spec fn branch_from_text(s: Seq<char>) -> BranchView {
    if is_current_alias(s) {
        BranchView::CurrentInSuperproject
    } else {
        BranchView::Name(s)
    }
}

/// Whether `s` is one of the spellings of the superproject's current branch.
fn current_alias(s: &str) -> (r: bool)
    ensures
        r == is_current_alias(s@),
{
    str_eq(s, ".") || str_eq(s, "current") || str_eq(s, "current-in-super-project") || str_eq(
        s,
        "superproject",
    ) || str_eq(s, "super")
}

impl SerializableBranch {
    /// An equal copy of the setting.
    pub fn duplicate(&self) -> (r: Self)
        ensures
            r == *self,
    {
        match self {
            SerializableBranch::CurrentInSuperproject => SerializableBranch::CurrentInSuperproject,
            SerializableBranch::Name(n) => SerializableBranch::Name(n.clone()),
        }
    }

    /// The setting a command-line string stands for; every string is accepted.
    pub fn parse_text(s: &str) -> (r: Self)
        ensures
            r@ == branch_from_text(s@),
    {
        if current_alias(s) {
            SerializableBranch::CurrentInSuperproject
        } else {
            SerializableBranch::Name(owned(s))
        }
    }

    /// The branch that an unset branch setting means, as gix defines it for a module
    /// section (`gix_submodule::config::Branch::default`): the name `HEAD`.
    pub fn default_branch() -> (r: Self)
        ensures
            r@ == BranchView::Name("HEAD"@),
    {
        SerializableBranch::Name(owned("HEAD"))
    }

    /// Parse an optional branch string; a missing or empty string gives the default branch,
    /// any other string is trimmed and read as an alias or a name.
    pub fn set_branch(branch: Option<String>) -> (r: Result<Self, ()>)
        ensures
            r matches Ok(b) && b@ == match branch {
                Some(s) => if s@.len() > 0 {
                    branch_from_text(trim_seq(s@))
                } else {
                    BranchView::Name("HEAD"@)
                },
                None => BranchView::Name("HEAD"@),
            },
    {
        match branch {
            Some(b) => {
                if b.as_str().unicode_len() > 0 {
                    Ok(Self::parse_text(trim(b.as_str())))
                } else {
                    Ok(Self::default_branch())
                }
            },
            None => Ok(Self::default_branch()),
        }
    }

    /// The name of the branch the superproject has checked out, from what reading the
    /// repository gave: `None` when no repository was found (an error); `Some(None)` when
    /// its branch could not be read, for which the alias `current-in-super-project` stands.
    pub fn current_in_superproject(found: Option<Option<String>>) -> (r: Result<String, ()>)
        ensures
            match found {
                None => r is Err,
                Some(None) => r matches Ok(s) && s@ == "current-in-super-project"@,
                Some(Some(b)) => r matches Ok(s) && s@ == b@,
            },
    {
        match found {
            None => Err(()),
            Some(None) => Ok(owned("current-in-super-project")),
            Some(Some(b)) => Ok(b),
        }
    }

    /// The setting as read from a TOML string: the spelling `current-in-superproject`
    /// or any spelling `from_gitmodules` accepts.
    pub fn from_toml_text(s: &str) -> (r: Result<Self, ()>)
        ensures
            s@ == "current-in-superproject"@ ==> (r matches Ok(b) && b@
                == BranchView::CurrentInSuperproject),
            s@ != "current-in-superproject"@ ==> match branch_parse(s@) {
                Some(v) => (r matches Ok(b) && b@ == v),
                None => r is Err,
            },
    {
        if str_eq(s, "current-in-superproject") {
            return Ok(SerializableBranch::CurrentInSuperproject);
        }
        Self::parse_branch(s)
    }

    /// The branch setting of a git spelling (as [`GitmodulesConvert::from_gitmodules`]).
    pub fn parse_branch(options: &str) -> (r: Result<Self, ()>)
        ensures
            match branch_parse(options@) {
                Some(v) => (r matches Ok(b) && b@ == v),
                None => r is Err,
            },
    {
        if current_alias(options) {
            return Ok(SerializableBranch::CurrentInSuperproject);
        }
        let trimmed = trim(options);
        if trimmed.unicode_len() == 0 {
            return Err(());
        }
        Ok(SerializableBranch::Name(owned(trimmed)))
    }

    /// The branch setting of a `.gitmodules` value (a git spelling, as
    /// [`SerializableBranch::parse_branch`] reads it).
    pub fn from_git_branch(value: &str) -> (r: Result<Self, ()>)
        ensures
            match branch_parse(value@) {
                Some(v) => (r matches Ok(b) && b@ == v),
                None => r is Err,
            },
    {
        Self::parse_branch(value)
    }

    /// The text that displaying the setting shows: its git spelling.
    pub fn display_text(&self) -> (r: String)
        ensures
            r@ == branch_text(self@),
    {
        self.to_gitmodules()
    }
}

impl Default for SerializableBranch {
    fn default() -> (r: Self)
        ensures
            r@ == BranchView::Name("HEAD"@),
    {
        Self::default_branch()
    }
}

impl std::str::FromStr for SerializableBranch {
    type Err = ();

    fn from_str(s: &str) -> (r: Result<Self, ()>)
        ensures
            r matches Ok(b) && b@ == branch_from_text(s@),
    {
        Ok(Self::parse_text(s))
    }
}

impl GitmodulesConvert for SerializableBranch {
    open spec fn key_text(&self) -> Seq<char> {
        "branch"@
    }

    open spec fn gitmodules_text(&self) -> Seq<char> {
        branch_text(self@)
    }

    open spec fn parses_to(s: Seq<char>, v: Self) -> bool {
        branch_parse(s) == Some(v@)
    }

    open spec fn parse_fails(s: Seq<char>) -> bool {
        branch_parse(s) is None
    }

    fn gitmodules_key(&self) -> (r: &'static str) {
        "branch"
    }

    fn to_gitmodules(&self) -> (r: String) {
        match self {
            SerializableBranch::CurrentInSuperproject => owned("."),
            SerializableBranch::Name(n) => n.clone(),
        }
    }

    fn from_gitmodules(options: &str) -> (r: Result<Self, ()>) {
        Self::parse_branch(options)
    }
}

/// Every ignore value is read back from its git spelling, and every spelling that is
/// read as a value is that value's spelling.
pub proof fn lemma_ignore_spelling_round_trip(v: SerializableIgnore, s: Seq<char>)
    ensures
        ignore_parse(ignore_text(v)) == Some(v),
        ignore_parse(s) == Some(v) ==> ignore_text(v) == s,
{
    reveal_strlit("all");
    reveal_strlit("dirty");
    reveal_strlit("untracked");
    reveal_strlit("none");
    reveal_strlit("");
    assert("all"@.len() == 3);
    assert("dirty"@.len() == 5);
    assert("untracked"@.len() == 9);
    assert("none"@.len() == 4);
    assert(""@.len() == 0);
}

/// Every fetch-recurse value but the sentinel is read back from its git spelling; the
/// sentinel is written as the default and read back as the default.
pub proof fn lemma_fetch_spelling_round_trip(v: SerializableFetchRecurse, s: Seq<char>)
    ensures
        v != SerializableFetchRecurse::Unspecified ==> fetch_parse(fetch_text(v)) == Some(v),
        fetch_parse(fetch_text(SerializableFetchRecurse::Unspecified)) == Some(
            SerializableFetchRecurse::OnDemand,
        ),
        fetch_parse(s) == Some(v) && v != SerializableFetchRecurse::Unspecified ==> fetch_text(v)
            == s,
{
    reveal_strlit("on-demand");
    reveal_strlit("true");
    reveal_strlit("false");
    assert("on-demand"@.len() == 9);
    assert("true"@.len() == 4);
    assert("false"@.len() == 5);
}

/// Every update value is read back from its git spelling, and every spelling that is
/// read as a value is that value's spelling.
pub proof fn lemma_update_spelling_round_trip(v: SerializableUpdate, s: Seq<char>)
    ensures
        update_parse(update_text(v)) == Some(v),
        update_parse(s) == Some(v) ==> update_text(v) == s,
{
    reveal_strlit("checkout");
    reveal_strlit("rebase");
    reveal_strlit("merge");
    reveal_strlit("none");
    reveal_strlit("");
    assert("checkout"@.len() == 8);
    assert("rebase"@.len() == 6);
    assert("merge"@.len() == 5);
    assert("none"@.len() == 4);
    assert(""@.len() == 0);
}

/// The superproject-branch setting and every name that is already trimmed, nonblank and
/// no alias are read back from their git spelling.
pub proof fn lemma_branch_spelling_round_trip(b: BranchView)
    requires
        b matches BranchView::Name(n) ==> (trim_seq(n) == n && n.len() > 0 && !is_current_alias(n)),
    ensures
        branch_parse(branch_text(b)) == Some(b),
{
    reveal_strlit(".");
}

} // verus!
