//! Saving a configuration by patching its TOML document: which tables and keys an edit
//! touches, with the value each key gets. Keys that nothing changed and nothing asked to
//! touch are left as they were written.
use vstd::prelude::*;

use crate::config::{copy_texts, opt_branch, opt_text, opt_texts, texts, Config, EntryView, SubmoduleDefaults, SubmoduleEntry};
use crate::declarations::{defaults_view, DefaultsView};
use crate::edits::texts_of;
use crate::options::{
    branch_text, ignore_text, update_text, SerializableBranch, SerializableFetchRecurse,
};
use crate::order::{sort_texts, text_order};
use crate::text::{owned, str_eq};

verus! {

/// A field of a `submod.toml` table.
#[derive(Debug, Clone, Copy, PartialEq, Eq, Structural)]
pub enum ConfigField {
    Path,
    Url,
    Branch,
    Ignore,
    FetchRecurse,
    Update,
    Active,
    Shallow,
    SparsePaths,
    UseGitDefaultSparseCheckout,
}

/// The key a field is written under.
pub open spec fn field_key(f: ConfigField) -> Seq<char> {
    match f {
        ConfigField::Path => "path"@,
        ConfigField::Url => "url"@,
        ConfigField::Branch => "branch"@,
        ConfigField::Ignore => "ignore"@,
        ConfigField::FetchRecurse => "fetchRecurse"@,
        ConfigField::Update => "update"@,
        ConfigField::Active => "active"@,
        ConfigField::Shallow => "shallow"@,
        ConfigField::SparsePaths => "sparse_paths"@,
        ConfigField::UseGitDefaultSparseCheckout => "use_git_default_sparse_checkout"@,
    }
}

impl ConfigField {
    /// The key the field is written under.
    pub fn key(self) -> (r: &'static str)
        ensures
            r@ == field_key(self),
    {
        match self {
            ConfigField::Path => "path",
            ConfigField::Url => "url",
            ConfigField::Branch => "branch",
            ConfigField::Ignore => "ignore",
            ConfigField::FetchRecurse => "fetchRecurse",
            ConfigField::Update => "update",
            ConfigField::Active => "active",
            ConfigField::Shallow => "shallow",
            ConfigField::SparsePaths => "sparse_paths",
            ConfigField::UseGitDefaultSparseCheckout => "use_git_default_sparse_checkout",
        }
    }
}

/// The fields of a submodule's table, in the order they are written.
pub open spec fn module_fields() -> Seq<ConfigField> {
    seq![
        ConfigField::Path,
        ConfigField::Url,
        ConfigField::Branch,
        ConfigField::Ignore,
        ConfigField::FetchRecurse,
        ConfigField::Update,
        ConfigField::Active,
        ConfigField::Shallow,
        ConfigField::SparsePaths,
        ConfigField::UseGitDefaultSparseCheckout,
    ]
}

/// The fields of the `[defaults]` table, in the order they are written.
pub open spec fn default_fields() -> Seq<ConfigField> {
    seq![
        ConfigField::Branch,
        ConfigField::Ignore,
        ConfigField::FetchRecurse,
        ConfigField::Update,
        ConfigField::UseGitDefaultSparseCheckout,
    ]
}

fn module_field_list() -> (r: Vec<ConfigField>)
    ensures
        r@ == module_fields(),
{
    let r = vec![
        ConfigField::Path,
        ConfigField::Url,
        ConfigField::Branch,
        ConfigField::Ignore,
        ConfigField::FetchRecurse,
        ConfigField::Update,
        ConfigField::Active,
        ConfigField::Shallow,
        ConfigField::SparsePaths,
        ConfigField::UseGitDefaultSparseCheckout,
    ];
    assert(r@ =~= module_fields());
    r
}

fn default_field_list() -> (r: Vec<ConfigField>)
    ensures
        r@ == default_fields(),
{
    let r = vec![
        ConfigField::Branch,
        ConfigField::Ignore,
        ConfigField::FetchRecurse,
        ConfigField::Update,
        ConfigField::UseGitDefaultSparseCheckout,
    ];
    assert(r@ =~= default_fields());
    r
}

/// The TOML spelling of a fetch-recurse setting (`always`, `never`, `on-demand`).
pub open spec fn fetch_config_text(v: SerializableFetchRecurse) -> Seq<char> {
    match v {
        SerializableFetchRecurse::Always => "always"@,
        SerializableFetchRecurse::Never => "never"@,
        _ => "on-demand"@,
    }
}

/// The TOML spelling of a fetch-recurse setting (see [`fetch_config_text`]).
pub fn fetch_config_value(v: SerializableFetchRecurse) -> (r: &'static str)
    ensures
        r@ == fetch_config_text(v),
{
    match v {
        SerializableFetchRecurse::Always => "always",
        SerializableFetchRecurse::Never => "never",
        _ => "on-demand",
    }
}

/// A value written into the document.
#[derive(Debug, Clone, PartialEq, Eq)]
pub enum DocValue {
    Text(String),
    Flag(bool),
    List(Vec<String>),
}

/// The model of a [`DocValue`].
pub enum DocValueView {
    Text(Seq<char>),
    Flag(bool),
    List(Seq<Seq<char>>),
}

impl View for DocValue {
    type V = DocValueView;

    open spec fn view(&self) -> DocValueView {
        match self {
            DocValue::Text(s) => DocValueView::Text(s@),
            DocValue::Flag(b) => DocValueView::Flag(*b),
            DocValue::List(v) => DocValueView::List(texts(v@)),
        }
    }
}

/// One change to the document.
#[derive(Debug, Clone, PartialEq, Eq)]
pub enum DocEdit {
    /// Make sure the table exists (it is added empty when missing; a key of that name
    /// that is no table is an error).
    Table { name: String },
    /// Remove the table.
    DropTable { name: String },
    /// Remove a key from a table.
    Drop { table: String, key: &'static str },
    /// Give a key of a table a value, or remove the key (`None`); a key that already
    /// holds an equal value is left as written.
    Put { table: String, key: &'static str, value: Option<DocValue> },
}

/// The model of a [`DocEdit`].
pub enum DocEditView {
    Table(Seq<char>),
    DropTable(Seq<char>),
    Drop(Seq<char>, Seq<char>),
    Put(Seq<char>, Seq<char>, Option<DocValueView>),
}

impl View for DocEdit {
    type V = DocEditView;

    open spec fn view(&self) -> DocEditView {
        match self {
            DocEdit::Table { name } => DocEditView::Table(name@),
            DocEdit::DropTable { name } => DocEditView::DropTable(name@),
            DocEdit::Drop { table, key } => DocEditView::Drop(table@, key@),
            DocEdit::Put { table, key, value } => DocEditView::Put(
                table@,
                key@,
                match value {
                    Some(v) => Some(v@),
                    None => None,
                },
            ),
        }
    }
}

/// The models of a list of edits.
pub open spec fn edit_views(v: Seq<DocEdit>) -> Seq<DocEditView> {
    v.map_values(|e: DocEdit| e@)
}

/// The value a field of an entry is written with (`None`: the key is removed).
pub open spec fn field_value(e: EntryView, f: ConfigField) -> Option<DocValueView> {
    match f {
        ConfigField::Path => match e.path {
            Some(p) => Some(DocValueView::Text(p)),
            None => None,
        },
        ConfigField::Url => match e.url {
            Some(u) => Some(DocValueView::Text(u)),
            None => None,
        },
        ConfigField::Branch => match e.branch {
            Some(b) => Some(DocValueView::Text(branch_text(b))),
            None => None,
        },
        ConfigField::Ignore => match e.ignore {
            Some(i) => Some(DocValueView::Text(ignore_text(i))),
            None => None,
        },
        ConfigField::FetchRecurse => match e.fetch_recurse {
            Some(x) => Some(DocValueView::Text(fetch_config_text(x))),
            None => None,
        },
        ConfigField::Update => match e.update {
            Some(u) => Some(DocValueView::Text(update_text(u))),
            None => None,
        },
        ConfigField::Active => match e.active {
            Some(a) => Some(DocValueView::Flag(a)),
            None => None,
        },
        ConfigField::Shallow => match e.shallow {
            Some(a) => Some(DocValueView::Flag(a)),
            None => None,
        },
        ConfigField::SparsePaths => match e.sparse_paths {
            Some(p) => Some(DocValueView::List(p)),
            None => None,
        },
        ConfigField::UseGitDefaultSparseCheckout => match e.use_git_default_sparse_checkout {
            Some(a) => Some(DocValueView::Flag(a)),
            None => None,
        },
    }
}

/// Whether a field's setting differs between two entries.
pub open spec fn field_differs(a: EntryView, b: EntryView, f: ConfigField) -> bool {
    match f {
        ConfigField::Path => a.path != b.path,
        ConfigField::Url => a.url != b.url,
        ConfigField::Branch => a.branch != b.branch,
        ConfigField::Ignore => a.ignore != b.ignore,
        ConfigField::FetchRecurse => a.fetch_recurse != b.fetch_recurse,
        ConfigField::Update => a.update != b.update,
        ConfigField::Active => a.active != b.active,
        ConfigField::Shallow => a.shallow != b.shallow,
        ConfigField::SparsePaths => a.sparse_paths != b.sparse_paths,
        ConfigField::UseGitDefaultSparseCheckout => a.use_git_default_sparse_checkout
            != b.use_git_default_sparse_checkout,
    }
}

/// The defaults, as an entry that has only the settings defaults can have.
pub open spec fn defaults_entry(d: DefaultsView) -> EntryView {
    EntryView {
        path: None,
        url: None,
        branch: d.branch,
        ignore: d.ignore,
        update: d.update,
        fetch_recurse: d.fetch_recurse,
        active: None,
        shallow: None,
        no_init: None,
        sparse_paths: None,
        use_git_default_sparse_checkout: d.use_git_default_sparse_checkout,
    }
}

/// The fields that edits asked to write even where the value did not change: those of
/// the defaults, and (by submodule name) those of the submodules.
#[derive(Debug, Clone)]
pub struct EditIntent {
    pub defaults: Vec<&'static str>,
    pub modules: Vec<(String, &'static str)>,
}

/// Whether `intent` asks to write the default `key`.
pub open spec fn marks_default(intent: EditIntent, key: Seq<char>) -> bool {
    texts_of(intent.defaults@).contains(key)
}

/// Whether `intent` asks to write `key` of submodule `name`.
pub open spec fn marks_module(intent: EditIntent, name: Seq<char>, key: Seq<char>) -> bool {
    exists|k: int|
        0 <= k < intent.modules@.len() && (#[trigger] intent.modules@[k]).0@ == name
            && intent.modules@[k].1@ == key
}

/// The edits that write field `f` of `table` with `value` (a legacy spelling of the
/// fetch-recurse key is removed first).
pub open spec fn field_edits(table: Seq<char>, f: ConfigField, value: Option<DocValueView>) -> Seq<
    DocEditView,
> {
    let pre: Seq<DocEditView> = if f == ConfigField::FetchRecurse {
        seq![DocEditView::Drop(table, "fetch"@), DocEditView::Drop(table, "fetch_recurse"@)]
    } else {
        Seq::empty()
    };
    pre.push(DocEditView::Put(table, field_key(f), value))
}

/// The edits that write, from entry `e`, the fields of `fs` whose flag in `changed` is
/// set, in order.
pub open spec fn fields_edits(
    table: Seq<char>,
    fs: Seq<ConfigField>,
    changed: Seq<bool>,
    e: EntryView,
) -> Seq<DocEditView>
    decreases fs.len(),
{
    if fs.len() == 0 {
        Seq::empty()
    } else {
        let rest = fields_edits(table, fs.drop_last(), changed.drop_last(), e);
        if changed.last() {
            rest + field_edits(table, fs.last(), field_value(e, fs.last()))
        } else {
            rest
        }
    }
}

/// The edits of one table: none when no flag is set; else the table is made sure of
/// and the flagged fields are written.
pub open spec fn table_edits(
    table: Seq<char>,
    fs: Seq<ConfigField>,
    changed: Seq<bool>,
    e: EntryView,
) -> Seq<DocEditView> {
    if changed.contains(true) {
        seq![DocEditView::Table(table)] + fields_edits(table, fs, changed, e)
    } else {
        Seq::empty()
    }
}

/// Which default fields are written: those asked for, and those whose setting changed.
pub open spec fn default_flags(old: DefaultsView, new: DefaultsView, intent: EditIntent) -> Seq<
    bool,
> {
    default_fields().map_values(
        |f: ConfigField|
            marks_default(intent, field_key(f)) || field_differs(
                defaults_entry(old),
                defaults_entry(new),
                f,
            ),
    )
}

/// Which fields of submodule `name` are written: all of them for a new submodule; else
/// those asked for, and those whose setting changed.
pub open spec fn module_flags(
    name: Seq<char>,
    old: Option<EntryView>,
    new: EntryView,
    intent: EditIntent,
) -> Seq<bool> {
    module_fields().map_values(
        |f: ConfigField|
            match old {
                None => true,
                Some(o) => marks_module(intent, name, field_key(f)) || field_differs(o, new, f),
            },
    )
}

/// The entry named `k` in `m`, if any.
pub open spec fn entry_at(m: Map<Seq<char>, EntryView>, k: Seq<char>) -> Option<EntryView> {
    if m.contains_key(k) {
        Some(m[k])
    } else {
        None
    }
}

/// The tables dropped for the submodules of `names` that `kept` no longer has, in order.
pub open spec fn drop_edits(names: Seq<Seq<char>>, kept: Map<Seq<char>, EntryView>) -> Seq<
    DocEditView,
>
    decreases names.len(),
{
    if names.len() == 0 {
        Seq::empty()
    } else {
        let rest = drop_edits(names.drop_last(), kept);
        if kept.contains_key(names.last()) {
            rest
        } else {
            rest.push(DocEditView::DropTable(names.last()))
        }
    }
}

/// The edits of the submodules of `names`, in order.
pub open spec fn modules_edits(
    names: Seq<Seq<char>>,
    old: Map<Seq<char>, EntryView>,
    new: Map<Seq<char>, EntryView>,
    intent: EditIntent,
) -> Seq<DocEditView>
    decreases names.len(),
{
    if names.len() == 0 {
        Seq::empty()
    } else {
        let n = names.last();
        modules_edits(names.drop_last(), old, new, intent) + table_edits(
            n,
            module_fields(),
            module_flags(n, entry_at(old, n), new[n], intent),
            new[n],
        )
    }
}

/// The edits that save configuration `new` over the document of the loaded `old`: the
/// `[defaults]` table, then the tables of removed submodules dropped, then the tables of
/// the submodules, the names taken in the order of strings.
pub open spec fn config_edits(old: Config, new: Config, intent: EditIntent) -> Seq<DocEditView> {
    table_edits(
        "defaults"@,
        default_fields(),
        default_flags(defaults_view(old.defaults), defaults_view(new.defaults), intent),
        defaults_entry(defaults_view(new.defaults)),
    ) + drop_edits(old.submodules.names().sort_by(text_order()), new.submodules@)
        + modules_edits(
        new.submodules.names().sort_by(text_order()),
        old.submodules@,
        new.submodules@,
        intent,
    )
}

/// Every setting a saved document holds is read back as the same setting when the
/// configuration is loaded again: the ignore, update and fetch-recurse values (but the
/// unspecified sentinels, which loading never produces) from their spellings, the
/// superproject-branch setting, and every branch name that is trimmed, nonblank, no
/// alias and not the TOML spelling `current-in-superproject`.
pub proof fn lemma_written_settings_read_back(
    i: crate::options::SerializableIgnore,
    u: crate::options::SerializableUpdate,
    f: SerializableFetchRecurse,
    b: crate::options::BranchView,
)
    requires
        i != crate::options::SerializableIgnore::Unspecified,
        u != crate::options::SerializableUpdate::Unspecified,
        f != SerializableFetchRecurse::Unspecified,
        b matches crate::options::BranchView::Name(n) ==> (crate::text::trim_seq(n) == n && n.len() > 0
            && !crate::options::is_current_alias(n) && n != "current-in-superproject"@),
    ensures
        crate::declarations::ignore_toml(ignore_text(i)) == Some(i),
        crate::declarations::update_toml(update_text(u)) == Some(u),
        crate::declarations::fetch_toml(fetch_config_text(f)) == Some(f),
        crate::declarations::branch_toml(branch_text(b)) == Some(b),
{
    reveal_strlit("all");
    reveal_strlit("dirty");
    reveal_strlit("untracked");
    reveal_strlit("none");
    reveal_strlit("checkout");
    reveal_strlit("rebase");
    reveal_strlit("merge");
    reveal_strlit("on-demand");
    reveal_strlit("always");
    reveal_strlit("never");
    reveal_strlit("true");
    reveal_strlit("false");
    reveal_strlit(".");
    reveal_strlit("current-in-superproject");
    assert("all"@.len() == 3);
    assert("dirty"@.len() == 5);
    assert("untracked"@.len() == 9);
    assert("none"@.len() == 4);
    assert("checkout"@.len() == 8);
    assert("rebase"@.len() == 6);
    assert("merge"@.len() == 5);
    assert("on-demand"@.len() == 9);
    assert("always"@.len() == 6);
    assert("never"@.len() == 5);
    assert("true"@.len() == 4);
    assert("false"@.len() == 5);
    assert("."@.len() == 1);
    assert("current-in-superproject"@.len() == 23);
    crate::options::lemma_branch_spelling_round_trip(b);
}

proof fn lemma_fields_edits_none(table: Seq<char>, fs: Seq<ConfigField>, changed: Seq<bool>, e: EntryView)
    requires
        fs.len() == changed.len(),
        forall|i: int| 0 <= i < changed.len() ==> !changed[i],
    ensures
        fields_edits(table, fs, changed, e) == Seq::<DocEditView>::empty(),
    decreases fs.len(),
{
    if fs.len() > 0 {
        lemma_fields_edits_none(table, fs.drop_last(), changed.drop_last(), e);
    }
}

proof fn lemma_drop_edits_none(names: Seq<Seq<char>>, kept: Map<Seq<char>, EntryView>)
    requires
        forall|i: int| 0 <= i < names.len() ==> kept.contains_key(#[trigger] names[i]),
    ensures
        drop_edits(names, kept) == Seq::<DocEditView>::empty(),
    decreases names.len(),
{
    if names.len() > 0 {
        lemma_drop_edits_none(names.drop_last(), kept);
        assert(kept.contains_key(names[names.len() - 1]));
    }
}

proof fn lemma_modules_edits_none(names: Seq<Seq<char>>, m: Map<Seq<char>, EntryView>, intent: EditIntent)
    requires
        intent.modules@.len() == 0,
        forall|i: int| 0 <= i < names.len() ==> m.contains_key(#[trigger] names[i]),
    ensures
        modules_edits(names, m, m, intent) == Seq::<DocEditView>::empty(),
    decreases names.len(),
{
    if names.len() > 0 {
        lemma_modules_edits_none(names.drop_last(), m, intent);
        let n = names.last();
        assert(m.contains_key(names[names.len() - 1]));
        let flags = module_flags(n, entry_at(m, n), m[n], intent);
        assert forall|i: int| 0 <= i < flags.len() implies !flags[i] by {
            assert(!marks_module(intent, n, field_key(module_fields()[i])));
        }
        lemma_fields_edits_none(n, module_fields(), flags, m[n]);
        assert(!flags.contains(true));
        assert(table_edits(n, module_fields(), flags, m[n]) =~= Seq::<DocEditView>::empty());
        assert(Seq::<DocEditView>::empty() + Seq::<DocEditView>::empty() =~= Seq::<DocEditView>::empty());
    }
}

/// Saving a configuration over the document it was loaded from, with nothing asked to be
/// rewritten, edits nothing: the file is left as it was written.
pub proof fn lemma_unchanged_config_needs_no_edits(c: Config, intent: EditIntent)
    requires
        intent.defaults@.len() == 0,
        intent.modules@.len() == 0,
        forall|k: Seq<char>| #[trigger] c.submodules.names().contains(k) ==> c.submodules@.contains_key(k),
    ensures
        config_edits(c, c, intent) == Seq::<DocEditView>::empty(),
{
    let d = defaults_view(c.defaults);
    let dflags = default_flags(d, d, intent);
    assert forall|i: int| 0 <= i < dflags.len() implies !dflags[i] by {
        assert(texts_of(intent.defaults@) =~= Seq::<Seq<char>>::empty());
        assert(!marks_default(intent, field_key(default_fields()[i])));
    }
    assert(!dflags.contains(true));
    assert(table_edits("defaults"@, default_fields(), dflags, defaults_entry(d)) =~= Seq::<DocEditView>::empty());
    crate::order::lemma_text_order_total();
    let names = c.submodules.names();
    names.lemma_sort_by_ensures(text_order());
    let sorted = names.sort_by(text_order());
    assert forall|i: int| 0 <= i < sorted.len() implies c.submodules@.contains_key(#[trigger] sorted[i]) by {
        assert(sorted.contains(sorted[i]));
        assert(names.contains(sorted[i]));
    }
    lemma_drop_edits_none(sorted, c.submodules@);
    lemma_modules_edits_none(sorted, c.submodules@, intent);
    assert(Seq::<DocEditView>::empty() + Seq::<DocEditView>::empty() + Seq::<DocEditView>::empty() =~= Seq::<DocEditView>::empty());
}

/// What a key of the loaded document holds, as far as comparing it with a value to be
/// written goes: a string, a boolean, an array (each element a string, or `None` for any
/// other kind), or another kind of value.
#[derive(Debug, Clone, PartialEq, Eq)]
pub enum StoredValue {
    Text(String),
    Flag(bool),
    List(Vec<Option<String>>),
    Other,
}

/// Whether a stored value already equals the value to be written: equal strings, equal
/// booleans, or arrays of equal length whose elements are strings equal to the written
/// ones, in order.
pub open spec fn stored_equals(s: StoredValue, d: DocValueView) -> bool {
    match (s, d) {
        (StoredValue::Text(a), DocValueView::Text(b)) => a@ == b,
        (StoredValue::Flag(a), DocValueView::Flag(b)) => a == b,
        (StoredValue::List(a), DocValueView::List(b)) => a@.len() == b.len() && forall|i: int|
            0 <= i < b.len() ==> opt_text(#[trigger] a@[i]) == Some(b[i]),
        _ => false,
    }
}

/// Whether the stored value already equals the value to be written (see
/// [`stored_equals`]); such a key is left as written.
pub fn value_unchanged(stored: &StoredValue, desired: &DocValue) -> (r: bool)
    ensures
        r == stored_equals(*stored, desired@),
{
    match (stored, desired) {
        (StoredValue::Text(a), DocValue::Text(b)) => str_eq(a.as_str(), b.as_str()),
        (StoredValue::Flag(a), DocValue::Flag(b)) => *a == *b,
        (StoredValue::List(a), DocValue::List(b)) => {
            if a.len() != b.len() {
                return false;
            }
            let mut i: usize = 0;
            while i < b.len()
                invariant
                    a@.len() == b@.len(),
                    i <= b@.len(),
                    desired@ == DocValueView::List(texts(b@)),
                    *stored == StoredValue::List(*a),
                    forall|j: int| 0 <= j < i ==> opt_text(#[trigger] a@[j]) == Some(b@[j]@),
                decreases b@.len() - i,
            {
                match &a[i] {
                    Some(t) => {
                        if !str_eq(t.as_str(), b[i].as_str()) {
                            proof {
                                assert(texts(b@)[i as int] == b@[i as int]@);
                                assert(opt_text(a@[i as int]) != Some(texts(b@)[i as int]));
                            }
                            return false;
                        }
                    },
                    None => {
                        proof {
                            assert(opt_text(a@[i as int]) != Some(texts(b@)[i as int]));
                        }
                        return false;
                    },
                }
                i = i + 1;
            }
            proof {
                assert forall|j: int| 0 <= j < texts(b@).len() implies opt_text(#[trigger] a@[j]) == Some(
                    texts(b@)[j],
                ) by {
                    assert(texts(b@)[j] == b@[j]@);
                }
            }
            true
        },
        _ => false,
    }
}

fn same_text(a: &Option<String>, b: &Option<String>) -> (r: bool)
    ensures
        r == (opt_text(*a) == opt_text(*b)),
{
    match (a, b) {
        (Some(x), Some(y)) => str_eq(x.as_str(), y.as_str()),
        (None, None) => true,
        _ => false,
    }
}

fn same_branch(a: &Option<SerializableBranch>, b: &Option<SerializableBranch>) -> (r: bool)
    ensures
        r == (opt_branch(*a) == opt_branch(*b)),
{
    match (a, b) {
        (Some(SerializableBranch::Name(x)), Some(SerializableBranch::Name(y))) => str_eq(
            x.as_str(),
            y.as_str(),
        ),
        (Some(SerializableBranch::CurrentInSuperproject), Some(SerializableBranch::CurrentInSuperproject)) => true,
        (None, None) => true,
        _ => false,
    }
}

fn same_texts(a: &Option<Vec<String>>, b: &Option<Vec<String>>) -> (r: bool)
    ensures
        r == (opt_texts(*a) == opt_texts(*b)),
{
    match (a, b) {
        (Some(x), Some(y)) => {
            if x.len() != y.len() {
                proof {
                    assert(texts(x@).len() != texts(y@).len());
                }
                return false;
            }
            let mut i: usize = 0;
            while i < x.len()
                invariant
                    x@.len() == y@.len(),
                    i <= x@.len(),
                    opt_texts(*a) == Some(texts(x@)),
                    opt_texts(*b) == Some(texts(y@)),
                    forall|j: int| 0 <= j < i ==> x@[j]@ == y@[j]@,
                decreases x@.len() - i,
            {
                if !str_eq(x[i].as_str(), y[i].as_str()) {
                    proof {
                        assert(texts(x@)[i as int] != texts(y@)[i as int]);
                    }
                    return false;
                }
                i = i + 1;
            }
            proof {
                assert(texts(x@) =~= texts(y@));
            }
            true
        },
        (None, None) => true,
        _ => false,
    }
}

fn same_flag(a: Option<bool>, b: Option<bool>) -> (r: bool)
    ensures
        r == (a == b),
{
    match (a, b) {
        (Some(x), Some(y)) => x == y,
        (None, None) => true,
        _ => false,
    }
}

/// Whether field `f` differs between the entries.
fn differs(a: &SubmoduleEntry, b: &SubmoduleEntry, f: ConfigField) -> (r: bool)
    ensures
        r == field_differs(a@, b@, f),
{
    match f {
        ConfigField::Path => !same_text(&a.path, &b.path),
        ConfigField::Url => !same_text(&a.url, &b.url),
        ConfigField::Branch => !same_branch(&a.branch, &b.branch),
        ConfigField::Ignore => !match (a.ignore, b.ignore) {
            (Some(x), Some(y)) => x == y,
            (None, None) => true,
            _ => false,
        },
        ConfigField::FetchRecurse => !match (a.fetch_recurse, b.fetch_recurse) {
            (Some(x), Some(y)) => x == y,
            (None, None) => true,
            _ => false,
        },
        ConfigField::Update => !match (a.update, b.update) {
            (Some(x), Some(y)) => x == y,
            (None, None) => true,
            _ => false,
        },
        ConfigField::Active => !same_flag(a.active, b.active),
        ConfigField::Shallow => !same_flag(a.shallow, b.shallow),
        ConfigField::SparsePaths => !same_texts(&a.sparse_paths, &b.sparse_paths),
        ConfigField::UseGitDefaultSparseCheckout => !same_flag(
            a.use_git_default_sparse_checkout,
            b.use_git_default_sparse_checkout,
        ),
    }
}

/// The value field `f` of `e` is written with.
fn value_of(e: &SubmoduleEntry, f: ConfigField) -> (r: Option<DocValue>)
    ensures
        (match r {
            Some(v) => Some(v@),
            None => None,
        }) == field_value(e@, f),
{
    match f {
        ConfigField::Path => match &e.path {
            Some(p) => Some(DocValue::Text(owned(p.as_str()))),
            None => None,
        },
        ConfigField::Url => match &e.url {
            Some(u) => Some(DocValue::Text(owned(u.as_str()))),
            None => None,
        },
        ConfigField::Branch => match &e.branch {
            Some(b) => Some(DocValue::Text(b.display_text())),
            None => None,
        },
        ConfigField::Ignore => match e.ignore {
            Some(i) => Some(DocValue::Text(i.display_text())),
            None => None,
        },
        ConfigField::FetchRecurse => match e.fetch_recurse {
            Some(x) => Some(DocValue::Text(owned(fetch_config_value(x)))),
            None => None,
        },
        ConfigField::Update => match e.update {
            Some(u) => Some(DocValue::Text(u.display_text())),
            None => None,
        },
        ConfigField::Active => match e.active {
            Some(a) => Some(DocValue::Flag(a)),
            None => None,
        },
        ConfigField::Shallow => match e.shallow {
            Some(a) => Some(DocValue::Flag(a)),
            None => None,
        },
        ConfigField::SparsePaths => match &e.sparse_paths {
            Some(p) => Some(DocValue::List(copy_texts(p))),
            None => None,
        },
        ConfigField::UseGitDefaultSparseCheckout => match e.use_git_default_sparse_checkout {
            Some(a) => Some(DocValue::Flag(a)),
            None => None,
        },
    }
}

/// The defaults as an entry (see [`defaults_entry`]).
fn defaults_as_entry(d: &SubmoduleDefaults) -> (r: SubmoduleEntry)
    ensures
        r@ == defaults_entry(defaults_view(*d)),
{
    SubmoduleEntry {
        path: None,
        url: None,
        branch: crate::config::copy_branch(&d.branch),
        ignore: d.ignore,
        update: d.update,
        fetch_recurse: d.fetch_recurse,
        active: None,
        shallow: None,
        no_init: None,
        sparse_paths: None,
        use_git_default_sparse_checkout: d.use_git_default_sparse_checkout,
    }
}

fn push_edit(out: &mut Vec<DocEdit>, e: DocEdit)
    ensures
        edit_views(final(out)@) == edit_views(old(out)@).push(e@),
{
    let ghost before = out@;
    out.push(e);
    proof {
        assert(edit_views(out@) =~= edit_views(before).push(e@));
    }
}

/// Append the edits of one table (see [`table_edits`]).
fn push_table_edits(
    out: &mut Vec<DocEdit>,
    table: &str,
    fields: &Vec<ConfigField>,
    changed: &Vec<bool>,
    e: &SubmoduleEntry,
)
    requires
        fields@.len() == changed@.len(),
    ensures
        edit_views(final(out)@) == edit_views(old(out)@) + table_edits(
            table@,
            fields@,
            changed@,
            e@,
        ),
{
    let mut any = false;
    let mut k: usize = 0;
    while k < changed.len()
        invariant
            k <= changed@.len(),
            any == changed@.subrange(0, k as int).contains(true),
        decreases changed@.len() - k,
    {
        proof {
            assert(changed@.subrange(0, k + 1) =~= changed@.subrange(0, k as int).push(changed@[k as int]));
            if changed@.subrange(0, k as int).contains(true) {
                let w = choose|w: int| 0 <= w < k && changed@.subrange(0, k as int)[w] == true;
                assert(changed@.subrange(0, k + 1)[w] == true);
            }
            if changed@[k as int] {
                assert(changed@.subrange(0, k + 1)[k as int] == true);
            }
        }
        any = any || changed[k];
        k = k + 1;
    }
    proof {
        assert(changed@.subrange(0, changed@.len() as int) =~= changed@);
    }
    if !any {
        proof {
            assert(edit_views(out@) + table_edits(table@, fields@, changed@, e@) =~= edit_views(out@));
        }
        return;
    }
    let ghost base = edit_views(out@);
    push_edit(out, DocEdit::Table { name: owned(table) });
    let mut i: usize = 0;
    proof {
        assert(fields@.subrange(0, 0) =~= Seq::<ConfigField>::empty());
        assert(changed@.subrange(0, 0) =~= Seq::<bool>::empty());
        assert(edit_views(out@) =~= base + seq![DocEditView::Table(table@)] + fields_edits(
            table@,
            fields@.subrange(0, 0),
            changed@.subrange(0, 0),
            e@,
        ));
    }
    while i < fields.len()
        invariant
            fields@.len() == changed@.len(),
            i <= fields@.len(),
            edit_views(out@) == base + seq![DocEditView::Table(table@)] + fields_edits(
                table@,
                fields@.subrange(0, i as int),
                changed@.subrange(0, i as int),
                e@,
            ),
        decreases fields@.len() - i,
    {
        let f = fields[i];
        let ghost before = edit_views(out@);
        if changed[i] {
            if matches!(f, ConfigField::FetchRecurse) {
                push_edit(out, DocEdit::Drop { table: owned(table), key: "fetch" });
                push_edit(out, DocEdit::Drop { table: owned(table), key: "fetch_recurse" });
            }
            let v = value_of(e, f);
            push_edit(out, DocEdit::Put { table: owned(table), key: f.key(), value: v });
            proof {
                assert(edit_views(out@) =~= before + field_edits(table@, f, field_value(e@, f)));
            }
        }
        proof {
            let fs = fields@.subrange(0, i + 1);
            let cs = changed@.subrange(0, i + 1);
            assert(fs.drop_last() =~= fields@.subrange(0, i as int));
            assert(cs.drop_last() =~= changed@.subrange(0, i as int));
            assert(fs.last() == f);
            assert(cs.last() == changed@[i as int]);
        }
        i = i + 1;
    }
    proof {
        assert(fields@.subrange(0, fields@.len() as int) =~= fields@);
        assert(changed@.subrange(0, changed@.len() as int) =~= changed@);
    }
}

/// Whether `intent` asks to write the default `key`.
fn marked_default(intent: &EditIntent, key: &str) -> (r: bool)
    ensures
        r == marks_default(*intent, key@),
{
    let mut i: usize = 0;
    while i < intent.defaults.len()
        invariant
            i <= intent.defaults@.len(),
            forall|k: int| 0 <= k < i ==> intent.defaults@[k]@ != key@,
        decreases intent.defaults@.len() - i,
    {
        if str_eq(intent.defaults[i], key) {
            proof {
                assert(texts_of(intent.defaults@)[i as int] == key@);
            }
            return true;
        }
        i = i + 1;
    }
    proof {
        if texts_of(intent.defaults@).contains(key@) {
            let w = choose|w: int| 0 <= w < texts_of(intent.defaults@).len() && texts_of(intent.defaults@)[w] == key@;
            assert(intent.defaults@[w]@ == key@);
        }
    }
    false
}

/// Whether `intent` asks to write `key` of submodule `name`.
fn marked_module(intent: &EditIntent, name: &str, key: &str) -> (r: bool)
    ensures
        r == marks_module(*intent, name@, key@),
{
    let mut i: usize = 0;
    while i < intent.modules.len()
        invariant
            i <= intent.modules@.len(),
            forall|k: int| 0 <= k < i ==> !((#[trigger] intent.modules@[k]).0@ == name@ && intent.modules@[k].1@ == key@),
        decreases intent.modules@.len() - i,
    {
        if str_eq(intent.modules[i].0.as_str(), name) && str_eq(intent.modules[i].1, key) {
            return true;
        }
        i = i + 1;
    }
    false
}

/// The flags of the default fields (see [`default_flags`]).
fn default_flag_list(old: &SubmoduleEntry, new: &SubmoduleEntry, intent: &EditIntent, fields: &Vec<ConfigField>) -> (r: Vec<bool>)
    ensures
        r@ == fields@.map_values(
            |f: ConfigField| marks_default(*intent, field_key(f)) || field_differs(old@, new@, f),
        ),
{
    let mut r: Vec<bool> = Vec::new();
    let mut i: usize = 0;
    while i < fields.len()
        invariant
            i <= fields@.len(),
            r@ == fields@.subrange(0, i as int).map_values(
                |f: ConfigField| marks_default(*intent, field_key(f)) || field_differs(old@, new@, f),
            ),
        decreases fields@.len() - i,
    {
        let f = fields[i];
        let b = marked_default(intent, f.key()) || differs(old, new, f);
        r.push(b);
        proof {
            assert(fields@.subrange(0, i + 1) =~= fields@.subrange(0, i as int).push(f));
            assert(r@ =~= fields@.subrange(0, i + 1).map_values(
                |f: ConfigField| marks_default(*intent, field_key(f)) || field_differs(old@, new@, f),
            ));
        }
        i = i + 1;
    }
    proof {
        assert(fields@.subrange(0, fields@.len() as int) =~= fields@);
    }
    r
}

/// The flags of the fields of submodule `name` (see [`module_flags`]).
fn module_flag_list(
    name: &str,
    old: Option<&SubmoduleEntry>,
    new: &SubmoduleEntry,
    intent: &EditIntent,
    fields: &Vec<ConfigField>,
) -> (r: Vec<bool>)
    ensures
        r@ == fields@.map_values(
            |f: ConfigField|
                match old {
                    None => true,
                    Some(o) => marks_module(*intent, name@, field_key(f)) || field_differs(o@, new@, f),
                },
        ),
{
    let ghost flag = |f: ConfigField|
        match old {
            None => true,
            Some(o) => marks_module(*intent, name@, field_key(f)) || field_differs(o@, new@, f),
        };
    let mut r: Vec<bool> = Vec::new();
    let mut i: usize = 0;
    while i < fields.len()
        invariant
            i <= fields@.len(),
            flag == (|f: ConfigField|
                match old {
                    None => true,
                    Some(o) => marks_module(*intent, name@, field_key(f)) || field_differs(o@, new@, f),
                }),
            r@ == fields@.subrange(0, i as int).map_values(flag),
        decreases fields@.len() - i,
    {
        let f = fields[i];
        let b = match old {
            None => true,
            Some(o) => marked_module(intent, name, f.key()) || differs(o, new, f),
        };
        r.push(b);
        proof {
            assert(fields@.subrange(0, i + 1) =~= fields@.subrange(0, i as int).push(f));
            assert(r@ =~= fields@.subrange(0, i + 1).map_values(flag));
        }
        i = i + 1;
    }
    proof {
        assert(fields@.subrange(0, fields@.len() as int) =~= fields@);
    }
    r
}

/// The edits that save configuration `new` over the document of the loaded `old` (see
/// [`config_edits`]).
pub fn plan_document_edits(old: &Config, new: &Config, intent: &EditIntent) -> (r: Vec<DocEdit>)
    ensures
        edit_views(r@) == config_edits(*old, *new, *intent),
{
    let mut out: Vec<DocEdit> = Vec::new();
    let dfields = default_field_list();
    let old_d = defaults_as_entry(&old.defaults);
    let new_d = defaults_as_entry(&new.defaults);
    let dflags = default_flag_list(&old_d, &new_d, intent, &dfields);
    proof {
        assert(edit_views(out@) =~= Seq::<DocEditView>::empty());
        assert(dflags@ =~= default_flags(defaults_view(old.defaults), defaults_view(new.defaults), *intent));
    }
    push_table_edits(&mut out, "defaults", &dfields, &dflags, &new_d);
    let ghost after_defaults = edit_views(out@);
    // removed submodules
    let old_names = match old.submodules.submodule_names() {
        Some(v) => v,
        None => Vec::new(),
    };
    let old_sorted = sort_texts(&old_names);
    let ghost os = texts(old_sorted@);
    let mut i: usize = 0;
    proof {
        assert(os.subrange(0, 0) =~= Seq::<Seq<char>>::empty());
        assert(edit_views(out@) =~= after_defaults + drop_edits(os.subrange(0, 0), new.submodules@));
    }
    while i < old_sorted.len()
        invariant
            i <= old_sorted@.len(),
            os == texts(old_sorted@),
            edit_views(out@) == after_defaults + drop_edits(os.subrange(0, i as int), new.submodules@),
        decreases old_sorted@.len() - i,
    {
        let n = old_sorted[i].as_str();
        let ghost before = edit_views(out@);
        if !new.submodules.contains_key(n) {
            push_edit(&mut out, DocEdit::DropTable { name: owned(n) });
        }
        proof {
            assert(os.subrange(0, i + 1).drop_last() =~= os.subrange(0, i as int));
            assert(os.subrange(0, i + 1).last() == n@);
        }
        i = i + 1;
    }
    proof {
        assert(os.subrange(0, os.len() as int) =~= os);
    }
    let ghost after_drops = edit_views(out@);
    let new_names = match new.submodules.submodule_names() {
        Some(v) => v,
        None => Vec::new(),
    };
    let new_sorted = sort_texts(&new_names);
    let ghost ns = texts(new_sorted@);
    let mfields = module_field_list();
    let mut j: usize = 0;
    proof {
        assert(ns.subrange(0, 0) =~= Seq::<Seq<char>>::empty());
        assert(edit_views(out@) =~= after_drops + modules_edits(ns.subrange(0, 0), old.submodules@, new.submodules@, *intent));
        crate::order::lemma_text_order_total();
        texts(new_names@).lemma_sort_by_ensures(text_order());
        assert forall|k: int| 0 <= k < ns.len() implies new.submodules@.contains_key(#[trigger] ns[k]) by {
            assert(ns.contains(ns[k]));
            assert(texts(new_names@).contains(ns[k]));
        }
    }
    while j < new_sorted.len()
        invariant
            j <= new_sorted@.len(),
            ns == texts(new_sorted@),
            mfields@ == module_fields(),
            forall|k: int| 0 <= k < ns.len() ==> new.submodules@.contains_key(#[trigger] ns[k]),
            edit_views(out@) == after_drops + modules_edits(ns.subrange(0, j as int), old.submodules@, new.submodules@, *intent),
        decreases new_sorted@.len() - j,
    {
        let n = new_sorted[j].as_str();
        proof {
            assert(new.submodules@.contains_key(ns[j as int]));
        }
        let entry = new.submodules.get(n).unwrap();
        let prior = old.submodules.get(n);
        let flags = module_flag_list(n, prior, entry, intent, &mfields);
        proof {
            let o = entry_at(old.submodules@, n@);
            assert(flags@ =~= module_flags(n@, o, new.submodules@[n@], *intent)) by {
                match prior {
                    Some(p) => {
                        assert(o == Some(p@));
                    },
                    None => {
                        assert(o is None);
                    },
                }
            }
            assert(ns.subrange(0, j + 1).drop_last() =~= ns.subrange(0, j as int));
            assert(ns.subrange(0, j + 1).last() == n@);
        }
        push_table_edits(&mut out, n, &mfields, &flags, entry);
        j = j + 1;
    }
    proof {
        assert(ns.subrange(0, ns.len() as int) =~= ns);
    }
    out
}

} // verus!
