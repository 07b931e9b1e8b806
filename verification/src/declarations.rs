//! Reading `submod.toml`: the declarations of a parsed TOML table are validated field by
//! field and turned into a [`Config`]; every error names where in the file it was found.
use vstd::prelude::*;
use toml::Value;

use crate::config::{
    opt_branch, texts, Config, EntryView, SubmoduleDefaults, SubmoduleEntries, SubmoduleEntry,
};
use crate::options::{
    branch_parse, BranchView, SerializableBranch, SerializableFetchRecurse, SerializableIgnore,
    SerializableUpdate,
};
use crate::text::{concat2, contains_char, owned, push_char, str_eq, trim, trim_seq};

verus! {

/// A TOML value as far as the declarations need it.
#[derive(Debug, Clone, PartialEq, Eq)]
pub enum FieldValue {
    /// A string.
    Text(String),
    /// A boolean.
    Boolean(bool),
    /// An array; each element that is a string, and `None` for every other element.
    List(Vec<Option<String>>),
    /// Any other value (number, date, table, ...).
    Other,
}

/// A key of a TOML table with its value and the value as TOML displays it.
#[derive(Debug, Clone, PartialEq, Eq)]
pub struct Field {
    pub key: String,
    pub value: FieldValue,
    pub shown: String,
}

/// A top-level entry of the file: its name and, when its value is a table, the
/// table's fields in the table's order.
#[derive(Debug, Clone, PartialEq, Eq)]
pub struct Section {
    pub name: String,
    pub fields: Option<Vec<Field>>,
}

/// Something accepted for compatibility that deserves a warning.
#[derive(Debug, Clone, PartialEq, Eq)]
pub enum ConfigWarning {
    /// The section spells fetch-recurse with a legacy key.
    LegacyAlias { section: String, alias: String },
    /// The section's fetch-recurse value is the legacy `true` or `false`.
    LegacyFetchValue { section: String },
    /// The section's branch is `HEAD`.
    HeadBranch { section: String },
}

/// The model of a [`FieldValue`].
pub enum ValueView {
    Text(Seq<char>),
    Boolean(bool),
    List(Seq<Option<Seq<char>>>),
    Other,
}

/// The model of a [`Field`].
pub struct FieldView {
    pub key: Seq<char>,
    pub value: ValueView,
    pub shown: Seq<char>,
}

/// The model of a [`ConfigWarning`].
pub enum WarningView {
    LegacyAlias { section: Seq<char>, alias: Seq<char> },
    LegacyFetchValue { section: Seq<char> },
    HeadBranch { section: Seq<char> },
}

impl View for FieldValue {
    type V = ValueView;

    open spec fn view(&self) -> ValueView {
        match self {
            FieldValue::Text(s) => ValueView::Text(s@),
            FieldValue::Boolean(b) => ValueView::Boolean(*b),
            FieldValue::List(v) => ValueView::List(
                v@.map_values(|o: Option<String>| crate::config::opt_text(o)),
            ),
            FieldValue::Other => ValueView::Other,
        }
    }
}

impl View for Field {
    type V = FieldView;

    open spec fn view(&self) -> FieldView {
        FieldView { key: self.key@, value: self.value@, shown: self.shown@ }
    }
}

impl View for ConfigWarning {
    type V = WarningView;

    open spec fn view(&self) -> WarningView {
        match self {
            ConfigWarning::LegacyAlias { section, alias } => WarningView::LegacyAlias {
                section: section@,
                alias: alias@,
            },
            ConfigWarning::LegacyFetchValue { section } => WarningView::LegacyFetchValue {
                section: section@,
            },
            ConfigWarning::HeadBranch { section } => WarningView::HeadBranch { section: section@ },
        }
    }
}

/// The views of fields.
pub open spec fn field_views(v: Seq<Field>) -> Seq<FieldView> {
    v.map_values(|f: Field| f@)
}

/// The views of warnings.
pub open spec fn warning_views(v: Seq<ConfigWarning>) -> Seq<WarningView> {
    v.map_values(|w: ConfigWarning| w@)
}

// ---------------------------------------------------------------------------------
// Locations
// ---------------------------------------------------------------------------------

/// Where the TOML document `source` has the key `key` of its root table, as `toml_edit`
/// reports it: `None` when the document does not parse or has no such key; else the byte
/// offset where the key's span starts and where its value's span starts (each when
/// `toml_edit` keeps that span).
pub uninterp spec fn toml_root_key_spans(source: Seq<char>, key: Seq<char>) -> Option<(Option<usize>, Option<usize>)>;

/// Where the TOML document `source` has the key `key` of the table-like item `section`,
/// as `toml_edit` reports it (see [`toml_root_key_spans`]).
pub uninterp spec fn toml_table_key_spans(source: Seq<char>, section: Seq<char>, key: Seq<char>) -> Option<(Option<usize>, Option<usize>)>;

/// The offset a key is located at: the start of its span, else of its value's span.
pub open spec fn key_or_value_start(spans: Option<(Option<usize>, Option<usize>)>) -> Option<usize> {
    match spans {
        None => None,
        Some((Some(k), _)) => Some(k),
        Some((None, v)) => v,
    }
}

/// The offset of the key `key` of the root table (see [`key_or_value_start`]).
pub open spec fn toml_root_key_offset(source: Seq<char>, key: Seq<char>) -> Option<usize> {
    key_or_value_start(toml_root_key_spans(source, key))
}

/// The offset of the key `key` of the table `section` (see [`key_or_value_start`]).
pub open spec fn toml_table_key_offset(source: Seq<char>, section: Seq<char>, key: Seq<char>) -> Option<usize> {
    key_or_value_start(toml_table_key_spans(source, section, key))
}

/// The byte offset at which the TOML document `source` has the item `section`, as
/// `toml_edit` reports it.
pub uninterp spec fn toml_section_offset(source: Seq<char>, section: Seq<char>) -> Option<usize>;

/// `toml_edit`: parses `source` as a document (`Document::parse`) and, in its root table,
/// looks up `key` (`get_key_value`); gives the starts of the key's and the value's spans
/// (`span`). Stated: the result is [`toml_root_key_spans`] of the arguments; what the
/// spans are, is not stated.
#[verifier::external_body]
fn root_key_spans(source: &str, key: &str) -> (r: Option<(Option<usize>, Option<usize>)>)
    ensures
        r == toml_root_key_spans(source@, key@),
{
    let document = toml_edit::Document::parse(source).ok()?;
    let (k, v) = document.as_item().as_table_like()?.get_key_value(key)?;
    Some((k.span().map(|span| span.start), v.span().map(|span| span.start)))
}

/// `toml_edit`: parses `source` as a document and, in the table-like item `section`,
/// looks up `key`; gives the starts of the key's and the value's spans. Stated: the
/// result is [`toml_table_key_spans`] of the arguments.
#[verifier::external_body]
fn table_key_spans(source: &str, section: &str, key: &str) -> (r: Option<(Option<usize>, Option<usize>)>)
    ensures
        r == toml_table_key_spans(source@, section@, key@),
{
    let document = toml_edit::Document::parse(source).ok()?;
    let (k, v) = document.get(section)?.as_table_like()?.get_key_value(key)?;
    Some((k.span().map(|span| span.start), v.span().map(|span| span.start)))
}

/// The offset a key is located at (see [`key_or_value_start`]).
fn start_of(spans: Option<(Option<usize>, Option<usize>)>) -> (r: Option<usize>)
    ensures
        r == key_or_value_start(spans),
{
    match spans {
        None => None,
        Some((Some(k), _)) => Some(k),
        Some((None, v)) => v,
    }
}

/// The offset of the key `key` of the root table (see [`toml_root_key_offset`]).
fn root_key_offset(source: &str, key: &str) -> (r: Option<usize>)
    ensures
        r == toml_root_key_offset(source@, key@),
{
    start_of(root_key_spans(source, key))
}

/// The offset of the key `key` of the table `section` (see [`toml_table_key_offset`]).
fn table_key_offset(source: &str, section: &str, key: &str) -> (r: Option<usize>)
    ensures
        r == toml_table_key_offset(source@, section@, key@),
{
    start_of(table_key_spans(source, section, key))
}

/// `toml_edit`: parses `source` as a document and returns the start of the span of the
/// item `section`. Stated: the result is [`toml_section_offset`] of the arguments.
#[verifier::external_body]
fn section_offset(source: &str, section: &str) -> (r: Option<usize>)
    ensures
        r == toml_section_offset(source@, section@),
{
    let document = toml_edit::Document::parse(source).ok()?;
    document.get(section)?.span().map(|span| span.start)
}

/// The offset of a key, trying the legacy spellings of fetch-recurse after it.
pub open spec fn key_offset_of(source: Seq<char>, section: Seq<char>, field: Seq<char>) -> Option<usize> {
    let look = |k: Seq<char>|
        if section.len() == 0 {
            toml_root_key_offset(source, k)
        } else {
            toml_table_key_offset(source, section, k)
        };
    match look(field) {
        Some(o) => Some(o),
        None => if field == "fetchRecurse"@ {
            match look("fetch"@) {
                Some(o) => Some(o),
                None => look("fetch_recurse"@),
            }
        } else {
            None
        },
    }
}

/// The offset a location points at: its key's, else its section's.
pub open spec fn location_offset(source: Seq<char>, section: Seq<char>, field: Seq<char>) -> Option<usize> {
    match key_offset_of(source, section, field) {
        Some(o) => Some(o),
        None => if section.len() == 0 {
            None
        } else {
            toml_section_offset(source, section)
        },
    }
}

/// The number of newline bytes in `b`.
pub open spec fn newlines(b: Seq<u8>) -> nat
    decreases b.len(),
{
    if b.len() == 0 {
        0
    } else {
        newlines(b.drop_last()) + if b.last() == 10u8 {
            1nat
        } else {
            0nat
        }
    }
}

/// The line (counted from 1) of the byte offset `offset` in `b`.
pub open spec fn line_of(b: Seq<u8>, offset: int) -> nat {
    newlines(b.subrange(0, if offset < b.len() { offset } else { b.len() as int })) + 1
}

/// The label of a location: the field alone at the top level, `[section]` for a whole
/// section, else `[section].field`.
pub open spec fn location_label(section: Seq<char>, field: Seq<char>) -> Seq<char> {
    if section.len() == 0 {
        field
    } else if field.len() == 0 {
        "["@ + section + "]"@
    } else {
        "["@ + section + "]."@ + field
    }
}

/// A location as errors report it: the label, followed by ` (line N)` when the
/// document is known and has a span for it.
pub open spec fn location_text(source: Option<Seq<char>>, section: Seq<char>, field: Seq<char>) -> Seq<char> {
    match source {
        Some(src) => match location_offset(src, section, field) {
            Some(o) => location_label(section, field) + " (line "@ + crate::plan::decimal(
                line_of(src_bytes(src), o as int),
            ) + ")"@,
            None => location_label(section, field),
        },
        None => location_label(section, field),
    }
}

/// The UTF-8 bytes of a text.
pub open spec fn src_bytes(s: Seq<char>) -> Seq<u8> {
    vstd::utf8::encode_utf8(s)
}

/// The number of newline bytes among the first `end` bytes.
fn count_newlines(b: &[u8], end: usize) -> (r: usize)
    requires
        end <= b@.len(),
    ensures
        r == newlines(b@.subrange(0, end as int)),
        r <= end,
{
    let mut count: usize = 0;
    let mut i: usize = 0;
    assert(b@.subrange(0, 0) =~= Seq::<u8>::empty());
    while i < end
        invariant
            end <= b@.len(),
            i <= end,
            count <= i,
            count == newlines(b@.subrange(0, i as int)),
        decreases end - i,
    {
        assert(b@.subrange(0, i + 1).drop_last() =~= b@.subrange(0, i as int));
        if b[i] == 10u8 {
            count = count + 1;
        }
        i = i + 1;
    }
    count
}

/// The location of `field` of `section` (see [`location_text`]).
pub fn location(source: Option<&str>, section: &str, field: &str) -> (r: String)
    requires
        source matches Some(s) ==> src_bytes(s@).len() < usize::MAX,
    ensures
        r@ == location_text(
            match source {
                Some(s) => Some(s@),
                None => None,
            },
            section@,
            field@,
        ),
{
    let mut label = if section.unicode_len() == 0 {
        owned(field)
    } else if field.unicode_len() == 0 {
        let mut l = concat2("[", section);
        l.append("]");
        l
    } else {
        let mut l = concat2("[", section);
        l.append("].");
        l.append(field);
        l
    };
    let src = match source {
        Some(s) => s,
        None => {
            return label;
        },
    };
    proof {
        reveal_strlit("fetchRecurse");
        reveal_strlit("fetch");
        reveal_strlit("fetch_recurse");
    }
    let root = section.unicode_len() == 0;
    let mut offset = if root {
        root_key_offset(src, field)
    } else {
        table_key_offset(src, section, field)
    };
    if offset.is_none() && str_eq(field, "fetchRecurse") {
        offset = if root {
            root_key_offset(src, "fetch")
        } else {
            table_key_offset(src, section, "fetch")
        };
        if offset.is_none() {
            offset = if root {
                root_key_offset(src, "fetch_recurse")
            } else {
                table_key_offset(src, section, "fetch_recurse")
            };
        }
    }
    if offset.is_none() && !root {
        offset = section_offset(src, section);
    }
    match offset {
        Some(o) => {
            let bytes = src.as_bytes();
            let end = if o < bytes.len() {
                o
            } else {
                bytes.len()
            };
            let line = count_newlines(bytes, end) + 1;
            label.append(" (line ");
            crate::plan::push_decimal(&mut label, line);
            label.append(")");
            label
        },
        None => label,
    }
}

// ---------------------------------------------------------------------------------
// Keys and values
// ---------------------------------------------------------------------------------

/// Keys every section may have.
pub open spec fn is_common_key(k: Seq<char>) -> bool {
    k == "branch"@ || k == "ignore"@ || k == "update"@ || k == "fetchRecurse"@ || k == "fetch"@
        || k == "fetch_recurse"@ || k == "use_git_default_sparse_checkout"@
}

/// Keys only a submodule section may have.
pub open spec fn is_module_key(k: Seq<char>) -> bool {
    k == "url"@ || k == "path"@ || k == "branch"@ || k == "active"@ || k == "shallow"@
        || k == "sparse_paths"@
}

/// Whether a key is known in a section (the `[defaults]` section when `global`).
pub open spec fn known_key(k: Seq<char>, global: bool) -> bool {
    is_common_key(k) || (!global && is_module_key(k))
}

/// The key a field is reported under: the legacy fetch-recurse spellings are read as
/// `fetchRecurse`.
pub open spec fn canonical_key(k: Seq<char>) -> Seq<char> {
    if k == "fetch"@ || k == "fetch_recurse"@ {
        "fetchRecurse"@
    } else {
        k
    }
}

/// The ignore setting a TOML string names.
pub open spec fn ignore_toml(s: Seq<char>) -> Option<SerializableIgnore> {
    if s == "all"@ {
        Some(SerializableIgnore::All)
    } else if s == "dirty"@ {
        Some(SerializableIgnore::Dirty)
    } else if s == "untracked"@ {
        Some(SerializableIgnore::Untracked)
    } else if s == "none"@ {
        Some(SerializableIgnore::Nothing)
    } else {
        None
    }
}

/// The update strategy a TOML string names.
pub open spec fn update_toml(s: Seq<char>) -> Option<SerializableUpdate> {
    if s == "checkout"@ {
        Some(SerializableUpdate::Checkout)
    } else if s == "rebase"@ {
        Some(SerializableUpdate::Rebase)
    } else if s == "merge"@ {
        Some(SerializableUpdate::Merge)
    } else if s == "none"@ {
        Some(SerializableUpdate::Nothing)
    } else {
        None
    }
}

/// The fetch-recurse setting a TOML string names; the legacy `true` and `false` are
/// read as `always` and `never`.
pub open spec fn fetch_toml(s: Seq<char>) -> Option<SerializableFetchRecurse> {
    if s == "on-demand"@ {
        Some(SerializableFetchRecurse::OnDemand)
    } else if s == "always"@ || s == "true"@ {
        Some(SerializableFetchRecurse::Always)
    } else if s == "never"@ || s == "false"@ {
        Some(SerializableFetchRecurse::Never)
    } else {
        None
    }
}

/// The branch setting a TOML string names.
pub open spec fn branch_toml(s: Seq<char>) -> Option<BranchView> {
    if s == "current-in-superproject"@ {
        Some(BranchView::CurrentInSuperproject)
    } else {
        branch_parse(s)
    }
}

/// Whether every element of a list is a string.
pub open spec fn all_texts(items: Seq<Option<Seq<char>>>) -> bool {
    forall|i: int| 0 <= i < items.len() ==> (#[trigger] items[i]) is Some
}

/// Whether a field's value has the type (and, for the enumerations, a spelling) its
/// key asks for.
pub open spec fn value_is_valid(key: Seq<char>, v: ValueView) -> bool {
    let k = canonical_key(key);
    if k == "active"@ || k == "shallow"@ || k == "use_git_default_sparse_checkout"@ {
        v is Boolean
    } else if k == "url"@ || k == "path"@ || k == "branch"@ {
        v is Text
    } else if k == "sparse_paths"@ {
        v matches ValueView::List(items) && all_texts(items)
    } else if k == "ignore"@ {
        v matches ValueView::Text(s) && ignore_toml(s) is Some
    } else if k == "update"@ {
        v matches ValueView::Text(s) && update_toml(s) is Some
    } else if k == "fetchRecurse"@ {
        v matches ValueView::Text(s) && fetch_toml(s) is Some
    } else {
        true
    }
}

/// The problem with one field, if any: a value of the wrong type or spelling, or a
/// branch that names no branch.
pub open spec fn field_problem(src: Option<Seq<char>>, name: Seq<char>, f: FieldView) -> Option<
    Seq<char>,
> {
    if !value_is_valid(f.key, f.value) {
        Some(
            location_text(src, name, canonical_key(f.key)) + ": invalid value or type "@ + f.shown,
        )
    } else if canonical_key(f.key) == "branch"@ && (f.value matches ValueView::Text(s)
        && branch_toml(s) is None) {
        Some(location_text(src, name, "branch"@) + ": invalid branch "@ + f.shown)
    } else {
        None
    }
}

/// The first problem among the fields from `i` on.
pub open spec fn first_field_problem(
    src: Option<Seq<char>>,
    name: Seq<char>,
    fs: Seq<FieldView>,
    i: int,
) -> Option<Seq<char>>
    decreases fs.len() - i,
{
    if i < 0 || i >= fs.len() {
        None
    } else {
        match field_problem(src, name, fs[i]) {
            Some(p) => Some(p),
            None => first_field_problem(src, name, fs, i + 1),
        }
    }
}

/// The index of the first unknown key from `i` on, or -1.
pub open spec fn first_unknown(fs: Seq<FieldView>, global: bool, i: int) -> int
    decreases fs.len() - i,
{
    if i < 0 || i >= fs.len() {
        -1
    } else if !known_key(fs[i].key, global) {
        i
    } else {
        first_unknown(fs, global, i + 1)
    }
}

/// Whether some field has the key `k`.
pub open spec fn has_key(fs: Seq<FieldView>, k: Seq<char>) -> bool {
    exists|j: int| 0 <= j < fs.len() && (#[trigger] fs[j]).key == k
}

/// The fetch-recurse spellings a section uses, in the order `fetchRecurse`, `fetch`,
/// `fetch_recurse`.
pub open spec fn spellings(fs: Seq<FieldView>) -> Seq<Seq<char>> {
    let a: Seq<Seq<char>> = if has_key(fs, "fetchRecurse"@) {
        seq!["fetchRecurse"@]
    } else {
        Seq::empty()
    };
    let b = if has_key(fs, "fetch"@) {
        a.push("fetch"@)
    } else {
        a
    };
    if has_key(fs, "fetch_recurse"@) {
        b.push("fetch_recurse"@)
    } else {
        b
    }
}

/// The value of the last field with key `k`.
pub open spec fn last_value(fs: Seq<FieldView>, k: Seq<char>) -> Option<ValueView>
    decreases fs.len(),
{
    if fs.len() == 0 {
        None
    } else if fs.last().key == k {
        Some(fs.last().value)
    } else {
        last_value(fs.drop_last(), k)
    }
}

/// The warnings a section gives, in order.
pub open spec fn section_warnings(name: Seq<char>, fs: Seq<FieldView>) -> Seq<WarningView> {
    let sp = spellings(fs);
    let a: Seq<WarningView> = if sp.len() == 1 && sp[0] != "fetchRecurse"@ {
        seq![WarningView::LegacyAlias { section: name, alias: sp[0] }]
    } else {
        Seq::empty()
    };
    let fetch = if sp.len() == 1 {
        last_value(fs, sp[0])
    } else {
        None
    };
    let b = if (fetch matches Some(ValueView::Text(s)) && (s == "true"@ || s == "false"@)) {
        a.push(WarningView::LegacyFetchValue { section: name })
    } else {
        a
    };
    if (last_value(fs, "branch"@) matches Some(ValueView::Text(s)) && s == "HEAD"@) {
        b.push(WarningView::HeadBranch { section: name })
    } else {
        b
    }
}

// ---------------------------------------------------------------------------------
// Building the declarations
// ---------------------------------------------------------------------------------

/// The model of [`SubmoduleDefaults`].
pub struct DefaultsView {
    pub branch: Option<BranchView>,
    pub ignore: Option<SerializableIgnore>,
    pub fetch_recurse: Option<SerializableFetchRecurse>,
    pub update: Option<SerializableUpdate>,
    pub use_git_default_sparse_checkout: Option<bool>,
}

/// The model of defaults.
pub open spec fn defaults_view(d: SubmoduleDefaults) -> DefaultsView {
    DefaultsView {
        branch: opt_branch(d.branch),
        ignore: d.ignore,
        fetch_recurse: d.fetch_recurse,
        update: d.update,
        use_git_default_sparse_checkout: d.use_git_default_sparse_checkout,
    }
}

/// Defaults with nothing set.
pub open spec fn no_defaults() -> DefaultsView {
    DefaultsView {
        branch: None,
        ignore: None,
        fetch_recurse: None,
        update: None,
        use_git_default_sparse_checkout: None,
    }
}

/// An entry with nothing set.
pub open spec fn empty_entry() -> EntryView {
    EntryView {
        path: None,
        url: None,
        branch: None,
        ignore: None,
        update: None,
        fetch_recurse: None,
        active: None,
        shallow: None,
        no_init: None,
        sparse_paths: None,
        use_git_default_sparse_checkout: None,
    }
}

/// The strings of a list of strings.
pub open spec fn list_texts(items: Seq<Option<Seq<char>>>) -> Seq<Seq<char>> {
    items.map_values(|o: Option<Seq<char>>| crate::config::or_value(o, Seq::empty()))
}

/// An entry with one (valid) field applied.
pub open spec fn apply_entry_field(e: EntryView, f: FieldView) -> EntryView {
    let k = canonical_key(f.key);
    match f.value {
        ValueView::Text(s) => if k == "url"@ {
            EntryView { url: Some(s), ..e }
        } else if k == "path"@ {
            EntryView { path: Some(s), ..e }
        } else if k == "branch"@ {
            EntryView { branch: branch_toml(s), ..e }
        } else if k == "ignore"@ {
            EntryView { ignore: ignore_toml(s), ..e }
        } else if k == "update"@ {
            EntryView { update: update_toml(s), ..e }
        } else if k == "fetchRecurse"@ {
            EntryView { fetch_recurse: fetch_toml(s), ..e }
        } else {
            e
        },
        ValueView::Boolean(b) => if k == "active"@ {
            EntryView { active: Some(b), ..e }
        } else if k == "shallow"@ {
            EntryView { shallow: Some(b), ..e }
        } else if k == "use_git_default_sparse_checkout"@ {
            EntryView { use_git_default_sparse_checkout: Some(b), ..e }
        } else {
            e
        },
        ValueView::List(items) => if k == "sparse_paths"@ {
            EntryView { sparse_paths: Some(list_texts(items)), ..e }
        } else {
            e
        },
        ValueView::Other => e,
    }
}

/// The entry a section's fields declare.
pub open spec fn entry_of(fs: Seq<FieldView>) -> EntryView
    decreases fs.len(),
{
    if fs.len() == 0 {
        empty_entry()
    } else {
        apply_entry_field(entry_of(fs.drop_last()), fs.last())
    }
}

/// Defaults with one (valid) field applied.
pub open spec fn apply_default_field(d: DefaultsView, f: FieldView) -> DefaultsView {
    let k = canonical_key(f.key);
    match f.value {
        ValueView::Text(s) => if k == "branch"@ {
            DefaultsView { branch: branch_toml(s), ..d }
        } else if k == "ignore"@ {
            DefaultsView { ignore: ignore_toml(s), ..d }
        } else if k == "update"@ {
            DefaultsView { update: update_toml(s), ..d }
        } else if k == "fetchRecurse"@ {
            DefaultsView { fetch_recurse: fetch_toml(s), ..d }
        } else {
            d
        },
        ValueView::Boolean(b) => if k == "use_git_default_sparse_checkout"@ {
            DefaultsView { use_git_default_sparse_checkout: Some(b), ..d }
        } else {
            d
        },
        _ => d,
    }
}

/// The defaults a `[defaults]` section's fields declare.
pub open spec fn defaults_of(fs: Seq<FieldView>) -> DefaultsView
    decreases fs.len(),
{
    if fs.len() == 0 {
        no_defaults()
    } else {
        apply_default_field(defaults_of(fs.drop_last()), fs.last())
    }
}

/// Whether a text has a NUL, newline or carriage return.
pub open spec fn has_line_break(s: Seq<char>) -> bool {
    crate::text::has_char(s, '\0') || crate::text::has_char(s, '\n') || crate::text::has_char(
        s,
        '\r',
    )
}

/// The problem with a submodule entry, if any: a missing, blank or multi-line URL, a
/// blank or multi-line path (the name stands for a missing path), a path that is no
/// checkout path (see [`crate::paths::path_problem`]), or a sparse pattern with a line
/// break.
pub open spec fn entry_problem(src: Option<Seq<char>>, name: Seq<char>, e: EntryView) -> Option<
    Seq<char>,
> {
    let path = crate::config::or_value(e.path, name);
    if !(e.url matches Some(u) && trim_seq(u).len() > 0 && !has_line_break(u)) {
        Some(location_text(src, name, "url"@) + ": required nonempty URL without NUL/newlines"@)
    } else if !(trim_seq(path).len() > 0 && !has_line_break(path)) {
        Some(location_text(src, name, "path"@) + ": invalid path characters"@)
    } else if crate::paths::path_problem(path) is Some {
        Some(
            location_text(src, name, "path"@) + ": "@ + crate::paths::path_problem_text(
                crate::paths::path_problem(path)->0,
            ),
        )
    } else if (e.sparse_paths matches Some(ps) && exists|i: int|
        0 <= i < ps.len() && has_line_break(#[trigger] ps[i])) {
        Some(
            location_text(src, name, "sparse_paths"@)
                + ": patterns cannot contain NUL or newlines"@,
        )
    } else {
        None
    }
}

/// The state of reading the sections in order.
pub struct LoadState {
    pub defaults: DefaultsView,
    pub entries: Map<Seq<char>, EntryView>,
    pub warnings: Seq<WarningView>,
    pub error: Option<Seq<char>>,
}

/// The state after one more section.
pub open spec fn load_section(
    st: LoadState,
    src: Option<Seq<char>>,
    name: Seq<char>,
    fields: Option<Seq<FieldView>>,
) -> LoadState {
    match fields {
        None => LoadState { error: Some(location_text(src, name, Seq::empty()) + ": expected a table"@), ..st },
        Some(fs) => {
            let global = name == "defaults"@;
            let u = first_unknown(fs, global, 0);
            let sp = spellings(fs);
            if 0 <= u < fs.len() {
                LoadState {
                    error: Some(location_text(src, name, fs[u].key) + ": unknown field"@),
                    ..st
                }
            } else if sp.len() > 1 {
                LoadState {
                    error: Some(
                        location_text(src, name, "fetchRecurse"@) + ": conflicting aliases "@
                            + crate::check::debug_list_text(sp),
                    ),
                    ..st
                }
            } else {
                let warnings = st.warnings + section_warnings(name, fs);
                match first_field_problem(src, name, fs, 0) {
                    Some(p) => LoadState { warnings, error: Some(p), ..st },
                    None => if global {
                        LoadState { defaults: defaults_of(fs), warnings, ..st }
                    } else {
                        match entry_problem(src, name, entry_of(fs)) {
                            Some(p) => LoadState { warnings, error: Some(p), ..st },
                            None => LoadState {
                                entries: st.entries.insert(name, entry_of(fs)),
                                warnings,
                                ..st
                            },
                        }
                    },
                }
            }
        },
    }
}

/// The model of a [`Section`].
pub open spec fn section_fields(s: Section) -> Option<Seq<FieldView>> {
    match s.fields {
        Some(v) => Some(field_views(v@)),
        None => None,
    }
}

/// The state after the sections, in order; reading stops at the first error.
pub open spec fn load_sections(src: Option<Seq<char>>, secs: Seq<Section>) -> LoadState
    decreases secs.len(),
{
    if secs.len() == 0 {
        LoadState {
            defaults: no_defaults(),
            entries: Map::empty(),
            warnings: Seq::empty(),
            error: None,
        }
    } else {
        let st = load_sections(src, secs.drop_last());
        if st.error is Some {
            st
        } else {
            load_section(st, src, secs.last().name@, section_fields(secs.last()))
        }
    }
}

/// The model of a [`Section`]: its name and, when it is a table, its fields.
pub struct SectionView {
    pub name: Seq<char>,
    pub fields: Option<Seq<FieldView>>,
}

/// The model of a section.
pub open spec fn section_view(s: Section) -> SectionView {
    SectionView { name: s.name@, fields: section_fields(s) }
}

/// The state after the sections given by their models (see [`load_sections`]).
pub open spec fn load_section_views(src: Option<Seq<char>>, secs: Seq<SectionView>) -> LoadState
    decreases secs.len(),
{
    if secs.len() == 0 {
        LoadState {
            defaults: no_defaults(),
            entries: Map::empty(),
            warnings: Seq::empty(),
            error: None,
        }
    } else {
        let st = load_section_views(src, secs.drop_last());
        if st.error is Some {
            st
        } else {
            load_section(st, src, secs.last().name, secs.last().fields)
        }
    }
}

/// Reading sections depends only on their models.
proof fn lemma_sections_by_views(src: Option<Seq<char>>, secs: Seq<Section>)
    ensures
        load_sections(src, secs) == load_section_views(
            src,
            secs.map_values(|s: Section| section_view(s)),
        ),
    decreases secs.len(),
{
    if secs.len() > 0 {
        lemma_sections_by_views(src, secs.drop_last());
        assert(secs.drop_last().map_values(|s: Section| section_view(s)) =~= secs.map_values(
            |s: Section| section_view(s),
        ).drop_last());
    }
}

/// The problem with the declared schema version, if any: it must be the string
/// `1.0.0` or `1.1.0`.
pub open spec fn schema_problem(src: Option<Seq<char>>, schema: Option<FieldView>) -> Option<Seq<char>> {
    match schema {
        Some(f) => if (f.value matches ValueView::Text(s) && (s == "1.0.0"@ || s == "1.1.0"@)) {
            None
        } else {
            Some(
                location_text(src, Seq::empty(), "schema_version"@) + ": unsupported version "@
                    + f.shown + "; expected 1.0.0 or 1.1.0"@,
            )
        },
        None => None,
    }
}

// ---------------------------------------------------------------------------------
// Executable checks
// ---------------------------------------------------------------------------------

/// The view of an optional source text.
pub open spec fn src_view(source: Option<&str>) -> Option<Seq<char>> {
    match source {
        Some(s) => Some(s@),
        None => None,
    }
}

/// A source text whose length fits the machine.
pub open spec fn src_fits(source: Option<&str>) -> bool {
    source matches Some(s) ==> src_bytes(s@).len() < usize::MAX
}

fn canonical(k: &str) -> (r: &str)
    ensures
        r@ == canonical_key(k@),
{
    if str_eq(k, "fetch") || str_eq(k, "fetch_recurse") {
        "fetchRecurse"
    } else {
        k
    }
}

fn ignore_from_toml(s: &str) -> (r: Option<SerializableIgnore>)
    ensures
        r == ignore_toml(s@),
{
    if str_eq(s, "all") {
        Some(SerializableIgnore::All)
    } else if str_eq(s, "dirty") {
        Some(SerializableIgnore::Dirty)
    } else if str_eq(s, "untracked") {
        Some(SerializableIgnore::Untracked)
    } else if str_eq(s, "none") {
        Some(SerializableIgnore::Nothing)
    } else {
        None
    }
}

fn update_from_toml(s: &str) -> (r: Option<SerializableUpdate>)
    ensures
        r == update_toml(s@),
{
    if str_eq(s, "checkout") {
        Some(SerializableUpdate::Checkout)
    } else if str_eq(s, "rebase") {
        Some(SerializableUpdate::Rebase)
    } else if str_eq(s, "merge") {
        Some(SerializableUpdate::Merge)
    } else if str_eq(s, "none") {
        Some(SerializableUpdate::Nothing)
    } else {
        None
    }
}

fn fetch_from_toml(s: &str) -> (r: Option<SerializableFetchRecurse>)
    ensures
        r == fetch_toml(s@),
{
    if str_eq(s, "on-demand") {
        Some(SerializableFetchRecurse::OnDemand)
    } else if str_eq(s, "always") || str_eq(s, "true") {
        Some(SerializableFetchRecurse::Always)
    } else if str_eq(s, "never") || str_eq(s, "false") {
        Some(SerializableFetchRecurse::Never)
    } else {
        None
    }
}

fn branch_from_toml(s: &str) -> (r: Option<SerializableBranch>)
    ensures
        opt_branch(r) == branch_toml(s@),
{
    match SerializableBranch::from_toml_text(s) {
        Ok(b) => Some(b),
        Err(()) => None,
    }
}

/// Whether every element of a list is a string.
fn all_strings(items: &Vec<Option<String>>) -> (r: bool)
    ensures
        r == all_texts(items@.map_values(|o: Option<String>| crate::config::opt_text(o))),
{
    let ghost views = items@.map_values(|o: Option<String>| crate::config::opt_text(o));
    let mut i: usize = 0;
    while i < items.len()
        invariant
            i <= items@.len(),
            views == items@.map_values(|o: Option<String>| crate::config::opt_text(o)),
            forall|j: int| 0 <= j < i ==> (#[trigger] views[j]) is Some,
        decreases items@.len() - i,
    {
        if items[i].is_none() {
            assert(views[i as int] is None);
            return false;
        }
        i = i + 1;
    }
    true
}

/// Whether a field's value is valid for its key (see [`value_is_valid`]).
fn value_valid(key: &str, v: &FieldValue) -> (r: bool)
    ensures
        r == value_is_valid(key@, v@),
{
    let k = canonical(key);
    if str_eq(k, "active") || str_eq(k, "shallow") || str_eq(k, "use_git_default_sparse_checkout") {
        match v {
            FieldValue::Boolean(_) => true,
            _ => false,
        }
    } else if str_eq(k, "url") || str_eq(k, "path") || str_eq(k, "branch") {
        match v {
            FieldValue::Text(_) => true,
            _ => false,
        }
    } else if str_eq(k, "sparse_paths") {
        match v {
            FieldValue::List(items) => all_strings(items),
            _ => false,
        }
    } else if str_eq(k, "ignore") {
        match v {
            FieldValue::Text(s) => ignore_from_toml(s.as_str()).is_some(),
            _ => false,
        }
    } else if str_eq(k, "update") {
        match v {
            FieldValue::Text(s) => update_from_toml(s.as_str()).is_some(),
            _ => false,
        }
    } else if str_eq(k, "fetchRecurse") {
        match v {
            FieldValue::Text(s) => fetch_from_toml(s.as_str()).is_some(),
            _ => false,
        }
    } else {
        true
    }
}

/// The problem with one field (see [`field_problem`]).
fn check_field(source: Option<&str>, name: &str, f: &Field) -> (r: Option<String>)
    requires
        src_fits(source),
    ensures
        crate::config::opt_text(r) == field_problem(src_view(source), name@, f@),
{
    let key = canonical(f.key.as_str());
    if !value_valid(f.key.as_str(), &f.value) {
        let mut m = location(source, name, key);
        m.append(": invalid value or type ");
        m.append(f.shown.as_str());
        return Some(m);
    }
    if str_eq(key, "branch") {
        match &f.value {
            FieldValue::Text(s) => {
                if branch_from_toml(s.as_str()).is_none() {
                    let mut m = location(source, name, "branch");
                    m.append(": invalid branch ");
                    m.append(f.shown.as_str());
                    return Some(m);
                }
            },
            _ => {},
        }
    }
    None
}

proof fn lemma_first_field_skip(src: Option<Seq<char>>, name: Seq<char>, fs: Seq<FieldView>, i: int)
    requires
        0 <= i < fs.len(),
        field_problem(src, name, fs[i]) is None,
    ensures
        first_field_problem(src, name, fs, i) == first_field_problem(src, name, fs, i + 1),
{
}

/// The first problem among the fields.
fn check_fields(source: Option<&str>, name: &str, fs: &Vec<Field>) -> (r: Option<String>)
    requires
        src_fits(source),
    ensures
        crate::config::opt_text(r) == first_field_problem(
            src_view(source),
            name@,
            field_views(fs@),
            0,
        ),
{
    let ghost views = field_views(fs@);
    let mut i: usize = 0;
    while i < fs.len()
        invariant
            src_fits(source),
            i <= fs@.len(),
            views == field_views(fs@),
            first_field_problem(src_view(source), name@, views, 0) == first_field_problem(
                src_view(source),
                name@,
                views,
                i as int,
            ),
        decreases fs@.len() - i,
    {
        proof {
            assert(views[i as int] == fs@[i as int]@);
        }
        match check_field(source, name, &fs[i]) {
            Some(m) => {
                return Some(m);
            },
            None => {},
        }
        proof {
            lemma_first_field_skip(src_view(source), name@, views, i as int);
        }
        i = i + 1;
    }
    None
}

fn known(k: &str, global: bool) -> (r: bool)
    ensures
        r == known_key(k@, global),
{
    let common = str_eq(k, "branch") || str_eq(k, "ignore") || str_eq(k, "update") || str_eq(
        k,
        "fetchRecurse",
    ) || str_eq(k, "fetch") || str_eq(k, "fetch_recurse") || str_eq(
        k,
        "use_git_default_sparse_checkout",
    );
    let module = str_eq(k, "url") || str_eq(k, "path") || str_eq(k, "branch") || str_eq(
        k,
        "active",
    ) || str_eq(k, "shallow") || str_eq(k, "sparse_paths");
    common || (!global && module)
}

proof fn lemma_first_unknown_skip(fs: Seq<FieldView>, global: bool, i: int)
    requires
        0 <= i < fs.len(),
        known_key(fs[i].key, global),
    ensures
        first_unknown(fs, global, i) == first_unknown(fs, global, i + 1),
{
}

/// The index of the first field with an unknown key.
fn find_unknown(fs: &Vec<Field>, global: bool) -> (r: Option<usize>)
    ensures
        match r {
            Some(i) => i == first_unknown(field_views(fs@), global, 0) && i < fs@.len(),
            None => first_unknown(field_views(fs@), global, 0) == -1,
        },
{
    let ghost views = field_views(fs@);
    let mut i: usize = 0;
    while i < fs.len()
        invariant
            i <= fs@.len(),
            views == field_views(fs@),
            first_unknown(views, global, 0) == first_unknown(views, global, i as int),
        decreases fs@.len() - i,
    {
        proof {
            assert(views[i as int] == fs@[i as int]@);
        }
        if !known(fs[i].key.as_str(), global) {
            return Some(i);
        }
        proof {
            lemma_first_unknown_skip(views, global, i as int);
        }
        i = i + 1;
    }
    None
}

/// Whether some field has the key `k`.
fn has_field(fs: &Vec<Field>, k: &str) -> (r: bool)
    ensures
        r == has_key(field_views(fs@), k@),
{
    let ghost views = field_views(fs@);
    let mut i: usize = 0;
    while i < fs.len()
        invariant
            i <= fs@.len(),
            views == field_views(fs@),
            forall|j: int| 0 <= j < i ==> (#[trigger] views[j]).key != k@,
        decreases fs@.len() - i,
    {
        proof {
            assert(views[i as int] == fs@[i as int]@);
        }
        if str_eq(fs[i].key.as_str(), k) {
            return true;
        }
        i = i + 1;
    }
    false
}

/// The fetch-recurse spellings a section uses (see [`spellings`]).
fn find_spellings(fs: &Vec<Field>) -> (r: Vec<String>)
    ensures
        texts(r@) == spellings(field_views(fs@)),
{
    let mut r: Vec<String> = Vec::new();
    if has_field(fs, "fetchRecurse") {
        r.push(owned("fetchRecurse"));
    }
    if has_field(fs, "fetch") {
        r.push(owned("fetch"));
    }
    if has_field(fs, "fetch_recurse") {
        r.push(owned("fetch_recurse"));
    }
    proof {
        assert(texts(r@) =~= spellings(field_views(fs@)));
    }
    r
}

/// The value of the last field with key `k`.
fn find_last<'a>(fs: &'a Vec<Field>, k: &str) -> (r: Option<&'a FieldValue>)
    ensures
        match r {
            Some(v) => last_value(field_views(fs@), k@) == Some(v@),
            None => last_value(field_views(fs@), k@) is None,
        },
{
    let ghost views = field_views(fs@);
    let mut j: usize = fs.len();
    assert(views.subrange(0, j as int) =~= views);
    while j > 0
        invariant
            j <= fs@.len(),
            views == field_views(fs@),
            last_value(views, k@) == last_value(views.subrange(0, j as int), k@),
        decreases j,
    {
        proof {
            assert(views.subrange(0, j as int).drop_last() =~= views.subrange(0, j - 1));
            assert(views[j - 1] == fs@[j - 1]@);
        }
        if str_eq(fs[j - 1].key.as_str(), k) {
            return Some(&fs[j - 1].value);
        }
        j = j - 1;
    }
    None
}

/// The warnings a section gives (see [`section_warnings`]).
fn warnings_for(name: &str, fs: &Vec<Field>) -> (r: Vec<ConfigWarning>)
    ensures
        warning_views(r@) == section_warnings(name@, field_views(fs@)),
{
    let sp = find_spellings(fs);
    let mut r: Vec<ConfigWarning> = Vec::new();
    if sp.len() == 1 && !str_eq(sp[0].as_str(), "fetchRecurse") {
        r.push(ConfigWarning::LegacyAlias { section: owned(name), alias: sp[0].clone() });
    }
    if sp.len() == 1 {
        match find_last(fs, sp[0].as_str()) {
            Some(FieldValue::Text(s)) => {
                if str_eq(s.as_str(), "true") || str_eq(s.as_str(), "false") {
                    r.push(ConfigWarning::LegacyFetchValue { section: owned(name) });
                }
            },
            _ => {},
        }
    }
    match find_last(fs, "branch") {
        Some(FieldValue::Text(s)) => {
            if str_eq(s.as_str(), "HEAD") {
                r.push(ConfigWarning::HeadBranch { section: owned(name) });
            }
        },
        _ => {},
    }
    proof {
        assert(warning_views(r@) =~= section_warnings(name@, field_views(fs@)));
    }
    r
}

/// The strings of a list (an element that is no string gives the empty string).
fn strings_of(items: &Vec<Option<String>>) -> (r: Vec<String>)
    ensures
        texts(r@) == list_texts(items@.map_values(|o: Option<String>| crate::config::opt_text(o))),
{
    let ghost views = items@.map_values(|o: Option<String>| crate::config::opt_text(o));
    let mut r: Vec<String> = Vec::new();
    let mut i: usize = 0;
    while i < items.len()
        invariant
            i <= items@.len(),
            views == items@.map_values(|o: Option<String>| crate::config::opt_text(o)),
            texts(r@) == list_texts(views.subrange(0, i as int)),
        decreases items@.len() - i,
    {
        let s = match &items[i] {
            Some(s) => s.clone(),
            None => String::new(),
        };
        let ghost before = texts(r@);
        r.push(s);
        proof {
            assert(texts(r@) =~= before.push(s@));
            assert(list_texts(views.subrange(0, i + 1)) =~= list_texts(views.subrange(0, i as int)).push(
                s@,
            ));
        }
        i = i + 1;
    }
    proof {
        assert(views.subrange(0, items@.len() as int) =~= views);
    }
    r
}

/// Apply one field to an entry (see [`apply_entry_field`]).
fn apply_field(e: &mut SubmoduleEntry, f: &Field)
    ensures
        final(e)@ == apply_entry_field(old(e)@, f@),
{
    let k = canonical(f.key.as_str());
    match &f.value {
        FieldValue::Text(s) => {
            if str_eq(k, "url") {
                e.url = Some(s.clone());
            } else if str_eq(k, "path") {
                e.path = Some(s.clone());
            } else if str_eq(k, "branch") {
                e.branch = branch_from_toml(s.as_str());
            } else if str_eq(k, "ignore") {
                e.ignore = ignore_from_toml(s.as_str());
            } else if str_eq(k, "update") {
                e.update = update_from_toml(s.as_str());
            } else if str_eq(k, "fetchRecurse") {
                e.fetch_recurse = fetch_from_toml(s.as_str());
            }
        },
        FieldValue::Boolean(b) => {
            if str_eq(k, "active") {
                e.active = Some(*b);
            } else if str_eq(k, "shallow") {
                e.shallow = Some(*b);
            } else if str_eq(k, "use_git_default_sparse_checkout") {
                e.use_git_default_sparse_checkout = Some(*b);
            }
        },
        FieldValue::List(items) => {
            if str_eq(k, "sparse_paths") {
                e.sparse_paths = Some(strings_of(items));
            }
        },
        FieldValue::Other => {},
    }
}

/// The entry a section's fields declare (see [`entry_of`]).
fn entry_from(fs: &Vec<Field>) -> (r: SubmoduleEntry)
    ensures
        r@ == entry_of(field_views(fs@)),
{
    let ghost views = field_views(fs@);
    let mut e = SubmoduleEntry::new(None, None, None, None, None, None, None, None, None);
    let mut i: usize = 0;
    proof {
        assert(views.subrange(0, 0) =~= Seq::<FieldView>::empty());
    }
    while i < fs.len()
        invariant
            i <= fs@.len(),
            views == field_views(fs@),
            e@ == entry_of(views.subrange(0, i as int)),
        decreases fs@.len() - i,
    {
        apply_field(&mut e, &fs[i]);
        proof {
            assert(views.subrange(0, i + 1).drop_last() =~= views.subrange(0, i as int));
            assert(views[i as int] == fs@[i as int]@);
        }
        i = i + 1;
    }
    proof {
        assert(views.subrange(0, fs@.len() as int) =~= views);
    }
    e
}

/// Apply one field to defaults (see [`apply_default_field`]).
fn apply_default(d: &mut SubmoduleDefaults, f: &Field)
    ensures
        defaults_view(*final(d)) == apply_default_field(defaults_view(*old(d)), f@),
{
    let k = canonical(f.key.as_str());
    match &f.value {
        FieldValue::Text(s) => {
            if str_eq(k, "branch") {
                d.branch = branch_from_toml(s.as_str());
            } else if str_eq(k, "ignore") {
                d.ignore = ignore_from_toml(s.as_str());
            } else if str_eq(k, "update") {
                d.update = update_from_toml(s.as_str());
            } else if str_eq(k, "fetchRecurse") {
                d.fetch_recurse = fetch_from_toml(s.as_str());
            }
        },
        FieldValue::Boolean(b) => {
            if str_eq(k, "use_git_default_sparse_checkout") {
                d.use_git_default_sparse_checkout = Some(*b);
            }
        },
        _ => {},
    }
}

/// The defaults a `[defaults]` section's fields declare (see [`defaults_of`]).
fn defaults_from(fs: &Vec<Field>) -> (r: SubmoduleDefaults)
    ensures
        defaults_view(r) == defaults_of(field_views(fs@)),
{
    let ghost views = field_views(fs@);
    let mut d = SubmoduleDefaults::default();
    let mut i: usize = 0;
    proof {
        assert(views.subrange(0, 0) =~= Seq::<FieldView>::empty());
    }
    while i < fs.len()
        invariant
            i <= fs@.len(),
            views == field_views(fs@),
            defaults_view(d) == defaults_of(views.subrange(0, i as int)),
        decreases fs@.len() - i,
    {
        apply_default(&mut d, &fs[i]);
        proof {
            assert(views.subrange(0, i + 1).drop_last() =~= views.subrange(0, i as int));
            assert(views[i as int] == fs@[i as int]@);
        }
        i = i + 1;
    }
    proof {
        assert(views.subrange(0, fs@.len() as int) =~= views);
    }
    d
}

/// Whether a text has a NUL, newline or carriage return.
fn line_break(s: &str) -> (r: bool)
    ensures
        r == has_line_break(s@),
{
    contains_char(s, '\0') || contains_char(s, '\n') || contains_char(s, '\r')
}

/// The problem with a submodule entry (see [`entry_problem`]).
fn check_entry(source: Option<&str>, name: &str, e: &SubmoduleEntry) -> (r: Option<String>)
    requires
        src_fits(source),
    ensures
        crate::config::opt_text(r) == entry_problem(src_view(source), name@, e@),
{
    let url_ok = match &e.url {
        Some(u) => trim(u.as_str()).unicode_len() > 0 && !line_break(u.as_str()),
        None => false,
    };
    if !url_ok {
        let mut m = location(source, name, "url");
        m.append(": required nonempty URL without NUL/newlines");
        return Some(m);
    }
    let path: &str = match &e.path {
        Some(p) => p.as_str(),
        None => name,
    };
    if !(trim(path).unicode_len() > 0 && !line_break(path)) {
        let mut m = location(source, name, "path");
        m.append(": invalid path characters");
        return Some(m);
    }
    match crate::paths::normalize_submodule_path(path) {
        Err(problem) => {
            let mut m = location(source, name, "path");
            m.append(": ");
            let text = problem.message();
            m.append(text.as_str());
            return Some(m);
        },
        Ok(_) => {},
    }
    match &e.sparse_paths {
        Some(ps) => {
            let mut i: usize = 0;
            while i < ps.len()
                invariant
                    src_fits(source),
                    (e@.url matches Some(u) && trim_seq(u).len() > 0 && !has_line_break(u)),
                    trim_seq(crate::config::or_value(e@.path, name@)).len() > 0
                        && !has_line_break(crate::config::or_value(e@.path, name@)),
                    crate::paths::path_problem(crate::config::or_value(e@.path, name@)) is None,
                    e@.sparse_paths == Some(texts(ps@)),
                    i <= ps@.len(),
                    forall|j: int| 0 <= j < i ==> !has_line_break(#[trigger] texts(ps@)[j]),
                decreases ps@.len() - i,
            {
                if line_break(ps[i].as_str()) {
                    proof {
                        let tp = texts(ps@);
                        assert(tp[i as int] == ps@[i as int]@);
                        assert(has_line_break(tp[i as int]));
                        assert(exists|j: int| 0 <= j < tp.len() && has_line_break(#[trigger] tp[j]));
                        assert(e@.sparse_paths == Some(tp));
                        assert(e@.sparse_paths->0 == tp);
                    }
                    let mut m = location(source, name, "sparse_paths");
                    m.append(": patterns cannot contain NUL or newlines");
                    return Some(m);
                }
                i = i + 1;
            }
        },
        None => {},
    }
    None
}

/// What reading a parsed file gives: the schema version is checked first, then the
/// sections in order.
pub open spec fn load_all(src: Option<Seq<char>>, schema: Option<FieldView>, secs: Seq<Section>) -> LoadState {
    match schema_problem(src, schema) {
        Some(p) => LoadState {
            defaults: no_defaults(),
            entries: Map::empty(),
            warnings: Seq::empty(),
            error: Some(p),
        },
        None => load_sections(src, secs),
    }
}

/// Append warnings.
fn append_warnings(out: &mut Vec<ConfigWarning>, more: Vec<ConfigWarning>)
    ensures
        warning_views(final(out)@) == warning_views(old(out)@) + warning_views(more@),
{
    let mut more = more;
    let ghost m = more@;
    out.append(&mut more);
    proof {
        assert(warning_views(out@) =~= warning_views(old(out)@) + warning_views(m));
    }
}

/// Read one section into the state (see [`load_section`]); returns the error, if any.
fn read_section(
    source: Option<&str>,
    sec: &Section,
    defaults: &mut SubmoduleDefaults,
    entries: &mut SubmoduleEntries,
    warnings: &mut Vec<ConfigWarning>,
) -> (r: Option<String>)
    requires
        src_fits(source),
    ensures
        ({
            let st0 = LoadState {
                defaults: defaults_view(*old(defaults)),
                entries: old(entries)@,
                warnings: warning_views(old(warnings)@),
                error: None,
            };
            let st1 = load_section(st0, src_view(source), sec.name@, section_fields(*sec));
            &&& crate::config::opt_text(r) == st1.error
            &&& r is None ==> (defaults_view(*final(defaults)) == st1.defaults && final(entries)@
                == st1.entries)
            &&& warning_views(final(warnings)@) == st1.warnings
        }),
{
    let name = sec.name.as_str();
    let fs = match &sec.fields {
        Some(fs) => fs,
        None => {
            proof {
                reveal_strlit("");
                assert(""@ =~= Seq::<char>::empty());
            }
            let mut m = location(source, name, "");
            m.append(": expected a table");
            return Some(m);
        },
    };
    let global = str_eq(name, "defaults");
    match find_unknown(fs, global) {
        Some(u) => {
            proof {
                assert(field_views(fs@)[u as int] == fs@[u as int]@);
            }
            let mut m = location(source, name, fs[u].key.as_str());
            m.append(": unknown field");
            return Some(m);
        },
        None => {},
    }
    let sp = find_spellings(fs);
    if sp.len() > 1 {
        let mut m = location(source, name, "fetchRecurse");
        m.append(": conflicting aliases ");
        let words = crate::check::debug_list(&sp);
        m.append(words.as_str());
        return Some(m);
    }
    let more = warnings_for(name, fs);
    append_warnings(warnings, more);
    match check_fields(source, name, fs) {
        Some(m) => {
            return Some(m);
        },
        None => {},
    }
    if global {
        *defaults = defaults_from(fs);
        None
    } else {
        let e = entry_from(fs);
        match check_entry(source, name, &e) {
            Some(m) => Some(m),
            None => {
                entries.update_entry(sec.name.clone(), e);
                None
            },
        }
    }
}

/// A top-level entry of a parsed file, as a field (its key, value and display) and, when
/// its value is a table, that table's fields in order.
#[derive(Debug, Clone, PartialEq, Eq)]
pub struct TopEntry {
    pub field: Field,
    pub fields: Option<Vec<Field>>,
}

/// The model of a [`TopEntry`].
pub struct TopEntryView {
    pub field: FieldView,
    pub fields: Option<Seq<FieldView>>,
}

impl View for TopEntry {
    type V = TopEntryView;

    open spec fn view(&self) -> TopEntryView {
        TopEntryView {
            field: self.field@,
            fields: match self.fields {
                Some(v) => Some(field_views(v@)),
                None => None,
            },
        }
    }
}

/// The models of top-level entries.
pub open spec fn top_views(v: Seq<TopEntry>) -> Seq<TopEntryView> {
    v.map_values(|e: TopEntry| e@)
}

/// The error `toml_edit` gives when `source` is no TOML document (as its error displays),
/// or `None` when it parses.
pub uninterp spec fn toml_document_error(source: Seq<char>) -> Option<Seq<char>>;

/// The top-level entries `toml` reads from `source` as a table, in the table's order,
/// each as a field (its key, its value as a string, a boolean, an array of strings or
/// other elements, or another value, and its TOML display); or `toml`'s error (as it
/// displays) when `source` is no TOML table.
pub uninterp spec fn toml_top_fields(source: Seq<char>) -> Result<Seq<FieldView>, Seq<char>>;

/// The entries of the top-level table `key` of the TOML text `source`, as fields in the
/// table's order (see [`toml_top_fields`]), or `None` when `source` is no TOML table or
/// has no table `key`.
pub uninterp spec fn toml_table_fields(source: Seq<char>, key: Seq<char>) -> Option<Seq<FieldView>>;

/// The top-level entries of `source` with, for each that is a table, its fields.
pub open spec fn toml_entries(source: Seq<char>) -> Result<Seq<TopEntryView>, Seq<char>> {
    match toml_top_fields(source) {
        Err(e) => Err(e),
        Ok(fs) => Ok(
            fs.map_values(
                |f: FieldView| TopEntryView { field: f, fields: toml_table_fields(source, f.key) },
            ),
        ),
    }
}

/// The error that loading the text `source` gives (see [`Config::parse`]); `None` when it
/// loads.
pub open spec fn parse_error(source: Seq<char>) -> Option<Seq<char>> {
    match toml_document_error(source) {
        Some(e) => Some(e),
        None => match toml_entries(source) {
            Err(e) => Some(e),
            Ok(es) => load_entries(Some(source), es).error,
        },
    }
}

/// `toml::from_str` into a `toml::Table`: its entries as fields (key, value, and
/// `Value`'s display). Stated: the result is [`toml_top_fields`] of the text.
#[verifier::external_body]
fn top_fields(source: &str) -> (r: Result<Vec<Field>, String>)
    ensures
        match r {
            Ok(v) => toml_top_fields(source@) == Ok::<Seq<FieldView>, Seq<char>>(field_views(v@)),
            Err(e) => toml_top_fields(source@) == Err::<Seq<FieldView>, Seq<char>>(e@),
        },
{
    let table: toml::Table = toml::from_str(source).map_err(|e| e.to_string())?;
    Ok(table.iter().map(|(k, v)| Field { key: k.clone(), shown: v.to_string(), value: match v {
        Value::String(s) => FieldValue::Text(s.clone()),
        Value::Boolean(b) => FieldValue::Boolean(*b),
        Value::Array(a) => FieldValue::List(a.iter().map(|i| i.as_str().map(String::from)).collect()),
        _ => FieldValue::Other,
    } }).collect())
}

/// `toml::from_str` into a `toml::Table`, then `get(key)` and `as_table`: that table's
/// entries as fields (as [`top_fields`] converts them). Stated: the result is
/// [`toml_table_fields`] of the arguments.
#[verifier::external_body]
fn table_fields(source: &str, key: &str) -> (r: Option<Vec<Field>>)
    ensures
        match r {
            Some(v) => toml_table_fields(source@, key@) == Some(field_views(v@)),
            None => toml_table_fields(source@, key@) is None,
        },
{
    let table: toml::Table = toml::from_str(source).ok()?;
    Some(table.get(key)?.as_table()?.iter().map(|(k, v)| Field { key: k.clone(), shown: v.to_string(), value: match v {
        Value::String(s) => FieldValue::Text(s.clone()),
        Value::Boolean(b) => FieldValue::Boolean(*b),
        Value::Array(a) => FieldValue::List(a.iter().map(|i| i.as_str().map(String::from)).collect()),
        _ => FieldValue::Other,
    } }).collect())
}

/// The top-level entries of `source` (see [`toml_entries`]).
fn top_entries(source: &str) -> (r: Result<Vec<TopEntry>, String>)
    ensures
        match r {
            Ok(v) => toml_entries(source@) == Ok::<Seq<TopEntryView>, Seq<char>>(top_views(v@)),
            Err(e) => toml_entries(source@) == Err::<Seq<TopEntryView>, Seq<char>>(e@),
        },
{
    let mut fields = match top_fields(source) {
        Err(e) => {
            return Err(e);
        },
        Ok(v) => v,
    };
    let ghost fs = field_views(fields@);
    let n = fields.len();
    let mut out: Vec<TopEntry> = Vec::new();
    let mut i: usize = 0;
    proof {
        assert(fs.subrange(0, n as int) =~= fs);
    }
    while i < n
        invariant
            n == fs.len(),
            i <= n,
            fields@.len() == n - i,
            field_views(fields@) == fs.subrange(i as int, n as int),
            top_views(out@) == fs.subrange(0, i as int).map_values(
                |f: FieldView| TopEntryView { field: f, fields: toml_table_fields(source@, f.key) },
            ),
        decreases n - i,
    {
        proof {
            assert(field_views(fields@)[0] == fields@[0]@);
        }
        let ghost old_fields = fields@;
        let f = fields.remove(0);
        proof {
            assert forall|j: int| 0 <= j < fields@.len() implies field_views(fields@)[j] == fs[i + 1 + j] by {
                assert(fields@[j] == old_fields[j + 1]);
                assert(field_views(old_fields)[j + 1] == old_fields[j + 1]@);
            }
            assert(field_views(fields@) =~= fs.subrange(i + 1, n as int));
        }
        let sub = table_fields(source, f.key.as_str());
        let ghost before = top_views(out@);
        let e = TopEntry { field: f, fields: sub };
        proof {
            assert(e@.field == fs[i as int]);
        }
        out.push(e);
        proof {
            assert(top_views(out@) =~= before.push(e@));
            assert(fs.subrange(0, i + 1).map_values(
                |f: FieldView| TopEntryView { field: f, fields: toml_table_fields(source@, f.key) },
            ) =~= fs.subrange(0, i as int).map_values(
                |f: FieldView| TopEntryView { field: f, fields: toml_table_fields(source@, f.key) },
            ).push(e@));
        }
        i = i + 1;
    }
    proof {
        assert(fs.subrange(0, n as int) =~= fs);
    }
    Ok(out)
}

/// The `schema_version` entry of a file's top level, if any.
pub open spec fn schema_of(es: Seq<TopEntryView>) -> Option<FieldView>
    decreases es.len(),
{
    if es.len() == 0 {
        None
    } else if es.last().field.key == "schema_version"@ {
        Some(es.last().field)
    } else {
        schema_of(es.drop_last())
    }
}

/// The sections of a file's top level: every other entry, in order, named by its key.
pub open spec fn sections_of(es: Seq<TopEntryView>) -> Seq<SectionView>
    decreases es.len(),
{
    if es.len() == 0 {
        Seq::empty()
    } else if es.last().field.key == "schema_version"@ {
        sections_of(es.drop_last())
    } else {
        sections_of(es.drop_last()).push(
            SectionView { name: es.last().field.key, fields: es.last().fields },
        )
    }
}

/// What reading a file's top-level entries gives (see [`load_all`]).
pub open spec fn load_entries(src: Option<Seq<char>>, es: Seq<TopEntryView>) -> LoadState {
    match schema_problem(src, schema_of(es)) {
        Some(p) => LoadState {
            defaults: no_defaults(),
            entries: Map::empty(),
            warnings: Seq::empty(),
            error: Some(p),
        },
        None => load_section_views(src, sections_of(es)),
    }
}

/// The schema field and the sections of a file's top-level entries.
fn split_entries(entries: Vec<TopEntry>) -> (r: (Option<Field>, Vec<Section>))
    ensures
        match r.0 {
            Some(f) => schema_of(top_views(entries@)) == Some(f@),
            None => schema_of(top_views(entries@)) is None,
        },
        r.1@.map_values(|s: Section| section_view(s)) == sections_of(top_views(entries@)),
{
    let ghost all = top_views(entries@);
    let n = entries.len();
    let mut rest = entries;
    let mut schema: Option<Field> = None;
    let mut sections: Vec<Section> = Vec::new();
    let mut i: usize = 0;
    proof {
        reveal_strlit("schema_version");
        assert(all.subrange(0, 0) =~= Seq::<TopEntryView>::empty());
        assert(all.subrange(0, n as int) =~= all);
        assert(sections@.map_values(|s: Section| section_view(s)) =~= Seq::<SectionView>::empty());
    }
    while i < n
        invariant
            n == all.len(),
            i <= n,
            top_views(rest@) == all.subrange(i as int, n as int),
            rest@.len() == n - i,
            match schema {
                Some(f) => schema_of(all.subrange(0, i as int)) == Some(f@),
                None => schema_of(all.subrange(0, i as int)) is None,
            },
            sections@.map_values(|s: Section| section_view(s)) == sections_of(all.subrange(0, i as int)),
        decreases n - i,
    {
        proof {
            assert(top_views(rest@)[0] == rest@[0]@);
        }
        let ghost old_rest = rest@;
        let e = rest.remove(0);
        proof {
            assert forall|j: int| 0 <= j < rest@.len() implies top_views(rest@)[j] == all[i + 1 + j] by {
                assert(rest@[j] == old_rest[j + 1]);
                assert(top_views(old_rest)[j + 1] == old_rest[j + 1]@);
            }
            assert(all.subrange(0, i + 1).drop_last() =~= all.subrange(0, i as int));
            assert(all.subrange(0, i + 1).last() == e@);
            assert(top_views(rest@) =~= all.subrange(i + 1, n as int));
        }
        if str_eq(e.field.key.as_str(), "schema_version") {
            schema = Some(e.field);
        } else {
            let ghost before = sections@.map_values(|s: Section| section_view(s));
            let sec = Section { name: e.field.key, fields: e.fields };
            let ghost sv = section_view(sec);
            sections.push(sec);
            proof {
                assert(sections@.map_values(|s: Section| section_view(s)) =~= before.push(sv));
            }
        }
        i = i + 1;
    }
    proof {
        assert(all.subrange(0, n as int) =~= all);
    }
    (schema, sections)
}

impl Config {
    /// The configuration that a parsed `submod.toml` declares, or the first problem
    /// found in it, together with the warnings given on the way. `schema` is the
    /// top-level `schema_version` field, if any, and `sections` are the other top-level
    /// entries in the table's order; `source`, when given, is the document text used
    /// to point errors at their lines.
    pub fn from_table(schema: Option<Field>, sections: Vec<Section>, source: Option<&str>) -> (r: (
        Result<Config, String>,
        Vec<ConfigWarning>,
    ))
        requires
            src_fits(source),
        ensures
            ({
                let st = load_all(
                    src_view(source),
                    match schema {
                        Some(f) => Some(f@),
                        None => None,
                    },
                    sections@,
                );
                &&& warning_views(r.1@) == st.warnings
                &&& match r.0 {
                    Ok(c) => st.error is None && defaults_view(c.defaults) == st.defaults
                        && c.submodules@ == st.entries,
                    Err(e) => st.error == Some(e@),
                }
            }),
    {
        let mut warnings: Vec<ConfigWarning> = Vec::new();
        match &schema {
            Some(f) => {
                let ok = match &f.value {
                    FieldValue::Text(s) => str_eq(s.as_str(), "1.0.0") || str_eq(s.as_str(), "1.1.0"),
                    _ => false,
                };
                if !ok {
                    proof {
                        reveal_strlit("");
                        assert(""@ =~= Seq::<char>::empty());
                    }
                    let mut m = location(source, "", "schema_version");
                    m.append(": unsupported version ");
                    m.append(f.shown.as_str());
                    m.append("; expected 1.0.0 or 1.1.0");
                    return (Err(m), warnings);
                }
            },
            None => {},
        }
        let mut defaults = SubmoduleDefaults::default();
        let mut entries = SubmoduleEntries::default();
        let mut i: usize = 0;
        proof {
            assert(sections@.subrange(0, 0) =~= Seq::<Section>::empty());
            assert(warning_views(warnings@) =~= Seq::<WarningView>::empty());
        }
        while i < sections.len()
            invariant
                src_fits(source),
                schema_problem(
                    src_view(source),
                    match schema {
                        Some(f) => Some(f@),
                        None => None,
                    },
                ) is None,
                i <= sections@.len(),
                ({
                    let st = load_sections(src_view(source), sections@.subrange(0, i as int));
                    &&& st.error is None
                    &&& defaults_view(defaults) == st.defaults
                    &&& entries@ == st.entries
                    &&& warning_views(warnings@) == st.warnings
                }),
            decreases sections@.len() - i,
        {
            let ghost st = load_sections(src_view(source), sections@.subrange(0, i as int));
            proof {
                assert(sections@.subrange(0, i + 1).drop_last() =~= sections@.subrange(0, i as int));
                assert(sections@.subrange(0, i + 1).last() == sections@[i as int]);
                let st0 = LoadState {
                    defaults: defaults_view(defaults),
                    entries: entries@,
                    warnings: warning_views(warnings@),
                    error: None,
                };
                assert(st0 == st);
            }
            match read_section(source, &sections[i], &mut defaults, &mut entries, &mut warnings) {
                Some(m) => {
                    proof {
                        assert(sections@.subrange(0, i + 1).subrange(0, i as int) =~= sections@.subrange(0, i as int));
                        lemma_load_stops(src_view(source), sections@, i as int);
                    }
                    return (Err(m), warnings);
                },
                None => {},
            }
            i = i + 1;
        }
        proof {
            assert(sections@.subrange(0, sections@.len() as int) =~= sections@);
        }
        (Ok(Config::new(defaults, entries)), warnings)
    }
}

impl Config {
    /// Parse and validate the raw declarations of a `submod.toml` text (without
    /// resolving inherited fields): the text must be a TOML document and a TOML table;
    /// its `schema_version` is checked, then its other top-level entries are read in
    /// order as sections (see [`Config::from_table`]), with errors pointing at lines of
    /// the text.
    pub fn parse(source: &str) -> (r: (Result<Config, String>, Vec<ConfigWarning>))
        requires
            src_bytes(source@).len() < usize::MAX,
        ensures
            r.0 is Err <==> parse_error(source@) is Some,
            r.0 matches Err(m) ==> parse_error(source@) == Some(m@),
            match toml_document_error(source@) {
                Some(e) => (r.0 matches Err(m) && m@ == e) && r.1@.len() == 0,
                None => match toml_entries(source@) {
                    Err(e) => (r.0 matches Err(m) && m@ == e) && r.1@.len() == 0,
                    Ok(es) => {
                        let st = load_entries(Some(source@), es);
                        &&& warning_views(r.1@) == st.warnings
                        &&& match r.0 {
                            Ok(c) => st.error is None && defaults_view(c.defaults) == st.defaults
                                && c.submodules@ == st.entries,
                            Err(m) => st.error == Some(m@),
                        }
                    },
                },
            },
    {
        match crate::rendering::parse_document(source) {
            Err(e) => {
                return (Err(e), Vec::new());
            },
            Ok(_) => {},
        }
        let entries = match top_entries(source) {
            Err(e) => {
                return (Err(e), Vec::new());
            },
            Ok(v) => v,
        };
        let ghost es = top_views(entries@);
        let (schema, sections) = split_entries(entries);
        proof {
            lemma_sections_by_views(Some(source@), sections@);
        }
        Config::from_table(schema, sections, Some(source))
    }
}

/// Once reading stops at an error, later sections change nothing.
proof fn lemma_load_stops(src: Option<Seq<char>>, secs: Seq<Section>, i: int)
    requires
        0 <= i < secs.len(),
        load_sections(src, secs.subrange(0, i + 1)).error is Some,
    ensures
        load_sections(src, secs) == load_sections(src, secs.subrange(0, i + 1)),
    decreases secs.len() - i,
{
    if i + 1 < secs.len() {
        assert(secs.subrange(0, secs.len() - 1).subrange(0, i + 1) =~= secs.subrange(0, i + 1));
        lemma_load_stops(src, secs.subrange(0, secs.len() - 1), i);
        assert(secs.drop_last() =~= secs.subrange(0, secs.len() - 1));
    } else {
        assert(secs.subrange(0, i + 1) =~= secs);
    }
}

} // verus!
