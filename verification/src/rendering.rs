//! Rendering `submod.toml`: the document edits applied to the TOML document as it was
//! loaded (through `toml_edit`, which keeps comments and formatting), and the result
//! checked by loading it again before anything is written.
use vstd::prelude::*;
use vstd::utf8::*;
use toml_edit::TableLike;

use crate::config::opt_text;
use crate::config::Config;
use crate::declarations::{parse_error, toml_document_error};
use crate::document::{value_unchanged, edit_views, DocEdit, DocEditView, DocValue, DocValueView, StoredValue};
use crate::errors::SubmoduleError;
use crate::options::{string_bytes, utf8_decode, utf8_error_text};
use crate::text::concat2;

verus! {

/// `toml_edit`'s editable document, carried as it is.
#[verifier::external_type_specification]
#[verifier::external_body]
pub struct ExDocumentMut(toml_edit::DocumentMut);

/// What a key of a document table holds, as far as the edits see it: a string, a
/// boolean, an array (each element a string, or `None` for any other kind), or anything
/// else.
pub enum ValueView {
    Text(Seq<char>),
    Flag(bool),
    List(Seq<Option<Seq<char>>>),
    Other,
}

/// What a top-level key of a document holds: a table (written as a section or inline)
/// with what its keys hold, or anything else.
pub enum RootItemView {
    Table(Map<Seq<char>, ValueView>),
    Other,
}

impl View for StoredValue {
    type V = ValueView;

    open spec fn view(&self) -> ValueView {
        match self {
            StoredValue::Text(s) => ValueView::Text(s@),
            StoredValue::Flag(b) => ValueView::Flag(*b),
            StoredValue::List(v) => ValueView::List(v@.map_values(|o: Option<String>| opt_text(o))),
            StoredValue::Other => ValueView::Other,
        }
    }
}

/// The top-level keys of a document (those whose item is not empty) and what each
/// holds.
pub uninterp spec fn document_root(d: toml_edit::DocumentMut) -> Map<Seq<char>, RootItemView>;

/// The text of a document (its `Display`).
pub uninterp spec fn document_text(d: toml_edit::DocumentMut) -> Seq<char>;

/// The top-level keys of the document that `toml_edit` parses from `source`.
pub uninterp spec fn toml_root_items(source: Seq<char>) -> Map<Seq<char>, RootItemView>;

/// What a key holds once `v` is written to it.
pub open spec fn value_item(v: DocValueView) -> ValueView {
    match v {
        DocValueView::Text(s) => ValueView::Text(s),
        DocValueView::Flag(b) => ValueView::Flag(b),
        DocValueView::List(l) => ValueView::List(l.map_values(|x: Seq<char>| Some(x))),
    }
}

/// The error of an edit of `name` where the document holds no table of that name.
pub open spec fn table_error(name: Seq<char>) -> Seq<char> {
    "["@ + name + "] must be a TOML table"@
}

/// One edit applied to the top-level items of a document.
pub open spec fn apply_edit(
    root: Map<Seq<char>, RootItemView>,
    e: DocEditView,
) -> Result<Map<Seq<char>, RootItemView>, Seq<char>> {
    match e {
        DocEditView::Table(n) => {
            let r = if root.contains_key(n) {
                root
            } else {
                root.insert(n, RootItemView::Table(Map::empty()))
            };
            if r[n] is Table {
                Ok(r)
            } else {
                Err(table_error(n))
            }
        },
        DocEditView::DropTable(n) => Ok(root.remove(n)),
        DocEditView::Drop(t, k) => match root.get(t) {
            Some(RootItemView::Table(m)) => Ok(root.insert(t, RootItemView::Table(m.remove(k)))),
            _ => Err(table_error(t)),
        },
        DocEditView::Put(t, k, v) => match root.get(t) {
            Some(RootItemView::Table(m)) => Ok(
                root.insert(
                    t,
                    RootItemView::Table(
                        match v {
                            Some(v) => m.insert(k, value_item(v)),
                            None => m.remove(k),
                        },
                    ),
                ),
            ),
            _ => Err(table_error(t)),
        },
    }
}

/// The edits applied in order; the first that fails gives the error.
pub open spec fn apply_edits(
    root: Map<Seq<char>, RootItemView>,
    edits: Seq<DocEditView>,
) -> Result<Map<Seq<char>, RootItemView>, Seq<char>>
    decreases edits.len(),
{
    if edits.len() == 0 {
        Ok(root)
    } else {
        match apply_edit(root, edits[0]) {
            Ok(r) => apply_edits(r, edits.drop_first()),
            Err(e) => Err(e),
        }
    }
}

/// The loaded bytes (none loaded: empty).
pub open spec fn loaded_bytes(loaded: Option<Seq<u8>>) -> Seq<u8> {
    match loaded {
        Some(b) => b,
        None => Seq::empty(),
    }
}

/// The outcome of rendering the text `text` of the edited document: refused when it does
/// not load (see [`parse_error`]) or is too long to be read, else its bytes.
pub open spec fn rendered_outcome(text: Seq<char>, r: Result<Vec<u8>, SubmoduleError>) -> bool {
    if encode_utf8(text).len() >= usize::MAX {
        r matches Err(SubmoduleError::ConfigError(m)) && m@ == refused_text("rendered configuration is too long"@)
    } else {
        match parse_error(text) {
            Some(e) => r matches Err(SubmoduleError::ConfigError(m)) && m@ == refused_text(e),
            None => r matches Ok(b) && b@ == encode_utf8(text),
        }
    }
}

/// The error of a rendered document that does not load.
pub open spec fn refused_text(e: Seq<char>) -> Seq<char> {
    "Refusing to replace configuration with invalid rendered TOML: "@ + e
}

/// `toml_edit::Document::parse`, the document made editable (`into_mut`). Claims: it
/// fails exactly where [`toml_document_error`] names an error, with that display; the
/// document it gives holds [`toml_root_items`] of the text.
#[verifier::external_body]
pub(crate) fn parse_document(source: &str) -> (r: Result<toml_edit::DocumentMut, String>)
    ensures
        r is Err <==> toml_document_error(source@) is Some,
        r matches Err(m) ==> toml_document_error(source@) == Some(m@),
        r matches Ok(d) ==> document_root(d) == toml_root_items(source@),
{
    toml_edit::Document::parse(source).map(toml_edit::Document::into_mut).map_err(|error| error.to_string())
}

/// `DocumentMut::get` and `Item::is_table_like`: whether the document has the top-level
/// key `name` (`None`: no), and whether it holds a table.
#[verifier::external_body]
fn root_entry(doc: &toml_edit::DocumentMut, name: &str) -> (r: Option<bool>)
    ensures
        r == match document_root(*doc).get(name@) {
            Some(RootItemView::Table(_)) => Some(true),
            Some(RootItemView::Other) => Some(false),
            None => None,
        },
{
    doc.get(name).map(toml_edit::Item::is_table_like)
}

/// `Table::insert` of an empty table at the top level under `name`.
#[verifier::external_body]
fn add_table(doc: &mut toml_edit::DocumentMut, name: &str)
    ensures
        document_root(*final(doc)) == document_root(*old(doc)).insert(name@, RootItemView::Table(Map::empty())),
{
    doc.as_table_mut().insert(name, toml_edit::Item::Table(toml_edit::Table::new()));
}

/// `Table::remove` of the top-level key `name`.
#[verifier::external_body]
fn remove_root(doc: &mut toml_edit::DocumentMut, name: &str)
    ensures
        document_root(*final(doc)) == document_root(*old(doc)).remove(name@),
{
    doc.as_table_mut().remove(name);
}

/// `TableLike::remove` of `key` from the table `table`.
#[verifier::external_body]
fn remove_key(doc: &mut toml_edit::DocumentMut, table: &str, key: &str)
    requires
        document_root(*old(doc)).get(table@) matches Some(RootItemView::Table(_)),
    ensures
        document_root(*final(doc)) == document_root(*old(doc)).insert(
            table@,
            RootItemView::Table(document_root(*old(doc))[table@]->Table_0.remove(key@)),
        ),
{
    if let Some(t) = doc.get_mut(table).and_then(toml_edit::Item::as_table_like_mut) {
        t.remove(key);
    }
}

/// `TableLike::get` of `key` in the table `table`, the value converted one for one
/// (`StoredValue::Other` for a missing key, an item that is no value, or a value of
/// another kind).
#[verifier::external_body]
fn stored_value(doc: &toml_edit::DocumentMut, table: &str, key: &str) -> (r: StoredValue)
    requires
        document_root(*doc).get(table@) matches Some(RootItemView::Table(_)),
    ensures
        r@ == match document_root(*doc)[table@]->Table_0.get(key@) {
            Some(v) => v,
            None => ValueView::Other,
        },
{
    let item = match doc.get(table).and_then(toml_edit::Item::as_table_like) {
        Some(t) => t.get(key),
        None => None,
    };
    match item.and_then(toml_edit::Item::as_value) {
        Some(toml_edit::Value::String(s)) => StoredValue::Text(s.value().clone()),
        Some(toml_edit::Value::Boolean(b)) => StoredValue::Flag(*b.value()),
        Some(toml_edit::Value::Array(a)) => StoredValue::List(a.iter().map(|v| v.as_str().map(String::from)).collect()),
        _ => StoredValue::Other,
    }
}

/// `TableLike::get_mut` / `TableLike::insert`: write `value` to `key` of the table
/// `table`; a value it replaces hands on its decor (the comments and spacing around it).
#[verifier::external_body]
fn put_value(doc: &mut toml_edit::DocumentMut, table: &str, key: &str, value: &DocValue)
    requires
        document_root(*old(doc)).get(table@) matches Some(RootItemView::Table(_)),
    ensures
        document_root(*final(doc)) == document_root(*old(doc)).insert(
            table@,
            RootItemView::Table(document_root(*old(doc))[table@]->Table_0.insert(key@, value_item(value@))),
        ),
{
    let mut new = match value {
        DocValue::Text(s) => toml_edit::Value::from(s),
        DocValue::Flag(b) => toml_edit::Value::from(*b),
        DocValue::List(items) => items.iter().collect(),
    };
    let Some(t) = doc.get_mut(table).and_then(toml_edit::Item::as_table_like_mut) else { return };
    if let Some(current) = t.get(key).and_then(toml_edit::Item::as_value) {
        *new.decor_mut() = current.decor().clone();
    }
    match t.get_mut(key) {
        Some(item) => *item = toml_edit::Item::Value(new),
        None => { t.insert(key, toml_edit::Item::Value(new)); },
    }
}

/// The text of the document (`DocumentMut`'s `Display`).
#[verifier::external_body]
fn document_string(doc: &toml_edit::DocumentMut) -> (r: String)
    ensures
        r@ == document_text(*doc),
{
    doc.to_string()
}

/// The error of an edit of `name` where the document holds no table of that name.
fn table_error_message(name: &str) -> (r: SubmoduleError)
    ensures
        r matches SubmoduleError::ConfigError(m) && m@ == table_error(name@),
{
    let mut m = concat2("[", name);
    m.append("] must be a TOML table");
    SubmoduleError::ConfigError(m)
}

/// Whether the document has a table under `name`; the error of an edit of it otherwise.
fn require_table(doc: &toml_edit::DocumentMut, name: &str) -> (r: Result<(), SubmoduleError>)
    ensures
        r is Ok <==> document_root(*doc).get(name@) matches Some(RootItemView::Table(_)),
        r matches Err(e) ==> e matches SubmoduleError::ConfigError(m) && m@ == table_error(name@),
{
    match root_entry(doc, name) {
        Some(true) => Ok(()),
        _ => Err(table_error_message(name)),
    }
}

/// Apply one edit to the document (see [`apply_edit`]): a key that already holds the
/// value written to it is left as it is written.
fn apply_one(doc: &mut toml_edit::DocumentMut, edit: &DocEdit) -> (r: Result<(), SubmoduleError>)
    ensures
        match apply_edit(document_root(*old(doc)), edit@) {
            Ok(m) => r is Ok && document_root(*final(doc)) == m,
            Err(e) => r matches Err(SubmoduleError::ConfigError(x)) && x@ == e,
        },
{
    match edit {
        DocEdit::Table { name } => {
            if root_entry(doc, name.as_str()).is_none() {
                add_table(doc, name.as_str());
            }
            require_table(doc, name.as_str())
        },
        DocEdit::DropTable { name } => {
            remove_root(doc, name.as_str());
            Ok(())
        },
        DocEdit::Drop { table, key } => {
            match require_table(doc, table.as_str()) {
                Err(e) => {
                    return Err(e);
                },
                Ok(()) => {},
            }
            remove_key(doc, table.as_str(), key);
            Ok(())
        },
        DocEdit::Put { table, key, value } => {
            match require_table(doc, table.as_str()) {
                Err(e) => {
                    return Err(e);
                },
                Ok(()) => {},
            }
            match value {
                None => remove_key(doc, table.as_str(), key),
                Some(v) => {
                    let current = stored_value(doc, table.as_str(), key);
                    if value_unchanged(&current, v) {
                        proof {
                            let root = document_root(*doc);
                            let m = root[table@]->Table_0;
                            lemma_unchanged_value(current, v@);
                            assert(m.insert(key@, value_item(v@)) =~= m);
                            assert(root.insert(table@, RootItemView::Table(m)) =~= root);
                        }
                    } else {
                        put_value(doc, table.as_str(), key, v);
                    }
                },
            }
            Ok(())
        },
    }
}

/// A stored value equal to the value to be written is what writing it would leave.
proof fn lemma_unchanged_value(s: StoredValue, d: DocValueView)
    requires
        crate::document::stored_equals(s, d),
    ensures
        s@ == value_item(d),
{
    match (s, d) {
        (StoredValue::List(a), DocValueView::List(b)) => {
            assert(a@.map_values(|o: Option<String>| opt_text(o)) =~= b.map_values(|x: Seq<char>| Some(x)));
        },
        _ => {},
    }
}

/// The bytes of `submod.toml` after `edits`, applied in order to the document as it was
/// `loaded` (none: an empty document). Refused, with a configuration error, when the
/// loaded bytes are not UTF-8, when they do not parse as TOML, when an edit reaches a
/// key that holds no table, and when the edited document does not load as a
/// configuration. On success the edited document holds exactly the loaded top-level
/// items with the edits applied (see [`apply_edits`]), and the bytes are its text, which
/// loads.
pub fn render_document(loaded: Option<&[u8]>, edits: &Vec<DocEdit>) -> (r: Result<Vec<u8>, SubmoduleError>)
    ensures
        ({
            let bytes = loaded_bytes(
                match loaded {
                    Some(b) => Some(b@),
                    None => None,
                },
            );
            if !valid_utf8(bytes) {
                r matches Err(SubmoduleError::ConfigError(m)) && m@ == "Loaded configuration is not UTF-8: "@
                    + utf8_error_text(bytes)
            } else {
                let source = decode_utf8(bytes);
                match toml_document_error(source) {
                    Some(e) => r matches Err(SubmoduleError::ConfigError(m)) && m@
                        == "Failed to edit configuration: "@ + e,
                    None => match apply_edits(toml_root_items(source), edit_views(edits@)) {
                        Err(e) => r matches Err(SubmoduleError::ConfigError(m)) && m@ == e,
                        Ok(root) => exists|d: toml_edit::DocumentMut|
                            #[trigger] document_root(d) == root && rendered_outcome(document_text(d), r),
                    },
                }
            }
        }),
{
    let none: Vec<u8> = Vec::new();
    let bytes: &[u8] = match loaded {
        Some(b) => b,
        None => none.as_slice(),
    };
    let source = match utf8_decode(bytes) {
        Ok(s) => s,
        Err(e) => {
            return Err(SubmoduleError::ConfigError(concat2("Loaded configuration is not UTF-8: ", e.as_str())));
        },
    };
    let mut doc = match parse_document(source) {
        Ok(d) => d,
        Err(e) => {
            return Err(SubmoduleError::ConfigError(concat2("Failed to edit configuration: ", e.as_str())));
        },
    };
    let ghost views = edit_views(edits@);
    let ghost start = toml_root_items(source@);
    let mut i: usize = 0;
    assert(views.skip(0) =~= views);
    while i < edits.len()
        invariant
            i <= edits@.len(),
            views == edit_views(edits@),
            start == toml_root_items(source@),
            valid_utf8(bytes@),
            source@ == decode_utf8(bytes@),
            bytes@ == loaded_bytes(
                match loaded {
                    Some(b) => Some(b@),
                    None => None,
                },
            ),
            toml_document_error(source@) is None,
            apply_edits(start, views) == apply_edits(document_root(doc), views.skip(i as int)),
        decreases edits@.len() - i,
    {
        let ghost before = document_root(doc);
        proof {
            assert(views.skip(i as int)[0] == edits@[i as int]@);
            assert(views.skip(i as int).drop_first() =~= views.skip(i + 1));
        }
        match apply_one(&mut doc, &edits[i]) {
            Ok(()) => {},
            Err(e) => {
                proof {
                    assert(apply_edits(before, views.skip(i as int)) == apply_edit(before, edits@[i as int]@));
                }
                return Err(e);
            },
        }
        i = i + 1;
    }
    proof {
        assert(views.skip(i as int) =~= Seq::<DocEditView>::empty());
    }
    let text = document_string(&doc);
    if text.as_str().as_bytes().len() == usize::MAX {
        return Err(SubmoduleError::ConfigError(refused("rendered configuration is too long")));
    }
    let (loaded_again, _warnings) = Config::parse(text.as_str());
    match loaded_again {
        Err(e) => Err(SubmoduleError::ConfigError(refused(e.as_str()))),
        Ok(_) => Ok(string_bytes(text)),
    }
}

/// The error of a rendered document that does not load (see [`refused_text`]).
fn refused(e: &str) -> (r: String)
    ensures
        r@ == refused_text(e@),
{
    concat2("Refusing to replace configuration with invalid rendered TOML: ", e)
}

/// What the configuration's destination is on disk.
#[derive(Debug, Clone, Copy, PartialEq, Eq, Structural)]
pub enum Destination {
    /// Nothing is there yet.
    Missing,
    /// A regular file.
    File,
    /// A symbolic link.
    Symlink,
    /// Something else (a directory, a device, ...).
    NotFile,
}

/// Whether two byte strings are equal.
fn bytes_equal(a: &[u8], b: &[u8]) -> (r: bool)
    ensures
        r == (a@ == b@),
{
    if a.len() != b.len() {
        return false;
    }
    let mut i: usize = 0;
    while i < a.len()
        invariant
            a@.len() == b@.len(),
            i <= a@.len(),
            forall|j: int| 0 <= j < i ==> a@[j] == b@[j],
        decreases a@.len() - i,
    {
        if a[i] != b[i] {
            return false;
        }
        i = i + 1;
    }
    assert(a@ =~= b@);
    true
}

/// Whether two optional byte strings are equal.
fn same_bytes(a: Option<&[u8]>, b: Option<&[u8]>) -> (r: bool)
    ensures
        r == (opt_bytes(a) == opt_bytes(b)),
{
    match (a, b) {
        (Some(x), Some(y)) => bytes_equal(x, y),
        (None, None) => true,
        _ => false,
    }
}

/// The contents of an optional byte string.
pub open spec fn opt_bytes(a: Option<&[u8]>) -> Option<Seq<u8>> {
    match a {
        Some(x) => Some(x@),
        None => None,
    }
}

/// Whether the configuration file must be written: not when it was loaded holding
/// exactly the rendered bytes.
pub fn needs_write(expected: Option<&[u8]>, rendered: &[u8]) -> (r: bool)
    ensures
        r == (opt_bytes(expected) != Some(rendered@)),
{
    !same_bytes(expected, Some(rendered))
}

/// The configuration is only written to a regular file or a missing one: a symbolic link
/// or anything else there is refused (`shown`: the path as displayed).
pub fn check_destination(destination: Destination, shown: &str) -> (r: Result<(), SubmoduleError>)
    ensures
        match destination {
            Destination::Symlink => r matches Err(SubmoduleError::ConfigError(m)) && m@
                == "Refusing to write configuration through symlink "@ + shown@,
            Destination::NotFile => r matches Err(SubmoduleError::ConfigError(m)) && m@
                == "Configuration destination is not a file: "@ + shown@,
            _ => r is Ok,
        },
{
    match destination {
        Destination::Symlink => Err(
            SubmoduleError::ConfigError(concat2("Refusing to write configuration through symlink ", shown)),
        ),
        Destination::NotFile => Err(
            SubmoduleError::ConfigError(concat2("Configuration destination is not a file: ", shown)),
        ),
        _ => Ok(()),
    }
}

/// Just before the file is replaced it must still hold what was loaded (`current`: what
/// it holds now, `None` when missing); otherwise nothing is written.
pub fn check_unchanged(current: Option<&[u8]>, expected: Option<&[u8]>, shown: &str) -> (r: Result<
    (),
    SubmoduleError,
>)
    ensures
        r is Ok <==> opt_bytes(current) == opt_bytes(expected),
        r matches Err(e) ==> e matches SubmoduleError::ConfigError(m) && m@ == "Configuration "@ + shown@
            + " changed after it was loaded; no changes were written"@,
{
    if same_bytes(current, expected) {
        Ok(())
    } else {
        let mut m = concat2("Configuration ", shown);
        m.append(" changed after it was loaded; no changes were written");
        Err(SubmoduleError::ConfigError(m))
    }
}

/// Saving a configuration over the document it was loaded from, with nothing changed and
/// nothing asked to be rewritten, leaves every top-level item of the document as it was
/// loaded.
pub proof fn lemma_unchanged_save_keeps_items(
    c: Config,
    intent: crate::document::EditIntent,
    root: Map<Seq<char>, RootItemView>,
)
    requires
        intent.defaults@.len() == 0,
        intent.modules@.len() == 0,
        forall|k: Seq<char>| #[trigger] c.submodules.names().contains(k) ==> c.submodules@.contains_key(k),
    ensures
        apply_edits(root, crate::document::config_edits(c, c, intent)) == Ok::<Map<Seq<char>, RootItemView>, Seq<char>>(root),
{
    crate::document::lemma_unchanged_config_needs_no_edits(c, intent);
}

} // verus!
