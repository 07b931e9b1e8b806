//! What saving a configuration does to the document it was loaded from: the edits that
//! save `new` over a document holding `old` leave a document holding `new`.
use vstd::prelude::*;

use crate::config::{Config, EntryView};
use crate::declarations::{defaults_view, DefaultsView};
use crate::document::{
    config_edits, default_fields, default_flags, defaults_entry, drop_edits, entry_at, field_differs,
    field_edits, field_key, field_value, fields_edits, module_fields, module_flags, modules_edits,
    table_edits, ConfigField, DocEditView, DocValueView, EditIntent,
};
use crate::order::text_order;
use crate::rendering::{apply_edit, apply_edits, value_item, RootItemView, ValueView};

verus! {

/// Whether key `k` of a table holds `v` (`None`: the key is absent).
pub open spec fn key_holds(m: Map<Seq<char>, ValueView>, k: Seq<char>, v: Option<DocValueView>) -> bool {
    match v {
        Some(x) => m.contains_key(k) && m[k] == value_item(x),
        None => !m.contains_key(k),
    }
}

/// Whether a table holds field `f` of entry `e` as saving writes it: under its key (absent
/// when unset), with no legacy spelling of the fetch-recurse key beside it.
pub open spec fn field_holds(m: Map<Seq<char>, ValueView>, f: ConfigField, e: EntryView) -> bool {
    &&& key_holds(m, field_key(f), field_value(e, f))
    &&& f == ConfigField::FetchRecurse ==> !m.contains_key("fetch"@) && !m.contains_key("fetch_recurse"@)
}

/// Whether a table holds each of the fields `fs` of entry `e`.
pub open spec fn fields_hold(m: Map<Seq<char>, ValueView>, fs: Seq<ConfigField>, e: EntryView) -> bool {
    forall|j: int| 0 <= j < fs.len() ==> #[trigger] field_holds(m, fs[j], e)
}

/// Whether the document holds the defaults `d`: a `[defaults]` table holding them, or no
/// such table when no default is set.
pub open spec fn defaults_held(root: Map<Seq<char>, RootItemView>, d: DefaultsView) -> bool {
    match root.get("defaults"@) {
        Some(RootItemView::Table(m)) => fields_hold(m, default_fields(), defaults_entry(d)),
        Some(RootItemView::Other) => false,
        None => fields_hold(Map::empty(), default_fields(), defaults_entry(d)),
    }
}

/// Whether the top-level items of a document hold configuration `c`: its defaults, a
/// table for each submodule holding its settings, and no other key but
/// `schema_version`.
pub open spec fn document_holds(root: Map<Seq<char>, RootItemView>, c: Config) -> bool {
    &&& defaults_held(root, defaults_view(c.defaults))
    &&& forall|n: Seq<char>| #[trigger] c.submodules@.contains_key(n) ==> (root.get(n) matches Some(
        RootItemView::Table(m),
    ) && fields_hold(m, module_fields(), c.submodules@[n]))
    &&& forall|k: Seq<char>|
        #[trigger] root.contains_key(k) && k != "defaults"@ && k != "schema_version"@
            ==> c.submodules@.contains_key(k)
}

/// Whether the names of `c`'s submodules are those of its map, and none is reserved.
pub open spec fn names_valid(c: Config) -> bool {
    &&& forall|k: Seq<char>| #[trigger] c.submodules.names().contains(k) <==> c.submodules@.contains_key(k)
    &&& !c.submodules@.contains_key("defaults"@)
    &&& !c.submodules@.contains_key("schema_version"@)
}

/// The position of a field in the order of a module table.
spec fn field_rank(f: ConfigField) -> int {
    match f {
        ConfigField::Path => 0,
        ConfigField::Url => 1,
        ConfigField::Branch => 2,
        ConfigField::Ignore => 3,
        ConfigField::FetchRecurse => 4,
        ConfigField::Update => 5,
        ConfigField::Active => 6,
        ConfigField::Shallow => 7,
        ConfigField::SparsePaths => 8,
        ConfigField::UseGitDefaultSparseCheckout => 9,
    }
}

/// Distinct fields have distinct keys, and no key is a legacy fetch-recurse spelling.
proof fn lemma_field_keys()
    ensures
        forall|f: ConfigField, g: ConfigField| f != g ==> #[trigger] field_key(f) != #[trigger] field_key(g),
        forall|f: ConfigField| #[trigger] field_key(f) != "fetch"@ && field_key(f) != "fetch_recurse"@,
{
    reveal_strlit("path");
    reveal_strlit("url");
    reveal_strlit("branch");
    reveal_strlit("ignore");
    reveal_strlit("fetchRecurse");
    reveal_strlit("update");
    reveal_strlit("active");
    reveal_strlit("shallow");
    reveal_strlit("sparse_paths");
    reveal_strlit("use_git_default_sparse_checkout");
    reveal_strlit("fetch");
    reveal_strlit("fetch_recurse");
    assert forall|f: ConfigField, g: ConfigField| f != g implies field_key(f) != field_key(g) by {
        if field_key(f) == field_key(g) {
            assert(field_key(f).len() == field_key(g).len());
            assert(field_key(f)[0] == field_key(g)[0]);
            assert(field_key(f)[1] == field_key(g)[1]);
        }
    }
    assert forall|f: ConfigField| field_key(f) != "fetch"@ && field_key(f) != "fetch_recurse"@ by {
        if field_key(f) == "fetch"@ || field_key(f) == "fetch_recurse"@ {
            assert(field_key(f).len() == 5 || field_key(f).len() == 13);
            assert(field_key(f)[0] == 'f');
            assert(field_key(f)[5] == 'R' || field_key(f).len() == 5);
        }
    }
}

/// A table after field `f` is written with `v` (see [`field_edits`]).
spec fn write_field(m: Map<Seq<char>, ValueView>, f: ConfigField, v: Option<DocValueView>) -> Map<
    Seq<char>,
    ValueView,
> {
    let m1 = if f == ConfigField::FetchRecurse {
        m.remove("fetch"@).remove("fetch_recurse"@)
    } else {
        m
    };
    match v {
        Some(x) => m1.insert(field_key(f), value_item(x)),
        None => m1.remove(field_key(f)),
    }
}

/// A table after the flagged fields of `fs` are written from `e` (see [`fields_edits`]).
spec fn write_fields(
    m: Map<Seq<char>, ValueView>,
    fs: Seq<ConfigField>,
    changed: Seq<bool>,
    e: EntryView,
) -> Map<Seq<char>, ValueView>
    decreases fs.len(),
{
    if fs.len() == 0 {
        m
    } else {
        let r = write_fields(m, fs.drop_last(), changed.drop_last(), e);
        if changed.last() {
            write_field(r, fs.last(), field_value(e, fs.last()))
        } else {
            r
        }
    }
}

/// Edits applied one list after another.
proof fn lemma_apply_concat(root: Map<Seq<char>, RootItemView>, a: Seq<DocEditView>, b: Seq<DocEditView>)
    ensures
        apply_edits(root, a + b) == match apply_edits(root, a) {
            Ok(r) => apply_edits(r, b),
            Err(e) => Err(e),
        },
    decreases a.len(),
{
    if a.len() == 0 {
        assert(a + b =~= b);
    } else {
        assert((a + b)[0] == a[0]);
        assert((a + b).drop_first() =~= a.drop_first() + b);
        match apply_edit(root, a[0]) {
            Ok(r) => lemma_apply_concat(r, a.drop_first(), b),
            Err(_) => {},
        }
    }
}

/// One edit alone.
proof fn lemma_apply_one(root: Map<Seq<char>, RootItemView>, e: DocEditView)
    ensures
        apply_edits(root, seq![e]) == apply_edit(root, e),
{
    assert(seq![e].drop_first() =~= Seq::<DocEditView>::empty());
    assert(seq![e][0] == e);
    match apply_edit(root, e) {
        Ok(r) => {
            assert(apply_edits(r, Seq::<DocEditView>::empty()) == Ok::<Map<Seq<char>, RootItemView>, Seq<char>>(r));
        },
        Err(_) => {},
    }
}

/// The edits that write one field of an existing table.
proof fn lemma_apply_field(
    root: Map<Seq<char>, RootItemView>,
    t: Seq<char>,
    m: Map<Seq<char>, ValueView>,
    f: ConfigField,
    v: Option<DocValueView>,
)
    requires
        root.get(t) == Some(RootItemView::Table(m)),
    ensures
        apply_edits(root, field_edits(t, f, v)) == Ok::<Map<Seq<char>, RootItemView>, Seq<char>>(
            root.insert(t, RootItemView::Table(write_field(m, f, v))),
        ),
{
    let put = DocEditView::Put(t, field_key(f), v);
    if f == ConfigField::FetchRecurse {
        let d1 = DocEditView::Drop(t, "fetch"@);
        let d2 = DocEditView::Drop(t, "fetch_recurse"@);
        assert(field_edits(t, f, v) =~= seq![d1] + (seq![d2] + seq![put]));
        lemma_apply_concat(root, seq![d1], seq![d2] + seq![put]);
        lemma_apply_one(root, d1);
        let r1 = root.insert(t, RootItemView::Table(m.remove("fetch"@)));
        lemma_apply_concat(r1, seq![d2], seq![put]);
        lemma_apply_one(r1, d2);
        let r2 = root.insert(t, RootItemView::Table(m.remove("fetch"@).remove("fetch_recurse"@)));
        assert(r1.insert(t, RootItemView::Table(m.remove("fetch"@).remove("fetch_recurse"@))) =~= r2);
        lemma_apply_one(r2, put);
        assert(r2.insert(t, RootItemView::Table(write_field(m, f, v))) =~= root.insert(
            t,
            RootItemView::Table(write_field(m, f, v)),
        ));
    } else {
        assert(field_edits(t, f, v) =~= seq![put]);
        lemma_apply_one(root, put);
    }
}

/// The edits that write the flagged fields of an existing table.
proof fn lemma_apply_fields(
    root: Map<Seq<char>, RootItemView>,
    t: Seq<char>,
    m: Map<Seq<char>, ValueView>,
    fs: Seq<ConfigField>,
    changed: Seq<bool>,
    e: EntryView,
)
    requires
        root.get(t) == Some(RootItemView::Table(m)),
        changed.len() == fs.len(),
    ensures
        apply_edits(root, fields_edits(t, fs, changed, e)) == Ok::<Map<Seq<char>, RootItemView>, Seq<char>>(
            root.insert(t, RootItemView::Table(write_fields(m, fs, changed, e))),
        ),
    decreases fs.len(),
{
    if fs.len() == 0 {
        assert(root.insert(t, RootItemView::Table(m)) =~= root);
    } else {
        let rest = fields_edits(t, fs.drop_last(), changed.drop_last(), e);
        lemma_apply_fields(root, t, m, fs.drop_last(), changed.drop_last(), e);
        let w1 = write_fields(m, fs.drop_last(), changed.drop_last(), e);
        let r1 = root.insert(t, RootItemView::Table(w1));
        if changed.last() {
            let v = field_value(e, fs.last());
            lemma_apply_concat(root, rest, field_edits(t, fs.last(), v));
            lemma_apply_field(r1, t, w1, fs.last(), v);
            assert(r1.insert(t, RootItemView::Table(write_field(w1, fs.last(), v))) =~= root.insert(
                t,
                RootItemView::Table(write_fields(m, fs, changed, e)),
            ));
        }
    }
}

/// Writing a field leaves another field's key as it was.
proof fn lemma_write_keeps_other(
    m: Map<Seq<char>, ValueView>,
    f: ConfigField,
    v: Option<DocValueView>,
    g: ConfigField,
    e: EntryView,
)
    requires
        field_key(f) != field_key(g),
        field_holds(m, g, e),
    ensures
        field_holds(write_field(m, f, v), g, e),
{
    lemma_field_keys();
    assert(f != g);
}

/// Writing a field from an entry makes the table hold it.
proof fn lemma_write_holds(m: Map<Seq<char>, ValueView>, f: ConfigField, e: EntryView)
    ensures
        field_holds(write_field(m, f, field_value(e, f)), f, e),
{
    lemma_field_keys();
}

/// Writes of fields with other keys leave a field as it was.
proof fn lemma_writes_keep_other(
    m: Map<Seq<char>, ValueView>,
    fs: Seq<ConfigField>,
    changed: Seq<bool>,
    e: EntryView,
    g: ConfigField,
)
    requires
        changed.len() == fs.len(),
        forall|i: int| 0 <= i < fs.len() ==> field_key(#[trigger] fs[i]) != field_key(g),
        field_holds(m, g, e),
    ensures
        field_holds(write_fields(m, fs, changed, e), g, e),
    decreases fs.len(),
{
    if fs.len() > 0 {
        lemma_writes_keep_other(m, fs.drop_last(), changed.drop_last(), e, g);
        if changed.last() {
            let r = write_fields(m, fs.drop_last(), changed.drop_last(), e);
            assert(field_key(fs[fs.len() - 1]) != field_key(g));
            lemma_write_keeps_other(r, fs.last(), field_value(e, fs.last()), g, e);
        }
    }
}

/// After the flagged fields are written, the table holds every field that was flagged or
/// already held.
proof fn lemma_writes_hold(
    m: Map<Seq<char>, ValueView>,
    fs: Seq<ConfigField>,
    changed: Seq<bool>,
    e: EntryView,
)
    requires
        changed.len() == fs.len(),
        forall|a: int, b: int|
            0 <= a < fs.len() && 0 <= b < fs.len() && a != b ==> field_key(#[trigger] fs[a]) != field_key(
                #[trigger] fs[b],
            ),
        forall|j: int| 0 <= j < fs.len() ==> #[trigger] changed[j] || field_holds(m, fs[j], e),
    ensures
        fields_hold(write_fields(m, fs, changed, e), fs, e),
    decreases fs.len(),
{
    if fs.len() > 0 {
        let pre = fs.drop_last();
        let cpre = changed.drop_last();
        assert forall|j: int| 0 <= j < pre.len() implies #[trigger] cpre[j] || field_holds(m, pre[j], e) by {
            assert(cpre[j] == changed[j]);
            assert(pre[j] == fs[j]);
        }
        assert forall|a: int, b: int|
            0 <= a < pre.len() && 0 <= b < pre.len() && a != b implies field_key(#[trigger] pre[a])
            != field_key(#[trigger] pre[b]) by {
            assert(pre[a] == fs[a] && pre[b] == fs[b]);
        }
        lemma_writes_hold(m, pre, cpre, e);
        let r = write_fields(m, pre, cpre, e);
        let last = fs.len() - 1;
        let w = write_fields(m, fs, changed, e);
        assert forall|j: int| 0 <= j < fs.len() implies #[trigger] field_holds(w, fs[j], e) by {
            if j < last {
                assert(pre[j] == fs[j]);
                assert(field_holds(r, pre[j], e));
                if changed.last() {
                    assert(field_key(fs[last]) != field_key(fs[j]));
                    lemma_write_keeps_other(r, fs.last(), field_value(e, fs.last()), fs[j], e);
                }
            } else {
                if changed.last() {
                    lemma_write_holds(r, fs.last(), e);
                } else {
                    assert(changed[last] == changed.last());
                    assert forall|i: int| 0 <= i < pre.len() implies field_key(#[trigger] pre[i]) != field_key(
                        fs[last],
                    ) by {
                        assert(pre[i] == fs[i]);
                        assert(field_key(fs[i]) != field_key(fs[last]));
                    }
                    lemma_writes_keep_other(m, pre, cpre, e, fs[last]);
                }
            }
        }
    }
}

/// The fields of a module table are distinct and so are their keys; so are those of the
/// `[defaults]` table.
proof fn lemma_fields_distinct()
    ensures
        forall|a: int, b: int|
            0 <= a < module_fields().len() && 0 <= b < module_fields().len() && a != b ==> field_key(
                #[trigger] module_fields()[a],
            ) != field_key(#[trigger] module_fields()[b]),
        forall|a: int, b: int|
            0 <= a < default_fields().len() && 0 <= b < default_fields().len() && a != b ==> field_key(
                #[trigger] default_fields()[a],
            ) != field_key(#[trigger] default_fields()[b]),
{
    lemma_field_keys();
    let mf = module_fields();
    let df = default_fields();
    assert forall|j: int| 0 <= j < mf.len() implies field_rank(#[trigger] mf[j]) == j by {
        if j == 0 {} else if j == 1 {} else if j == 2 {} else if j == 3 {} else if j == 4 {}
        else if j == 5 {} else if j == 6 {} else if j == 7 {} else if j == 8 {} else {}
    }
    assert forall|j: int| 0 <= j < df.len() implies field_rank(#[trigger] df[j]) == if j < 4 {
        j + 2
    } else {
        9
    } by {
        if j == 0 {} else if j == 1 {} else if j == 2 {} else if j == 3 {} else {}
    }
    assert forall|a: int, b: int| 0 <= a < mf.len() && 0 <= b < mf.len() && a != b implies field_key(
        #[trigger] mf[a],
    ) != field_key(#[trigger] mf[b]) by {
        assert(field_rank(mf[a]) != field_rank(mf[b]));
    }
    assert forall|a: int, b: int| 0 <= a < df.len() && 0 <= b < df.len() && a != b implies field_key(
        #[trigger] df[a],
    ) != field_key(#[trigger] df[b]) by {
        assert(field_rank(df[a]) != field_rank(df[b]));
    }
}

/// A field whose setting is the same in two entries is held for one when it is held for
/// the other.
proof fn lemma_same_field(m: Map<Seq<char>, ValueView>, f: ConfigField, a: EntryView, b: EntryView)
    requires
        !field_differs(a, b, f),
        field_holds(m, f, a),
    ensures
        field_holds(m, f, b),
{
    assert(field_value(a, f) == field_value(b, f));
}

/// The table a table edit starts from: the existing one, or an empty one.
spec fn table_or_empty(root: Map<Seq<char>, RootItemView>, t: Seq<char>) -> Map<Seq<char>, ValueView> {
    match root.get(t) {
        Some(RootItemView::Table(m)) => m,
        _ => Map::empty(),
    }
}

/// The edits of one table that exists or is missing.
proof fn lemma_apply_table(
    root: Map<Seq<char>, RootItemView>,
    t: Seq<char>,
    fs: Seq<ConfigField>,
    changed: Seq<bool>,
    e: EntryView,
)
    requires
        changed.len() == fs.len(),
        root.get(t) != Some(RootItemView::Other),
    ensures
        apply_edits(root, table_edits(t, fs, changed, e)) == Ok::<Map<Seq<char>, RootItemView>, Seq<char>>(
            if changed.contains(true) {
                root.insert(t, RootItemView::Table(write_fields(table_or_empty(root, t), fs, changed, e)))
            } else {
                root
            },
        ),
{
    if changed.contains(true) {
        let first = DocEditView::Table(t);
        lemma_apply_concat(root, seq![first], fields_edits(t, fs, changed, e));
        lemma_apply_one(root, first);
        let r = if root.contains_key(t) {
            root
        } else {
            root.insert(t, RootItemView::Table(Map::empty()))
        };
        assert(r.get(t) == Some(RootItemView::Table(table_or_empty(root, t))));
        lemma_apply_fields(r, t, table_or_empty(root, t), fs, changed, e);
        assert(r.insert(t, RootItemView::Table(write_fields(table_or_empty(root, t), fs, changed, e)))
            =~= root.insert(t, RootItemView::Table(write_fields(table_or_empty(root, t), fs, changed, e))));
    } else {
        assert(table_edits(t, fs, changed, e) =~= Seq::<DocEditView>::empty());
    }
}

/// The tables dropped for the names that `kept` no longer has.
proof fn lemma_apply_drops(
    root: Map<Seq<char>, RootItemView>,
    names: Seq<Seq<char>>,
    kept: Map<Seq<char>, EntryView>,
)
    ensures
        apply_edits(root, drop_edits(names, kept)) matches Ok(r) && forall|k: Seq<char>|
            #[trigger] r.get(k) == if names.contains(k) && !kept.contains_key(k) {
                None
            } else {
                root.get(k)
            },
    decreases names.len(),
{
    if names.len() == 0 {
        assert(drop_edits(names, kept) == Seq::<DocEditView>::empty());
        assert(apply_edits(root, Seq::<DocEditView>::empty()) == Ok::<Map<Seq<char>, RootItemView>, Seq<char>>(root));
    } else {
        let pre = names.drop_last();
        let n = names.last();
        lemma_apply_drops(root, pre, kept);
        let r1 = apply_edits(root, drop_edits(pre, kept))->Ok_0;
        assert forall|k: Seq<char>| #[trigger] names.contains(k) <==> pre.contains(k) || k == n by {
            if names.contains(k) {
                let i = choose|i: int| 0 <= i < names.len() && names[i] == k;
                if i < names.len() - 1 {
                    assert(pre[i] == k);
                }
            }
            if pre.contains(k) {
                let i = choose|i: int| 0 <= i < pre.len() && pre[i] == k;
                assert(names[i] == k);
            }
            if k == n {
                assert(names[names.len() - 1] == k);
            }
        }
        if !kept.contains_key(n) {
            let d = DocEditView::DropTable(n);
            assert(drop_edits(names, kept) == drop_edits(pre, kept) + seq![d]);
            lemma_apply_concat(root, drop_edits(pre, kept), seq![d]);
            lemma_apply_one(r1, d);
            let r = r1.remove(n);
            assert(apply_edits(root, drop_edits(names, kept)) == Ok::<Map<Seq<char>, RootItemView>, Seq<char>>(r));
            assert forall|k: Seq<char>| #[trigger] r.get(k) == if names.contains(k) && !kept.contains_key(k) {
                None
            } else {
                root.get(k)
            } by {
                assert(names.contains(k) <==> pre.contains(k) || k == n);
                if k == n {
                    assert(r.get(k) == None::<RootItemView>);
                } else {
                    assert(r.get(k) == r1.get(k));
                }
            }
        } else {
            assert(drop_edits(names, kept) == drop_edits(pre, kept));
            assert forall|k: Seq<char>| #[trigger] r1.get(k) == if names.contains(k) && !kept.contains_key(k) {
                None
            } else {
                root.get(k)
            } by {
                assert(names.contains(k) <==> pre.contains(k) || k == n);
            }
        }
    }
}

/// Whether the table of submodule `n` is ready for its edits: it exists, holding every
/// field that is not flagged, or it is missing and every field is flagged.
spec fn ready(root: Map<Seq<char>, RootItemView>, n: Seq<char>, flags: Seq<bool>, e: EntryView) -> bool {
    match root.get(n) {
        Some(RootItemView::Table(m)) => forall|j: int|
            0 <= j < module_fields().len() ==> #[trigger] flags[j] || field_holds(m, module_fields()[j], e),
        Some(RootItemView::Other) => false,
        None => forall|j: int| 0 <= j < module_fields().len() ==> #[trigger] flags[j],
    }
}

/// The flags of submodule `n`.
spec fn flags_of(n: Seq<char>, old: Map<Seq<char>, EntryView>, new: Map<Seq<char>, EntryView>, intent: EditIntent) -> Seq<bool> {
    module_flags(n, entry_at(old, n), new[n], intent)
}

/// The edits of the submodules of `names` leave each table holding its submodule, and
/// every other key as it was.
proof fn lemma_apply_modules(
    root: Map<Seq<char>, RootItemView>,
    names: Seq<Seq<char>>,
    old: Map<Seq<char>, EntryView>,
    new: Map<Seq<char>, EntryView>,
    intent: EditIntent,
)
    requires
        forall|i: int| 0 <= i < names.len() ==> new.contains_key(#[trigger] names[i]),
        forall|i: int|
            0 <= i < names.len() ==> ready(root, #[trigger] names[i], flags_of(names[i], old, new, intent), new[names[i]]),
    ensures
        apply_edits(root, modules_edits(names, old, new, intent)) matches Ok(r) && (forall|i: int|
            0 <= i < names.len() ==> (r.get(#[trigger] names[i]) matches Some(RootItemView::Table(m))
                && fields_hold(m, module_fields(), new[names[i]]))) && (forall|k: Seq<char>|
            !names.contains(k) ==> #[trigger] r.get(k) == root.get(k)),
    decreases names.len(),
{
    if names.len() == 0 {
        assert(apply_edits(root, Seq::<DocEditView>::empty()) == Ok::<Map<Seq<char>, RootItemView>, Seq<char>>(root));
    } else {
        let pre = names.drop_last();
        let n = names.last();
        let last = names.len() - 1;
        assert(names[last] == n);
        assert forall|i: int| 0 <= i < pre.len() implies new.contains_key(#[trigger] pre[i]) by {
            assert(pre[i] == names[i]);
        }
        assert forall|i: int| 0 <= i < pre.len() implies ready(root, #[trigger] pre[i], flags_of(pre[i], old, new, intent), new[pre[i]]) by {
            assert(pre[i] == names[i]);
        }
        lemma_apply_modules(root, pre, old, new, intent);
        let r1 = apply_edits(root, modules_edits(pre, old, new, intent))->Ok_0;
        let flags = flags_of(n, old, new, intent);
        let e = new[n];
        let fs = module_fields();
        assert(flags.len() == fs.len());
        // The table of `n` is ready after the earlier names.
        if pre.contains(n) {
            let i = choose|i: int| 0 <= i < pre.len() && pre[i] == n;
            assert(r1.get(pre[i]) matches Some(RootItemView::Table(m)) && fields_hold(m, fs, new[pre[i]]));
        } else {
            assert(r1.get(n) == root.get(n));
        }
        assert(ready(r1, n, flags, e));
        lemma_apply_concat(root, modules_edits(pre, old, new, intent), table_edits(n, fs, flags, e));
        lemma_apply_table(r1, n, fs, flags, e);
        let m0 = table_or_empty(r1, n);
        let w = write_fields(m0, fs, flags, e);
        let r2 = if flags.contains(true) {
            r1.insert(n, RootItemView::Table(w))
        } else {
            r1
        };
        lemma_fields_distinct();
        if flags.contains(true) {
            assert forall|j: int| 0 <= j < fs.len() implies #[trigger] flags[j] || field_holds(m0, fs[j], e) by {}
            lemma_writes_hold(m0, fs, flags, e);
        } else {
            if r1.get(n) is None {
                assert(flags[0]);
                assert(flags.contains(true));
            }
            assert forall|j: int| 0 <= j < fs.len() implies #[trigger] field_holds(m0, fs[j], e) by {
                if flags[j] {
                    assert(flags.contains(true));
                }
            }
        }
        assert(r2.get(n) matches Some(RootItemView::Table(m)) && fields_hold(m, fs, e));
        assert forall|i: int| 0 <= i < names.len() implies (r2.get(#[trigger] names[i]) matches Some(
            RootItemView::Table(m),
        ) && fields_hold(m, module_fields(), new[names[i]])) by {
            if names[i] != n {
                assert(i < last);
                assert(pre[i] == names[i]);
            }
        }
        assert forall|k: Seq<char>| !names.contains(k) implies #[trigger] r2.get(k) == root.get(k) by {
            if k == n {
                assert(names[last] == k);
                assert(names.contains(k));
            }
            if pre.contains(k) {
                let i = choose|i: int| 0 <= i < pre.len() && pre[i] == k;
                assert(names[i] == k);
                assert(names.contains(k));
            }
            assert(r1.get(k) == root.get(k));
            assert(r2.get(k) == r1.get(k));
        }
    }
}

/// The names of a configuration, sorted, are those of its submodules.
proof fn lemma_sorted_names(c: Config)
    requires
        names_valid(c),
    ensures
        forall|k: Seq<char>| #[trigger] c.submodules.names().sort_by(text_order()).contains(k) <==> c.submodules@.contains_key(k),
{
    crate::order::lemma_text_order_total();
    let names = c.submodules.names();
    names.lemma_sort_by_ensures(text_order());
    let sorted = names.sort_by(text_order());
    names.to_multiset_ensures();
    sorted.to_multiset_ensures();
    assert forall|k: Seq<char>| #[trigger] sorted.contains(k) <==> c.submodules@.contains_key(k) by {
        if c.submodules@.contains_key(k) {
            assert(names.contains(k));
            assert(names.to_multiset().count(k) > 0);
        }
    }
}

/// Saving configuration `new` over a document whose top-level items hold `old` (see
/// [`document_holds`]) succeeds, and leaves a document whose items hold `new`: the
/// edits change exactly what the configuration changed, whatever is asked to be
/// rewritten.
pub proof fn lemma_save_holds_new(
    old: Config,
    new: Config,
    intent: EditIntent,
    root: Map<Seq<char>, RootItemView>,
)
    requires
        names_valid(old),
        names_valid(new),
        document_holds(root, old),
    ensures
        apply_edits(root, config_edits(old, new, intent)) matches Ok(r) && document_holds(r, new),
{
    let od = defaults_entry(defaults_view(old.defaults));
    let nd = defaults_entry(defaults_view(new.defaults));
    let df = default_fields();
    let dflags = default_flags(defaults_view(old.defaults), defaults_view(new.defaults), intent);
    let a = table_edits("defaults"@, df, dflags, nd);
    let olds = old.submodules.names().sort_by(text_order());
    let news = new.submodules.names().sort_by(text_order());
    let b = drop_edits(olds, new.submodules@);
    let c = modules_edits(news, old.submodules@, new.submodules@, intent);
    assert(config_edits(old, new, intent) == (a + b) + c);
    lemma_apply_concat(root, a + b, c);
    lemma_apply_concat(root, a, b);
    lemma_sorted_names(old);
    lemma_sorted_names(new);
    lemma_fields_distinct();
    // The defaults.
    lemma_apply_table(root, "defaults"@, df, dflags, nd);
    let m0 = table_or_empty(root, "defaults"@);
    let r1 = apply_edits(root, a)->Ok_0;
    assert(fields_hold(m0, df, od));
    assert forall|j: int| 0 <= j < df.len() implies #[trigger] dflags[j] || field_holds(m0, df[j], nd) by {
        if !dflags[j] {
            lemma_same_field(m0, df[j], od, nd);
        }
    }
    if dflags.contains(true) {
        lemma_writes_hold(m0, df, dflags, nd);
    } else {
        assert forall|j: int| 0 <= j < df.len() implies #[trigger] field_holds(m0, df[j], nd) by {
            if dflags[j] {
                assert(dflags.contains(true));
            }
        }
    }
    assert(defaults_held(r1, defaults_view(new.defaults)));
    assert(forall|k: Seq<char>| k != "defaults"@ ==> #[trigger] r1.get(k) == root.get(k));
    // The dropped tables.
    lemma_apply_drops(r1, olds, new.submodules@);
    let r2 = apply_edits(r1, b)->Ok_0;
    // The submodules.
    let om = old.submodules@;
    let nm = new.submodules@;
    assert forall|i: int| 0 <= i < news.len() implies nm.contains_key(#[trigger] news[i]) by {
        assert(news.contains(news[i]));
    }
    assert forall|i: int| 0 <= i < news.len() implies ready(r2, #[trigger] news[i], flags_of(news[i], om, nm, intent), nm[news[i]]) by {
        let n = news[i];
        assert(news.contains(n));
        assert(r2.get(n) == root.get(n));
        let flags = flags_of(n, om, nm, intent);
        if om.contains_key(n) {
            assert(root.get(n) matches Some(RootItemView::Table(m)) && fields_hold(m, module_fields(), om[n]));
            let m = root.get(n)->Some_0->Table_0;
            assert forall|j: int| 0 <= j < module_fields().len() implies #[trigger] flags[j] || field_holds(
                m,
                module_fields()[j],
                nm[n],
            ) by {
                if !flags[j] {
                    assert(field_holds(m, module_fields()[j], om[n]));
                    lemma_same_field(m, module_fields()[j], om[n], nm[n]);
                }
            }
        } else {
            assert(!root.contains_key(n));
        }
    }
    lemma_apply_modules(r2, news, om, nm, intent);
    let r3 = apply_edits(r2, c)->Ok_0;
    assert(!news.contains("defaults"@));
    assert(!olds.contains("defaults"@));
    assert(defaults_held(r3, defaults_view(new.defaults)));
    assert forall|n: Seq<char>| #[trigger] nm.contains_key(n) implies (r3.get(n) matches Some(
        RootItemView::Table(m),
    ) && fields_hold(m, module_fields(), nm[n])) by {
        assert(news.contains(n));
        let i = choose|i: int| 0 <= i < news.len() && news[i] == n;
    }
    assert forall|k: Seq<char>|
        #[trigger] r3.contains_key(k) && k != "defaults"@ && k != "schema_version"@ implies nm.contains_key(k) by {
        if !news.contains(k) {
            assert(r3.get(k) == r2.get(k));
            assert(r2.contains_key(k));
            assert(r1.contains_key(k));
            assert(root.contains_key(k));
            assert(om.contains_key(k));
            assert(olds.contains(k));
        }
    }
}

} // verus!
