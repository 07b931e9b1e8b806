//! Reading `.gitmodules` as git lists it (`git config -z --file .gitmodules --list`):
//! each NUL-separated record is a key, a line feed, and a value. The settings of each
//! submodule section are gathered by name.
use vstd::prelude::*;
use vstd::utf8::{decode_utf8, valid_utf8};

use crate::gitconfig::{eq_ignore_ascii_case, eq_ignore_case_from};
use crate::gitout::{byte_views, find_byte, first_index, is_byte, nonempty_pieces, split_records};
use crate::name_map::NameMap;
use crate::options::utf8_decode;
use crate::text::{owned, starts_with};

verus! {

/// The last position of `x` in `s`, if it occurs.
pub open spec fn last_index(s: Seq<char>, x: char) -> Option<int> {
    if exists|i: int| 0 <= i < s.len() && s[i] == x {
        Some(
            choose|i: int|
                0 <= i < s.len() && s[i] == x && forall|j: int| i < j < s.len() ==> s[j] != x,
        )
    } else {
        None
    }
}

/// The field a section key names, in the spelling it is kept under, when it is one this
/// tool reads: `path`, `url`, `branch`, `ignore`, `update`, `fetchRecurseSubmodules` or
/// `shallow`, compared without regard to ASCII case.
pub open spec fn read_field(f: Seq<char>) -> Option<Seq<char>> {
    if eq_ignore_ascii_case(f, "path"@) {
        Some("path"@)
    } else if eq_ignore_ascii_case(f, "url"@) {
        Some("url"@)
    } else if eq_ignore_ascii_case(f, "branch"@) {
        Some("branch"@)
    } else if eq_ignore_ascii_case(f, "ignore"@) {
        Some("ignore"@)
    } else if eq_ignore_ascii_case(f, "update"@) {
        Some("update"@)
    } else if eq_ignore_ascii_case(f, "fetchrecursesubmodules"@) {
        Some("fetchRecurseSubmodules"@)
    } else if eq_ignore_ascii_case(f, "shallow"@) {
        Some("shallow"@)
    } else {
        None
    }
}

/// What a submodule setting holds for this tool.
#[derive(Debug, Clone, PartialEq, Eq)]
pub enum ListedField {
    /// A field this tool reads (in its kept spelling) with its value.
    Kept(&'static str, String),
    /// A field this tool does not read.
    Ignored,
    /// An `update` that runs a custom command (`!...`), which is not supported.
    CustomUpdate,
}

/// What one listed record is.
#[derive(Debug, Clone, PartialEq, Eq)]
pub enum ListedRecord {
    /// The record has no line feed between key and value.
    Malformed,
    /// The key or the value is not UTF-8.
    NotText,
    /// Not a submodule setting: the key is not `submodule.<name>.<field>`.
    Other,
    /// A setting of the submodule section `name`.
    Setting { name: String, field: ListedField },
}

/// The model of a [`ListedField`].
pub enum ListedFieldView {
    Kept(Seq<char>, Seq<char>),
    Ignored,
    CustomUpdate,
}

/// The model of a [`ListedRecord`].
pub enum ListedRecordView {
    Malformed,
    NotText,
    Other,
    Setting(Seq<char>, ListedFieldView),
}

impl View for ListedField {
    type V = ListedFieldView;

    open spec fn view(&self) -> ListedFieldView {
        match self {
            ListedField::Kept(f, v) => ListedFieldView::Kept(f@, v@),
            ListedField::Ignored => ListedFieldView::Ignored,
            ListedField::CustomUpdate => ListedFieldView::CustomUpdate,
        }
    }
}

impl View for ListedRecord {
    type V = ListedRecordView;

    open spec fn view(&self) -> ListedRecordView {
        match self {
            ListedRecord::Malformed => ListedRecordView::Malformed,
            ListedRecord::NotText => ListedRecordView::NotText,
            ListedRecord::Other => ListedRecordView::Other,
            ListedRecord::Setting { name, field } => ListedRecordView::Setting(name@, field@),
        }
    }
}

/// What the field `f` of a setting with value `v` holds (see [`ListedField`]).
pub open spec fn listed_field(f: Seq<char>, v: Seq<char>) -> ListedFieldView {
    match read_field(f) {
        None => ListedFieldView::Ignored,
        Some(kept) => if kept == "update"@ && v.len() > 0 && v[0] == '!' {
            ListedFieldView::CustomUpdate
        } else {
            ListedFieldView::Kept(kept, v)
        },
    }
}

/// What a record with key `k` and value `v` is: a submodule setting's key is
/// `submodule.`, the section name, a `.` and the field (the name runs to the last `.`).
#[verifier::opaque]
pub open spec fn keyed_record(k: Seq<char>, v: Seq<char>) -> ListedRecordView {
    if !"submodule."@.is_prefix_of(k) {
        ListedRecordView::Other
    } else {
        let rest = k.subrange(10, k.len() as int);
        match last_index(rest, '.') {
            None => ListedRecordView::Other,
            Some(d) => ListedRecordView::Setting(
                rest.subrange(0, d),
                listed_field(rest.subrange(d + 1, rest.len() as int), v),
            ),
        }
    }
}

/// What the record `rec` is: its key is the text before the first line feed, its value
/// the text after (see [`keyed_record`]).
pub open spec fn listed_record(rec: Seq<u8>) -> ListedRecordView {
    match first_index(rec, 10u8) {
        None => ListedRecordView::Malformed,
        Some(n) => {
            let kb = rec.subrange(0, n);
            let vb = rec.subrange(n + 1, rec.len() as int);
            if !valid_utf8(kb) || !valid_utf8(vb) {
                ListedRecordView::NotText
            } else {
                keyed_record(decode_utf8(kb), decode_utf8(vb))
            }
        },
    }
}

/// The last position of `x` in `s` at or after `from` (see [`last_index`]).
fn last_char_index(s: &str, from: usize, x: char) -> (r: Option<usize>)
    requires
        from <= s@.len(),
    ensures
        match r {
            None => last_index(s@.subrange(from as int, s@.len() as int), x) is None,
            Some(i) => from <= i < s@.len() && last_index(
                s@.subrange(from as int, s@.len() as int),
                x,
            ) == Some(i - from),
        },
{
    let n = s.unicode_len();
    let ghost t = s@.subrange(from as int, n as int);
    let mut i: usize = n;
    while i > from
        invariant
            n == s@.len(),
            from <= i <= n,
            t == s@.subrange(from as int, n as int),
            forall|j: int| i - from <= j < t.len() ==> t[j] != x,
        decreases i,
    {
        if s.get_char(i - 1) == x {
            proof {
                let k = i - 1 - from;
                assert(t[k] == x);
                let w = choose|w: int|
                    0 <= w < t.len() && t[w] == x && forall|j: int| w < j < t.len() ==> t[j] != x;
                assert(0 <= k < t.len() && t[k] == x && forall|j: int| k < j < t.len() ==> t[j] != x);
                if w < k {
                } else if w > k {
                    assert(t[w] != x);
                }
            }
            return Some(i - 1);
        }
        i = i - 1;
    }
    None
}

/// Whether the field starting at `start` of `key` is `b`, ignoring ASCII case.
fn field_is(key: &str, start: usize, b: &str) -> (r: bool)
    requires
        start <= key@.len(),
    ensures
        r == eq_ignore_ascii_case(key@.subrange(start as int, key@.len() as int), b@),
{
    eq_ignore_case_from(key, start, b)
}

/// What the field at `start` of `key` holds with value `v` (see [`listed_field`]).
fn classify_field(key: &str, start: usize, v: &str) -> (r: ListedField)
    requires
        start <= key@.len(),
    ensures
        r@ == listed_field(key@.subrange(start as int, key@.len() as int), v@),
{
    let kept: &'static str = if field_is(key, start, "path") {
        "path"
    } else if field_is(key, start, "url") {
        "url"
    } else if field_is(key, start, "branch") {
        "branch"
    } else if field_is(key, start, "ignore") {
        "ignore"
    } else if field_is(key, start, "update") {
        "update"
    } else if field_is(key, start, "fetchrecursesubmodules") {
        "fetchRecurseSubmodules"
    } else if field_is(key, start, "shallow") {
        "shallow"
    } else {
        return ListedField::Ignored;
    };
    proof {
        assert(read_field(key@.subrange(start as int, key@.len() as int)) == Some(kept@));
    }
    let is_update = crate::text::str_eq(kept, "update");
    if is_update && v.unicode_len() > 0 && v.get_char(0) == '!' {
        ListedField::CustomUpdate
    } else {
        ListedField::Kept(kept, owned(v))
    }
}

/// What a record with key `key` and value `value` is (see [`keyed_record`]).
fn classify_key(key: &str, value: &str) -> (r: ListedRecord)
    ensures
        r@ == keyed_record(key@, value@),
{
    proof {
        reveal_strlit("submodule.");
        reveal(keyed_record);
    }
    if !starts_with(key, "submodule.") {
        return ListedRecord::Other;
    }
    let m = key.unicode_len();
    let d = match last_char_index(key, 10, '.') {
        None => {
            return ListedRecord::Other;
        },
        Some(d) => d,
    };
    let name = owned(key.substring_char(10, d));
    let field = classify_field(key, d + 1, value);
    proof {
        let k = key@;
        let rest = k.subrange(10, m as int);
        assert(rest.subrange(0, d - 10) =~= k.subrange(10, d as int));
        assert(rest.subrange(d - 10 + 1, rest.len() as int) =~= k.subrange(d + 1, m as int));
    }
    ListedRecord::Setting { name, field }
}

/// What one listed record is (see [`listed_record`]).
pub fn classify_record(rec: &[u8]) -> (r: ListedRecord)
    ensures
        r@ == listed_record(rec@),
{
    let n = match find_byte(rec, 10u8) {
        None => {
            return ListedRecord::Malformed;
        },
        Some(n) => n,
    };
    let len = rec.len();
    let kb = vstd::slice::slice_subrange(rec, 0, n);
    let vb = vstd::slice::slice_subrange(rec, n + 1, len);
    let key = match utf8_decode(kb).ok() {
        None => {
            return ListedRecord::NotText;
        },
        Some(k) => k,
    };
    let value = match utf8_decode(vb).ok() {
        None => {
            return ListedRecord::NotText;
        },
        Some(v) => v,
    };
    classify_key(key, value)
}

/// The field spellings this tool keeps hold no `.`.
proof fn lemma_kept_field_has_no_dot(f: Seq<char>)
    requires
        read_field(f) == Some(f),
    ensures
        forall|i: int| 0 <= i < f.len() ==> f[i] != '.',
{
    reveal_strlit("path");
    reveal_strlit("url");
    reveal_strlit("branch");
    reveal_strlit("ignore");
    reveal_strlit("update");
    reveal_strlit("fetchRecurseSubmodules");
    reveal_strlit("shallow");
}

/// A setting written under the key `submodule.<name>.<field>`, with a field in the
/// spelling this tool keeps, is read back as that field of section `name` with the
/// value written (an `update` value that runs a command is refused instead).
pub proof fn lemma_written_setting_reads_back(name: Seq<char>, f: Seq<char>, v: Seq<char>)
    requires
        read_field(f) == Some(f),
        !(f == "update"@ && v.len() > 0 && v[0] == '!'),
    ensures
        keyed_record("submodule."@ + name + "."@ + f, v) == ListedRecordView::Setting(
            name,
            ListedFieldView::Kept(f, v),
        ),
{
    reveal(keyed_record);
    reveal_strlit("submodule.");
    reveal_strlit(".");
    lemma_kept_field_has_no_dot(f);
    let k = "submodule."@ + name + "."@ + f;
    assert(k.subrange(0, 10) =~= "submodule."@);
    assert("submodule."@.is_prefix_of(k));
    let rest = k.subrange(10, k.len() as int);
    assert(rest =~= name + "."@ + f);
    let d = name.len() as int;
    assert(rest[d] == '.');
    assert forall|j: int| d < j < rest.len() implies rest[j] != '.' by {
        assert(rest[j] == f[j - d - 1]);
    }
    let w = choose|i: int|
        0 <= i < rest.len() && rest[i] == '.' && forall|j: int| i < j < rest.len() ==> rest[j] != '.';
    assert(0 <= d < rest.len() && rest[d] == '.' && forall|j: int| d < j < rest.len() ==> rest[j] != '.');
    if w < d {
        assert(rest[d] != '.');
    } else if w > d {
        assert(rest[w] == f[w - d - 1]);
    }
    assert(last_index(rest, '.') == Some(d));
    assert(rest.subrange(0, d) =~= name);
    assert(rest.subrange(d + 1, rest.len() as int) =~= f);
}

/// The models of a list of records.
pub open spec fn record_views(v: Seq<ListedRecord>) -> Seq<ListedRecordView> {
    v.map_values(|r: ListedRecord| r@)
}

/// What each record of the listing `out` is, in order.
pub fn listing_records(out: &[u8]) -> (r: Vec<ListedRecord>)
    ensures
        record_views(r@) == nonempty_pieces(out@, is_byte(0u8)).map_values(
            |rec: Seq<u8>| listed_record(rec),
        ),
{
    let recs = split_records(out, 0u8);
    let ghost rv = byte_views(recs@);
    let mut res: Vec<ListedRecord> = Vec::new();
    let mut i: usize = 0;
    while i < recs.len()
        invariant
            i <= recs@.len(),
            rv == byte_views(recs@),
            rv == nonempty_pieces(out@, is_byte(0u8)),
            record_views(res@) == rv.subrange(0, i as int).map_values(
                |rec: Seq<u8>| listed_record(rec),
            ),
        decreases recs@.len() - i,
    {
        let c = classify_record(recs[i].as_slice());
        let ghost before = record_views(res@);
        res.push(c);
        proof {
            assert(rv[i as int] == recs@[i as int]@);
            assert(record_views(res@) =~= before.push(c@));
            assert(rv.subrange(0, i + 1).map_values(|rec: Seq<u8>| listed_record(rec))
                =~= rv.subrange(0, i as int).map_values(|rec: Seq<u8>| listed_record(rec)).push(
                listed_record(rv[i as int]),
            ));
        }
        i = i + 1;
    }
    proof {
        assert(rv.subrange(0, rv.len() as int) =~= rv);
    }
    res
}

/// The settings of section `name` in `sections`, none when it has no section yet.
pub open spec fn section_of(sections: Map<Seq<char>, NameMap<String>>, name: Seq<char>) -> Map<
    Seq<char>,
    String,
> {
    if sections.contains_key(name) {
        sections[name]@
    } else {
        Map::empty()
    }
}

/// Record the setting `field = value` of section `name` (a later value of a field
/// replaces an earlier one).
pub fn put_setting(sections: &mut NameMap<NameMap<String>>, name: &str, field: &str, value: String)
    ensures
        final(sections)@.dom() == old(sections)@.dom().insert(name@),
        forall|k: Seq<char>|
            k != name@ && #[trigger] old(sections)@.contains_key(k) ==> final(sections)@[k]
                == old(sections)@[k],
        final(sections)@[name@]@ == section_of(old(sections)@, name@).insert(field@, value),
{
    let mut section = match sections.insert(owned(name), NameMap::new()) {
        Some(s) => s,
        None => NameMap::new(),
    };
    proof {
        assert(section@ == section_of(old(sections)@, name@));
    }
    section.insert(owned(field), value);
    sections.insert(owned(name), section);
    proof {
        assert(sections@.dom() =~= old(sections)@.dom().insert(name@));
    }
}

} // verus!
