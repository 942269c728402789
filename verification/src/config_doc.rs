//! Config documents and their imports. A TOML document is held flattened:
//! one entry per leaf, keyed by its path of table keys (an empty table is
//! a leaf too). Imports are merged underneath the importing file, table by
//! table, so the importing file's keys win.

use vstd::prelude::*;
use crate::paths::{expand_path, expand_spec};

verus! {

/// The TOML value type, carried through unread.
#[verifier::external_type_specification]
#[verifier::external_body]
pub struct ExTomlValue(toml::Value);

/// An element of an array.
#[derive(Debug, PartialEq)]
pub enum ArrayItem {
    Str(String),
    /// Any other element.
    Other(toml::Value),
}

/// What sits at the end of a key path.
#[derive(Debug, PartialEq)]
pub enum ConfigLeaf {
    Str(String),
    Array(Vec<ArrayItem>),
    /// Any other scalar (number, boolean, date-time).
    Other(toml::Value),
    /// A table with no keys.
    EmptyTable,
}

/// One leaf of a document and the table keys leading to it.
#[derive(Debug, PartialEq)]
pub struct ConfigEntry {
    pub path: Vec<String>,
    pub value: ConfigLeaf,
}

/// A TOML document, flattened to its leaves.
#[derive(Debug, PartialEq)]
pub struct ConfigDoc {
    pub entries: Vec<ConfigEntry>,
}

/// Path `a` leads to `b` or to a table above it.
pub open spec fn is_prefix(a: Seq<String>, b: Seq<String>) -> bool {
    a.len() <= b.len() && forall|i: int| 0 <= i < a.len() ==> (#[trigger] a[i])@ == b[i]@
}

/// Paths `a` and `b` name the same keys.
pub open spec fn same_path(a: Seq<String>, b: Seq<String>) -> bool {
    a.len() == b.len() && is_prefix(a, b)
}

/// Path `a` leads to a table strictly above `b`.
pub open spec fn is_proper_prefix(a: Seq<String>, b: Seq<String>) -> bool {
    a.len() < b.len() && is_prefix(a, b)
}

/// Whether path `a` is a prefix of path `b`.
pub fn path_is_prefix(a: &Vec<String>, b: &Vec<String>) -> (r: bool)
    ensures
        r == is_prefix(a@, b@),
{
    if a.len() > b.len() {
        return false;
    }
    let mut i: usize = 0;
    while i < a.len()
        invariant
            i <= a@.len(),
            a@.len() <= b@.len(),
            forall|j: int| 0 <= j < i ==> (#[trigger] a@[j])@ == b@[j]@,
        decreases a@.len() - i,
    {
        if a[i] != b[i] {
            return false;
        }
        i += 1;
    }
    true
}

/// A base entry survives the merge unless the overlay replaces it: an
/// overlay leaf at its path or above it (other than an empty table above
/// it, or an empty table over an empty table), or overlay entries below
/// it (a table replacing a leaf).
pub open spec fn keeps_base(e: ConfigEntry, overlay: Seq<ConfigEntry>) -> bool {
    forall|j: int|
        0 <= j < overlay.len() ==> {
            let f = #[trigger] overlay[j];
            &&& is_prefix(f.path@, e.path@) ==> f.value == ConfigLeaf::EmptyTable && (is_proper_prefix(
                f.path@,
                e.path@,
            ) || e.value == ConfigLeaf::EmptyTable)
            &&& !is_proper_prefix(e.path@, f.path@)
        }
}

/// An overlay entry is kept unless it is an empty table landing on a
/// table of the base (merging an empty table changes nothing).
pub open spec fn keeps_overlay(f: ConfigEntry, base: Seq<ConfigEntry>) -> bool {
    f.value == ConfigLeaf::EmptyTable ==> forall|i: int|
        0 <= i < base.len() ==> !is_proper_prefix(f.path@, (#[trigger] base[i]).path@) && !(
        same_path(f.path@, base[i].path@) && base[i].value == ConfigLeaf::EmptyTable)
}

/// The entries of `s` that satisfy `keep`, in order.
pub open spec fn kept_entries(s: Seq<ConfigEntry>, keep: spec_fn(ConfigEntry) -> bool) -> Seq<ConfigEntry>
    decreases s.len(),
{
    if s.len() == 0 {
        Seq::empty()
    } else {
        let before = kept_entries(s.drop_last(), keep);
        if keep(s.last()) {
            before.push(s.last())
        } else {
            before
        }
    }
}

/// `overlay` merged over `base`: tables are merged key by key, anything
/// else in the overlay replaces what the base has at that key.
pub open spec fn merge_spec(base: Seq<ConfigEntry>, overlay: Seq<ConfigEntry>) -> Seq<ConfigEntry> {
    kept_entries(base, |e: ConfigEntry| keeps_base(e, overlay)) + kept_entries(
        overlay,
        |f: ConfigEntry| keeps_overlay(f, base),
    )
}

fn leaf_is_empty_table(v: &ConfigLeaf) -> (b: bool)
    ensures
        b == (*v == ConfigLeaf::EmptyTable),
{
    match v {
        ConfigLeaf::EmptyTable => true,
        _ => false,
    }
}

fn keeps_base_exec(e: &ConfigEntry, overlay: &Vec<ConfigEntry>) -> (b: bool)
    ensures
        b == keeps_base(*e, overlay@),
{
    let e_empty = leaf_is_empty_table(&e.value);
    let mut j: usize = 0;
    while j < overlay.len()
        invariant
            j <= overlay@.len(),
            e_empty == (e.value == ConfigLeaf::EmptyTable),
            forall|k: int|
                0 <= k < j ==> {
                    let f = #[trigger] overlay@[k];
                    &&& is_prefix(f.path@, e.path@) ==> f.value == ConfigLeaf::EmptyTable && (
                    is_proper_prefix(f.path@, e.path@) || e.value == ConfigLeaf::EmptyTable)
                    &&& !is_proper_prefix(e.path@, f.path@)
                },
        decreases overlay@.len() - j,
    {
        let f = &overlay[j];
        if path_is_prefix(&f.path, &e.path) {
            let f_empty = leaf_is_empty_table(&f.value);
            let proper = f.path.len() < e.path.len();
            if !(f_empty && (proper || e_empty)) {
                return false;
            }
        }
        if e.path.len() < f.path.len() && path_is_prefix(&e.path, &f.path) {
            return false;
        }
        j += 1;
    }
    true
}

fn keeps_overlay_exec(f: &ConfigEntry, base: &Vec<ConfigEntry>) -> (b: bool)
    ensures
        b == keeps_overlay(*f, base@),
{
    if !leaf_is_empty_table(&f.value) {
        return true;
    }
    let mut i: usize = 0;
    while i < base.len()
        invariant
            i <= base@.len(),
            f.value == ConfigLeaf::EmptyTable,
            forall|k: int|
                0 <= k < i ==> !is_proper_prefix(f.path@, (#[trigger] base@[k]).path@) && !(same_path(
                    f.path@,
                    base@[k].path@,
                ) && base@[k].value == ConfigLeaf::EmptyTable),
        decreases base@.len() - i,
    {
        let e = &base[i];
        if f.path.len() < e.path.len() && path_is_prefix(&f.path, &e.path) {
            return false;
        }
        if leaf_is_empty_table(&e.value) && f.path.len() == e.path.len() && path_is_prefix(
            &f.path,
            &e.path,
        ) {
            return false;
        }
        i += 1;
    }
    true
}

/// Move the entries of `from` whose flag is set onto the end of `into`.
fn move_kept(into: &mut Vec<ConfigEntry>, from: Vec<ConfigEntry>, flags: &Vec<bool>, Ghost(keep): Ghost<
    spec_fn(ConfigEntry) -> bool,
>)
    requires
        flags@.len() == from@.len(),
        forall|i: int| 0 <= i < from@.len() ==> flags@[i] == keep(#[trigger] from@[i]),
    ensures
        final(into)@ == old(into)@ + kept_entries(from@, keep),
{
    let mut rest = from;
    let ghost all = rest@;
    let n = rest.len();
    let mut i: usize = 0;
    while i < n
        invariant
            i <= n,
            n == all.len(),
            flags@.len() == n,
            forall|k: int| 0 <= k < n ==> flags@[k] == keep(#[trigger] all[k]),
            rest@ == all.skip(i as int),
            into@ == old(into)@ + kept_entries(all.take(i as int), keep),
        decreases n - i,
    {
        let e = rest.remove(0);
        assert(all.take(i + 1).drop_last() =~= all.take(i as int));
        assert(all.take(i + 1).last() == e);
        assert(rest@ =~= all.skip(i + 1));
        if flags[i] {
            into.push(e);
        }
        assert(into@ =~= old(into)@ + kept_entries(all.take(i + 1), keep));
        i += 1;
    }
    assert(all.take(n as int) =~= all);
}

/// Merge `overlay` over `base` (see [`merge_spec`]).
pub fn merge_toml(base: ConfigDoc, overlay: ConfigDoc) -> (merged: ConfigDoc)
    ensures
        merged.entries@ == merge_spec(base.entries@, overlay.entries@),
{
    let mut keep_b: Vec<bool> = Vec::new();
    let mut i: usize = 0;
    while i < base.entries.len()
        invariant
            i <= base.entries@.len(),
            keep_b@.len() == i,
            forall|k: int|
                0 <= k < i ==> keep_b@[k] == keeps_base(#[trigger] base.entries@[k], overlay.entries@),
        decreases base.entries@.len() - i,
    {
        keep_b.push(keeps_base_exec(&base.entries[i], &overlay.entries));
        i += 1;
    }
    let mut keep_o: Vec<bool> = Vec::new();
    let mut j: usize = 0;
    while j < overlay.entries.len()
        invariant
            j <= overlay.entries@.len(),
            keep_o@.len() == j,
            forall|k: int|
                0 <= k < j ==> keep_o@[k] == keeps_overlay(#[trigger] overlay.entries@[k], base.entries@),
        decreases overlay.entries@.len() - j,
    {
        keep_o.push(keeps_overlay_exec(&overlay.entries[j], &base.entries));
        j += 1;
    }
    let ghost b = base.entries@;
    let ghost o = overlay.entries@;
    let ghost kb = |e: ConfigEntry| keeps_base(e, o);
    let ghost ko = |f: ConfigEntry| keeps_overlay(f, b);
    let mut out: Vec<ConfigEntry> = Vec::new();
    move_kept(&mut out, base.entries, &keep_b, Ghost(kb));
    move_kept(&mut out, overlay.entries, &keep_o, Ghost(ko));
    assert(out@ =~= merge_spec(b, o));
    ConfigDoc { entries: out }
}


/// Path `p` spells the keys `keys`.
pub open spec fn spells(p: Seq<String>, keys: Seq<Seq<char>>) -> bool {
    p.len() == keys.len() && forall|i: int| 0 <= i < p.len() ==> (#[trigger] p[i])@ == keys[i]
}

pub open spec fn import_key() -> Seq<char> {
    seq!['i', 'm', 'p', 'o', 'r', 't']
}

pub open spec fn general_key() -> Seq<char> {
    seq!['g', 'e', 'n', 'e', 'r', 'a', 'l']
}

/// `import`, at the top level.
pub open spec fn top_import() -> Seq<Seq<char>> {
    seq![import_key()]
}

/// `general.import`.
pub open spec fn general_import() -> Seq<Seq<char>> {
    seq![general_key(), import_key()]
}

/// The string elements of an array leaf, in order; nothing for other leaves.
pub open spec fn array_strings(items: Seq<ArrayItem>) -> Seq<Seq<char>>
    decreases items.len(),
{
    if items.len() == 0 {
        Seq::empty()
    } else {
        let before = array_strings(items.drop_last());
        match items.last() {
            ArrayItem::Str(s) => before.push(s@),
            ArrayItem::Other(_) => before,
        }
    }
}

pub open spec fn leaf_strings(v: ConfigLeaf) -> Seq<Seq<char>> {
    match v {
        ConfigLeaf::Array(items) => array_strings(items@),
        _ => Seq::empty(),
    }
}

/// The strings listed by the entries of `entries` at path `keys`.
pub open spec fn strings_at(entries: Seq<ConfigEntry>, keys: Seq<Seq<char>>) -> Seq<Seq<char>>
    decreases entries.len(),
{
    if entries.len() == 0 {
        Seq::empty()
    } else {
        let before = strings_at(entries.drop_last(), keys);
        if spells(entries.last().path@, keys) {
            before + leaf_strings(entries.last().value)
        } else {
            before
        }
    }
}

/// An entry other than an import list.
pub open spec fn not_import(e: ConfigEntry) -> bool {
    !spells(e.path@, top_import()) && !spells(e.path@, general_import())
}

/// `out` is the document `entries` after its import lists were taken out:
/// the other entries in order, and `general` left as an empty table when
/// its import list was all it held.
pub open spec fn without_imports(entries: Seq<ConfigEntry>, out: Seq<ConfigEntry>) -> bool {
    let rest = kept_entries(entries, |e: ConfigEntry| not_import(e));
    let had_general_import = exists|i: int|
        0 <= i < entries.len() && spells((#[trigger] entries[i]).path@, general_import());
    let general_left = exists|i: int|
        0 <= i < rest.len() && (#[trigger] rest[i]).path@.len() >= 1 && rest[i].path@[0]@
            == general_key();
    if had_general_import && !general_left {
        &&& out.len() == rest.len() + 1
        &&& out.take(rest.len() as int) == rest
        &&& spells(out.last().path@, seq![general_key()])
        &&& out.last().value == ConfigLeaf::EmptyTable
    } else {
        out == rest
    }
}

/// The contents of each string.
pub open spec fn views(v: Seq<String>) -> Seq<Seq<char>> {
    Seq::new(v.len(), |i: int| v[i]@)
}

fn spells_exec(p: &Vec<String>, a: &str, b: Option<&str>) -> (r: bool)
    ensures
        r == spells(
            p@,
            match b {
                Some(b) => seq![a@, b@],
                None => seq![a@],
            },
        ),
{
    match b {
        None => {
            if p.len() != 1 {
                return false;
            }
            let r = p[0] == a.to_owned();
            proof {
                if r {
                    assert(spells(p@, seq![a@]));
                }
            }
            r
        },
        Some(b) => {
            if p.len() != 2 {
                return false;
            }
            let r = p[0] == a.to_owned() && p[1] == b.to_owned();
            proof {
                if r {
                    assert(spells(p@, seq![a@, b@]));
                } else {
                    assert(!(p@[0]@ == a@ && p@[1]@ == b@));
                }
            }
            r
        },
    }
}


/// Append the strings listed at path `a`(`.b`) to `out`.
fn collect_strings(entries: &Vec<ConfigEntry>, a: &str, b: Option<&str>, out: &mut Vec<String>)
    ensures
        views(final(out)@) == views(old(out)@) + strings_at(
            entries@,
            match b {
                Some(b) => seq![a@, b@],
                None => seq![a@],
            },
        ),
{
    let ghost keys = match b {
        Some(b) => seq![a@, b@],
        None => seq![a@],
    };
    let mut i: usize = 0;
    while i < entries.len()
        invariant
            i <= entries@.len(),
            keys == (match b {
                Some(b) => seq![a@, b@],
                None => seq![a@],
            }),
            views(out@) == views(old(out)@) + strings_at(entries@.take(i as int), keys),
        decreases entries@.len() - i,
    {
        let ghost before = views(out@);
        assert(entries@.take(i + 1).drop_last() =~= entries@.take(i as int));
        assert(entries@.take(i + 1).last() == entries@[i as int]);
        let e = &entries[i];
        if spells_exec(&e.path, a, b) {
            if let ConfigLeaf::Array(items) = &e.value {
                let mut k: usize = 0;
                while k < items.len()
                    invariant
                        k <= items@.len(),
                        views(out@) == before + array_strings(items@.take(k as int)),
                    decreases items@.len() - k,
                {
                    assert(items@.take(k + 1).drop_last() =~= items@.take(k as int));
                    assert(items@.take(k + 1).last() == items@[k as int]);
                    let ghost out_before = out@;
                    if let ArrayItem::Str(s) = &items[k] {
                        out.push(s.clone());
                    }
                    proof {
                        if let ArrayItem::Str(s) = items@[k as int] {
                            assert(views(out@) =~= views(out_before).push(s@));
                        } else {
                            assert(views(out@) =~= views(out_before));
                        }
                    }
                    assert(views(out@) =~= before + array_strings(items@.take(k + 1)));
                    k += 1;
                }
                assert(items@.take(items@.len() as int) =~= items@);
            }
        }
        assert(views(out@) =~= views(old(out)@) + strings_at(entries@.take(i + 1), keys));
        i += 1;
    }
    assert(entries@.take(entries@.len() as int) =~= entries@);
}

/// Take the import lists (`import` at the top level and under
/// `[general]`) out of a document and return the files they name, the
/// top-level ones first.
pub fn take_imports(doc: &mut ConfigDoc) -> (imports: Vec<String>)
    ensures
        views(imports@) == strings_at(old(doc).entries@, top_import()) + strings_at(
            old(doc).entries@,
            general_import(),
        ),
        without_imports(old(doc).entries@, final(doc).entries@),
{
    let mut imports: Vec<String> = Vec::new();
    proof {
        reveal_strlit("import");
        reveal_strlit("general");
        assert("import"@ =~= import_key());
        assert("general"@ =~= general_key());
        assert(seq!["import"@] =~= top_import());
        assert(seq!["general"@, "import"@] =~= general_import());
    }
    collect_strings(&doc.entries, "import", None, &mut imports);
    collect_strings(&doc.entries, "general", Some("import"), &mut imports);
    let mut flags: Vec<bool> = Vec::new();
    let mut had_general_import = false;
    let mut i: usize = 0;
    while i < doc.entries.len()
        invariant
            i <= doc.entries@.len(),
            doc.entries@ == old(doc).entries@,
            flags@.len() == i,
            forall|k: int| 0 <= k < i ==> flags@[k] == not_import(#[trigger] doc.entries@[k]),
            had_general_import == exists|k: int|
                0 <= k < i && spells((#[trigger] doc.entries@[k]).path@, general_import()),
        decreases doc.entries@.len() - i,
    {
        proof {
            reveal_strlit("import");
            reveal_strlit("general");
            assert("import"@ =~= import_key());
            assert("general"@ =~= general_key());
            assert(seq!["import"@] =~= top_import());
            assert(seq!["general"@, "import"@] =~= general_import());
        }
        let top = spells_exec(&doc.entries[i].path, "import", None);
        let gen = spells_exec(&doc.entries[i].path, "general", Some("import"));
        flags.push(!top && !gen);
        if gen {
            had_general_import = true;
        }
        i += 1;
    }
    let mut old_entries: Vec<ConfigEntry> = Vec::new();
    std::mem::swap(&mut old_entries, &mut doc.entries);
    let ghost all = old_entries@;
    let mut rest: Vec<ConfigEntry> = Vec::new();
    move_kept(&mut rest, old_entries, &flags, Ghost(|e: ConfigEntry| not_import(e)));
    assert(rest@ =~= kept_entries(all, |e: ConfigEntry| not_import(e)));
    let mut general_left = false;
    let mut j: usize = 0;
    while j < rest.len()
        invariant
            j <= rest@.len(),
            general_left == exists|k: int|
                0 <= k < j && (#[trigger] rest@[k]).path@.len() >= 1 && rest@[k].path@[0]@
                    == general_key(),
        decreases rest@.len() - j,
    {
        proof {
            reveal_strlit("general");
            assert("general"@ =~= general_key());
        }
        if rest[j].path.len() >= 1 && rest[j].path[0] == "general".to_owned() {
            general_left = true;
        }
        j += 1;
    }
    if had_general_import && !general_left {
        let mut path: Vec<String> = Vec::new();
        path.push("general".to_owned());
        proof {
            reveal_strlit("general");
            assert("general"@ =~= general_key());
        }
        let ghost before = rest@;
        rest.push(ConfigEntry { path, value: ConfigLeaf::EmptyTable });
        assert(rest@.take(before.len() as int) =~= before);
        assert(spells(rest@.last().path@, seq![general_key()]));
    }
    doc.entries = rest;
    imports
}

/// The TOML table type (keys in order).
#[verifier::external_type_specification]
#[verifier::external_body]
#[verifier::reject_recursive_types(K)]
#[verifier::reject_recursive_types(V)]
pub struct ExTomlMap<K, V>(toml::map::Map<K, V>);

/// A TOML value as plain data: a string, an array, a table (its entries in
/// order), or any other scalar (number, boolean, date-time).
pub enum TomlTree {
    Str(Seq<char>),
    Array(Seq<TomlTree>),
    Table(Seq<(Seq<char>, TomlTree)>),
    Other,
}

/// The top-level table `toml::from_str` parses from `text`, as plain data;
/// `None` when `text` is not a TOML document.
pub uninterp spec fn toml_doc(text: Seq<char>) -> Option<Seq<(Seq<char>, TomlTree)>>;

/// What a TOML value holds, as plain data.
pub uninterp spec fn value_tree(v: toml::Value) -> TomlTree;

/// The entries a TOML table holds, in its iteration order, as plain data.
pub uninterp spec fn table_tree(t: toml::map::Map<String, toml::Value>) -> Seq<(Seq<char>, TomlTree)>;

/// `toml::from_str` into a table: the document's top-level table, or
/// `None` when `text` is not TOML. What the table holds is named
/// [`toml_doc`].
#[verifier::external_body]
fn parse_toml_table(text: &str) -> (t: Option<toml::Table>)
    ensures
        match t {
            Some(t) => toml_doc(text@) == Some(table_tree(t)),
            None => toml_doc(text@) is None,
        },
{
    toml::from_str::<toml::Table>(text).ok()
}

/// The entries of a TOML table in its iteration order (`IntoIterator`
/// for `toml::Table`): each key and its value, as [`table_tree`] names
/// them.
#[verifier::external_body]
fn table_entries(t: toml::Table) -> (v: Vec<(String, toml::Value)>)
    ensures
        v@.len() == table_tree(t).len(),
        forall|i: int|
            0 <= i < v@.len() ==> (#[trigger] v@[i]).0@ == table_tree(t)[i].0 && value_tree(v@[i].1)
                == table_tree(t)[i].1,
{
    t.into_iter().collect()
}

/// A TOML value that is a table, as that table; any other value back.
#[verifier::external_body]
fn value_as_table(v: toml::Value) -> (r: Result<toml::Table, toml::Value>)
    ensures
        match r {
            Ok(t) => value_tree(v) == TomlTree::Table(table_tree(t)),
            Err(w) => w == v && !(value_tree(v) is Table),
        },
{
    match v {
        toml::Value::Table(t) => Ok(t),
        other => Err(other),
    }
}

/// A TOML value that is an array, as its elements; any other value back.
#[verifier::external_body]
fn value_as_array(v: toml::Value) -> (r: Result<Vec<toml::Value>, toml::Value>)
    ensures
        match r {
            Ok(a) => value_tree(v) == TomlTree::Array(a@.map_values(|x: toml::Value| value_tree(x))),
            Err(w) => w == v && !(value_tree(v) is Array),
        },
{
    match v {
        toml::Value::Array(a) => Ok(a),
        other => Err(other),
    }
}

/// A TOML value that is a string, as that string; any other value back.
#[verifier::external_body]
fn value_as_string(v: toml::Value) -> (r: Result<String, toml::Value>)
    ensures
        match r {
            Ok(s) => value_tree(v) == TomlTree::Str(s@),
            Err(w) => w == v && !(value_tree(v) is Str),
        },
{
    match v {
        toml::Value::String(s) => Ok(s),
        other => Err(other),
    }
}

/// An array element as the document model keeps it.
pub enum ItemView {
    Str(Seq<char>),
    Other,
}

/// A leaf as the document model keeps it (other scalars unread).
pub enum LeafView {
    Str(Seq<char>),
    Array(Seq<ItemView>),
    Other,
    EmptyTable,
}

pub open spec fn item_view(i: ArrayItem) -> ItemView {
    match i {
        ArrayItem::Str(s) => ItemView::Str(s@),
        ArrayItem::Other(_) => ItemView::Other,
    }
}

pub open spec fn leaf_view(l: ConfigLeaf) -> LeafView {
    match l {
        ConfigLeaf::Str(s) => LeafView::Str(s@),
        ConfigLeaf::Array(items) => LeafView::Array(items@.map_values(|i: ArrayItem| item_view(i))),
        ConfigLeaf::Other(_) => LeafView::Other,
        ConfigLeaf::EmptyTable => LeafView::EmptyTable,
    }
}

/// An entry of a document as plain data: its key path and its leaf.
pub open spec fn entry_view(e: ConfigEntry) -> (Seq<Seq<char>>, LeafView) {
    (views(e.path@), leaf_view(e.value))
}

/// A document's entries as plain data.
pub open spec fn doc_view(entries: Seq<ConfigEntry>) -> Seq<(Seq<Seq<char>>, LeafView)> {
    entries.map_values(|e: ConfigEntry| entry_view(e))
}

/// An array element of the model: strings kept, anything else unread.
pub open spec fn tree_item(t: TomlTree) -> ItemView {
    match t {
        TomlTree::Str(s) => ItemView::Str(s),
        _ => ItemView::Other,
    }
}

/// The leaves of a table with the given entries, below `path`, in order:
/// a string, an array or another scalar is one leaf; an empty table is a
/// leaf; a non-empty table contributes its own leaves below its key.
pub open spec fn flatten_spec(entries: Seq<(Seq<char>, TomlTree)>, path: Seq<Seq<char>>) -> Seq<
    (Seq<Seq<char>>, LeafView),
>
    decreases entries,
{
    if entries.len() == 0 {
        seq![]
    } else {
        let n = entries.len() - 1;
        let (k, t) = entries[n];
        let p = path.push(k);
        let last: Seq<(Seq<Seq<char>>, LeafView)> = match t {
            TomlTree::Str(s) => seq![(p, LeafView::Str(s))],
            TomlTree::Array(items) => seq![(p, LeafView::Array(items.map_values(|x: TomlTree| tree_item(x))))],
            TomlTree::Other => seq![(p, LeafView::Other)],
            TomlTree::Table(sub) => if sub.len() == 0 {
                seq![(p, LeafView::EmptyTable)]
            } else {
                proof {
                    assert(decreases_to!(entries => entries[n]));
                }
                flatten_spec(sub, p)
            },
        };
        flatten_spec(entries.subrange(0, n), path) + last
    }
}

fn copy_path(p: &Vec<String>) -> (q: Vec<String>)
    ensures
        views(q@) == views(p@),
{
    let mut q: Vec<String> = Vec::new();
    let mut i: usize = 0;
    while i < p.len()
        invariant
            i <= p@.len(),
            q@.len() == i,
            forall|j: int| 0 <= j < i ==> #[trigger] q@[j]@ == p@[j]@,
        decreases p@.len() - i,
    {
        q.push(p[i].clone());
        i += 1;
    }
    assert(views(q@) =~= views(p@));
    q
}

/// The elements of a TOML array: strings as such, anything else unread.
fn array_items(values: Vec<toml::Value>) -> (items: Vec<ArrayItem>)
    ensures
        items@.map_values(|i: ArrayItem| item_view(i)) == values@.map_values(|x: toml::Value| value_tree(x)).map_values(|t: TomlTree| tree_item(t)),
{
    let ghost orig = values@;
    let mut rest = values;
    let mut items: Vec<ArrayItem> = Vec::new();
    while rest.len() > 0
        invariant
            items@.len() + rest@.len() == orig.len(),
            rest@ == orig.skip(items@.len() as int),
            forall|j: int| 0 <= j < items@.len() ==> #[trigger] item_view(items@[j]) == tree_item(value_tree(orig[j])),
        decreases rest@.len(),
    {
        let ghost k = items@.len();
        let v = rest.remove(0);
        assert(v == orig[k as int]);
        match value_as_string(v) {
            Ok(s) => items.push(ArrayItem::Str(s)),
            Err(w) => items.push(ArrayItem::Other(w)),
        }
        assert(rest@ =~= orig.skip(items@.len() as int));
    }
    assert(items@.map_values(|i: ArrayItem| item_view(i)) =~= orig.map_values(|x: toml::Value| value_tree(x)).map_values(|t: TomlTree| tree_item(t)));
    items
}

/// Append the leaves of a table with the given entries (modelled by
/// `tree`), below `path`, to `out`.
fn flatten_entries(
    entries: Vec<(String, toml::Value)>,
    Ghost(tree): Ghost<Seq<(Seq<char>, TomlTree)>>,
    path: &mut Vec<String>,
    out: &mut Vec<ConfigEntry>,
)
    requires
        entries@.len() == tree.len(),
        forall|i: int|
            0 <= i < tree.len() ==> (#[trigger] entries@[i]).0@ == tree[i].0 && value_tree(entries@[i].1) == tree[i].1,
    ensures
        final(path)@ == old(path)@,
        doc_view(final(out)@) == doc_view(old(out)@) + flatten_spec(tree, views(old(path)@)),
    decreases tree,
{
    let ghost p0 = views(path@);
    let ghost out0 = doc_view(out@);
    let mut rest = entries;
    let n = rest.len();
    let mut i: usize = 0;
    while rest.len() > 0
        invariant
            tree.len() == n,
            path@ == old(path)@,
            p0 == views(old(path)@),
            i + rest@.len() == tree.len(),
            forall|j: int|
                0 <= j < rest@.len() ==> (#[trigger] rest@[j]).0@ == tree[i + j].0 && value_tree(rest@[j].1) == tree[i + j].1,
            doc_view(out@) == out0 + flatten_spec(tree.subrange(0, i as int), p0),
        decreases rest@.len(),
    {
        let ghost ti = tree[i as int];
        assert(rest@[0].0@ == ti.0 && value_tree(rest@[0].1) == ti.1);
        let ghost rest_before = rest@;
        let (k, v) = rest.remove(0);
        assert forall|j: int| 0 <= j < rest@.len() implies (#[trigger] rest@[j]).0@ == tree[i + 1 + j].0
            && value_tree(rest@[j].1) == tree[i + 1 + j].1 by {
            assert(rest@[j] == rest_before[j + 1]);
        }
        let ghost out_before = doc_view(out@);
        path.push(k);
        let ghost p = views(path@);
        assert(p =~= p0.push(ti.0));
        let ghost last = flatten_spec(tree.subrange(0, i + 1), p0);
        assert(tree.subrange(0, i + 1).subrange(0, i as int) =~= tree.subrange(0, i as int));
        assert(tree.subrange(0, i + 1)[i as int] == ti);
        match value_as_table(v) {
            Ok(t) => {
                let sub = table_entries(t);
                if sub.len() == 0 {
                    let e = ConfigEntry { path: copy_path(path), value: ConfigLeaf::EmptyTable };
                    out.push(e);
                    assert(doc_view(out@) =~= out_before.push(entry_view(e)));
                } else {
                    proof {
                        assert(decreases_to!(tree => tree[i as int]));
                    }
                    flatten_entries(sub, Ghost(table_tree(t)), path, out);
                }
            },
            Err(v) => match value_as_array(v) {
                Ok(a) => {
                    let items = array_items(a);
                    let e = ConfigEntry { path: copy_path(path), value: ConfigLeaf::Array(items) };
                    out.push(e);
                    assert(doc_view(out@) =~= out_before.push(entry_view(e)));
                },
                Err(v) => match value_as_string(v) {
                    Ok(s) => {
                        let e = ConfigEntry { path: copy_path(path), value: ConfigLeaf::Str(s) };
                        out.push(e);
                        assert(doc_view(out@) =~= out_before.push(entry_view(e)));
                    },
                    Err(v) => {
                        let e = ConfigEntry { path: copy_path(path), value: ConfigLeaf::Other(v) };
                        out.push(e);
                        assert(doc_view(out@) =~= out_before.push(entry_view(e)));
                    },
                },
            },
        }
        path.pop();
        assert(path@ =~= old(path)@);
        i += 1;
    }
    assert(tree.subrange(0, i as int) =~= tree);
}

/// The leaves of a TOML table, in its key order (see [`flatten_spec`]).
pub fn flatten_table(t: toml::Table) -> (d: ConfigDoc)
    ensures
        doc_view(d.entries@) == flatten_spec(table_tree(t), seq![]),
{
    let tree = Ghost(table_tree(t));
    let entries = table_entries(t);
    let mut path: Vec<String> = Vec::new();
    let mut out: Vec<ConfigEntry> = Vec::new();
    assert(views(path@) =~= Seq::<Seq<char>>::empty());
    assert(doc_view(out@) =~= Seq::<(Seq<Seq<char>>, LeafView)>::empty());
    flatten_entries(entries, tree, &mut path, &mut out);
    assert(doc_view(out@) =~= flatten_spec(table_tree(t), seq![]));
    ConfigDoc { entries: out }
}

/// Parse a config file's text into a flattened document: one entry per
/// leaf of the parsed table, in its key order; `None` when the text is
/// not TOML.
pub fn parse_config_doc(text: &str) -> (d: Option<ConfigDoc>)
    ensures
        match d {
            Some(doc) => toml_doc(text@) matches Some(t) && doc_view(doc.entries@) == flatten_spec(t, seq![]),
            None => toml_doc(text@) is None,
        },
{
    match parse_toml_table(text) {
        None => None,
        Some(t) => Some(flatten_table(t)),
    }
}

/// The deepest level of imports that is still followed (the file loaded
/// first is level 0); deeper imports, and so any import cycle, stop there.
pub const MAX_IMPORT_DEPTH: usize = 4;

/// The files a document imports, in order (top-level `import` first, then
/// `[general] import`), each expanded against the importing file's
/// directory and the home directory.
pub open spec fn import_paths_spec(
    entries: Seq<ConfigEntry>,
    base_dir: Seq<char>,
    home: Option<Seq<char>>,
) -> Seq<Seq<char>> {
    let names = strings_at(entries, top_import()) + strings_at(entries, general_import());
    Seq::new(names.len(), |i: int| expand_spec(names[i], base_dir, home))
}

/// One step of loading a config file at import level `depth`: beyond
/// [`MAX_IMPORT_DEPTH`] nothing is followed (`None`, the document left as
/// it is); otherwise the document's import lists are taken out of it and
/// the files they name are returned, expanded, in order.
pub fn import_step(depth: usize, doc: &mut ConfigDoc, base_dir: &str, home: Option<&str>) -> (paths:
    Option<Vec<String>>)
    ensures
        depth > MAX_IMPORT_DEPTH ==> paths is None && final(doc).entries@ == old(doc).entries@,
        depth <= MAX_IMPORT_DEPTH ==> match paths {
            Some(p) => {
                &&& views(p@) == import_paths_spec(
                    old(doc).entries@,
                    base_dir@,
                    match home {
                        Some(h) => Some(h@),
                        None => None,
                    },
                )
                &&& without_imports(old(doc).entries@, final(doc).entries@)
            },
            None => false,
        },
{
    if depth > MAX_IMPORT_DEPTH {
        return None;
    }
    let ghost h = match home {
        Some(h) => Some(h@),
        None => None::<Seq<char>>,
    };
    let names = take_imports(doc);
    let ghost want = import_paths_spec(old(doc).entries@, base_dir@, h);
    let mut out: Vec<String> = Vec::new();
    let mut i: usize = 0;
    while i < names.len()
        invariant
            i <= names@.len(),
            h == (match home {
                Some(hh) => Some(hh@),
                None => None::<Seq<char>>,
            }),
            views(names@).len() == want.len(),
            forall|j: int| 0 <= j < want.len() ==> #[trigger] want[j] == expand_spec(views(names@)[j], base_dir@, h),
            out@.len() == i,
            forall|j: int| 0 <= j < i ==> #[trigger] out@[j]@ == want[j],
        decreases names@.len() - i,
    {
        let p = expand_path(names[i].as_str(), base_dir, home);
        assert(views(names@)[i as int] == names@[i as int]@);
        assert(want[i as int] == expand_spec(views(names@)[i as int], base_dir@, h));
        out.push(p);
        assert(out@[i as int]@ == want[i as int]);
        i += 1;
    }
    assert(views(out@) =~= want);
    Some(out)
}

/// Merge the imported documents in order, then the importing document on
/// top, starting from an empty table: later imports override earlier ones
/// and the importing file overrides them all.
pub open spec fn merge_imports_spec(imported: Seq<ConfigDoc>, value: ConfigDoc) -> Seq<ConfigEntry>
    decreases imported.len(),
{
    merge_spec(merged_imports(imported), value.entries@)
}

/// The imported documents merged in order over an empty table.
pub open spec fn merged_imports(imported: Seq<ConfigDoc>) -> Seq<ConfigEntry>
    decreases imported.len(),
{
    if imported.len() == 0 {
        Seq::empty()
    } else {
        merge_spec(merged_imports(imported.drop_last()), imported.last().entries@)
    }
}

/// Merge a file's imports underneath it (see [`merge_imports_spec`]).
pub fn merge_imports(imported: Vec<ConfigDoc>, value: ConfigDoc) -> (merged: ConfigDoc)
    ensures
        merged.entries@ == merge_imports_spec(imported@, value),
{
    let mut acc = ConfigDoc { entries: Vec::new() };
    let mut rest = imported;
    let ghost all = rest@;
    let n = rest.len();
    let mut i: usize = 0;
    while i < n
        invariant
            i <= n,
            n == all.len(),
            rest@ == all.skip(i as int),
            acc.entries@ == merged_imports(all.take(i as int)),
        decreases n - i,
    {
        let d = rest.remove(0);
        assert(all.take(i + 1).drop_last() =~= all.take(i as int));
        assert(all.take(i + 1).last() == d);
        assert(rest@ =~= all.skip(i + 1));
        acc = merge_toml(acc, d);
        i += 1;
    }
    assert(all.take(n as int) =~= all);
    merge_toml(acc, value)
}

/// Every leaf of the importing file (other than an empty table) is in the
/// merged document: its keys win over everything it imports.
pub proof fn law_importing_file_wins(imported: Seq<ConfigDoc>, value: ConfigDoc, j: int)
    requires
        0 <= j < value.entries@.len(),
        value.entries@[j].value != ConfigLeaf::EmptyTable,
    ensures
        merge_imports_spec(imported, value).contains(value.entries@[j]),
{
    let base = merged_imports(imported);
    let o = value.entries@;
    lemma_kept_contains(o, |f: ConfigEntry| keeps_overlay(f, base), j);
    let kb = kept_entries(base, |e: ConfigEntry| keeps_base(e, o));
    let ko = kept_entries(o, |f: ConfigEntry| keeps_overlay(f, base));
    let k = choose|k: int| 0 <= k < ko.len() && ko[k] == o[j];
    assert((kb + ko)[kb.len() + k] == o[j]);
}

proof fn lemma_kept_contains(s: Seq<ConfigEntry>, keep: spec_fn(ConfigEntry) -> bool, j: int)
    requires
        0 <= j < s.len(),
        keep(s[j]),
    ensures
        exists|k: int| 0 <= k < kept_entries(s, keep).len() && kept_entries(s, keep)[k] == s[j],
    decreases s.len(),
{
    if j == s.len() - 1 {
        let before = kept_entries(s.drop_last(), keep);
        assert(kept_entries(s, keep)[before.len() as int] == s[j]);
    } else {
        lemma_kept_contains(s.drop_last(), keep, j);
        let before = kept_entries(s.drop_last(), keep);
        let k = choose|k: int| 0 <= k < before.len() && before[k] == s.drop_last()[j];
        if keep(s.last()) {
            assert(kept_entries(s, keep)[k] == s[j]);
        } else {
            assert(kept_entries(s, keep)[k] == s[j]);
        }
    }
}

} // verus!
