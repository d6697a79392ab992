//! Saving the configuration without losing what the user wrote around it.
//!
//! The file on disk is read as a TOML document that keeps its comments, spacing and order.
//! A freshly written configuration is merged into it: a setting whose value is unchanged is
//! left exactly as written, a changed one is replaced keeping the comment on its line, a new
//! one is added, and one the fresh text no longer has is dropped. Parsing and printing the
//! document is `toml_edit`'s; deciding what to change is here.
use vstd::prelude::*;

verus! {

#[verifier::external_type_specification]
#[verifier::external_body]
pub struct ExDocumentMut(toml_edit::DocumentMut);

#[verifier::external_type_specification]
#[verifier::external_body]
pub struct ExTable(toml_edit::Table);

#[verifier::external_type_specification]
#[verifier::external_body]
pub struct ExValue(toml_edit::Value);

/// A TOML value as plain data: what two values are compared by, ignoring how they are
/// written.
pub enum TomlValue {
    /// A string.
    Text(String),
    /// An integer.
    Integer(i64),
    /// A float, by the bits of its IEEE 754 double.
    Float(u64),
    /// A boolean.
    Boolean(bool),
    /// A date-time, by its TOML text.
    Datetime(String),
    /// An array, in order.
    Array(Vec<TomlValue>),
    /// An inline table, its keys in the order written.
    Table(Vec<(String, TomlValue)>),
}

/// Whether the bits of a double are a NaN: every exponent bit set, and a non-zero fraction.
pub open spec fn is_nan_bits(bits: u64) -> bool {
    bits & 0x7ff0_0000_0000_0000 == 0x7ff0_0000_0000_0000 && bits & 0x000f_ffff_ffff_ffff != 0
}

/// What `==` says of two doubles, read from their bits: a NaN equals nothing, the two zeros
/// equal each other, and otherwise the bits must be the same.
pub open spec fn float_bits_equal(a: u64, b: u64) -> bool {
    !is_nan_bits(a) && !is_nan_bits(b) && (a == b || (a & 0x7fff_ffff_ffff_ffff == 0 && b
        & 0x7fff_ffff_ffff_ffff == 0))
}

/// Whether two doubles, given by their bits, are equal.
fn floats_equal(a: u64, b: u64) -> (r: bool)
    ensures
        r == float_bits_equal(a, b),
{
    let nan_a = a & 0x7ff0_0000_0000_0000 == 0x7ff0_0000_0000_0000 && a & 0x000f_ffff_ffff_ffff != 0;
    let nan_b = b & 0x7ff0_0000_0000_0000 == 0x7ff0_0000_0000_0000 && b & 0x000f_ffff_ffff_ffff != 0;
    !nan_a && !nan_b && (a == b || (a & 0x7fff_ffff_ffff_ffff == 0 && b & 0x7fff_ffff_ffff_ffff == 0))
}

/// Where the first entry with `key` stands, if any.
pub open spec fn position_of(entries: Seq<(String, TomlValue)>, key: Seq<char>) -> Option<int>
    decreases entries.len(),
{
    if entries.len() == 0 {
        None
    } else {
        match position_of(entries.drop_last(), key) {
            Some(i) => Some(i),
            None => if entries.last().0@ == key { Some(entries.len() - 1) } else { None },
        }
    }
}

/// Whether two values say the same thing, ignoring how they are written: the same kind and
/// the same value, floats compared as `==` compares them, arrays element by element, and
/// inline tables of the same size with every key of the first found in the second with a
/// value that says the same thing.
pub open spec fn agrees(a: TomlValue, b: TomlValue) -> bool
    decreases a, 0int,
{
    match a {
        TomlValue::Text(x) => b matches TomlValue::Text(y) && x@ == y@,
        TomlValue::Integer(x) => b matches TomlValue::Integer(y) && x == y,
        TomlValue::Float(x) => b matches TomlValue::Float(y) && float_bits_equal(x, y),
        TomlValue::Boolean(x) => b matches TomlValue::Boolean(y) && x == y,
        TomlValue::Datetime(x) => b matches TomlValue::Datetime(y) && x@ == y@,
        TomlValue::Array(x) => b matches TomlValue::Array(y) && x@.len() == y@.len() && items_agree(
            x@,
            y@,
            x@.len() as int,
        ),
        TomlValue::Table(x) => b matches TomlValue::Table(y) && x@.len() == y@.len() && entries_agree(
            x@,
            y@,
            x@.len() as int,
        ),
    }
}

/// Whether the first `n` elements of two arrays say the same thing, place by place.
pub open spec fn items_agree(xs: Seq<TomlValue>, ys: Seq<TomlValue>, n: int) -> bool
    decreases xs, n,
{
    if n <= 0 || n > xs.len() {
        true
    } else {
        items_agree(xs, ys, n - 1) && agrees(xs[n - 1], ys[n - 1])
    }
}

/// Whether each of the first `n` entries of one inline table is found in the other with a
/// value that says the same thing.
pub open spec fn entries_agree(xs: Seq<(String, TomlValue)>, ys: Seq<(String, TomlValue)>, n: int) -> bool
    decreases xs, n,
{
    if n <= 0 || n > xs.len() {
        true
    } else {
        entries_agree(xs, ys, n - 1) && match position_of(ys, xs[n - 1].0@) {
            Some(j) => agrees(xs[n - 1].1, ys[j].1),
            None => false,
        }
    }
}

/// Arrays that agree on their first `m` elements agree on fewer.
proof fn lemma_items_agree_shorter(xs: Seq<TomlValue>, ys: Seq<TomlValue>, k: int, m: int)
    requires
        0 <= k <= m <= xs.len(),
        items_agree(xs, ys, m),
    ensures
        items_agree(xs, ys, k),
    decreases m,
{
    if k < m {
        lemma_items_agree_shorter(xs, ys, k, m - 1);
    }
}

/// Inline tables that agree on their first `m` entries agree on fewer.
proof fn lemma_entries_agree_shorter(xs: Seq<(String, TomlValue)>, ys: Seq<(String, TomlValue)>, k: int, m: int)
    requires
        0 <= k <= m <= xs.len(),
        entries_agree(xs, ys, m),
    ensures
        entries_agree(xs, ys, k),
    decreases m,
{
    if k < m {
        lemma_entries_agree_shorter(xs, ys, k, m - 1);
    }
}

/// Whether two strings are the same text.
fn same_text(a: &String, b: &String) -> (r: bool)
    ensures
        r == (a@ == b@),
{
    let x = crate::spell::chars_of(a.as_str());
    let y = crate::spell::chars_of(b.as_str());
    if x.len() != y.len() {
        return false;
    }
    let mut i: usize = 0;
    while i < x.len()
        invariant
            i <= x.len(),
            x.len() == y.len(),
            x@ == a@,
            y@ == b@,
            x@.take(i as int) == y@.take(i as int),
        decreases x.len() - i,
    {
        if x[i] != y[i] {
            assert(x@[i as int] != y@[i as int]);
            return false;
        }
        assert(x@.take(i as int + 1) =~= y@.take(i as int + 1));
        i += 1;
    }
    assert(x@ =~= x@.take(x.len() as int));
    assert(y@ =~= y@.take(y.len() as int));
    true
}

/// Where the first entry with `key` stands, if any.
fn find_entry(entries: &Vec<(String, TomlValue)>, key: &String) -> (r: Option<usize>)
    ensures
        r == (match position_of(entries@, key@) {
            Some(i) => Some(i as usize),
            None => None::<usize>,
        }),
{
    let mut i: usize = 0;
    while i < entries.len()
        invariant
            i <= entries.len(),
            position_of(entries@.take(i as int), key@) is None,
        decreases entries.len() - i,
    {
        assert(entries@.take(i as int + 1).drop_last() =~= entries@.take(i as int));
        if same_text(&entries[i].0, key) {
            proof {
                lemma_position_extends(entries@, key@, i as int + 1);
            }
            return Some(i);
        }
        i += 1;
    }
    assert(entries@.take(entries.len() as int) =~= entries@);
    None
}

/// A key found is found where an entry holds it.
proof fn lemma_position_is_a_match(entries: Seq<(String, TomlValue)>, key: Seq<char>)
    ensures
        position_of(entries, key) matches Some(i) ==> 0 <= i < entries.len() && entries[i].0@ == key,
    decreases entries.len(),
{
    if entries.len() > 0 {
        lemma_position_is_a_match(entries.drop_last(), key);
    }
}

/// Finding a key in a list that starts with the first `n` entries finds it there when they
/// hold it.
proof fn lemma_position_extends(entries: Seq<(String, TomlValue)>, key: Seq<char>, n: int)
    requires
        0 <= n <= entries.len(),
        position_of(entries.take(n), key) is Some,
    ensures
        position_of(entries, key) == position_of(entries.take(n), key),
    decreases entries.len() - n,
{
    if n < entries.len() {
        assert(entries.take(n + 1).drop_last() =~= entries.take(n));
        lemma_position_extends(entries, key, n + 1);
    } else {
        assert(entries.take(n) =~= entries);
    }
}

/// Whether two values say the same thing, ignoring how they are written.
pub fn same_value(a: &TomlValue, b: &TomlValue) -> (r: bool)
    ensures
        r == agrees(*a, *b),
    decreases a,
{
    match a {
        TomlValue::Text(x) => match b {
            TomlValue::Text(y) => same_text(x, y),
            _ => false,
        },
        TomlValue::Integer(x) => match b {
            TomlValue::Integer(y) => *x == *y,
            _ => false,
        },
        TomlValue::Float(x) => match b {
            TomlValue::Float(y) => floats_equal(*x, *y),
            _ => false,
        },
        TomlValue::Boolean(x) => match b {
            TomlValue::Boolean(y) => *x == *y,
            _ => false,
        },
        TomlValue::Datetime(x) => match b {
            TomlValue::Datetime(y) => same_text(x, y),
            _ => false,
        },
        TomlValue::Array(x) => match b {
            TomlValue::Array(y) => {
                if x.len() != y.len() {
                    return false;
                }
                let mut i: usize = 0;
                while i < x.len()
                    invariant
                        i <= x.len(),
                        x.len() == y.len(),
                        *a == TomlValue::Array(*x),
                        *b == TomlValue::Array(*y),
                        items_agree(x@, y@, i as int),
                    decreases x.len() - i,
                {
                    proof {
                        assert(decreases_to!(*a => (*a)->Array_0));
                        assert((*a)->Array_0 == *x);
                        assert(decreases_to!(*x => x@));
                        assert(decreases_to!(x@ => x@[i as int]));
                    }
                    if !same_value(&x[i], &y[i]) {
                        proof {
                            if items_agree(x@, y@, x@.len() as int) {
                                lemma_items_agree_shorter(x@, y@, i as int + 1, x@.len() as int);
                            }
                        }
                        return false;
                    }
                    i += 1;
                }
                true
            },
            _ => false,
        },
        TomlValue::Table(x) => match b {
            TomlValue::Table(y) => {
                if x.len() != y.len() {
                    return false;
                }
                let mut i: usize = 0;
                while i < x.len()
                    invariant
                        i <= x.len(),
                        x.len() == y.len(),
                        *a == TomlValue::Table(*x),
                        *b == TomlValue::Table(*y),
                        entries_agree(x@, y@, i as int),
                    decreases x.len() - i,
                {
                    match find_entry(y, &x[i].0) {
                        Some(k) => {
                            proof {
                                lemma_position_is_a_match(y@, x@[i as int].0@);
                                assert(decreases_to!(*a => (*a)->Table_0));
                        assert((*a)->Table_0 == *x);
                                assert(decreases_to!(*x => x@));
                                assert(decreases_to!(x@ => x@[i as int]));
                                assert(decreases_to!(x@[i as int] => x@[i as int].1));
                            }
                            if !same_value(&x[i].1, &y[k].1) {
                                proof {
                                    if entries_agree(x@, y@, x@.len() as int) {
                                        lemma_entries_agree_shorter(x@, y@, i as int + 1, x@.len() as int);
                                    }
                                }
                                return false;
                            }
                        },
                        None => {
                            proof {
                                if entries_agree(x@, y@, x@.len() as int) {
                                    lemma_entries_agree_shorter(x@, y@, i as int + 1, x@.len() as int);
                                }
                            }
                            return false;
                        },
                    }
                    i += 1;
                }
                true
            },
            _ => false,
        },
    }
}

// ---- the document and its tables, as toml_edit holds them ----------------------------------

/// What an entry of a table is.
#[derive(Clone, Copy, PartialEq, Eq, Debug, Structural)]
pub enum Entry {
    /// The table has no such key.
    Absent,
    /// A table of its own, written as a section or with dotted keys.
    Table,
    /// A value: a string, a number, an array, an inline table and so on.
    Value,
    /// An array of tables.
    Other,
}

/// What parsing a text as a TOML document gives, or nothing where it is not TOML.
pub uninterp spec fn parsed_document(text: Seq<char>) -> Option<toml_edit::DocumentMut>;

/// A document's top-level table.
pub uninterp spec fn root_table(doc: toml_edit::DocumentMut) -> toml_edit::Table;

/// A document with its top-level table replaced.
pub uninterp spec fn with_root(doc: toml_edit::DocumentMut, root: toml_edit::Table) -> toml_edit::DocumentMut;

/// A document printed as TOML.
pub uninterp spec fn document_text(doc: toml_edit::DocumentMut) -> Seq<char>;

/// The keys of a table, in the order written.
pub uninterp spec fn table_keys(t: toml_edit::Table) -> Seq<Seq<char>>;

/// How many levels of tables a table holds.
pub uninterp spec fn table_depth(t: toml_edit::Table) -> nat;

/// What the entry at `key` is.
pub uninterp spec fn entry_at(t: toml_edit::Table, key: Seq<char>) -> Entry;

/// The table at `key`.
pub uninterp spec fn sub_table_at(t: toml_edit::Table, key: Seq<char>) -> toml_edit::Table;

/// The value at `key`.
pub uninterp spec fn value_item_at(t: toml_edit::Table, key: Seq<char>) -> toml_edit::Value;

/// A value as plain data.
pub uninterp spec fn toml_value(v: toml_edit::Value) -> TomlValue;

/// The prefix and the suffix written around the value at `key`, where written: the space
/// before it, and the space and comment after it.
pub uninterp spec fn value_decor_at(t: toml_edit::Table, key: Seq<char>) -> (Option<Seq<char>>, Option<Seq<char>>);

/// The table with the entry at `key` replaced by a copy of `fresh`'s entry at `key`.
pub uninterp spec fn with_copied(t: toml_edit::Table, key: Seq<char>, fresh: toml_edit::Table) -> toml_edit::Table;

/// The table with `fresh`'s entry at `key` added after its own entries.
pub uninterp spec fn with_inserted(t: toml_edit::Table, key: Seq<char>, fresh: toml_edit::Table) -> toml_edit::Table;

/// The table with the value at `key` given this prefix and suffix.
pub uninterp spec fn with_value_decor(t: toml_edit::Table, key: Seq<char>, prefix: Seq<char>, suffix: Seq<char>) -> toml_edit::Table;

/// The table with the table at `key` given this suffix.
pub uninterp spec fn with_table_suffix(t: toml_edit::Table, key: Seq<char>, suffix: Seq<char>) -> toml_edit::Table;

/// The table with the table at `key` replaced.
pub uninterp spec fn with_sub_table(t: toml_edit::Table, key: Seq<char>, child: toml_edit::Table) -> toml_edit::Table;

/// The table without the entry at `key`, the others in the order they were.
pub uninterp spec fn without_key(t: toml_edit::Table, key: Seq<char>) -> toml_edit::Table;

/// Whether `after` holds at `key` what `fresh` holds there: the key, the kind of entry,
/// the table and the value.
pub open spec fn holds_entry_of(after: toml_edit::Table, fresh: toml_edit::Table, key: Seq<char>) -> bool {
    &&& table_keys(after).contains(key)
    &&& entry_at(after, key) == entry_at(fresh, key)
    &&& sub_table_at(after, key) == sub_table_at(fresh, key)
    &&& value_item_at(after, key) == value_item_at(fresh, key)
}

/// Whether `after` is `before` at every key but `key`: the same keys besides it, and the
/// same entries, tables and values at them.
pub open spec fn same_elsewhere(before: toml_edit::Table, after: toml_edit::Table, key: Seq<char>) -> bool {
    &&& forall|k: Seq<char>|
        k != key ==> (#[trigger] table_keys(after).contains(k) <==> table_keys(before).contains(k))
    &&& forall|k: Seq<char>|
        k != key ==> #[trigger] entry_at(after, k) == entry_at(before, k) && sub_table_at(after, k)
            == sub_table_at(before, k) && value_item_at(after, k) == value_item_at(before, k)
}

/// Whether two tables have the same keys, and the same entries, tables and values at every
/// key: they differ at most in how they are written around.
pub open spec fn same_shape(a: toml_edit::Table, b: toml_edit::Table) -> bool {
    &&& table_keys(a) == table_keys(b)
    &&& forall|k: Seq<char>|
        #[trigger] entry_at(a, k) == entry_at(b, k) && sub_table_at(a, k) == sub_table_at(b, k)
            && value_item_at(a, k) == value_item_at(b, k)
}

/// Parse a text as a TOML document that keeps its comments, spacing and order.
///
/// Calls `str::parse::<toml_edit::DocumentMut>`. Claimed: the result is a function of the
/// text alone.
#[verifier::external_body]
fn parse_document(text: &str) -> (r: Option<toml_edit::DocumentMut>)
    ensures
        r == parsed_document(text@),
{
    text.parse::<toml_edit::DocumentMut>().ok()
}

/// A copy of the document's top-level table.
///
/// Calls `DocumentMut::as_table` and clones it. Claimed: the copy is the table itself.
#[verifier::external_body]
fn root_of(doc: &toml_edit::DocumentMut) -> (r: toml_edit::Table)
    ensures
        r == root_table(*doc),
{
    doc.as_table().clone()
}

/// Replace the document's top-level table.
///
/// Assigns through `DocumentMut::as_table_mut`. Claimed: putting back the table the
/// document already holds leaves the document as it was.
#[verifier::external_body]
fn set_root(doc: &mut toml_edit::DocumentMut, root: toml_edit::Table)
    ensures
        *final(doc) == with_root(*old(doc), root),
        root == root_table(*old(doc)) ==> *final(doc) == *old(doc),
{
    *doc.as_table_mut() = root;
}

/// The document printed as TOML.
///
/// Calls `DocumentMut::to_string`. Claimed: the text is a function of the document.
#[verifier::external_body]
fn print_document(doc: &toml_edit::DocumentMut) -> (r: String)
    ensures
        r@ == document_text(*doc),
{
    doc.to_string()
}

/// The keys of a table, in the order written.
///
/// Calls `Table::iter`, which skips empty entries and keeps the order written. Claimed: the
/// keys are the table's, and every one of them has an entry and no other key does.
#[verifier::external_body]
fn keys_of(t: &toml_edit::Table) -> (r: Vec<String>)
    ensures
        r@.map_values(|s: String| s@) == table_keys(*t),
        forall|k: Seq<char>|
            #[trigger] entry_at(*t, k) is Absent <==> !r@.map_values(|s: String| s@).contains(k),
{
    t.iter().map(|(key, _)| key.to_owned()).collect()
}

/// What the entry at `key` is.
///
/// Calls `Table::get` and tells the variants of `toml_edit::Item` apart. Claimed: there is
/// an entry exactly where the table has the key.
#[verifier::external_body]
fn entry_kind(t: &toml_edit::Table, key: &str) -> (r: Entry)
    ensures
        r == entry_at(*t, key@),
        (r is Absent) <==> !table_keys(*t).contains(key@),
{
    match t.get(key) {
        None => Entry::Absent,
        Some(toml_edit::Item::Table(_)) => Entry::Table,
        Some(toml_edit::Item::Value(_)) => Entry::Value,
        Some(_) => Entry::Other,
    }
}

/// A copy of the table at `key`.
///
/// Calls `Table::get` and `Item::as_table`, and clones. Claimed: the copy is the table held
/// there, which holds fewer levels of tables than the table it is in.
#[verifier::external_body]
fn sub_table(t: &toml_edit::Table, key: &str) -> (r: toml_edit::Table)
    requires
        entry_at(*t, key@) is Table,
    ensures
        r == sub_table_at(*t, key@),
        table_depth(r) < table_depth(*t),
{
    t.get(key).and_then(toml_edit::Item::as_table).cloned().unwrap_or_default()
}

/// A copy of the value at `key`.
///
/// Calls `Table::get` and `Item::as_value`, and clones. Claimed: the copy is the value held
/// there.
#[verifier::external_body]
fn value_item(t: &toml_edit::Table, key: &str) -> (r: Option<toml_edit::Value>)
    ensures
        (r is Some) == (entry_at(*t, key@) is Value),
        r matches Some(v) ==> v == value_item_at(*t, key@),
{
    t.get(key).and_then(toml_edit::Item::as_value).cloned()
}

/// A value as plain data.
///
/// Reads each kind of `toml_edit::Value` by its `value()`: a float by `to_bits`, a
/// date-time by its TOML text, an array and an inline table entry by entry. Claimed: the
/// result is a function of the value.
#[verifier::external_body]
fn view_of(value: &toml_edit::Value) -> (r: TomlValue)
    ensures
        r == toml_value(*value),
{
    match value {
        toml_edit::Value::String(s) => TomlValue::Text(s.value().clone()),
        toml_edit::Value::Integer(i) => TomlValue::Integer(*i.value()),
        toml_edit::Value::Float(x) => TomlValue::Float(x.value().to_bits()),
        toml_edit::Value::Boolean(b) => TomlValue::Boolean(*b.value()),
        toml_edit::Value::Datetime(d) => TomlValue::Datetime(d.value().to_string()),
        toml_edit::Value::Array(a) => TomlValue::Array(a.iter().map(view_of).collect()),
        toml_edit::Value::InlineTable(t) => TomlValue::Table(
            t.iter().map(|(key, v)| (key.to_owned(), view_of(v))).collect(),
        ),
    }
}

/// The prefix and suffix written around the value at `key`.
///
/// Calls `Table::get`, `Item::as_value`, `Value::decor` and `Decor::prefix` / `suffix`.
#[verifier::external_body]
fn value_decor(t: &toml_edit::Table, key: &str) -> (r: (Option<String>, Option<String>))
    ensures
        (r.0 is Some) == (value_decor_at(*t, key@).0 is Some),
        r.0 matches Some(p) ==> value_decor_at(*t, key@).0 == Some(p@),
        (r.1 is Some) == (value_decor_at(*t, key@).1 is Some),
        r.1 matches Some(p) ==> value_decor_at(*t, key@).1 == Some(p@),
{
    let decor = t.get(key).and_then(toml_edit::Item::as_value).map(toml_edit::Value::decor);
    (
        decor.and_then(toml_edit::Decor::prefix).and_then(toml_edit::RawString::as_str).map(String::from),
        decor.and_then(toml_edit::Decor::suffix).and_then(toml_edit::RawString::as_str).map(String::from),
    )
}

/// Replace the entry at `key` with a copy of `fresh`'s entry at `key`.
///
/// Assigns a clone through `Table::get_mut`. Claimed: copying an array of tables from a
/// table into the same table leaves it as it was.
#[verifier::external_body]
fn copy_item(t: &mut toml_edit::Table, key: &str, fresh: &toml_edit::Table)
    ensures
        *final(t) == with_copied(*old(t), key@, *fresh),
        *fresh == *old(t) && entry_at(*fresh, key@) is Other ==> *final(t) == *old(t),
        !(entry_at(*old(t), key@) is Absent) && !(entry_at(*fresh, key@) is Absent) ==> holds_entry_of(
            *final(t),
            *fresh,
            key@,
        ),
        same_elsewhere(*old(t), *final(t), key@),
{
    if let (Some(slot), Some(item)) = (t.get_mut(key), fresh.get(key)) {
        *slot = item.clone();
    }
}

/// Add a copy of `fresh`'s entry at `key`.
///
/// Calls `Table::insert`. Claimed: where the table had no such key and `fresh` has one, the
/// table then holds `fresh`'s entry there; every other entry is left as it was.
#[verifier::external_body]
fn insert_item(t: &mut toml_edit::Table, key: &str, fresh: &toml_edit::Table)
    ensures
        *final(t) == with_inserted(*old(t), key@, *fresh),
        entry_at(*old(t), key@) is Absent && !(entry_at(*fresh, key@) is Absent) ==> holds_entry_of(
            *final(t),
            *fresh,
            key@,
        ),
        same_elsewhere(*old(t), *final(t), key@),
{
    if let Some(item) = fresh.get(key) {
        t.insert(key, item.clone());
    }
}

/// Give the value at `key` this prefix and suffix.
///
/// Calls `Decor::set_prefix` and `Decor::set_suffix` on the value's decor. Claimed: what
/// the value says, its kind and the table's keys stay; every other entry is left as it was;
/// and where there is no value at `key`, nothing changes.
#[verifier::external_body]
fn set_value_decor(t: &mut toml_edit::Table, key: &str, prefix: &str, suffix: &str)
    ensures
        *final(t) == with_value_decor(*old(t), key@, prefix@, suffix@),
        !(entry_at(*old(t), key@) is Value) ==> *final(t) == *old(t),
        table_keys(*final(t)) == table_keys(*old(t)),
        entry_at(*final(t), key@) == entry_at(*old(t), key@),
        toml_value(value_item_at(*final(t), key@)) == toml_value(value_item_at(*old(t), key@)),
        same_elsewhere(*old(t), *final(t), key@),
{
    if let Some(value) = t.get_mut(key).and_then(toml_edit::Item::as_value_mut) {
        value.decor_mut().set_prefix(prefix);
        value.decor_mut().set_suffix(suffix);
    }
}

/// Give the table at `key` this suffix.
///
/// Calls `Decor::set_suffix` on the table's decor. Claimed: the table's keys and entries,
/// and those of the table at `key`, stay; every other entry is left as it was; and where
/// there is no table at `key`, nothing changes.
#[verifier::external_body]
fn set_table_suffix(t: &mut toml_edit::Table, key: &str, suffix: &str)
    ensures
        *final(t) == with_table_suffix(*old(t), key@, suffix@),
        !(entry_at(*old(t), key@) is Table) ==> *final(t) == *old(t),
        table_keys(*final(t)) == table_keys(*old(t)),
        entry_at(*final(t), key@) == entry_at(*old(t), key@),
        entry_at(*old(t), key@) is Table ==> same_shape(sub_table_at(*final(t), key@), sub_table_at(*old(t), key@)),
        same_elsewhere(*old(t), *final(t), key@),
{
    if let Some(table) = t.get_mut(key).and_then(toml_edit::Item::as_table_mut) {
        table.decor_mut().set_suffix(suffix);
    }
}

/// Replace the table at `key`.
///
/// Assigns through `Table::get_mut` and `Item::as_table_mut`. Claimed: putting back the
/// table held there leaves the table as it was; where a table is held there, the keys stay
/// and the table there is then `child`; and every other entry is left as it was.
#[verifier::external_body]
fn put_sub_table(t: &mut toml_edit::Table, key: &str, child: toml_edit::Table)
    ensures
        *final(t) == with_sub_table(*old(t), key@, child),
        entry_at(*old(t), key@) is Table && child == sub_table_at(*old(t), key@) ==> *final(t) == *old(t),
        entry_at(*old(t), key@) is Table ==> table_keys(*final(t)) == table_keys(*old(t)) && entry_at(
            *final(t),
            key@,
        ) is Table && sub_table_at(*final(t), key@) == child,
        same_elsewhere(*old(t), *final(t), key@),
{
    if let Some(slot) = t.get_mut(key).and_then(toml_edit::Item::as_table_mut) {
        *slot = child;
    }
}

/// Remove the entry at `key`.
///
/// Calls `Table::remove`, which keeps the other entries in order. Claimed: the keys left
/// are the others, and every other entry is left as it was.
#[verifier::external_body]
fn remove_key(t: &mut toml_edit::Table, key: &str)
    ensures
        *final(t) == without_key(*old(t), key@),
        forall|k: Seq<char>|
            #[trigger] table_keys(*final(t)).contains(k) <==> (table_keys(*old(t)).contains(k) && k != key@),
        same_elsewhere(*old(t), *final(t), key@),
{
    t.remove(key);
}

// ---- merging -------------------------------------------------------------------------------

/// The text a written prefix or suffix stands for: nothing where none was written.
pub open spec fn or_empty(s: Option<Seq<char>>) -> Seq<char> {
    match s {
        Some(t) => t,
        None => Seq::empty(),
    }
}

/// `e` with the first `n` entries of `fresh` merged into it, in order:
/// - a table in both is merged in the same way, entry by entry;
/// - a value in both is left as written when the two say the same thing, and otherwise
///   replaced by the fresh one, keeping the space before it and the comment after it;
/// - an entry `e` does not have is added;
/// - an entry that changes shape is replaced, and a comment on a value it replaces moves to
///   the table that replaces it.
pub open spec fn merge_first(e: toml_edit::Table, fresh: toml_edit::Table, n: int) -> toml_edit::Table
    decreases table_depth(fresh), n,
{
    if n <= 0 || n > table_keys(fresh).len() {
        e
    } else {
        let e1 = merge_first(e, fresh, n - 1);
        let k = table_keys(fresh)[n - 1];
        let had = entry_at(e1, k);
        let has = entry_at(fresh, k);
        if had is Table && has is Table {
            let child = sub_table_at(fresh, k);
            if table_depth(child) < table_depth(fresh) {
                with_sub_table(e1, k, merge_first(sub_table_at(e1, k), child, table_keys(child).len() as int))
            } else {
                e1
            }
        } else if had is Value && has is Value {
            if agrees(toml_value(value_item_at(e1, k)), toml_value(value_item_at(fresh, k))) {
                e1
            } else {
                with_value_decor(
                    with_copied(e1, k, fresh),
                    k,
                    or_empty(value_decor_at(e1, k).0),
                    or_empty(value_decor_at(e1, k).1),
                )
            }
        } else if had is Absent {
            with_inserted(e1, k, fresh)
        } else {
            let moved = if had is Value { value_decor_at(e1, k).1 } else { None };
            match moved {
                Some(c) => with_table_suffix(with_copied(e1, k, fresh), k, c),
                None => with_copied(e1, k, fresh),
            }
        }
    }
}

/// `e` with the first `n` of the keys `ks` pruned against `fresh`: a key `fresh` does not
/// have is removed, and a table in both is pruned in the same way.
pub open spec fn prune_first(e: toml_edit::Table, fresh: toml_edit::Table, ks: Seq<Seq<char>>, n: int) -> toml_edit::Table
    decreases table_depth(fresh), n,
{
    if n <= 0 || n > ks.len() {
        e
    } else {
        let e1 = prune_first(e, fresh, ks, n - 1);
        let k = ks[n - 1];
        if entry_at(fresh, k) is Absent {
            without_key(e1, k)
        } else if entry_at(fresh, k) is Table && entry_at(e1, k) is Table {
            let child = sub_table_at(fresh, k);
            if table_depth(child) < table_depth(fresh) {
                let mine = sub_table_at(e1, k);
                with_sub_table(e1, k, prune_first(mine, child, table_keys(mine), table_keys(mine).len() as int))
            } else {
                e1
            }
        } else {
            e1
        }
    }
}

/// `fresh` merged into `e`, then `e` pruned of what `fresh` does not have.
pub open spec fn merged_table(e: toml_edit::Table, fresh: toml_edit::Table) -> toml_edit::Table {
    let m = merge_first(e, fresh, table_keys(fresh).len() as int);
    prune_first(m, fresh, table_keys(m), table_keys(m).len() as int)
}

/// Whether the value `r` holds at `k` says what `fresh`'s does: it agrees with it, or is
/// the same value.
pub open spec fn says_same(r: toml_edit::Table, fresh: toml_edit::Table, k: Seq<char>) -> bool {
    agrees(toml_value(value_item_at(r, k)), toml_value(value_item_at(fresh, k))) || toml_value(
        value_item_at(r, k),
    ) == toml_value(value_item_at(fresh, k))
}

/// Whether `r` holds each of the first `n` keys of `fresh`, with the same kind of entry; a
/// value that says what `fresh`'s says; and, where both hold a table, the same of those two
/// tables.
pub open spec fn matches_first(r: toml_edit::Table, fresh: toml_edit::Table, n: int) -> bool
    decreases table_depth(fresh), n,
{
    if n <= 0 || n > table_keys(fresh).len() {
        true
    } else {
        let k = table_keys(fresh)[n - 1];
        &&& matches_first(r, fresh, n - 1)
        &&& table_keys(r).contains(k)
        &&& entry_at(r, k) == entry_at(fresh, k)
        &&& entry_at(fresh, k) is Value ==> says_same(r, fresh, k)
        &&& entry_at(fresh, k) is Table && table_depth(sub_table_at(fresh, k)) < table_depth(fresh)
            ==> matches_first(
            sub_table_at(r, k),
            sub_table_at(fresh, k),
            table_keys(sub_table_at(fresh, k)).len() as int,
        )
    }
}

/// Whether `r` holds everything `fresh` holds, at every depth: every key, the same kind of
/// entry at each, and values that say the same thing.
pub open spec fn holds_fresh(r: toml_edit::Table, fresh: toml_edit::Table) -> bool {
    matches_first(r, fresh, table_keys(fresh).len() as int)
}

/// What `r` must hold at a key of `fresh` to hold everything `fresh` holds there.
pub open spec fn matched_key(r: toml_edit::Table, fresh: toml_edit::Table, k: Seq<char>) -> bool {
    &&& table_keys(r).contains(k)
    &&& entry_at(r, k) == entry_at(fresh, k)
    &&& entry_at(fresh, k) is Value ==> says_same(r, fresh, k)
    &&& entry_at(fresh, k) is Table && table_depth(sub_table_at(fresh, k)) < table_depth(fresh)
        ==> holds_fresh(sub_table_at(r, k), sub_table_at(fresh, k))
}

/// A table that holds what `fresh` holds at every key of `fresh` holds everything `fresh` does.
proof fn lemma_matches_from_keys(r: toml_edit::Table, fresh: toml_edit::Table, n: int)
    requires
        0 <= n <= table_keys(fresh).len(),
        forall|k: Seq<char>| #[trigger] table_keys(fresh).contains(k) ==> matched_key(r, fresh, k),
    ensures
        matches_first(r, fresh, n),
    decreases n,
{
    if n > 0 {
        lemma_matches_from_keys(r, fresh, n - 1);
        let k = table_keys(fresh)[n - 1];
        assert(table_keys(fresh).contains(k));
    }
}

/// A table that holds everything `fresh` does holds what `fresh` holds at each key of it.
proof fn lemma_matches_to_keys(r: toml_edit::Table, fresh: toml_edit::Table, n: int)
    requires
        0 <= n <= table_keys(fresh).len(),
        matches_first(r, fresh, n),
    ensures
        forall|j: int| 0 <= j < n ==> matched_key(r, fresh, #[trigger] table_keys(fresh)[j]),
    decreases n,
{
    if n > 0 {
        lemma_matches_to_keys(r, fresh, n - 1);
    }
}

/// Every table holds everything it holds.
proof fn lemma_holds_itself(t: toml_edit::Table, n: int)
    requires
        0 <= n <= table_keys(t).len(),
    ensures
        matches_first(t, t, n),
    decreases table_depth(t), n,
{
    if n > 0 {
        lemma_holds_itself(t, n - 1);
        let k = table_keys(t)[n - 1];
        assert(table_keys(t).contains(k));
        if entry_at(t, k) is Table && table_depth(sub_table_at(t, k)) < table_depth(t) {
            lemma_holds_itself(sub_table_at(t, k), table_keys(sub_table_at(t, k)).len() as int);
        }
    }
}

/// Two tables of the same shape hold the same things.
proof fn lemma_same_shape_holds(a: toml_edit::Table, b: toml_edit::Table, fresh: toml_edit::Table, n: int)
    requires
        same_shape(a, b),
    ensures
        matches_first(a, fresh, n) == matches_first(b, fresh, n),
    decreases n,
{
    if n > 0 && n <= table_keys(fresh).len() {
        lemma_same_shape_holds(a, b, fresh, n - 1);
        let k = table_keys(fresh)[n - 1];
        assert(entry_at(a, k) == entry_at(b, k));
    }
}

/// Whether each of the first `n` keys of `r` is a key of `fresh`, and, where both hold a
/// table at it, the same holds of those two tables.
pub open spec fn within_first(r: toml_edit::Table, fresh: toml_edit::Table, n: int) -> bool
    decreases table_depth(fresh), n,
{
    if n <= 0 || n > table_keys(r).len() {
        true
    } else {
        let k = table_keys(r)[n - 1];
        within_first(r, fresh, n - 1) && table_keys(fresh).contains(k) && (entry_at(r, k) is Table
            && entry_at(fresh, k) is Table && table_depth(sub_table_at(fresh, k)) < table_depth(fresh)
            ==> within_first(
            sub_table_at(r, k),
            sub_table_at(fresh, k),
            table_keys(sub_table_at(r, k)).len() as int,
        ))
    }
}

/// Whether every key of `r`, in every table `r` and `fresh` both hold at the same place, is
/// a key of `fresh` there: `r` holds nothing `fresh` has dropped.
pub open spec fn keys_within(r: toml_edit::Table, fresh: toml_edit::Table) -> bool {
    within_first(r, fresh, table_keys(r).len() as int)
}

/// What a key of `r` must be for `r` to hold nothing `fresh` has dropped there.
pub open spec fn kept_key(r: toml_edit::Table, fresh: toml_edit::Table, k: Seq<char>) -> bool {
    table_keys(fresh).contains(k) && (entry_at(r, k) is Table && entry_at(fresh, k) is Table
        && table_depth(sub_table_at(fresh, k)) < table_depth(fresh) ==> keys_within(
        sub_table_at(r, k),
        sub_table_at(fresh, k),
    ))
}

/// A table every key of which is kept holds nothing `fresh` has dropped.
proof fn lemma_within_from_keys(r: toml_edit::Table, fresh: toml_edit::Table, n: int)
    requires
        0 <= n <= table_keys(r).len(),
        forall|k: Seq<char>| #[trigger] table_keys(r).contains(k) ==> kept_key(r, fresh, k),
    ensures
        within_first(r, fresh, n),
    decreases n,
{
    if n > 0 {
        lemma_within_from_keys(r, fresh, n - 1);
        let k = table_keys(r)[n - 1];
        assert(table_keys(r).contains(k));
    }
}

/// Whether every value in the first `n` entries of `t`, tables within included, says the
/// same thing as itself, which every value does but a float that is not a number.
pub open spec fn agreeing_first(t: toml_edit::Table, n: int) -> bool
    decreases table_depth(t), n,
{
    if n <= 0 || n > table_keys(t).len() {
        true
    } else {
        let k = table_keys(t)[n - 1];
        agreeing_first(t, n - 1) && if entry_at(t, k) is Value {
            agrees(toml_value(value_item_at(t, k)), toml_value(value_item_at(t, k)))
        } else if entry_at(t, k) is Table {
            let child = sub_table_at(t, k);
            table_depth(child) < table_depth(t) ==> agreeing_first(child, table_keys(child).len() as int)
        } else {
            true
        }
    }
}

/// Whether every value in a table, tables within included, says the same thing as itself.
pub open spec fn self_agreeing(t: toml_edit::Table) -> bool {
    agreeing_first(t, table_keys(t).len() as int)
}

/// A table that agrees with itself on its first `m` entries does on fewer.
proof fn lemma_agreeing_shorter(t: toml_edit::Table, k: int, m: int)
    requires
        0 <= k <= m <= table_keys(t).len(),
        agreeing_first(t, m),
    ensures
        agreeing_first(t, k),
    decreases m,
{
    if k < m {
        lemma_agreeing_shorter(t, k, m - 1);
    }
}

/// Merge `fresh` into `document`, entry by entry, keeping what is written around what does
/// not change. Afterwards the document holds everything `fresh` holds, at every depth: each
/// key, the same kind of entry, and values that say the same thing. Merging a table into
/// an identical one whose values all agree with themselves changes nothing.
fn merge(document: &mut toml_edit::Table, fresh: &toml_edit::Table)
    ensures
        *final(document) == merge_first(*old(document), *fresh, table_keys(*fresh).len() as int),
        *old(document) == *fresh && self_agreeing(*fresh) ==> *final(document) == *old(document),
        holds_fresh(*final(document), *fresh),
    decreases table_depth(*fresh),
{
    let keys = keys_of(fresh);
    let ghost ks = table_keys(*fresh);
    let ghost same = *old(document) == *fresh && self_agreeing(*fresh);
    let mut i: usize = 0;
    while i < keys.len()
        invariant
            i <= keys.len(),
            keys@.map_values(|s: String| s@) == ks,
            ks == table_keys(*fresh),
            forall|k: Seq<char>| #[trigger] entry_at(*fresh, k) is Absent <==> !ks.contains(k),
            *document == merge_first(*old(document), *fresh, i as int),
            same == (*old(document) == *fresh && self_agreeing(*fresh)),
            same ==> *document == *old(document),
            forall|k: Seq<char>| #[trigger] ks.take(i as int).contains(k) ==> matched_key(*document, *fresh, k),
        decreases keys.len() - i,
    {
        let key = keys[i].as_str();
        let ghost k = ks[i as int];
        assert(key@ == k);
        let ghost before = *document;
        proof {
            if same {
                lemma_agreeing_shorter(*fresh, i as int + 1, ks.len() as int);
                assert(ks.contains(k));
            }
            assert(ks.contains(k));
        }
        let had = entry_kind(document, key);
        let has = entry_kind(fresh, key);
        if had == Entry::Table && has == Entry::Table {
            let mut mine = sub_table(document, key);
            let theirs = sub_table(fresh, key);
            merge(&mut mine, &theirs);
            put_sub_table(document, key, mine);
        } else if had == Entry::Value && has == Entry::Value {
            let old_value = value_item(document, key);
            let new_value = value_item(fresh, key);
            match (old_value, new_value) {
                (Some(a), Some(b)) => {
                    let left = view_of(&a);
                    let right = view_of(&b);
                    if !same_value(&left, &right) {
                        let (prefix, suffix) = value_decor(document, key);
                        let prefix_text = match prefix {
                            Some(p) => p,
                            None => String::new(),
                        };
                        let suffix_text = match suffix {
                            Some(p) => p,
                            None => String::new(),
                        };
                        copy_item(document, key, fresh);
                        set_value_decor(document, key, prefix_text.as_str(), suffix_text.as_str());
                    }
                },
                _ => {},
            }
        } else if had == Entry::Absent {
            insert_item(document, key, fresh);
            proof {
                if entry_at(*fresh, k) is Table {
                    lemma_holds_itself(sub_table_at(*fresh, k), table_keys(sub_table_at(*fresh, k)).len() as int);
                }
            }
        } else {
            let moved = if had == Entry::Value {
                value_decor(document, key).1
            } else {
                None
            };
            copy_item(document, key, fresh);
            let ghost copied = *document;
            match moved {
                Some(c) => set_table_suffix(document, key, c.as_str()),
                None => {},
            }
            proof {
                if entry_at(*fresh, k) is Table {
                    lemma_holds_itself(sub_table_at(*fresh, k), table_keys(sub_table_at(*fresh, k)).len() as int);
                    if entry_at(copied, k) is Table && *document != copied {
                        lemma_same_shape_holds(
                            sub_table_at(*document, k),
                            sub_table_at(copied, k),
                            sub_table_at(*fresh, k),
                            table_keys(sub_table_at(*fresh, k)).len() as int,
                        );
                    }
                }
            }
        }
        proof {
            assert(matched_key(*document, *fresh, k));
            assert forall|j: Seq<char>| #[trigger] ks.take(i as int + 1).contains(j) implies matched_key(
                *document,
                *fresh,
                j,
            ) by {
                if j != k {
                    let x = choose|x: int| 0 <= x < i + 1 && #[trigger] ks.take(i as int + 1)[x] == j;
                    assert(ks.take(i as int)[x] == j);
                    assert(ks.take(i as int).contains(j));
                    assert(matched_key(before, *fresh, j));
                    assert(entry_at(*document, j) == entry_at(before, j));
                }
            }
        }
        assert(*document == merge_first(*old(document), *fresh, i as int + 1));
        i += 1;
    }
    proof {
        assert(ks.take(keys.len() as int) =~= ks);
        lemma_matches_from_keys(*document, *fresh, ks.len() as int);
    }
}

/// Remove from `document` what `fresh` no longer has, tables within included, so that every
/// key left, at every depth, is a key of `fresh` there. Pruning a table against an identical
/// one changes nothing.
fn prune(document: &mut toml_edit::Table, fresh: &toml_edit::Table)
    ensures
        *final(document) == prune_first(
            *old(document),
            *fresh,
            table_keys(*old(document)),
            table_keys(*old(document)).len() as int,
        ),
        *old(document) == *fresh ==> *final(document) == *old(document),
        keys_within(*final(document), *fresh),
        holds_fresh(*old(document), *fresh) ==> holds_fresh(*final(document), *fresh),
    decreases table_depth(*fresh),
{
    let keys = keys_of(document);
    let fresh_keys = keys_of(fresh);
    let ghost ks = table_keys(*old(document));
    let ghost fk = table_keys(*fresh);
    let ghost same = *old(document) == *fresh;
    let ghost full = holds_fresh(*old(document), *fresh);
    proof {
        if full {
            lemma_matches_to_keys(*old(document), *fresh, fk.len() as int);
            assert forall|k: Seq<char>| #[trigger] fk.contains(k) implies matched_key(*old(document), *fresh, k) by {
                let x = choose|x: int| 0 <= x < fk.len() && fk[x] == k;
                assert(matched_key(*old(document), *fresh, fk[x]));
            }
        }
    }
    let mut i: usize = 0;
    while i < keys.len()
        invariant
            i <= keys.len(),
            keys@.map_values(|s: String| s@) == ks,
            ks == table_keys(*old(document)),
            fk == table_keys(*fresh),
            fresh_keys@.map_values(|s: String| s@) == fk,
            forall|k: Seq<char>| #[trigger] entry_at(*old(document), k) is Absent <==> !ks.contains(k),
            forall|k: Seq<char>| #[trigger] entry_at(*fresh, k) is Absent <==> !fk.contains(k),
            *document == prune_first(*old(document), *fresh, ks, i as int),
            same == (*old(document) == *fresh),
            same ==> *document == *old(document),
            forall|k: Seq<char>| #[trigger] table_keys(*document).contains(k) ==> ks.contains(k),
            forall|k: Seq<char>|
                #[trigger] table_keys(*document).contains(k) && ks.take(i as int).contains(k) ==> kept_key(
                    *document,
                    *fresh,
                    k,
                ),
            full == holds_fresh(*old(document), *fresh),
            full ==> forall|k: Seq<char>| #[trigger] fk.contains(k) ==> matched_key(*document, *fresh, k),
        decreases keys.len() - i,
    {
        let key = keys[i].as_str();
        let ghost k = ks[i as int];
        assert(key@ == k);
        let ghost before = *document;
        proof {
            if same {
                assert(ks.contains(k));
            }
            assert forall|j: Seq<char>| ks.take(i as int + 1).contains(j) implies ks.take(i as int).contains(j)
                || j == k by {
                let x = choose|x: int| 0 <= x < i + 1 && #[trigger] ks.take(i as int + 1)[x] == j;
                if x < i {
                    assert(ks.take(i as int)[x] == j);
                }
            }
        }
        let has = entry_kind(fresh, key);
        if has == Entry::Absent {
            remove_key(document, key);
        } else if has == Entry::Table {
            let had = entry_kind(document, key);
            if had == Entry::Table {
                let mut mine = sub_table(document, key);
                let theirs = sub_table(fresh, key);
                prune(&mut mine, &theirs);
                put_sub_table(document, key, mine);
            }
        }
        proof {
            assert forall|j: Seq<char>|
                #[trigger] table_keys(*document).contains(j) && ks.take(i as int + 1).contains(j) implies kept_key(
                *document,
                *fresh,
                j,
            ) by {
                if j != k {
                    assert(table_keys(before).contains(j));
                    assert(ks.take(i as int).contains(j));
                    assert(kept_key(before, *fresh, j));
                    assert(entry_at(*document, j) == entry_at(before, j));
                    assert(sub_table_at(*document, j) == sub_table_at(before, j));
                } else {
                    assert(!(entry_at(*fresh, k) is Absent));
                    assert(fk.contains(k));
                }
            }
        }
        proof {
            if full {
                assert forall|j: Seq<char>| #[trigger] fk.contains(j) implies matched_key(*document, *fresh, j) by {
                    assert(matched_key(before, *fresh, j));
                    if j != k {
                        assert(entry_at(*document, j) == entry_at(before, j));
                    }
                }
            }
        }
        assert(*document == prune_first(*old(document), *fresh, ks, i as int + 1));
        i += 1;
    }
    proof {
        assert(ks.take(keys.len() as int) =~= ks);
        lemma_within_from_keys(*document, *fresh, table_keys(*document).len() as int);
        if full {
            lemma_matches_from_keys(*document, *fresh, fk.len() as int);
        }
    }
}

/// What saving writes: `fresh` merged into the file's `existing` text. A file that is blank,
/// or is not TOML, is replaced by `fresh`, and so is any file when `fresh` is not TOML.
pub open spec fn merged_text(existing: Seq<char>, fresh: Seq<char>) -> Seq<char> {
    if crate::spell::trim(existing).len() == 0 {
        fresh
    } else {
        match (parsed_document(existing), parsed_document(fresh)) {
            (Some(d), Some(f)) => document_text(with_root(d, merged_table(root_table(d), root_table(f)))),
            _ => fresh,
        }
    }
}

/// The text to save: the freshly written configuration `fresh` merged into the file's
/// `existing` text. A setting whose value is unchanged is left exactly as written, comment
/// and all; a changed one is replaced keeping the space before it and the comment after it;
/// a new one is added; and one `fresh` no longer has is dropped. A blank file, or one that
/// is not TOML, is replaced by `fresh`.
///
/// Saving a file over itself changes nothing: where every value in it says the same thing
/// as itself (every value does but a float that is not a number), the result is the file
/// as parsed and printed back, which `toml_edit` keeps byte for byte but for the order of
/// dotted keys.
pub fn merged_config_text(existing: &str, fresh: &str) -> (r: String)
    ensures
        r@ == merged_text(existing@, fresh@),
        crate::spell::trim(existing@).len() > 0 ==> (match (parsed_document(existing@), parsed_document(fresh@)) {
            (Some(d), Some(f)) => keys_within(merged_table(root_table(d), root_table(f)), root_table(f))
                && holds_fresh(merged_table(root_table(d), root_table(f)), root_table(f)),
            _ => r@ == fresh@,
        }),
        existing@ == fresh@ && crate::spell::trim(existing@).len() > 0 ==> (match parsed_document(existing@) {
            Some(d) => self_agreeing(root_table(d)) ==> r@ == document_text(d),
            None => r@ == existing@,
        }),
{
    let chars = crate::spell::chars_of(existing);
    let blank = crate::spell::trimmed(&chars, 0, chars.len());
    assert(chars@.subrange(0, chars@.len() as int) =~= chars@);
    if blank.len() == 0 {
        return crate::spell::string_of(&crate::spell::chars_of(fresh));
    }
    match parse_document(existing) {
        None => crate::spell::string_of(&crate::spell::chars_of(fresh)),
        Some(mut document) => match parse_document(fresh) {
            None => crate::spell::string_of(&crate::spell::chars_of(fresh)),
            Some(written) => {
                let mut root = root_of(&document);
                let theirs = root_of(&written);
                merge(&mut root, &theirs);
                prune(&mut root, &theirs);
                set_root(&mut document, root);
                print_document(&document)
            },
        },
    }
}

} // verus!
