//! TOML documents as plain values, read and written by the `toml` crate.

use vstd::prelude::*;
use crate::text::same_text;

verus! {

/// `toml::Value`, a TOML value as `toml` holds it. What it holds is named
/// by `toml_contents`.
#[verifier::external_type_specification]
#[verifier::external_body]
pub struct ExTomlValue(toml::Value);

/// `toml::value::Datetime`, a TOML date-time. It is carried as it is.
#[verifier::external_type_specification]
#[verifier::external_body]
pub struct ExTomlDatetime(toml::value::Datetime);

/// A TOML float, kept as `toml` holds it: the value inside is always a
/// `toml::Value::Float`, and what `toml` holds there is this float.
pub struct FloatValue {
    held: toml::Value,
}

/// A TOML value. Strings, integers, booleans, arrays and tables are held as
/// plain values; a float or a date-time is kept as `toml` holds it. Where a
/// table holds a key more than once, the last entry counts.
pub enum TomlValue {
    Text(String),
    Integer(i64),
    Float(FloatValue),
    Boolean(bool),
    Datetime(toml::value::Datetime),
    Array(Vec<TomlValue>),
    Table(Vec<(String, TomlValue)>),
}

/// What a TOML value stands for.
pub enum TomlModel {
    Text(Seq<char>),
    Integer(i64),
    Float(FloatValue),
    Boolean(bool),
    Datetime(toml::value::Datetime),
    Array(Seq<TomlModel>),
    Table(Map<Seq<char>, TomlModel>),
}

/// The entries of a table: the value under each key.
pub type Entries = Map<Seq<char>, TomlModel>;

/// What a `toml::Value` holds: a string, an integer, a boolean or a
/// date-time as such, a float as the value itself, an array item by item,
/// a table key by key.
pub uninterp spec fn toml_contents(value: toml::Value) -> TomlModel;

/// What `toml` reads from `text` as a document: its top-level table, or
/// nothing where `text` is not valid TOML.
pub uninterp spec fn toml_document(text: Seq<char>) -> Option<TomlModel>;

/// The text that `toml` writes for a document, or nothing where it cannot
/// write the value as a document.
pub uninterp spec fn toml_text(document: TomlModel) -> Option<Seq<char>>;

impl FloatValue {
    #[verifier::type_invariant]
    spec fn holds_float(self) -> bool {
        toml_contents(self.held) == TomlModel::Float(self)
    }
}

/// The index of the last `key` among `keys`, or -1 where there is none.
pub open spec fn last_position(keys: Seq<Seq<char>>, key: Seq<char>) -> int
    decreases keys.len(),
{
    if keys.len() == 0 {
        -1
    } else if keys.last() == key {
        keys.len() - 1
    } else {
        last_position(keys.drop_last(), key)
    }
}

/// The table with the given keys and values: the value under a key is the
/// one that stands with the last occurrence of the key.
pub open spec fn table_of(keys: Seq<Seq<char>>, values: Seq<TomlModel>) -> Entries {
    Map::new(
        |key: Seq<char>| last_position(keys, key) >= 0,
        |key: Seq<char>| values[last_position(keys, key)],
    )
}

/// The keys of the entries of a table, in their order.
pub open spec fn keys_of(entries: Seq<(String, TomlValue)>) -> Seq<Seq<char>> {
    Seq::new(entries.len(), |i: int| entries[i].0@)
}

/// What a value stands for.
pub open spec fn model_of(value: TomlValue) -> TomlModel
    decreases value,
{
    match value {
        TomlValue::Text(s) => TomlModel::Text(s@),
        TomlValue::Integer(i) => TomlModel::Integer(i),
        TomlValue::Float(f) => TomlModel::Float(f),
        TomlValue::Boolean(b) => TomlModel::Boolean(b),
        TomlValue::Datetime(d) => TomlModel::Datetime(d),
        TomlValue::Array(items) => TomlModel::Array(models_of(items)),
        TomlValue::Table(entries) => TomlModel::Table(
            table_of(keys_of(entries@), values_of(entries)),
        ),
    }
}

/// What the items of an array stand for.
pub open spec fn models_of(items: Vec<TomlValue>) -> Seq<TomlModel>
    decreases items,
{
    Seq::new(
        items@.len(),
        |i: int|
            if 0 <= i < items@.len() {
                model_of(items@[i])
            } else {
                TomlModel::Boolean(false)
            },
    )
}

/// What the values of the entries of a table stand for, in their order.
pub open spec fn values_of(entries: Vec<(String, TomlValue)>) -> Seq<TomlModel>
    decreases entries,
{
    Seq::new(
        entries@.len(),
        |i: int|
            if 0 <= i < entries@.len() {
                model_of(entries@[i].1)
            } else {
                TomlModel::Boolean(false)
            },
    )
}

/// What the entries of a table stand for.
pub open spec fn entries_of(entries: Vec<(String, TomlValue)>) -> Entries {
    table_of(keys_of(entries@), values_of(entries))
}

impl View for TomlValue {
    type V = TomlModel;

    open spec fn view(&self) -> TomlModel {
        model_of(*self)
    }
}

/// One level of a `toml::Value`: what the value is, with the values that
/// it holds still as `toml` holds them.
pub enum Unpacked {
    Text(String),
    Integer(i64),
    Float(FloatValue),
    Boolean(bool),
    Datetime(toml::value::Datetime),
    Array(Vec<toml::Value>),
    Table(Vec<(String, toml::Value)>),
}

/// What a sequence of `toml::Value`s holds.
pub open spec fn held_items(items: Seq<toml::Value>) -> Seq<TomlModel> {
    Seq::new(items.len(), |i: int| toml_contents(items[i]))
}

/// The keys of a sequence of entries, in their order.
pub open spec fn held_keys(entries: Seq<(String, toml::Value)>) -> Seq<Seq<char>> {
    Seq::new(entries.len(), |i: int| entries[i].0@)
}

/// What the values of a sequence of entries hold, in their order.
pub open spec fn held_values(entries: Seq<(String, toml::Value)>) -> Seq<TomlModel> {
    Seq::new(entries.len(), |i: int| toml_contents(entries[i].1))
}

/// What one level of a value stands for.
pub open spec fn level_model(parts: Unpacked) -> TomlModel {
    match parts {
        Unpacked::Text(s) => TomlModel::Text(s@),
        Unpacked::Integer(i) => TomlModel::Integer(i),
        Unpacked::Float(f) => TomlModel::Float(f),
        Unpacked::Boolean(b) => TomlModel::Boolean(b),
        Unpacked::Datetime(d) => TomlModel::Datetime(d),
        Unpacked::Array(items) => TomlModel::Array(held_items(items@)),
        Unpacked::Table(entries) => TomlModel::Table(
            table_of(held_keys(entries@), held_values(entries@)),
        ),
    }
}

/// Whether a level holds no key twice.
pub open spec fn has_distinct_keys(parts: Unpacked) -> bool {
    parts matches Unpacked::Table(entries) ==> held_keys(entries@).no_duplicates()
}

/// The variants of `toml::Value`, told apart: the value holds what the
/// level that is returned stands for. A float is handed on as it is. The
/// entries of a table come in the order of the table, and no key comes
/// twice.
#[verifier::external_body]
pub(crate) fn unpack(value: &toml::Value) -> (parts: Unpacked)
    ensures
        toml_contents(*value) == level_model(parts),
        has_distinct_keys(parts),
{
    match value {
        toml::Value::String(s) => Unpacked::Text(s.clone()),
        toml::Value::Integer(i) => Unpacked::Integer(*i),
        toml::Value::Float(_) => Unpacked::Float(FloatValue { held: value.clone() }),
        toml::Value::Boolean(b) => Unpacked::Boolean(*b),
        toml::Value::Datetime(d) => Unpacked::Datetime(*d),
        toml::Value::Array(items) => Unpacked::Array(items.clone()),
        toml::Value::Table(t) => Unpacked::Table(
            t.iter().map(|(k, v)| (k.clone(), v.clone())).collect(),
        ),
    }
}

/// The variants of `toml::Value`, put together: the value that is returned
/// holds what the level stands for. The entries of a table are collected
/// into a `toml::Table`, so no key may come twice.
#[verifier::external_body]
pub(crate) fn pack(parts: Unpacked) -> (value: toml::Value)
    requires
        has_distinct_keys(parts),
    ensures
        toml_contents(value) == level_model(parts),
{
    match parts {
        Unpacked::Text(s) => toml::Value::String(s),
        Unpacked::Integer(i) => toml::Value::Integer(i),
        Unpacked::Float(f) => f.held,
        Unpacked::Boolean(b) => toml::Value::Boolean(b),
        Unpacked::Datetime(d) => toml::Value::Datetime(d),
        Unpacked::Array(items) => toml::Value::Array(items),
        Unpacked::Table(entries) => toml::Value::Table(entries.into_iter().collect()),
    }
}

/// `str::parse::<toml::Table>`: the document that `text` holds, as a table,
/// or the parser's message where `text` is not valid TOML.
#[verifier::external_body]
pub(crate) fn parse_toml(text: &str) -> (parsed: Result<toml::Value, String>)
    ensures
        match parsed {
            Ok(document) => toml_contents(document) is Table && toml_document(text@) == Some(
                toml_contents(document),
            ),
            Err(_) => toml_document(text@) is None,
        },
{
    text.parse::<toml::Table>().map(toml::Value::Table).map_err(|e| e.to_string())
}

/// `toml::to_string`: the TOML text of a document, or the serializer's
/// message where the value cannot be written as a document.
#[verifier::external_body]
pub(crate) fn render_toml(document: &toml::Value) -> (text: Result<String, String>)
    ensures
        match text {
            Ok(t) => toml_text(toml_contents(*document)) == Some(t@),
            Err(_) => toml_text(toml_contents(*document)) is None,
        },
{
    toml::to_string(document).map_err(|e| e.to_string())
}

/// The last position of a key is the index of an entry with this key, after
/// which the key does not come again; it is -1 exactly where no entry has
/// the key.
pub proof fn lemma_last_position(keys: Seq<Seq<char>>, key: Seq<char>)
    ensures
        -1 <= last_position(keys, key) < keys.len(),
        last_position(keys, key) >= 0 ==> keys[last_position(keys, key)] == key,
        forall|i: int| last_position(keys, key) < i < keys.len() ==> keys[i] != key,
        last_position(keys, key) >= 0 <==> keys.contains(key),
    decreases keys.len(),
{
    if keys.len() > 0 {
        let front = keys.drop_last();
        lemma_last_position(front, key);
        assert forall|i: int| last_position(keys, key) < i < keys.len() implies keys[i]
            != key by {
            if i < keys.len() - 1 {
                assert(keys[i] == front[i]);
            }
        }
    }
}

/// The table of given keys and values holds its keys and no others, and
/// they are finitely many.
pub proof fn lemma_table_domain(keys: Seq<Seq<char>>, values: Seq<TomlModel>)
    ensures
        table_of(keys, values).dom() =~= keys.to_set(),
        table_of(keys, values).dom().finite(),
{
    assert forall|key: Seq<char>|
        table_of(keys, values).dom().contains(key) <==> keys.to_set().contains(key) by {
        lemma_last_position(keys, key);
    }
}

/// In a table without duplicate keys, the value under the key at index `i`
/// is the value at index `i`.
pub proof fn lemma_table_entry(keys: Seq<Seq<char>>, values: Seq<TomlModel>, i: int)
    requires
        0 <= i < keys.len(),
        keys.no_duplicates(),
    ensures
        table_of(keys, values).dom().contains(keys[i]),
        table_of(keys, values)[keys[i]] == values[i],
{
    lemma_last_position(keys, keys[i]);
}

/// Tables with the same keys and the same values are the same table.
pub proof fn lemma_table_of_equal(
    keys: Seq<Seq<char>>,
    values: Seq<TomlModel>,
    other_keys: Seq<Seq<char>>,
    other_values: Seq<TomlModel>,
)
    requires
        keys.len() == values.len(),
        keys =~= other_keys,
        values =~= other_values,
    ensures
        table_of(keys, values) == table_of(other_keys, other_values),
{
}

/// The plain value that a `toml::Value` holds.
pub fn value_from(value: &toml::Value) -> (plain: TomlValue)
    ensures
        plain@ == toml_contents(*value),
    decreases toml_contents(*value),
{
    match unpack(value) {
        Unpacked::Text(s) => TomlValue::Text(s),
        Unpacked::Integer(i) => TomlValue::Integer(i),
        Unpacked::Float(f) => TomlValue::Float(f),
        Unpacked::Boolean(b) => TomlValue::Boolean(b),
        Unpacked::Datetime(d) => TomlValue::Datetime(d),
        Unpacked::Array(items) => {
            let mut plain: Vec<TomlValue> = Vec::new();
            let mut i: usize = 0;
            while i < items.len()
                invariant
                    i <= items.len(),
                    plain.len() == i,
                    toml_contents(*value) == TomlModel::Array(held_items(items@)),
                    forall|k: int| 0 <= k < i ==> (#[trigger] plain@[k])@ == toml_contents(items@[k]),
                decreases items.len() - i,
            {
                proof {
                    let held = held_items(items@);
                    assert(held[i as int] == toml_contents(items@[i as int]));
                    let whole = toml_contents(*value);
                    assert(decreases_to!(whole => whole->Array_0));
                }
                let item = value_from(&items[i]);
                plain.push(item);
                i += 1;
            }
            assert(models_of(plain) =~= held_items(items@));
            TomlValue::Array(plain)
        },
        Unpacked::Table(entries) => {
            let mut plain: Vec<(String, TomlValue)> = Vec::new();
            let mut i: usize = 0;
            proof {
                lemma_table_domain(held_keys(entries@), held_values(entries@));
            }
            while i < entries.len()
                invariant
                    i <= entries.len(),
                    plain.len() == i,
                    held_keys(entries@).no_duplicates(),
                    toml_contents(*value) == TomlModel::Table(
                        table_of(held_keys(entries@), held_values(entries@)),
                    ),
                    table_of(held_keys(entries@), held_values(entries@)).dom().finite(),
                    forall|k: int| 0 <= k < i ==> (#[trigger] plain@[k]).0@ == entries@[k].0@,
                    forall|k: int|
                        0 <= k < i ==> (#[trigger] plain@[k]).1@ == toml_contents(entries@[k].1),
                decreases entries.len() - i,
            {
                proof {
                    lemma_table_entry(held_keys(entries@), held_values(entries@), i as int);
                    let table = table_of(held_keys(entries@), held_values(entries@));
                    let whole = toml_contents(*value);
                    assert(decreases_to!(whole => whole->Table_0));
                }
                let item = value_from(&entries[i].1);
                plain.push((entries[i].0.clone(), item));
                i += 1;
            }
            proof {
                lemma_table_of_equal(
                    keys_of(plain@),
                    values_of(plain),
                    held_keys(entries@),
                    held_values(entries@),
                );
            }
            TomlValue::Table(plain)
        },
    }
}

/// Whether the key at index `i` does not come again after `i`.
pub open spec fn is_last(keys: Seq<Seq<char>>, i: int) -> bool {
    last_position(keys, keys[i]) == i
}

proof fn lemma_last_entries_make_the_table(
    keys: Seq<Seq<char>>,
    values: Seq<TomlModel>,
    picked: Seq<int>,
    kept_keys: Seq<Seq<char>>,
    kept_values: Seq<TomlModel>,
)
    requires
        keys.len() == values.len(),
        picked.len() == kept_keys.len(),
        picked.len() == kept_values.len(),
        picked.no_duplicates(),
        forall|k: int|
            0 <= k < picked.len() ==> 0 <= #[trigger] picked[k] < keys.len() && is_last(
                keys,
                picked[k],
            ) && kept_keys[k] == keys[picked[k]] && kept_values[k] == values[picked[k]],
        forall|p: int| 0 <= p < keys.len() && #[trigger] is_last(keys, p) ==> picked.contains(p),
    ensures
        kept_keys.no_duplicates(),
        table_of(kept_keys, kept_values) == table_of(keys, values),
{
    assert forall|a: int, b: int|
        0 <= a < kept_keys.len() && 0 <= b < kept_keys.len() && a != b implies kept_keys[a]
        != kept_keys[b] by {
        if kept_keys[a] == kept_keys[b] {
            assert(is_last(keys, picked[a]));
            assert(is_last(keys, picked[b]));
        }
    }
    assert forall|key: Seq<char>|
        table_of(kept_keys, kept_values).dom().contains(key) <==> table_of(
            keys,
            values,
        ).dom().contains(key) by {
        lemma_last_position(keys, key);
        lemma_last_position(kept_keys, key);
        let p = last_position(keys, key);
        let k = last_position(kept_keys, key);
        if p >= 0 {
            assert(is_last(keys, p));
            let at = choose|at: int| 0 <= at < picked.len() && picked[at] == p;
        }
        if k >= 0 {
            assert(kept_keys[k] == keys[picked[k]]);
        }
    }
    assert forall|key: Seq<char>| table_of(keys, values).dom().contains(key) implies table_of(
        kept_keys,
        kept_values,
    )[key] == table_of(keys, values)[key] by {
        lemma_last_position(keys, key);
        lemma_last_position(kept_keys, key);
        let p = last_position(keys, key);
        let k = last_position(kept_keys, key);
        assert(is_last(keys, p));
        let at = choose|at: int| 0 <= at < picked.len() && picked[at] == p;
    }
}

/// Whether the key of the entry at index `i` does not come again after it.
fn is_last_key(entries: &Vec<(String, TomlValue)>, i: usize) -> (last: bool)
    requires
        i < entries.len(),
    ensures
        last == is_last(keys_of(entries@), i as int),
{
    let ghost keys = keys_of(entries@);
    proof {
        lemma_last_position(keys, keys[i as int]);
    }
    let mut j: usize = i + 1;
    while j < entries.len()
        invariant
            i < j <= entries.len(),
            keys == keys_of(entries@),
            forall|k: int| i < k < j ==> keys[k] != keys[i as int],
        decreases entries.len() - j,
    {
        if same_text(entries[j].0.as_str(), entries[i].0.as_str()) {
            proof {
                assert(keys[j as int] == keys[i as int]);
                lemma_last_position(keys, keys[i as int]);
            }
            return false;
        }
        j += 1;
    }
    true
}

/// `toml::Value::clone` on a float: the copy is the same float.
#[verifier::external_body]
pub(crate) fn copy_float(float: &FloatValue) -> (copy: FloatValue)
    ensures
        copy == *float,
{
    FloatValue { held: float.held.clone() }
}

/// The `toml::Value` that holds a plain value.
pub fn value_into(value: &TomlValue) -> (held: toml::Value)
    ensures
        toml_contents(held) == value@,
    decreases value,
{
    match value {
        TomlValue::Text(s) => pack(Unpacked::Text(s.clone())),
        TomlValue::Integer(i) => pack(Unpacked::Integer(*i)),
        TomlValue::Float(f) => pack(Unpacked::Float(copy_float(f))),
        TomlValue::Boolean(b) => pack(Unpacked::Boolean(*b)),
        TomlValue::Datetime(d) => pack(Unpacked::Datetime(*d)),
        TomlValue::Array(items) => {
            let mut out: Vec<toml::Value> = Vec::new();
            let mut i: usize = 0;
            while i < items.len()
                invariant
                    i <= items.len(),
                    out.len() == i,
                    *value == TomlValue::Array(*items),
                    forall|k: int|
                        0 <= k < i ==> toml_contents(#[trigger] out@[k]) == model_of(items@[k]),
                decreases items.len() - i,
            {
                proof {
                    assert(decreases_to!(*value => value->Array_0));
                }
                let held = value_into(&items[i]);
                out.push(held);
                i += 1;
            }
            assert(held_items(out@) =~= models_of(*items));
            pack(Unpacked::Array(out))
        },
        TomlValue::Table(entries) => {
            let ghost keys = keys_of(entries@);
            let ghost values = values_of(*entries);
            let mut out: Vec<(String, toml::Value)> = Vec::new();
            let ghost mut picked: Seq<int> = Seq::empty();
            let mut i: usize = 0;
            while i < entries.len()
                invariant
                    i <= entries.len(),
                    *value == TomlValue::Table(*entries),
                    keys == keys_of(entries@),
                    values == values_of(*entries),
                    picked.len() == out.len(),
                    picked.no_duplicates(),
                    forall|k: int|
                        0 <= k < picked.len() ==> 0 <= #[trigger] picked[k] < i && is_last(
                            keys,
                            picked[k],
                        ) && held_keys(out@)[k] == keys[picked[k]] && held_values(out@)[k]
                            == values[picked[k]],
                    forall|p: int| 0 <= p < i && #[trigger] is_last(keys, p) ==> picked.contains(p),
                decreases entries.len() - i,
            {
                if is_last_key(entries, i) {
                    proof {
                        assert(decreases_to!(*value => value->Table_0));
                    }
                    let held = value_into(&entries[i].1);
                    let ghost picked_before = picked;
                    out.push((entries[i].0.clone(), held));
                    proof {
                        picked = picked.push(i as int);
                        assert forall|p: int| 0 <= p < i + 1 && #[trigger] is_last(
                            keys,
                            p,
                        ) implies picked.contains(p) by {
                            if p < i {
                                let at = choose|at: int|
                                    0 <= at < picked_before.len() && picked_before[at] == p;
                                assert(picked[at] == p);
                            } else {
                                assert(picked[picked.len() - 1] == p);
                            }
                        }
                    }
                }
                i += 1;
            }
            proof {
                lemma_last_entries_make_the_table(
                    keys,
                    values,
                    picked,
                    held_keys(out@),
                    held_values(out@),
                );
            }
            pack(Unpacked::Table(out))
        },
    }
}

/// Reads a TOML document: the top-level table of `text`, or the parser's
/// message where `text` is not valid TOML.
pub fn parse_document(text: &str) -> (parsed: Result<TomlValue, String>)
    ensures
        match parsed {
            Ok(document) => document is Table && toml_document(text@) == Some(document@),
            Err(_) => toml_document(text@) is None,
        },
{
    match parse_toml(text) {
        Ok(held) => Ok(value_from(&held)),
        Err(message) => Err(message),
    }
}

/// Writes a TOML document: the text of `document`, or the serializer's
/// message where the value cannot be written as a document.
pub fn render_document(document: &TomlValue) -> (text: Result<String, String>)
    ensures
        match text {
            Ok(t) => toml_text(document@) == Some(t@),
            Err(_) => toml_text(document@) is None,
        },
{
    let held = value_into(document);
    render_toml(&held)
}

} // verus!
