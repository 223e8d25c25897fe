//! JSON values: what a `serde_json::Value` holds, and the calls that read and make one.
use vstd::prelude::*;

use crate::ColumnMeta;
use crate::text::{signed_decimal, texts};

verus! {

/// What a JSON value holds. A number is an integer, or a floating-point number given by its
/// JSON text, the shortest one that reads back as the same number.
pub enum Json {
    Null,
    Bool(bool),
    Integer(int),
    Float(Seq<char>),
    Text(Seq<char>),
    Array(Seq<Json>),
    Object(Map<Seq<char>, Json>),
}

/// A borrowed look at a JSON value. The logic reads neither a number nor an array from here.
pub enum JsonRef<'a> {
    Null,
    Bool(bool),
    Number,
    Text(&'a str),
    Array,
    Object(&'a serde_json::Map<String, serde_json::Value>),
}

/// `serde_json::Value`, an opaque JSON value; `json_tree` names what it holds.
#[verifier::external_type_specification]
#[verifier::external_body]
pub struct ExValue(serde_json::Value);

/// `serde_json::Map`, an opaque JSON object; `object_tree` names what it holds.
#[verifier::external_type_specification]
#[verifier::external_body]
#[verifier::reject_recursive_types(K)]
#[verifier::reject_recursive_types(V)]
pub struct ExMap<K, V>(serde_json::Map<K, V>);

/// What a JSON value holds.
pub uninterp spec fn json_tree(value: serde_json::Value) -> Json;

/// The entries of a JSON object.
pub uninterp spec fn object_tree(
    object: serde_json::Map<String, serde_json::Value>,
) -> Map<Seq<char>, Json>;

/// The compact JSON text that `serde_json::to_string` gives of a value.
pub uninterp spec fn compact_json(tree: Json) -> Seq<char>;

/// The entries of an empty object.
pub open spec fn no_entries() -> Map<Seq<char>, Json> {
    Map::empty()
}

/// What each of some JSON values holds.
pub open spec fn trees(values: Seq<serde_json::Value>) -> Seq<Json> {
    values.map_values(|value: serde_json::Value| json_tree(value))
}

/// The integer that a value holds, if it fits into an `i64`.
pub open spec fn signed_integer(tree: Json) -> Option<i64> {
    match tree {
        Json::Integer(i) => if i64::MIN <= i <= i64::MAX {
            Some(i as i64)
        } else {
            None
        },
        _ => None,
    }
}

/// The integer that a value holds, if it fits into a `u64`.
pub open spec fn unsigned_integer(tree: Json) -> Option<u64> {
    match tree {
        Json::Integer(i) => if 0 <= i <= u64::MAX {
            Some(i as u64)
        } else {
            None
        },
        _ => None,
    }
}

/// The text of a value in compact JSON: of a number its digits, of anything else what
/// `compact_json` names.
pub open spec fn json_text(tree: Json) -> Seq<char> {
    match tree {
        Json::Integer(i) => signed_decimal(i),
        Json::Float(text) => text,
        _ => compact_json(tree),
    }
}

/// What `name` is mapped to in a row; a row that is not an object maps nothing.
pub open spec fn cell_of(row: Json, name: Seq<char>) -> Option<Json> {
    match row {
        Json::Object(entries) => if entries.contains_key(name) {
            Some(entries[name])
        } else {
            None
        },
        _ => None,
    }
}

/// Tells the variants of `serde_json::Value` apart; the claim is that `json_tree` tells them
/// apart in the same way and that the parts of the value hold what it says.
#[verifier::external_body]
pub(crate) fn inspect<'a>(value: &'a serde_json::Value) -> (r: JsonRef<'a>)
    ensures
        match json_tree(*value) {
            Json::Null => r is Null,
            Json::Bool(flag) => r == JsonRef::Bool(flag),
            Json::Integer(_) | Json::Float(_) => r is Number,
            Json::Text(text) => r matches JsonRef::Text(part) && part@ == text,
            Json::Array(_) => r is Array,
            Json::Object(entries) => r matches JsonRef::Object(part) && object_tree(*part)
                == entries,
        },
{
    match value {
        serde_json::Value::Null => JsonRef::Null,
        serde_json::Value::Bool(flag) => JsonRef::Bool(*flag),
        serde_json::Value::Number(_) => JsonRef::Number,
        serde_json::Value::String(text) => JsonRef::Text(text.as_str()),
        serde_json::Value::Array(_) => JsonRef::Array,
        serde_json::Value::Object(entries) => JsonRef::Object(entries),
    }
}

/// `serde_json::Value::as_i64`: the integer, if the value is one and an `i64` can hold it.
pub assume_specification[ serde_json::Value::as_i64 ](value: &serde_json::Value) -> (r: Option<i64>)
    ensures
        r == signed_integer(json_tree(*value)),
;

/// `serde_json::Value::as_u64`: the integer, if the value is one and a `u64` can hold it.
pub assume_specification[ serde_json::Value::as_u64 ](value: &serde_json::Value) -> (r: Option<u64>)
    ensures
        r == unsigned_integer(json_tree(*value)),
;

/// `serde_json::Map::get`: the value under the key, if there is one.
#[verifier::external_body]
pub(crate) fn entry<'a>(
    object: &'a serde_json::Map<String, serde_json::Value>,
    key: &str,
) -> (r: Option<&'a serde_json::Value>)
    ensures
        match r {
            Some(value) => object_tree(*object).contains_key(key@) && object_tree(*object)[key@]
                == json_tree(*value),
            None => !object_tree(*object).contains_key(key@),
        },
{
    object.get(key)
}

/// `serde_json::Map::new`: an object without entries.
#[verifier::external_body]
pub(crate) fn new_object() -> (r: serde_json::Map<String, serde_json::Value>)
    ensures
        object_tree(r) == no_entries(),
{
    serde_json::Map::new()
}

/// `serde_json::Map::insert`: the key is mapped to the value, in place of what it was mapped to
/// before; the other entries stay.
#[verifier::external_body]
pub(crate) fn insert_entry(
    object: &mut serde_json::Map<String, serde_json::Value>,
    key: String,
    value: serde_json::Value,
)
    ensures
        object_tree(*final(object)) == object_tree(*old(object)).insert(key@, json_tree(value)),
{
    object.insert(key, value);
}

/// `serde_json::Value::Null`: the null value.
#[verifier::external_body]
pub(crate) fn null_value() -> (r: serde_json::Value)
    ensures
        json_tree(r) == Json::Null,
{
    serde_json::Value::Null
}

/// `serde_json::Value::Bool`: the truth value.
#[verifier::external_body]
pub(crate) fn bool_value(flag: bool) -> (r: serde_json::Value)
    ensures
        json_tree(r) == Json::Bool(flag),
{
    serde_json::Value::Bool(flag)
}

/// `serde_json::Number::from` of an `i64`: the integer.
#[verifier::external_body]
pub(crate) fn signed_value(number: i64) -> (r: serde_json::Value)
    ensures
        json_tree(r) == Json::Integer(number as int),
{
    serde_json::Value::Number(serde_json::Number::from(number))
}

/// `serde_json::Number::from` of a `u64`: the integer.
#[verifier::external_body]
pub(crate) fn unsigned_value(number: u64) -> (r: serde_json::Value)
    ensures
        json_tree(r) == Json::Integer(number as int),
{
    serde_json::Value::Number(serde_json::Number::from(number))
}

/// `serde_json::Value::String`: the text.
#[verifier::external_body]
pub(crate) fn text_value(text: String) -> (r: serde_json::Value)
    ensures
        json_tree(r) == Json::Text(text@),
{
    serde_json::Value::String(text)
}

/// `serde_json::Value::Array`: the items in their order.
#[verifier::external_body]
pub(crate) fn array_value(items: Vec<serde_json::Value>) -> (r: serde_json::Value)
    ensures
        json_tree(r) == Json::Array(trees(items@)),
{
    serde_json::Value::Array(items)
}

/// `serde_json::Value::Object`: the entries of the object.
#[verifier::external_body]
pub(crate) fn object_value(object: serde_json::Map<String, serde_json::Value>) -> (r:
    serde_json::Value)
    ensures
        json_tree(r) == Json::Object(object_tree(object)),
{
    serde_json::Value::Object(object)
}

/// `serde_json::to_string`: the value in compact JSON. The text is a function of what the value
/// holds, since an object is written in the order of its keys; a number is written as its
/// digits. Writing a `Value` does not fail.
#[verifier::external_body]
pub(crate) fn to_json(value: &serde_json::Value) -> (r: String)
    ensures
        r@ == (match json_tree(*value) {
            Json::Integer(i) => signed_decimal(i),
            Json::Float(text) => text,
            tree => compact_json(tree),
        }),
{
    serde_json::to_string(value).unwrap_or_default()
}

/// The cell of a row under a column name: nothing where the row is not an object or has no such
/// entry.
pub fn cell<'a>(row: &'a serde_json::Value, name: &str) -> (r: Option<&'a serde_json::Value>)
    ensures
        match r {
            Some(value) => cell_of(json_tree(*row), name@) == Some(json_tree(*value)),
            None => cell_of(json_tree(*row), name@) is None,
        },
{
    match inspect(row) {
        JsonRef::Object(object) => entry(object, name),
        _ => None,
    }
}

/// A floating-point number of a database: as a JSON number where it is finite, and as text.
pub struct FloatCell {
    pub number: Option<serde_json::Value>,
    pub text: String,
}

/// Whether the number of a cell is one, if it is there.
pub open spec fn is_float_cell(cell: FloatCell) -> bool {
    match cell.number {
        Some(number) => json_tree(number) is Integer || json_tree(number) is Float,
        None => true,
    }
}

/// What a floating-point number is in JSON: a number where it is finite, or else a text.
pub open spec fn float_json(cell: FloatCell) -> Json {
    match cell.number {
        Some(number) => json_tree(number),
        None => Json::Text(cell.text@),
    }
}

/// A floating-point number in JSON: a number where it is finite, or else a text.
pub fn f64_to_json(cell: FloatCell) -> (r: serde_json::Value)
    ensures
        json_tree(r) == float_json(cell),
{
    match cell.number {
        Some(number) => number,
        None => text_value(cell.text),
    }
}

/// The entries of a row: each name with its value, the last one where a name comes twice.
pub open spec fn row_entries(names: Seq<Seq<char>>, values: Seq<Json>) -> Map<Seq<char>, Json>
    decreases names.len(),
{
    if names.len() == 0 {
        Map::empty()
    } else {
        row_entries(names.drop_last(), values.drop_last()).insert(names.last(), values.last())
    }
}

/// The names of some columns.
pub open spec fn column_names(columns: Seq<ColumnMeta>) -> Seq<Seq<char>> {
    columns.map_values(|column: ColumnMeta| column.name@)
}

/// An object with a value under each name.
pub fn keyed_object(names: &[String], values: Vec<serde_json::Value>) -> (r: serde_json::Value)
    requires
        names@.len() == values@.len(),
    ensures
        json_tree(r) == Json::Object(row_entries(texts(names@), trees(values@))),
{
    let mut object = new_object();
    let ghost keys = texts(names@);
    let ghost contents = trees(values@);
    let mut i: usize = 0;
    for value in it: values.into_iter()
        invariant
            it.seq() == values@,
            i == it.index(),
            values@.len() == names@.len(),
            keys == texts(names@),
            contents == trees(values@),
            object_tree(object) == row_entries(
                keys.take(it.index() as int),
                contents.take(it.index() as int),
            ),
    {
        insert_entry(&mut object, names[i].clone(), value);
        proof {
            let next = i + 1;
            assert(keys.take(next).drop_last() =~= keys.take(i as int));
            assert(contents.take(next).drop_last() =~= contents.take(i as int));
        }
        i = i + 1;
    }
    assert(keys.take(keys.len() as int) =~= keys);
    assert(contents.take(contents.len() as int) =~= contents);
    object_value(object)
}

/// The names of some columns, in their order.
pub fn names_of(columns: &[ColumnMeta]) -> (r: Vec<String>)
    ensures
        texts(r@) == column_names(columns@),
{
    let mut names: Vec<String> = Vec::new();
    let mut i: usize = 0;
    while i < columns.len()
        invariant
            i <= columns.len(),
            names@.len() == i,
            forall|j: int| 0 <= j < i ==> (#[trigger] names@[j])@ == columns@[j].name@,
        decreases columns.len() - i,
    {
        names.push(columns[i].name.clone());
        i = i + 1;
    }
    assert(texts(names@) =~= column_names(columns@));
    names
}

/// A row: an object with a value for each column, under its name.
pub fn row_object(columns: &[ColumnMeta], values: Vec<serde_json::Value>) -> (r: serde_json::Value)
    requires
        columns@.len() == values@.len(),
    ensures
        json_tree(r) == Json::Object(row_entries(column_names(columns@), trees(values@))),
{
    let names: Vec<String> = names_of(columns);
    assert(names@.len() == texts(names@).len());
    keyed_object(names.as_slice(), values)
}

/// The cell of a row under the name of a column is the value of that column, or of the last
/// column of that name.
pub proof fn law_row_gives_back_its_values(names: Seq<Seq<char>>, values: Seq<Json>, i: int)
    requires
        names.len() == values.len(),
        0 <= i < names.len(),
        forall|j: int| i < j < names.len() ==> names[j] != names[i],
    ensures
        cell_of(Json::Object(row_entries(names, values)), names[i]) == Some(values[i]),
    decreases names.len(),
{
    if i < names.len() - 1 {
        assert(names.last() != names[i]);
        law_row_gives_back_its_values(names.drop_last(), values.drop_last(), i);
    }
}

/// A row has no cell under a name that no column has.
pub proof fn law_row_has_no_other_cells(names: Seq<Seq<char>>, values: Seq<Json>, name: Seq<char>)
    requires
        names.len() == values.len(),
        !names.contains(name),
    ensures
        cell_of(Json::Object(row_entries(names, values)), name) is None,
    decreases names.len(),
{
    if names.len() > 0 {
        assert(names.contains(names.last()));
        assert forall|k: int| 0 <= k < names.len() - 1 implies names.drop_last()[k] != name by {
            assert(names.contains(names[k]));
        }
        law_row_has_no_other_cells(names.drop_last(), values.drop_last(), name);
    }
}

/// What some values hold is what each of them holds, in their order.
pub proof fn law_trees_of_values(values: Seq<serde_json::Value>, i: int)
    requires
        0 <= i < values.len(),
    ensures
        trees(values).len() == values.len(),
        trees(values)[i] == json_tree(values[i]),
        trees(seq![]) == Seq::<Json>::empty(),
{
    assert(trees(seq![]) =~= Seq::<Json>::empty());
}

/// A row that is an object has the cells of its entries; a row that is not has none.
pub proof fn law_cells_are_the_entries(
    entries: Map<Seq<char>, Json>,
    row: Json,
    name: Seq<char>,
    value: Json,
)
    ensures
        entries.contains_key(name) ==> cell_of(Json::Object(entries), name) == Some(entries[name]),
        !entries.contains_key(name) ==> cell_of(Json::Object(entries), name) is None,
        cell_of(Json::Object(entries.insert(name, value)), name) == Some(value),
        row !is Object ==> cell_of(row, name) is None,
        no_entries().dom() == Set::<Seq<char>>::empty(),
{
}

/// A value is read as an integer exactly where it is one that has room, and as that integer.
pub proof fn law_integers_are_read_as_they_are(i: int, tree: Json)
    ensures
        -0x8000_0000_0000_0000 <= i <= 0x7fff_ffff_ffff_ffff ==> signed_integer(
            Json::Integer(i),
        ) == Some(i as i64),
        !(-0x8000_0000_0000_0000 <= i <= 0x7fff_ffff_ffff_ffff) ==> signed_integer(
            Json::Integer(i),
        ) is None,
        0 <= i <= 0xffff_ffff_ffff_ffff ==> unsigned_integer(Json::Integer(i)) == Some(i as u64),
        !(0 <= i <= 0xffff_ffff_ffff_ffff) ==> unsigned_integer(Json::Integer(i)) is None,
        tree !is Integer ==> signed_integer(tree) is None && unsigned_integer(tree) is None,
{
}

/// The JSON text of a number is its digits: different integers have different texts.
pub proof fn law_number_texts(i: int, j: int, text: Seq<char>)
    ensures
        json_text(Json::Integer(i)) == signed_decimal(i),
        json_text(Json::Float(text)) == text,
        json_text(Json::Integer(i)) == json_text(Json::Integer(j)) ==> i == j,
{
    if signed_decimal(i) == signed_decimal(j) {
        crate::text::law_different_numbers_differ(i, j);
    }
}

/// A floating-point number is the JSON number that it was given with, or else its text.
pub proof fn law_float_is_its_number_or_its_text(number: serde_json::Value, text: String)
    ensures
        float_json(FloatCell { number: Some(number), text }) == json_tree(number),
        float_json(FloatCell { number: None, text }) == Json::Text(text@),
        is_float_cell(FloatCell { number: None, text }),
        is_float_cell(FloatCell { number: Some(number), text }) <==> json_tree(number) is Integer
            || json_tree(number) is Float,
{
}

/// The names of some columns are those of each, in their order.
pub proof fn law_names_of_columns(columns: Seq<ColumnMeta>, i: int)
    requires
        0 <= i < columns.len(),
    ensures
        column_names(columns).len() == columns.len(),
        column_names(columns)[i] == columns[i].name@,
{
}

} // verus!
