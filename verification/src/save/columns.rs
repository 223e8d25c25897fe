//! Typed columns: the type that the values of a column share, and the column as an array of it.
use vstd::prelude::*;

use crate::json::{
    cell, cell_of, compact_json, inspect, json_text, json_tree, signed_integer, to_json, trees,
    unsigned_integer, Json, JsonRef,
};
use crate::text::{law_different_numbers_differ, optional_text, signed_decimal};
use crate::{ColumnMeta, QueryResult};

verus! {

/// The type of a column in a columnar file.
#[derive(Debug, Clone, Copy, PartialEq, Eq, Structural)]
pub enum InferredColumnType {
    Bool,
    Float64,
    Int64,
    Utf8,
}

/// Whether a value is a number.
pub open spec fn is_number(value: Json) -> bool {
    value is Integer || value is Float
}

/// Whether a value is an integer above the range of `i64`.
pub open spec fn is_large_integer(value: Json) -> bool {
    signed_integer(value) is None && unsigned_integer(value) is Some
}

/// The type that holds all of some values: a number that is not an `i64` makes floating-point
/// numbers of a column of numbers, unless it is a large integer and comes first; values that share
/// no type are texts, and so are no values at all.
pub open spec fn common_type(values: Seq<Json>) -> InferredColumnType {
    if values.len() == 0 {
        InferredColumnType::Utf8
    } else if forall|i: int| 0 <= i < values.len() ==> (#[trigger] values[i]) is Bool {
        InferredColumnType::Bool
    } else if forall|i: int| 0 <= i < values.len() ==> signed_integer(#[trigger] values[i]) is Some {
        InferredColumnType::Int64
    } else if is_large_integer(values.first()) {
        InferredColumnType::Utf8
    } else if forall|i: int| 0 <= i < values.len() ==> is_number(#[trigger] values[i]) {
        InferredColumnType::Float64
    } else {
        InferredColumnType::Utf8
    }
}

/// The values under a name in some rows, without those that are missing or null.
pub open spec fn present_values(rows: Seq<Json>, name: Seq<char>) -> Seq<Json>
    decreases rows.len(),
{
    if rows.len() == 0 {
        seq![]
    } else {
        let before = present_values(rows.drop_last(), name);
        match cell_of(rows.last(), name) {
            None | Some(Json::Null) => before,
            Some(value) => before.push(value),
        }
    }
}

/// The type of the column under a name in some rows.
pub open spec fn column_type(rows: Seq<Json>, name: Seq<char>) -> InferredColumnType {
    common_type(present_values(rows, name))
}

proof fn lemma_present_prefix(rows: Seq<Json>, name: Seq<char>, n: int)
    requires
        0 <= n <= rows.len(),
    ensures
        present_values(rows.take(n), name).len() <= present_values(rows, name).len(),
        present_values(rows.take(n), name) == present_values(rows, name).take(
            present_values(rows.take(n), name).len() as int,
        ),
    decreases rows.len(),
{
    if n < rows.len() {
        lemma_present_prefix(rows.drop_last(), name, n);
        assert(rows.drop_last().take(n) == rows.take(n));
        let part = present_values(rows.take(n), name);
        assert(present_values(rows, name).take(part.len() as int) == part);
    } else {
        assert(rows.take(n) == rows);
        let all = present_values(rows, name);
        assert(all.take(all.len() as int) == all);
    }
}

/// Values that share no type still share none with more values behind them.
proof fn lemma_text_stays_text(values: Seq<Json>, n: int)
    requires
        0 < n <= values.len(),
        common_type(values.take(n)) == InferredColumnType::Utf8,
    ensures
        common_type(values) == InferredColumnType::Utf8,
{
    let part = values.take(n);
    assert(part.first() == values.first());
    assert forall|i: int| 0 <= i < n implies part[i] == values[i] by {}
    if forall|i: int| 0 <= i < values.len() ==> (#[trigger] values[i]) is Bool {
        assert(forall|i: int| 0 <= i < n ==> (#[trigger] part[i]) is Bool);
    }
    if forall|i: int| 0 <= i < values.len() ==> signed_integer(#[trigger] values[i]) is Some {
        assert(forall|i: int| 0 <= i < n ==> signed_integer(#[trigger] part[i]) is Some);
    }
    if forall|i: int| 0 <= i < values.len() ==> is_number(#[trigger] values[i]) {
        assert(forall|i: int| 0 <= i < n ==> is_number(#[trigger] part[i]));
    }
}

/// The type after one more value, from the type before it.
pub open spec fn widened(inferred: Option<InferredColumnType>, value: Json) -> InferredColumnType {
    match (inferred, value) {
        (None, Json::Bool(_)) => InferredColumnType::Bool,
        (Some(InferredColumnType::Bool), Json::Bool(_)) => InferredColumnType::Bool,
        (None, Json::Integer(_) | Json::Float(_)) => if signed_integer(value) is Some {
            InferredColumnType::Int64
        } else if unsigned_integer(value) is Some {
            InferredColumnType::Utf8
        } else {
            InferredColumnType::Float64
        },
        (Some(InferredColumnType::Int64), Json::Integer(_) | Json::Float(_)) => if signed_integer(
            value,
        ) is Some {
            InferredColumnType::Int64
        } else {
            InferredColumnType::Float64
        },
        (Some(InferredColumnType::Float64), Json::Integer(_) | Json::Float(_)) =>
            InferredColumnType::Float64,
        _ => InferredColumnType::Utf8,
    }
}

proof fn lemma_widened(values: Seq<Json>, value: Json)
    ensures
        common_type(values.push(value)) == widened(
            if values.len() == 0 {
                None
            } else {
                Some(common_type(values))
            },
            value,
        ),
{
    let all = values.push(value);
    assert(all.last() == value);
    assert forall|i: int| 0 <= i < values.len() implies all[i] == values[i] by {}
    assert(all[values.len() as int] == value);
    if values.len() > 0 {
        assert(all.first() == values.first());
        if common_type(values) == InferredColumnType::Utf8 {
            assert(all.take(values.len() as int) == values);
            lemma_text_stays_text(all, values.len() as int);
        } else if common_type(values) == InferredColumnType::Bool {
            assert(values[0] is Bool);
        } else {
            assert(is_number(values[0]));
        }
    }
}

/// The type of the column under a name, from its values in some rows.
pub fn infer_column_type(rows: &[serde_json::Value], column_name: &str) -> (r: InferredColumnType)
    ensures
        r == column_type(trees(rows@), column_name@),
{
    let mut inferred: Option<InferredColumnType> = None;
    let mut i: usize = 0;
    let ghost all = trees(rows@);
    let ghost name = column_name@;
    while i < rows.len()
        invariant
            i <= rows.len(),
            all == trees(rows@),
            name == column_name@,
            inferred == type_so_far(present_values(all.take(i as int), name)),
        decreases rows.len() - i,
    {
        proof {
            assert(all.take(i + 1).drop_last() == all.take(i as int));
            assert(all.take(i + 1).last() == json_tree(rows@[i as int]));
            lemma_present_prefix(all, name, i + 1);
        }
        if let Some(value) = cell(&rows[i], column_name) {
            let ghost before = present_values(all.take(i as int), name);
            let ghost tree = json_tree(*value);
            let found = inspect(value);
            let is_null: bool = matches!(found, JsonRef::Null);
            if !is_null {
                proof {
                    lemma_widened(before, tree);
                    assert(present_values(all.take(i + 1), name) == before.push(tree));
                }
                let next: InferredColumnType = widen(inferred, value);
                inferred = Some(next);
                if next == InferredColumnType::Utf8 {
                    proof {
                        let seen = present_values(all.take(i + 1), name);
                        lemma_text_stays_text(present_values(all, name), seen.len() as int);
                    }
                    return InferredColumnType::Utf8;
                }
            }
        }
        i = i + 1;
    }
    assert(all.take(all.len() as int) == all);
    match inferred {
        Some(column_type) => column_type,
        None => InferredColumnType::Utf8,
    }
}

/// The type of some values, if there are any.
pub open spec fn type_so_far(values: Seq<Json>) -> Option<InferredColumnType> {
    if values.len() == 0 {
        None
    } else {
        Some(common_type(values))
    }
}

/// The type after one more value that is not null, from the type before it.
fn widen(inferred: Option<InferredColumnType>, value: &serde_json::Value) -> (r: InferredColumnType)
    requires
        json_tree(*value) !is Null,
    ensures
        r == widened(inferred, json_tree(*value)),
{
    match (inferred, inspect(value)) {
        (None, JsonRef::Bool(_)) => InferredColumnType::Bool,
        (None, JsonRef::Number) => {
            if value.as_i64().is_some() {
                InferredColumnType::Int64
            } else if value.as_u64().is_some() {
                InferredColumnType::Utf8
            } else {
                InferredColumnType::Float64
            }
        },
        (Some(InferredColumnType::Bool), JsonRef::Bool(_)) => InferredColumnType::Bool,
        (Some(InferredColumnType::Int64), JsonRef::Number) => {
            if value.as_i64().is_some() {
                InferredColumnType::Int64
            } else {
                InferredColumnType::Float64
            }
        },
        (Some(InferredColumnType::Float64), JsonRef::Number) => InferredColumnType::Float64,
        _ => InferredColumnType::Utf8,
    }
}

/// The types of some columns, from the values in some rows.
pub fn infer_column_types(columns: &[ColumnMeta], rows: &[serde_json::Value]) -> (r: Vec<
    InferredColumnType,
>)
    ensures
        r@ == column_types(columns@, trees(rows@)),
{
    let mut types: Vec<InferredColumnType> = Vec::new();
    let mut i: usize = 0;
    while i < columns.len()
        invariant
            i <= columns.len(),
            types@ == column_types(columns@, trees(rows@)).take(i as int),
        decreases columns.len() - i,
    {
        types.push(infer_column_type(rows, columns[i].name.as_str()));
        i = i + 1;
    }
    types
}

/// The types of some columns in some rows.
pub open spec fn column_types(columns: Seq<ColumnMeta>, rows: Seq<Json>) -> Seq<
    InferredColumnType,
> {
    columns.map_values(|column: ColumnMeta| column_type(rows, column@.name))
}

/// A cell as text: nothing of a missing cell or a null, the bare text of a text, and the JSON text
/// of anything else.
pub open spec fn cell_text(cell: Option<Json>) -> Seq<char> {
    match cell {
        None | Some(Json::Null) => seq![],
        Some(Json::Bool(true)) => "true"@,
        Some(Json::Bool(false)) => "false"@,
        Some(Json::Text(text)) => text,
        Some(value) => json_text(value),
    }
}

/// What a cell may hold, if there is a cell.
pub open spec fn tree_of(cell: Option<&serde_json::Value>) -> Option<Json> {
    match cell {
        Some(value) => Some(json_tree(*value)),
        None => None,
    }
}

/// A cell as text.
pub fn stringify_cell(value: Option<&serde_json::Value>) -> (r: String)
    ensures
        r@ == cell_text(tree_of(value)),
{
    match value {
        None => String::new(),
        Some(value) => match inspect(value) {
            JsonRef::Null => String::new(),
            JsonRef::Bool(true) => "true".to_owned(),
            JsonRef::Bool(false) => "false".to_owned(),
            JsonRef::Text(text) => text.to_owned(),
            JsonRef::Number | JsonRef::Array | JsonRef::Object(_) => to_json(value),
        },
    }
}

/// The column under a name as an array, with an item for each row. A floating-point number is
/// left in its JSON value.
pub enum ColumnArray<'a> {
    Bool(Vec<Option<bool>>),
    Float64(Vec<Option<&'a serde_json::Value>>),
    Int64(Vec<Option<i64>>),
    Utf8(Vec<Option<String>>),
}

/// What an array of a column holds.
pub enum ArrayView {
    Bool(Seq<Option<bool>>),
    Float64(Seq<Option<Json>>),
    Int64(Seq<Option<i64>>),
    Utf8(Seq<Option<Seq<char>>>),
}

impl<'a> View for ColumnArray<'a> {
    type V = ArrayView;

    open spec fn view(&self) -> ArrayView {
        match self {
            ColumnArray::Bool(items) => ArrayView::Bool(items@),
            ColumnArray::Float64(items) => ArrayView::Float64(
                items@.map_values(|item: Option<&serde_json::Value>| tree_of(item)),
            ),
            ColumnArray::Int64(items) => ArrayView::Int64(items@),
            ColumnArray::Utf8(items) => ArrayView::Utf8(
                items@.map_values(|item: Option<String>| optional_text(item)),
            ),
        }
    }
}

/// The item of a column of truth values.
pub open spec fn bool_item(cell: Option<Json>) -> Option<bool> {
    match cell {
        Some(Json::Bool(flag)) => Some(flag),
        _ => None,
    }
}

/// The item of a column of integers.
pub open spec fn int_item(cell: Option<Json>) -> Option<i64> {
    match cell {
        Some(value) => signed_integer(value),
        None => None,
    }
}

/// The item of a column of floating-point numbers.
pub open spec fn float_item(cell: Option<Json>) -> Option<Json> {
    match cell {
        Some(value) if is_number(value) => Some(value),
        _ => None,
    }
}

/// The item of a column of texts.
pub open spec fn text_item(cell: Option<Json>) -> Option<Seq<char>> {
    match cell {
        None | Some(Json::Null) => None,
        Some(_) => Some(cell_text(cell)),
    }
}

/// The column under a name in some rows as an array: a cell that the type cannot hold is left out.
pub open spec fn column_array(
    rows: Seq<Json>,
    name: Seq<char>,
    inferred_type: InferredColumnType,
) -> ArrayView {
    match inferred_type {
        InferredColumnType::Bool => ArrayView::Bool(
            rows.map_values(|row: Json| bool_item(cell_of(row, name))),
        ),
        InferredColumnType::Int64 => ArrayView::Int64(
            rows.map_values(|row: Json| int_item(cell_of(row, name))),
        ),
        InferredColumnType::Float64 => ArrayView::Float64(
            rows.map_values(|row: Json| float_item(cell_of(row, name))),
        ),
        InferredColumnType::Utf8 => ArrayView::Utf8(
            rows.map_values(|row: Json| text_item(cell_of(row, name))),
        ),
    }
}

/// The column under a name as an array of a type.
pub fn build_array<'a>(
    rows: &'a [serde_json::Value],
    column_name: &str,
    inferred_type: InferredColumnType,
) -> (r: ColumnArray<'a>)
    ensures
        r@ == column_array(trees(rows@), column_name@, inferred_type),
{
    match inferred_type {
        InferredColumnType::Bool => ColumnArray::Bool(build_bool_items(rows, column_name)),
        InferredColumnType::Int64 => ColumnArray::Int64(build_int_items(rows, column_name)),
        InferredColumnType::Float64 => ColumnArray::Float64(build_float_items(rows, column_name)),
        InferredColumnType::Utf8 => ColumnArray::Utf8(build_text_items(rows, column_name)),
    }
}

fn build_bool_items(rows: &[serde_json::Value], column_name: &str) -> (r: Vec<Option<bool>>)
    ensures
        r@ == trees(rows@).map_values(|row: Json| bool_item(cell_of(row, column_name@))),
{
    let mut items: Vec<Option<bool>> = Vec::new();
    let mut i: usize = 0;
    while i < rows.len()
        invariant
            i <= rows.len(),
            items.len() == i,
            forall|j: int| 0 <= j < i ==> #[trigger] items@[j] == bool_item(
                cell_of(json_tree(rows@[j]), column_name@),
            ),
        decreases rows.len() - i,
    {
        let item: Option<bool> = match cell(&rows[i], column_name) {
            Some(value) => match inspect(value) {
                JsonRef::Bool(flag) => Some(flag),
                _ => None,
            },
            None => None,
        };
        items.push(item);
        i = i + 1;
    }
    items
}

fn build_int_items(rows: &[serde_json::Value], column_name: &str) -> (r: Vec<Option<i64>>)
    ensures
        r@ == trees(rows@).map_values(|row: Json| int_item(cell_of(row, column_name@))),
{
    let mut items: Vec<Option<i64>> = Vec::new();
    let mut i: usize = 0;
    while i < rows.len()
        invariant
            i <= rows.len(),
            items.len() == i,
            forall|j: int| 0 <= j < i ==> #[trigger] items@[j] == int_item(
                cell_of(json_tree(rows@[j]), column_name@),
            ),
        decreases rows.len() - i,
    {
        let item: Option<i64> = match cell(&rows[i], column_name) {
            Some(value) => value.as_i64(),
            None => None,
        };
        items.push(item);
        i = i + 1;
    }
    items
}

fn build_float_items<'a>(rows: &'a [serde_json::Value], column_name: &str) -> (r: Vec<
    Option<&'a serde_json::Value>,
>)
    ensures
        r@.map_values(|item: Option<&serde_json::Value>| tree_of(item)) == trees(rows@).map_values(
            |row: Json| float_item(cell_of(row, column_name@)),
        ),
{
    let mut items: Vec<Option<&'a serde_json::Value>> = Vec::new();
    let mut i: usize = 0;
    while i < rows.len()
        invariant
            i <= rows.len(),
            items.len() == i,
            forall|j: int| 0 <= j < i ==> tree_of(#[trigger] items@[j]) == float_item(
                cell_of(json_tree(rows@[j]), column_name@),
            ),
        decreases rows.len() - i,
    {
        let item: Option<&'a serde_json::Value> = match cell(&rows[i], column_name) {
            Some(value) => match inspect(value) {
                JsonRef::Number => Some(value),
                _ => None,
            },
            None => None,
        };
        items.push(item);
        i = i + 1;
    }
    items
}

fn build_text_items(rows: &[serde_json::Value], column_name: &str) -> (r: Vec<Option<String>>)
    ensures
        r@.map_values(|item: Option<String>| optional_text(item)) == trees(rows@).map_values(
            |row: Json| text_item(cell_of(row, column_name@)),
        ),
{
    let mut items: Vec<Option<String>> = Vec::new();
    let mut i: usize = 0;
    while i < rows.len()
        invariant
            i <= rows.len(),
            items.len() == i,
            forall|j: int| 0 <= j < i ==> optional_text(#[trigger] items@[j]) == text_item(
                cell_of(json_tree(rows@[j]), column_name@),
            ),
        decreases rows.len() - i,
    {
        let item: Option<String> = match cell(&rows[i], column_name) {
            Some(value) => match inspect(value) {
                JsonRef::Null => None,
                _ => Some(stringify_cell(Some(value))),
            },
            None => None,
        };
        items.push(item);
        i = i + 1;
    }
    items
}

/// A field of the schema of a columnar file.
#[derive(Debug)]
pub struct SchemaField {
    pub name: String,
    pub data_type: InferredColumnType,
    pub nullable: bool,
}

/// A field of a schema, with its name as text.
pub struct FieldView {
    pub name: Seq<char>,
    pub data_type: InferredColumnType,
    pub nullable: bool,
}

impl View for SchemaField {
    type V = FieldView;

    open spec fn view(&self) -> FieldView {
        FieldView { name: self.name@, data_type: self.data_type, nullable: self.nullable }
    }
}

/// The fields of some columns with the given types, each of which may be null. Columns and types
/// are paired as far as both go.
pub open spec fn schema_of(columns: Seq<ColumnMeta>, types: Seq<InferredColumnType>) -> Seq<
    FieldView,
> {
    Seq::new(
        paired(columns, types),
        |i: int| FieldView { name: columns[i]@.name, data_type: types[i], nullable: true },
    )
}

/// The number of pairs of a column and a type.
pub open spec fn paired(columns: Seq<ColumnMeta>, types: Seq<InferredColumnType>) -> nat {
    if columns.len() <= types.len() {
        columns.len()
    } else {
        types.len()
    }
}

/// The fields of a schema.
pub open spec fn field_views(fields: Seq<SchemaField>) -> Seq<FieldView> {
    fields.map_values(|field: SchemaField| field@)
}

/// What some arrays hold.
pub open spec fn array_views<'a>(arrays: Seq<ColumnArray<'a>>) -> Seq<ArrayView> {
    arrays.map_values(|array: ColumnArray<'a>| array@)
}

/// The schema of some columns with the given types.
pub fn build_schema(columns: &[ColumnMeta], inferred_types: &[InferredColumnType]) -> (r: Vec<
    SchemaField,
>)
    ensures
        field_views(r@) == schema_of(columns@, inferred_types@),
{
    let mut fields: Vec<SchemaField> = Vec::new();
    let mut i: usize = 0;
    while i < columns.len() && i < inferred_types.len()
        invariant
            i <= paired(columns@, inferred_types@),
            fields.len() == i,
            forall|j: int| 0 <= j < i ==> (#[trigger] fields@[j])@ == schema_of(
                columns@,
                inferred_types@,
            )[j],
        decreases columns.len() - i,
    {
        fields.push(
            SchemaField {
                name: columns[i].name.clone(),
                data_type: inferred_types[i],
                nullable: true,
            },
        );
        i = i + 1;
    }
    fields
}

/// Rows of a query result as typed columns.
pub struct RecordColumns<'a> {
    pub schema: Vec<SchemaField>,
    pub arrays: Vec<ColumnArray<'a>>,
}

/// The schema and the arrays of typed columns.
pub struct RecordView {
    pub schema: Seq<FieldView>,
    pub arrays: Seq<ArrayView>,
}

impl<'a> View for RecordColumns<'a> {
    type V = RecordView;

    open spec fn view(&self) -> RecordView {
        RecordView { schema: field_views(self.schema@), arrays: array_views(self.arrays@) }
    }
}

/// Some rows as columns of the given types.
pub open spec fn record_of(
    columns: Seq<ColumnMeta>,
    rows: Seq<Json>,
    types: Seq<InferredColumnType>,
) -> RecordView {
    RecordView { schema: schema_of(columns, types), arrays: record_arrays(columns, rows, types) }
}

/// The arrays of some columns with the given types.
pub open spec fn record_arrays(
    columns: Seq<ColumnMeta>,
    rows: Seq<Json>,
    types: Seq<InferredColumnType>,
) -> Seq<ArrayView> {
    Seq::new(
        paired(columns, types),
        |i: int| column_array(rows, columns[i]@.name, types[i]),
    )
}

/// Some rows as columns of the given types.
pub fn build_record_batch_from_parts<'a>(
    columns: &[ColumnMeta],
    rows: &'a [serde_json::Value],
    inferred_types: &[InferredColumnType],
) -> (r: RecordColumns<'a>)
    ensures
        r@ == record_of(columns@, trees(rows@), inferred_types@),
{
    let schema: Vec<SchemaField> = build_schema(columns, inferred_types);
    let mut arrays: Vec<ColumnArray<'a>> = Vec::new();
    let mut i: usize = 0;
    while i < columns.len() && i < inferred_types.len()
        invariant
            i <= paired(columns@, inferred_types@),
            arrays.len() == i,
            forall|j: int| 0 <= j < i ==> (#[trigger] arrays@[j])@ == record_arrays(
                columns@,
                trees(rows@),
                inferred_types@,
            )[j],
        decreases columns.len() - i,
    {
        arrays.push(build_array(rows, columns[i].name.as_str(), inferred_types[i]));
        i = i + 1;
    }
    assert(array_views(arrays@) =~= record_arrays(columns@, trees(rows@), inferred_types@));
    RecordColumns { schema, arrays }
}

/// The rows of a query result as columns of the types that their values share.
pub fn build_record_batch<'a>(query_result: &'a QueryResult) -> (r: RecordColumns<'a>)
    ensures
        ({
            let rows = trees(query_result.rows@);
            let types = column_types(query_result.columns@, rows);
            r@ == record_of(query_result.columns@, rows, types)
        }),
{
    let inferred_types: Vec<InferredColumnType> = infer_column_types(
        query_result.columns.as_slice(),
        query_result.rows.as_slice(),
    );
    build_record_batch_from_parts(
        query_result.columns.as_slice(),
        query_result.rows.as_slice(),
        inferred_types.as_slice(),
    )
}

/// Whether an array has no value at an index.
pub open spec fn is_null_at(array: ArrayView, i: int) -> bool {
    match array {
        ArrayView::Bool(items) => items[i] is None,
        ArrayView::Float64(items) => items[i] is None,
        ArrayView::Int64(items) => items[i] is None,
        ArrayView::Utf8(items) => items[i] is None,
    }
}

/// The number of items of an array.
pub open spec fn array_len(array: ArrayView) -> nat {
    match array {
        ArrayView::Bool(items) => items.len(),
        ArrayView::Float64(items) => items.len(),
        ArrayView::Int64(items) => items.len(),
        ArrayView::Utf8(items) => items.len(),
    }
}

proof fn lemma_present_contains(rows: Seq<Json>, name: Seq<char>, i: int)
    requires
        0 <= i < rows.len(),
        cell_of(rows[i], name) is Some,
        cell_of(rows[i], name) != Some(Json::Null),
    ensures
        present_values(rows, name).contains(cell_of(rows[i], name).unwrap()),
    decreases rows.len(),
{
    let wanted = cell_of(rows[i], name).unwrap();
    let all = present_values(rows, name);
    let before = present_values(rows.drop_last(), name);
    if i == rows.len() - 1 {
        assert(all == before.push(wanted));
        assert(all[before.len() as int] == wanted);
    } else {
        lemma_present_contains(rows.drop_last(), name, i);
        let k = choose|k: int| 0 <= k < before.len() && before[k] == wanted;
        assert(all[k] == wanted);
    }
}

/// An array of any type has one item for each row.
pub proof fn law_array_has_an_item_for_each_row(
    rows: Seq<Json>,
    name: Seq<char>,
    inferred_type: InferredColumnType,
)
    ensures
        array_len(column_array(rows, name, inferred_type)) == rows.len(),
{
}

/// A column that is saved with the type inferred from its own rows loses no value: an item is null
/// exactly where the cell is missing or null.
pub proof fn law_inferred_type_keeps_every_value(rows: Seq<Json>, name: Seq<char>, i: int)
    requires
        0 <= i < rows.len(),
    ensures
        is_null_at(column_array(rows, name, column_type(rows, name)), i) <==> (cell_of(
            rows[i],
            name,
        ) is None || cell_of(rows[i], name) == Some(Json::Null)),
{
    let cell = cell_of(rows[i], name);
    if cell is Some && cell != Some(Json::Null) {
        lemma_present_contains(rows, name, i);
        let values = present_values(rows, name);
        let k = choose|k: int| 0 <= k < values.len() && values[k] == cell.unwrap();
        assert(values[k] == cell.unwrap());
        assert(common_type(values) == InferredColumnType::Float64 ==> is_number(values[k]));
    }
}

/// The order of the rows changes no type, but for large integers: where no value is one, two
/// columns with the same values have the same type.
pub proof fn law_type_ignores_order(left: Seq<Json>, right: Seq<Json>)
    requires
        left.to_multiset() == right.to_multiset(),
        forall|i: int| 0 <= i < left.len() ==> !is_large_integer(#[trigger] left[i]),
    ensures
        common_type(left) == common_type(right),
{
    left.to_multiset_ensures();
    right.to_multiset_ensures();
    assert(left.len() == right.len());
    assert forall|i: int| 0 <= i < right.len() implies left.contains(#[trigger] right[i]) by {
        assert(right.to_multiset().count(right[i]) > 0);
    }
    assert forall|i: int| 0 <= i < left.len() implies right.contains(#[trigger] left[i]) by {
        assert(left.to_multiset().count(left[i]) > 0);
    }
    if left.len() > 0 {
        assert(left.contains(right[0]));
    }
}

/// The text of a cell that holds a text is that text, character by character; truth values are
/// `true` and `false`, integers are their digits, and a cell that is missing or null has no text.
pub proof fn law_cell_texts(text: Seq<char>, i: int)
    ensures
        cell_text(Some(Json::Text(text))) == text,
        cell_text(Some(Json::Bool(true))) == seq!['t', 'r', 'u', 'e'],
        cell_text(Some(Json::Bool(false))) == seq!['f', 'a', 'l', 's', 'e'],
        cell_text(Some(Json::Integer(i))) == signed_decimal(i),
        cell_text(Some(Json::Float(text))) == text,
        cell_text(Some(Json::Null)).len() == 0,
        cell_text(None).len() == 0,
{
    reveal_strlit("true");
    reveal_strlit("false");
    assert("true"@ =~= seq!['t', 'r', 'u', 'e']);
    assert("false"@ =~= seq!['f', 'a', 'l', 's', 'e']);
}

/// Cells that hold different texts, or different integers, have different texts.
pub proof fn law_different_cells_have_different_texts(
    left: Seq<char>,
    right: Seq<char>,
    i: int,
    j: int,
)
    ensures
        cell_text(Some(Json::Text(left))) == cell_text(Some(Json::Text(right))) ==> left == right,
        cell_text(Some(Json::Integer(i))) == cell_text(Some(Json::Integer(j))) ==> i == j,
{
    if signed_decimal(i) == signed_decimal(j) {
        law_different_numbers_differ(i, j);
    }
}

/// The text of an array or an object is its JSON text.
pub proof fn law_nested_cells_are_json(items: Seq<Json>, entries: Map<Seq<char>, Json>)
    ensures
        cell_text(Some(Json::Array(items))) == compact_json(Json::Array(items)),
        cell_text(Some(Json::Object(entries))) == compact_json(Json::Object(entries)),
{
}

/// What a cell holds is what its value holds.
pub proof fn law_cell_holds_its_value(value: &serde_json::Value)
    ensures
        tree_of(Some(value)) == Some(json_tree(*value)),
        tree_of(None) is None,
{
}

/// In a column of truth values the item of a row whose cell holds one is that truth value, and any
/// other cell has no item.
pub proof fn law_truth_values_are_kept(rows: Seq<Json>, name: Seq<char>, i: int, flag: bool)
    requires
        0 <= i < rows.len(),
    ensures
        column_array(rows, name, InferredColumnType::Bool) matches ArrayView::Bool(items)
            && items.len() == rows.len() && (cell_of(rows[i], name) == Some(Json::Bool(flag))
            <==> items[i] == Some(flag)),
{
}

/// In a column of integers the item of a row whose cell holds one that has room is that integer,
/// and any other cell has no item.
pub proof fn law_integers_are_kept(rows: Seq<Json>, name: Seq<char>, i: int, n: i64)
    requires
        0 <= i < rows.len(),
    ensures
        column_array(rows, name, InferredColumnType::Int64) matches ArrayView::Int64(items)
            && items.len() == rows.len() && (cell_of(rows[i], name) == Some(
            Json::Integer(n as int),
        ) <==> items[i] == Some(n)),
{
}

/// In a column of numbers the item of a row whose cell holds a number is that number, and any
/// other cell has no item.
pub proof fn law_numbers_are_kept(rows: Seq<Json>, name: Seq<char>, i: int, x: Json)
    requires
        0 <= i < rows.len(),
        x is Integer || x is Float,
    ensures
        column_array(rows, name, InferredColumnType::Float64) matches ArrayView::Float64(items)
            && items.len() == rows.len() && (cell_of(rows[i], name) == Some(x) <==> items[i]
            == Some(x)) && (items[i] matches Some(item) ==> item is Integer || item is Float),
{
}

/// In a column of texts the item of a row whose cell holds a text is that text, a missing cell or
/// a null has no item, and any other cell has one: its text.
pub proof fn law_texts_are_kept(rows: Seq<Json>, name: Seq<char>, i: int, text: Seq<char>, n: int)
    requires
        0 <= i < rows.len(),
    ensures
        column_array(rows, name, InferredColumnType::Utf8) matches ArrayView::Utf8(items)
            && items.len() == rows.len() && (cell_of(rows[i], name) == Some(Json::Text(text))
            ==> items[i] == Some(text)) && (cell_of(rows[i], name) == Some(Json::Integer(n))
            ==> items[i] == Some(signed_decimal(n))) && (items[i] is None <==> cell_of(
            rows[i],
            name,
        ) is None || cell_of(rows[i], name) == Some(Json::Null)) && (items[i] is Some
            ==> items[i]->0 == cell_text(cell_of(rows[i], name))),
{
}

/// Whether a row has a value under a name: a cell that is not null.
pub open spec fn has_value(row: Json, name: Seq<char>) -> bool {
    cell_of(row, name) is Some && cell_of(row, name) != Some(Json::Null)
}

proof fn lemma_present_comes_from(rows: Seq<Json>, name: Seq<char>, k: int) -> (i: int)
    requires
        0 <= k < present_values(rows, name).len(),
    ensures
        0 <= i < rows.len(),
        has_value(rows[i], name),
        present_values(rows, name)[k] == cell_of(rows[i], name)->0,
        k == 0 ==> forall|j: int| 0 <= j < i ==> !has_value(#[trigger] rows[j], name),
    decreases rows.len(),
{
    let before = present_values(rows.drop_last(), name);
    if k < before.len() {
        let i = lemma_present_comes_from(rows.drop_last(), name, k);
        assert(rows.drop_last()[i] == rows[i]);
        if k == 0 {
            assert forall|j: int| 0 <= j < i implies !has_value(#[trigger] rows[j], name) by {
                assert(!has_value(rows.drop_last()[j], name));
            }
        }
        i
    } else {
        let last = rows.len() - 1;
        if k == 0 {
            assert forall|j: int| 0 <= j < last implies !has_value(#[trigger] rows[j], name) by {
                if has_value(rows[j], name) {
                    assert(rows.drop_last()[j] == rows[j]);
                    lemma_present_contains(rows.drop_last(), name, j);
                }
            }
        }
        last
    }
}

/// A column is one of truth values exactly where it has values and all of them are truth values.
pub proof fn law_column_of_truth_values(rows: Seq<Json>, name: Seq<char>)
    ensures
        column_type(rows, name) == InferredColumnType::Bool <==> (exists|i: int|
            0 <= i < rows.len() && has_value(#[trigger] rows[i], name)) && (forall|i: int|
            0 <= i < rows.len() && has_value(#[trigger] rows[i], name) ==> cell_of(rows[i], name)->0
                is Bool),
{
    let values = present_values(rows, name);
    if values.len() > 0 {
        let first = lemma_present_comes_from(rows, name, 0);
        assert(has_value(rows[first], name));
    }
    assert forall|i: int| 0 <= i < rows.len() && has_value(#[trigger] rows[i], name) implies
        values.contains(cell_of(rows[i], name)->0) by {
        lemma_present_contains(rows, name, i);
    }
    if column_type(rows, name) == InferredColumnType::Bool {
        assert forall|i: int| 0 <= i < rows.len() && has_value(#[trigger] rows[i], name) implies
            cell_of(rows[i], name)->0 is Bool by {
            let k = choose|k: int| 0 <= k < values.len() && values[k] == cell_of(rows[i], name)->0;
            assert(values[k] is Bool);
        }
    }
    if (exists|i: int| 0 <= i < rows.len() && has_value(#[trigger] rows[i], name)) && (forall|i: int|
        0 <= i < rows.len() && has_value(#[trigger] rows[i], name) ==> cell_of(rows[i], name)->0
            is Bool) {
        let i = choose|i: int| 0 <= i < rows.len() && has_value(#[trigger] rows[i], name);
        assert(values.contains(cell_of(rows[i], name)->0));
        assert forall|k: int| 0 <= k < values.len() implies (#[trigger] values[k]) is Bool by {
            let j = lemma_present_comes_from(rows, name, k);
            assert(has_value(rows[j], name));
        }
    }
}

/// A column is one of integers exactly where it has values and all of them are integers that have
/// room in 64 bits with a sign.
pub proof fn law_column_of_integers(rows: Seq<Json>, name: Seq<char>)
    ensures
        column_type(rows, name) == InferredColumnType::Int64 <==> (exists|i: int|
            0 <= i < rows.len() && has_value(#[trigger] rows[i], name)) && (forall|i: int|
            0 <= i < rows.len() && has_value(#[trigger] rows[i], name) ==> fits_i64(
                cell_of(rows[i], name)->0,
            )),
{
    let values = present_values(rows, name);
    if values.len() > 0 {
        let first = lemma_present_comes_from(rows, name, 0);
        assert(has_value(rows[first], name));
    }
    assert forall|i: int| 0 <= i < rows.len() && has_value(#[trigger] rows[i], name) implies
        values.contains(cell_of(rows[i], name)->0) by {
        lemma_present_contains(rows, name, i);
    }
    if column_type(rows, name) == InferredColumnType::Int64 {
        assert forall|i: int| 0 <= i < rows.len() && has_value(#[trigger] rows[i], name) implies
            fits_i64(cell_of(rows[i], name)->0) by {
            let k = choose|k: int| 0 <= k < values.len() && values[k] == cell_of(rows[i], name)->0;
            assert(signed_integer(values[k]) is Some);
        }
    }
    if (exists|i: int| 0 <= i < rows.len() && has_value(#[trigger] rows[i], name)) && (forall|i: int|
        0 <= i < rows.len() && has_value(#[trigger] rows[i], name) ==> fits_i64(
            cell_of(rows[i], name)->0,
        )) {
        let i = choose|i: int| 0 <= i < rows.len() && has_value(#[trigger] rows[i], name);
        assert(values.contains(cell_of(rows[i], name)->0));
        assert forall|k: int| 0 <= k < values.len() implies signed_integer(#[trigger] values[k])
            is Some by {
            let j = lemma_present_comes_from(rows, name, k);
            assert(has_value(rows[j], name));
            assert(fits_i64(cell_of(rows[j], name)->0));
        }
        assert(!(values[0] is Bool)) by {
            assert(signed_integer(values[0]) is Some);
        }
    }
}

/// Whether a value is an integer that has room in 64 bits with a sign.
pub open spec fn fits_i64(value: Json) -> bool {
    value matches Json::Integer(i) && -0x8000_0000_0000_0000 <= i <= 0x7fff_ffff_ffff_ffff
}

/// Whether the first value of a column is an integer that has room in 64 bits only without a sign.
pub open spec fn begins_with_large_integer(rows: Seq<Json>, name: Seq<char>) -> bool {
    exists|i: int|
        0 <= i < rows.len() && (forall|j: int| 0 <= j < i ==> !has_value(#[trigger] rows[j], name))
            && (#[trigger] cell_of(rows[i], name) matches Some(Json::Integer(n))
            && 0x7fff_ffff_ffff_ffff < n <= 0xffff_ffff_ffff_ffff)
}

/// A column is one of floating-point numbers exactly where all of its values are numbers, not all
/// of them are integers that have room, and it does not begin with a large integer. Every other
/// column that is not one of truth values or of integers is one of texts.
pub proof fn law_column_of_numbers(rows: Seq<Json>, name: Seq<char>)
    ensures
        column_type(rows, name) == InferredColumnType::Float64 <==> (exists|i: int|
            0 <= i < rows.len() && has_value(#[trigger] rows[i], name) && !fits_i64(
                cell_of(rows[i], name)->0,
            )) && (forall|i: int|
            0 <= i < rows.len() && has_value(#[trigger] rows[i], name) ==> (cell_of(
                rows[i],
                name,
            )->0 is Integer || cell_of(rows[i], name)->0 is Float))
            && !begins_with_large_integer(rows, name),
{
    let values = present_values(rows, name);
    assert forall|i: int| 0 <= i < rows.len() && has_value(#[trigger] rows[i], name) implies
        values.contains(cell_of(rows[i], name)->0) by {
        lemma_present_contains(rows, name, i);
    }
    if values.len() > 0 {
        let first = lemma_present_comes_from(rows, name, 0);
        assert(begins_with_large_integer(rows, name) <==> is_large_integer(values[0])) by {
            if begins_with_large_integer(rows, name) {
                let i = choose|i: int|
                    0 <= i < rows.len() && (forall|j: int|
                        0 <= j < i ==> !has_value(#[trigger] rows[j], name)) && (
                    #[trigger] cell_of(rows[i], name) matches Some(Json::Integer(n))
                        && 0x7fff_ffff_ffff_ffff < n <= 0xffff_ffff_ffff_ffff);
                assert(has_value(rows[i], name));
                assert(has_value(rows[first], name));
                assert(i == first);
            }
            if is_large_integer(values[0]) {
                assert(cell_of(rows[first], name) == Some(values[0]));
            }
        }
    }
    if column_type(rows, name) == InferredColumnType::Float64 {
        assert forall|i: int| 0 <= i < rows.len() && has_value(#[trigger] rows[i], name) implies (
        cell_of(rows[i], name)->0 is Integer || cell_of(rows[i], name)->0 is Float) by {
            let k = choose|k: int| 0 <= k < values.len() && values[k] == cell_of(rows[i], name)->0;
            assert(is_number(values[k]));
        }
        let k = choose|k: int| 0 <= k < values.len() && signed_integer(#[trigger] values[k]) is None;
        let i = lemma_present_comes_from(rows, name, k);
        assert(has_value(rows[i], name) && !fits_i64(cell_of(rows[i], name)->0));
    }
    if (exists|i: int|
        0 <= i < rows.len() && has_value(#[trigger] rows[i], name) && !fits_i64(
            cell_of(rows[i], name)->0,
        )) && (forall|i: int|
        0 <= i < rows.len() && has_value(#[trigger] rows[i], name) ==> (cell_of(rows[i], name)->0
            is Integer || cell_of(rows[i], name)->0 is Float)) && !begins_with_large_integer(
        rows,
        name,
    ) {
        let i = choose|i: int|
            0 <= i < rows.len() && has_value(#[trigger] rows[i], name) && !fits_i64(
                cell_of(rows[i], name)->0,
            );
        assert(values.contains(cell_of(rows[i], name)->0));
        let k = choose|k: int| 0 <= k < values.len() && values[k] == cell_of(rows[i], name)->0;
        assert(signed_integer(values[k]) is None);
        assert forall|m: int| 0 <= m < values.len() implies is_number(#[trigger] values[m]) by {
            let j = lemma_present_comes_from(rows, name, m);
            assert(has_value(rows[j], name));
        }
        assert(!(values[0] is Bool)) by {
            assert(is_number(values[0]));
        }
    }
}

/// Each column gets the type of its own values.
pub proof fn law_types_of_columns(columns: Seq<ColumnMeta>, rows: Seq<Json>, i: int)
    requires
        0 <= i < columns.len(),
    ensures
        column_types(columns, rows).len() == columns.len(),
        column_types(columns, rows)[i] == column_type(rows, columns[i].name@),
{
}

/// A schema has a field for each column that has a type, with its name and its type, that may be
/// null, and the array beside it is that of the same column.
pub proof fn law_fields_and_arrays_go_with_the_columns(
    columns: Seq<ColumnMeta>,
    rows: Seq<Json>,
    types: Seq<InferredColumnType>,
    i: int,
)
    requires
        0 <= i < columns.len(),
        i < types.len(),
    ensures
        ({
            let record = record_of(columns, rows, types);
            &&& record.schema.len() == columns.len() || record.schema.len() == types.len()
            &&& record.schema.len() <= columns.len() && record.schema.len() <= types.len()
            &&& record.arrays.len() == record.schema.len()
            &&& record.schema == schema_of(columns, types)
            &&& record.schema[i].name == columns[i].name@
            &&& record.schema[i].data_type == types[i]
            &&& record.schema[i].nullable
            &&& record.arrays[i] == column_array(rows, columns[i].name@, types[i])
        }),
{
}

/// What is seen of a record are its fields and the items of its arrays, in their order.
pub proof fn law_record_is_seen_as_it_is<'a>(record: RecordColumns<'a>, i: int)
    ensures
        record@.schema.len() == record.schema@.len(),
        record@.arrays.len() == record.arrays@.len(),
        0 <= i < record.schema@.len() ==> record@.schema[i].name == record.schema@[i].name@
            && record@.schema[i].data_type == record.schema@[i].data_type
            && record@.schema[i].nullable == record.schema@[i].nullable,
        0 <= i < record.arrays@.len() ==> (match record.arrays@[i] {
            ColumnArray::Bool(items) => record@.arrays[i] == ArrayView::Bool(items@),
            ColumnArray::Int64(items) => record@.arrays[i] == ArrayView::Int64(items@),
            ColumnArray::Float64(items) => record@.arrays[i] matches ArrayView::Float64(seen)
                && seen.len() == items@.len() && (forall|k: int|
                0 <= k < seen.len() ==> #[trigger] seen[k] == (match items@[k] {
                    Some(value) => Some(json_tree(*value)),
                    None => None,
                })),
            ColumnArray::Utf8(items) => record@.arrays[i] matches ArrayView::Utf8(seen)
                && seen.len() == items@.len() && (forall|k: int|
                0 <= k < seen.len() ==> #[trigger] seen[k] == (match items@[k] {
                    Some(value) => Some(value@),
                    None => None,
                })),
        }),
{
}

} // verus!
