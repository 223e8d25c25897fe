//! ORC and Parquet files: the types of the columns are those of the first batch.
use vstd::prelude::*;

use crate::json::{trees, Json};
use crate::save::columns::{
    build_record_batch_from_parts, build_schema, column_array, column_type, column_types,
    field_views, infer_column_types, record_of, schema_of, FieldView, InferredColumnType,
    RecordColumns, RecordView, SchemaField,
};
use crate::ColumnMeta;

verus! {

/// What to do with a columnar file: begin it with a schema, if it has not been begun, and then add
/// a batch, if there are rows.
pub struct ColumnarStep<'a> {
    pub schema: Option<Vec<SchemaField>>,
    pub batch: Option<RecordColumns<'a>>,
}

/// What is done with a columnar file.
pub struct ColumnarView {
    pub schema: Option<Seq<FieldView>>,
    pub batch: Option<RecordView>,
}

impl<'a> View for ColumnarStep<'a> {
    type V = ColumnarView;

    open spec fn view(&self) -> ColumnarView {
        ColumnarView {
            schema: match self.schema {
                Some(fields) => Some(field_views(fields@)),
                None => None,
            },
            batch: match self.batch {
                Some(record) => Some(record@),
                None => None,
            },
        }
    }
}

impl ColumnarView {
    /// The number of things to do.
    pub open spec fn parts(self) -> nat {
        (if self.schema is Some {
            1nat
        } else {
            0nat
        }) + (if self.batch is Some {
            1nat
        } else {
            0nat
        })
    }
}

/// Writes rows as typed columns. The types are known once the file has been begun.
pub struct ColumnarStreamingWriter {
    pub inferred_types: Option<Vec<InferredColumnType>>,
}

/// The types of the columns: those that are known, or else those of the values in the rows.
pub open spec fn settled_types(
    types: Option<Seq<InferredColumnType>>,
    columns: Seq<ColumnMeta>,
    rows: Seq<Json>,
) -> Seq<InferredColumnType> {
    match types {
        Some(found) => found,
        None => column_types(columns, rows),
    }
}

/// What is done for some rows: a file that has not been begun is begun with the types of their
/// values, and the rows are added as columns of the types that are settled then.
pub open spec fn columnar_step(
    types: Option<Seq<InferredColumnType>>,
    columns: Seq<ColumnMeta>,
    rows: Seq<Json>,
) -> ColumnarView {
    let settled = settled_types(types, columns, rows);
    ColumnarView {
        schema: if types is None {
            Some(schema_of(columns, settled))
        } else {
            None
        },
        batch: if rows.len() > 0 {
            Some(record_of(columns, rows, settled))
        } else {
            None
        },
    }
}

/// The types of some fields.
pub open spec fn types_of(fields: Seq<FieldView>) -> Seq<InferredColumnType> {
    fields.map_values(|field: FieldView| field.data_type)
}

/// The types of some fields.
fn field_types(fields: &[SchemaField]) -> (r: Vec<InferredColumnType>)
    ensures
        r@ == types_of(field_views(fields@)),
{
    let mut r: Vec<InferredColumnType> = Vec::new();
    let mut i: usize = 0;
    while i < fields.len()
        invariant
            i <= fields.len(),
            r@.len() == i,
            forall|j: int| 0 <= j < i ==> r@[j] == fields@[j].data_type,
        decreases fields.len() - i,
    {
        r.push(fields[i].data_type);
        i = i + 1;
    }
    assert(r@ =~= types_of(field_views(fields@)));
    r
}

impl<'a> ColumnarStep<'a> {
    /// The number of things to do.
    pub fn parts(&self) -> (r: usize)
        ensures
            r == self@.parts(),
    {
        let begun: usize = if self.schema.is_some() {
            1
        } else {
            0
        };
        if self.batch.is_some() {
            begun + 1
        } else {
            begun
        }
    }
}

impl ColumnarStreamingWriter {
    /// The types of the columns, if they are known.
    pub open spec fn types(&self) -> Option<Seq<InferredColumnType>> {
        match self.inferred_types {
            Some(found) => Some(found@),
            None => None,
        }
    }

    /// Before the first batch.
    pub fn new() -> (r: Self)
        ensures
            r.types() is None,
    {
        ColumnarStreamingWriter { inferred_types: None }
    }

    /// What to do for some rows.
    pub fn write_batch<'a>(&self, columns: &[ColumnMeta], rows: &'a [serde_json::Value]) -> (r:
        ColumnarStep<'a>)
        ensures
            r@ == columnar_step(self.types(), columns@, trees(rows@)),
    {
        match &self.inferred_types {
            Some(types) => ColumnarStep {
                schema: None,
                batch: added_rows(columns, rows, types.as_slice()),
            },
            None => {
                let types: Vec<InferredColumnType> = infer_column_types(columns, rows);
                ColumnarStep {
                    schema: Some(build_schema(columns, types.as_slice())),
                    batch: added_rows(columns, rows, types.as_slice()),
                }
            },
        }
    }

    /// What to do at the end: a file that has not been begun gets the schema of no rows.
    pub fn finish<'a>(&self, columns: &[ColumnMeta]) -> (r: ColumnarStep<'a>)
        ensures
            r@ == columnar_step(self.types(), columns@, seq![]),
    {
        let rows: &'a [serde_json::Value] = &[];
        assert(trees(rows@) =~= seq![]);
        self.write_batch(columns, rows)
    }

    /// Takes note that `done` parts of a step have been done. A file is begun by its schema, which
    /// comes first.
    pub fn advance<'a>(&mut self, step: &ColumnarStep<'a>, done: usize)
        ensures
            final(self).types() == (match step@.schema {
                Some(fields) => if done > 0 {
                    Some(types_of(fields))
                } else {
                    old(self).types()
                },
                None => old(self).types(),
            }),
    {
        if done > 0 {
            if let Some(fields) = &step.schema {
                self.inferred_types = Some(field_types(fields.as_slice()));
            }
        }
    }
}

/// Some rows as columns of the given types, if there are any.
fn added_rows<'a>(
    columns: &[ColumnMeta],
    rows: &'a [serde_json::Value],
    types: &[InferredColumnType],
) -> (r: Option<RecordColumns<'a>>)
    ensures
        match r {
            Some(record) => rows@.len() > 0 && record@ == record_of(columns@, trees(rows@), types@),
            None => rows@.len() == 0,
        },
{
    if rows.len() == 0 {
        None
    } else {
        Some(build_record_batch_from_parts(columns, rows, types))
    }
}

/// The fields of a schema have the types that it was made with.
pub proof fn lemma_schema_has_the_types(columns: Seq<ColumnMeta>, types: Seq<InferredColumnType>)
    requires
        columns.len() == types.len(),
    ensures
        types_of(schema_of(columns, types)) == types,
{
    assert(types_of(schema_of(columns, types)) =~= types);
}

/// The first batch settles the types of the columns: they stay as they are, whatever rows come
/// after it, so that every batch has the schema that the file was begun with.
pub proof fn law_first_batch_settles_the_types(
    columns: Seq<ColumnMeta>,
    first: Seq<Json>,
    second: Seq<Json>,
)
    ensures
        ({
            let begun = columnar_step(None, columns, first);
            let later = columnar_step(Some(types_of(begun.schema->0)), columns, second);
            &&& begun.schema is Some
            &&& later.schema is None
            &&& begun.batch matches Some(record) ==> record.schema == begun.schema->0
            &&& later.batch matches Some(record) ==> record.schema == begun.schema->0
        }),
{
    lemma_schema_has_the_types(columns, column_types(columns, first));
}

/// A file is begun exactly where its types are not known, with a field for each column that has the
/// type of the values in the rows; rows are added exactly where there are any, as an array for each
/// column. Every array has the type of the field, and the type that is known where one is.
pub proof fn law_columns_of_a_step(
    types: Option<Seq<InferredColumnType>>,
    columns: Seq<ColumnMeta>,
    rows: Seq<Json>,
    i: int,
)
    requires
        types matches Some(known) ==> i < known.len(),
        0 <= i < columns.len(),
    ensures
        columnar_step(types, columns, rows).schema is Some <==> types is None,
        columnar_step(types, columns, rows).batch is Some <==> rows.len() > 0,
        types is None ==> ({
            let schema = columnar_step(types, columns, rows).schema->0;
            &&& schema.len() == columns.len()
            &&& schema[i].name == columns[i].name@
            &&& schema[i].data_type == column_type(rows, columns[i].name@)
            &&& schema[i].nullable
        }),
        rows.len() > 0 ==> ({
            let record = columnar_step(types, columns, rows).batch->0;
            let settled = match types {
                Some(known) => known[i],
                None => column_type(rows, columns[i].name@),
            };
            &&& record.arrays.len() == record.schema.len()
            &&& i < record.schema.len() <= columns.len()
            &&& types is None || types->0.len() == columns.len() ==> record.schema.len()
                == columns.len()
            &&& record.schema[i].name == columns[i].name@
            &&& record.schema[i].data_type == settled
            &&& record.arrays[i] == column_array(rows, columns[i].name@, settled)
        }),
{
}

/// The parts of a step are its schema and its batch, as far as they are there.
pub proof fn law_parts_of_a_step(step: ColumnarView)
    ensures
        step.schema is Some && step.batch is Some ==> step.parts() == 2,
        step.schema is Some && step.batch is None ==> step.parts() == 1,
        step.schema is None && step.batch is Some ==> step.parts() == 1,
        step.schema is None && step.batch is None ==> step.parts() == 0,
{
}

/// The types of some fields are those of each, in their order.
pub proof fn law_types_of_fields(fields: Seq<FieldView>, i: int)
    requires
        0 <= i < fields.len(),
    ensures
        types_of(fields).len() == fields.len(),
        types_of(fields)[i] == fields[i].data_type,
{
}

/// What is seen of a step is its schema and its batch; the types of a writer are those that it
/// holds.
pub proof fn law_step_is_seen_as_it_is<'a>(
    step: ColumnarStep<'a>,
    writer: ColumnarStreamingWriter,
    i: int,
)
    ensures
        step@.schema is Some <==> step.schema is Some,
        step.schema matches Some(fields) ==> step@.schema->0.len() == fields@.len() && (0 <= i
            < fields@.len() ==> step@.schema->0[i].name == fields@[i].name@
            && step@.schema->0[i].data_type == fields@[i].data_type && step@.schema->0[i].nullable
            == fields@[i].nullable),
        step@.batch is Some <==> step.batch is Some,
        step.batch matches Some(record) ==> step@.batch == Some(record@),
        writer.types() is Some <==> writer.inferred_types is Some,
        writer.inferred_types matches Some(types) ==> writer.types() == Some(types@),
{
}

} // verus!
