//! DuckDB: its settings as SQL, and its values as JSON.
use vstd::prelude::*;
use vstd::string::*;

use crate::error::{state_error, DbNativeResult, Error};
use crate::hex::{encode_hex, hex_text, law_hex_reads_back};
use crate::json::{
    array_value, bool_value, cell_of, column_names, f64_to_json, float_json, insert_entry,
    is_float_cell, json_tree, law_row_gives_back_its_values, law_row_has_no_other_cells, new_object,
    no_entries, null_value, object_tree, object_value, row_entries, row_object, signed_value,
    text_value, trees, unsigned_value, FloatCell, Json,
};
use crate::stream::{clone_columns, optional_batch, BatcherView, RowBatcher};
use crate::text::{
    chars_of, decimal, decimal_text, decimal_value, is_white_space, law_decimal_digits,
    law_different_numbers_differ, law_trimmed_text_stays, lemma_decimal_reads_back,
    lemma_trim_padding, optional_str, signed_decimal, signed_decimal_text, texts, trim, trimmed,
};
use crate::{column_views, ColumnMeta, ColumnView, QueryBatch};

verus! {

/// Whether `s` starts with `prefix`.
pub open spec fn has_prefix(s: Seq<char>, prefix: Seq<char>) -> bool {
    prefix.len() <= s.len() && s.take(prefix.len() as int) == prefix
}

/// What follows `prefix` in `text`, if `text` starts with it.
fn strip_prefix<'a>(text: &'a str, prefix: &str) -> (r: Option<&'a str>)
    ensures
        match r {
            Some(rest) => has_prefix(text@, prefix@) && rest@ == text@.skip(prefix@.len() as int),
            None => !has_prefix(text@, prefix@),
        },
{
    let chars: Vec<char> = chars_of(text);
    let wanted: Vec<char> = chars_of(prefix);
    if wanted.len() > chars.len() {
        return None;
    }
    let mut i: usize = 0;
    while i < wanted.len()
        invariant
            i <= wanted.len() <= chars.len(),
            chars@ == text@,
            wanted@ == prefix@,
            forall|j: int| 0 <= j < i ==> chars@[j] == wanted@[j],
        decreases wanted.len() - i,
    {
        if chars[i] != wanted[i] {
            assert(text@.take(prefix@.len() as int)[i as int] == chars@[i as int]);
            return None;
        }
        i = i + 1;
    }
    assert(text@.take(prefix@.len() as int) =~= prefix@);
    Some(text.substring_char(wanted.len(), chars.len()))
}

/// An endpoint without its scheme.
pub open spec fn endpoint_host(endpoint: Seq<char>) -> Seq<char> {
    if has_prefix(endpoint, "http://"@) {
        endpoint.skip("http://"@.len() as int)
    } else if has_prefix(endpoint, "https://"@) {
        endpoint.skip("https://"@.len() as int)
    } else {
        endpoint
    }
}

/// Whether an endpoint is reached by TLS: unless its scheme is `http`.
pub open spec fn endpoint_uses_ssl(endpoint: Seq<char>) -> bool {
    !has_prefix(endpoint, "http://"@)
}

/// The endpoint without its scheme, and whether it is reached by TLS.
pub fn normalize_endpoint(endpoint: &str) -> (r: (&str, bool))
    ensures
        r.0@ == endpoint_host(endpoint@),
        r.1 == endpoint_uses_ssl(endpoint@),
{
    if let Some(value) = strip_prefix(endpoint, "http://") {
        return (value, false);
    }
    if let Some(value) = strip_prefix(endpoint, "https://") {
        return (value, true);
    }
    (endpoint, true)
}

/// The text with each single quote doubled.
pub open spec fn escaped(s: Seq<char>) -> Seq<char>
    decreases s.len(),
{
    if s.len() == 0 {
        seq![]
    } else if s.last() == '\'' {
        escaped(s.drop_last()).push('\'').push('\'')
    } else {
        escaped(s.drop_last()).push(s.last())
    }
}

/// What stands between the quotes of an SQL literal; `None` where a single quote is not doubled,
/// since the literal would end there.
pub open spec fn literal_value(s: Seq<char>) -> Option<Seq<char>>
    decreases s.len(),
{
    if s.len() == 0 {
        Some(seq![])
    } else if s.last() != '\'' {
        match literal_value(s.drop_last()) {
            Some(value) => Some(value.push(s.last())),
            None => None,
        }
    } else if s.len() >= 2 && s[s.len() - 2] == '\'' {
        match literal_value(s.drop_last().drop_last()) {
            Some(value) => Some(value.push('\'')),
            None => None,
        }
    } else {
        None
    }
}

/// The text with each single quote doubled.
pub fn escape_sql_literal(value: &str) -> (r: String)
    ensures
        r@ == escaped(value@),
{
    let mut r: String = String::new();
    for c in it: value.chars()
        invariant
            r@ == escaped(it.seq().take(it.index() as int)),
            it.seq() == value@,
    {
        assert(it.seq().take(it.index() + 1).drop_last() == it.seq().take(it.index() as int));
        if c == '\'' {
            r.push('\'');
        }
        r.push(c);
    }
    assert(value@.take(value@.len() as int) == value@);
    r
}

/// An escaped text between quotes is a literal of that text: no text can end its literal early.
pub proof fn law_escaped_literal_reads_back(value: Seq<char>)
    ensures
        literal_value(escaped(value)) == Some(value),
    decreases value.len(),
{
    if value.len() > 0 {
        law_escaped_literal_reads_back(value.drop_last());
        let shorter = escaped(value.drop_last());
        if value.last() == '\'' {
            assert(escaped(value).drop_last() == shorter.push('\''));
            assert(escaped(value).drop_last().drop_last() == shorter);
        } else {
            assert(escaped(value).drop_last() == shorter);
        }
        assert(value.drop_last().push(value.last()) == value);
    }
}

/// A connection to a DuckDB database until it is closed.
pub struct DuckDbDriver<C> {
    pub connection: Option<C>,
}

impl<C> DuckDbDriver<C> {
    /// A connection through `connection`.
    pub fn new(connection: C) -> (r: Self)
        ensures
            r.connection == Some(connection),
    {
        DuckDbDriver { connection: Some(connection) }
    }

    /// The connection, unless it is closed.
    pub fn connection(&self) -> (r: DbNativeResult<&C>)
        ensures
            match r {
                Ok(connection) => self.connection == Some(*connection),
                Err(error) => self.connection is None && error.reason@
                    == "DuckDB connection is already closed"@,
            },
    {
        match &self.connection {
            Some(connection) => Ok(connection),
            None => Err(state_error("DuckDB connection is already closed")),
        }
    }

    /// Closes the connection; closing it again changes nothing.
    pub fn close(&mut self)
        ensures
            final(self).connection is None,
    {
        self.connection = None;
    }
}

/// The SQL that makes an S3 storage known.
pub open spec fn s3_settings(
    endpoint: Seq<char>,
    access_key_id: Seq<char>,
    access_key_secret: Seq<char>,
) -> Seq<char> {
    let endpoint = trimmed(endpoint);
    "SET s3_endpoint = '"@ + escaped(endpoint_host(endpoint)) + "';SET s3_access_key_id = '"@
        + escaped(trimmed(access_key_id)) + "';SET s3_secret_access_key = '"@
        + escaped(trimmed(access_key_secret))
        + "';SET s3_url_style = 'path';SET s3_use_ssl = "@ + (if endpoint_uses_ssl(endpoint) {
        "true;"@
    } else {
        "false;"@
    })
}

/// The SQL that makes an S3 storage known.
pub fn s3_settings_sql(endpoint: &str, access_key_id: &str, access_key_secret: &str) -> (r: String)
    ensures
        r@ == s3_settings(endpoint@, access_key_id@, access_key_secret@),
{
    let (host, use_ssl) = normalize_endpoint(trim(endpoint));
    let mut sql: String = "SET s3_endpoint = '".to_owned();
    sql.append(escape_sql_literal(host).as_str());
    sql.append("';SET s3_access_key_id = '");
    sql.append(escape_sql_literal(trim(access_key_id)).as_str());
    sql.append("';SET s3_secret_access_key = '");
    sql.append(escape_sql_literal(trim(access_key_secret)).as_str());
    sql.append("';SET s3_url_style = 'path';SET s3_use_ssl = ");
    sql.append(
        if use_ssl {
            "true;"
        } else {
            "false;"
        },
    );
    sql
}

/// Whether some text is made of decimal digits only, at least one of them.
pub open spec fn all_digits(s: Seq<char>) -> bool {
    s.len() > 0 && forall|i: int| 0 <= i < s.len() ==> '0' <= #[trigger] s[i] && s[i] <= '9'
}

/// The number that a text is: digits, perhaps after a plus sign, with a value below 2^64.
pub open spec fn parsed_u64(s: Seq<char>) -> Option<nat> {
    let digits = if s.len() > 0 && s.first() == '+' {
        s.drop_first()
    } else {
        s
    };
    if all_digits(digits) && decimal_value(digits) <= u64::MAX {
        Some(decimal_value(digits))
    } else {
        None
    }
}

/// The error of `str::parse::<u64>` as text.
pub uninterp spec fn u64_error(s: Seq<char>) -> Seq<char>;

/// `str::parse::<u64>`: the number that the text is, or an error whose text depends on it alone.
#[verifier::external_body]
fn parse_u64(text: &str) -> (r: Result<u64, String>)
    ensures
        match r {
            Ok(number) => parsed_u64(text@) == Some(number as nat),
            Err(error) => parsed_u64(text@) is None && error@ == u64_error(text@),
        },
{
    text.parse::<u64>().map_err(|error| error.to_string())
}

/// What to run when a connection is opened, and the error to report after that, if there is one.
pub struct RuntimeSettings {
    pub statements: Vec<String>,
    pub error: Option<Error>,
}

/// The statement that limits the memory, if a limit is asked for.
pub open spec fn memory_statements(memory_limit: Option<Seq<char>>) -> Seq<Seq<char>> {
    match memory_limit {
        Some(limit) => if trimmed(limit).len() > 0 {
            seq!["SET memory_limit = '"@ + escaped(trimmed(limit)) + "';"@]
        } else {
            seq![]
        },
        None => seq![],
    }
}

/// The number of threads that is asked for, if one is.
pub open spec fn wanted_threads(threads: Option<Seq<char>>) -> Option<Seq<char>> {
    match threads {
        Some(threads) => if trimmed(threads).len() > 0 {
            Some(trimmed(threads))
        } else {
            None
        },
        None => None,
    }
}

/// The statement that sets the number of threads, if one is asked for that is a number.
pub open spec fn thread_statements(threads: Option<Seq<char>>) -> Seq<Seq<char>> {
    match wanted_threads(threads) {
        Some(text) => match parsed_u64(text) {
            Some(number) => seq!["SET threads = "@ + decimal(number) + ";"@],
            None => seq![],
        },
        None => seq![],
    }
}

/// Whether a number of threads is asked for that is no number.
pub open spec fn bad_threads(threads: Option<Seq<char>>) -> bool {
    wanted_threads(threads) is Some && parsed_u64(wanted_threads(threads)->0) is None
}

/// The statements to run when a connection is opened.
pub open spec fn runtime_statements(
    memory_limit: Option<Seq<char>>,
    threads: Option<Seq<char>>,
) -> Seq<Seq<char>> {
    memory_statements(memory_limit) + thread_statements(threads)
}

/// Why the number of threads that is asked for is no number, if it is none.
pub open spec fn runtime_error(threads: Option<Seq<char>>) -> Option<Seq<char>> {
    if bad_threads(threads) {
        Some("Invalid DUCKDB_THREADS value: "@ + u64_error(wanted_threads(threads)->0))
    } else {
        None
    }
}

/// What to run when a connection is opened: a limit of the memory, then a number of threads, each
/// if it is asked for. Where the number of threads is no number, that is reported after the limit
/// has been set.
pub fn runtime_settings(memory_limit: Option<&str>, threads: Option<&str>) -> (r: RuntimeSettings)
    ensures
        texts(r.statements@) == memory_statements(optional_str(memory_limit))
            + thread_statements(optional_str(threads)),
        match r.error {
            Some(error) => bad_threads(optional_str(threads)) && error.reason@
                == "Invalid DUCKDB_THREADS value: "@ + u64_error(
                wanted_threads(optional_str(threads))->0,
            ),
            None => !bad_threads(optional_str(threads)),
        },
        texts(r.statements@) == runtime_statements(
            optional_str(memory_limit),
            optional_str(threads),
        ),
        match r.error {
            Some(error) => runtime_error(optional_str(threads)) == Some(error.reason@),
            None => runtime_error(optional_str(threads)) is None,
        },
{
    let mut statements: Vec<String> = Vec::new();
    if let Some(limit) = memory_limit {
        let limit: &str = trim(limit);
        if limit.unicode_len() > 0 {
            let mut sql: String = "SET memory_limit = '".to_owned();
            sql.append(escape_sql_literal(limit).as_str());
            sql.append("';");
            statements.push(sql);
        }
    }
    assert(texts(statements@) =~= memory_statements(optional_str(memory_limit)));
    let ghost before = statements@;
    let mut failure: Option<Error> = None;
    if let Some(threads) = threads {
        let threads: &str = trim(threads);
        if threads.unicode_len() > 0 {
            match parse_u64(threads) {
                Ok(number) => {
                    let mut sql: String = "SET threads = ".to_owned();
                    sql.append(decimal_text(number as u128).as_str());
                    sql.append(";");
                    statements.push(sql);
                },
                Err(error) => {
                    let mut reason: String = "Invalid DUCKDB_THREADS value: ".to_owned();
                    reason.append(error.as_str());
                    failure = Some(Error { reason });
                },
            }
        }
    }
    assert(texts(statements@) =~= texts(before) + thread_statements(
        optional_str(threads),
    ));
    RuntimeSettings { statements, error: failure }
}

/// The unit in which a time is counted.
#[derive(Clone, Copy, Debug)]
pub enum TimeUnit {
    Second,
    Millisecond,
    Microsecond,
    Nanosecond,
}

impl TimeUnit {
    /// The name of the unit.
    pub open spec fn name(self) -> Seq<char> {
        match self {
            TimeUnit::Second => "Second"@,
            TimeUnit::Millisecond => "Millisecond"@,
            TimeUnit::Microsecond => "Microsecond"@,
            TimeUnit::Nanosecond => "Nanosecond"@,
        }
    }

    fn as_str(self) -> (r: &'static str)
        ensures
            r@ == self.name(),
    {
        match self {
            TimeUnit::Second => "Second",
            TimeUnit::Millisecond => "Millisecond",
            TimeUnit::Microsecond => "Microsecond",
            TimeUnit::Nanosecond => "Nanosecond",
        }
    }
}

/// A time in the form `kind(unit, value)`.
pub open spec fn time_text(kind: Seq<char>, unit: TimeUnit, value: i64) -> Seq<char> {
    kind + "("@ + unit.name() + ", "@ + signed_decimal(value as int) + ")"@
}

fn format_time(kind: &str, unit: TimeUnit, value: i64) -> (r: String)
    ensures
        r@ == time_text(kind@, unit, value),
{
    let mut r: String = kind.to_owned();
    r.append("(");
    r.append(unit.as_str());
    r.append(", ");
    r.append(signed_decimal_text(value as i128).as_str());
    r.append(")");
    r
}

/// A point in time as text.
pub fn format_timestamp(unit: TimeUnit, value: i64) -> (r: String)
    ensures
        r@ == time_text("timestamp"@, unit, value),
{
    format_time("timestamp", unit, value)
}

/// A time of day as text.
pub fn format_time64(unit: TimeUnit, value: i64) -> (r: String)
    ensures
        r@ == time_text("time64"@, unit, value),
{
    format_time("time64", unit, value)
}

/// A value of a DuckDB column. A decimal number is given by its text.
pub enum DuckValue {
    Null,
    Boolean(bool),
    TinyInt(i8),
    SmallInt(i16),
    Int(i32),
    BigInt(i64),
    HugeInt(i128),
    UTinyInt(u8),
    USmallInt(u16),
    UInt(u32),
    UBigInt(u64),
    Float(FloatCell),
    Double(FloatCell),
    Decimal(String),
    Timestamp(TimeUnit, i64),
    Text(String),
    Blob(Vec<u8>),
    Date32(i32),
    Time64(TimeUnit, i64),
    Interval { months: i32, days: i32, nanos: i64 },
    List(Vec<DuckValue>),
    Enum(String),
    Struct(Vec<(String, DuckValue)>),
    Array(Vec<DuckValue>),
    Entries(Vec<(DuckValue, DuckValue)>),
    Union(Box<DuckValue>),
}

/// What a value is in JSON: numbers that fit into 64 bits are numbers, wider ones and the types
/// that JSON does not have are texts, a map is an array of its entries.
pub open spec fn duck_json(value: DuckValue) -> Json
    decreases value,
{
    match value {
        DuckValue::Null => Json::Null,
        DuckValue::Boolean(flag) => Json::Bool(flag),
        DuckValue::TinyInt(number) => Json::Integer(number as int),
        DuckValue::SmallInt(number) => Json::Integer(number as int),
        DuckValue::Int(number) => Json::Integer(number as int),
        DuckValue::BigInt(number) => Json::Integer(number as int),
        DuckValue::HugeInt(number) => Json::Text(
            signed_decimal(number as int),
        ),
        DuckValue::UTinyInt(number) => Json::Integer(number as int),
        DuckValue::USmallInt(number) => Json::Integer(number as int),
        DuckValue::UInt(number) => Json::Integer(number as int),
        DuckValue::UBigInt(number) => Json::Integer(number as int),
        DuckValue::Float(cell) => float_json(cell),
        DuckValue::Double(cell) => float_json(cell),
        DuckValue::Decimal(text) => Json::Text(text@),
        DuckValue::Timestamp(unit, count) => Json::Text(
            time_text("timestamp"@, unit, count),
        ),
        DuckValue::Text(text) => Json::Text(text@),
        DuckValue::Blob(bytes) => Json::Text("0x"@ + hex_text(bytes@)),
        DuckValue::Date32(day) => Json::Text(
            "date32:"@ + signed_decimal(day as int),
        ),
        DuckValue::Time64(unit, count) => Json::Text(
            time_text("time64"@, unit, count),
        ),
        DuckValue::Interval { months, days, nanos } => Json::Object(
            no_entries().insert(
                "months"@,
                Json::Integer(months as int),
            ).insert("days"@, Json::Integer(days as int)).insert(
                "nanos"@,
                Json::Integer(nanos as int),
            ),
        ),
        DuckValue::List(items) => Json::Array(duck_items(items@)),
        DuckValue::Enum(text) => Json::Text(text@),
        DuckValue::Struct(fields) => Json::Object(duck_fields(fields@)),
        DuckValue::Array(items) => Json::Array(duck_items(items@)),
        DuckValue::Entries(entries) => Json::Array(duck_entries(entries@)),
        DuckValue::Union(inner) => duck_json(*inner),
    }
}

/// What each of some values is in JSON.
pub open spec fn duck_items(items: Seq<DuckValue>) -> Seq<Json>
    decreases items,
{
    if items.len() == 0 {
        seq![]
    } else {
        duck_items(items.drop_last()).push(duck_json(items.last()))
    }
}

/// The fields of a struct in JSON, the last one where a name comes twice.
pub open spec fn duck_fields(fields: Seq<(String, DuckValue)>) -> Map<
    Seq<char>,
    Json,
>
    decreases fields,
{
    if fields.len() == 0 {
        no_entries()
    } else {
        duck_fields(fields.drop_last()).insert(fields.last().0@, duck_json(fields.last().1))
    }
}

/// The entries of a map in JSON: objects with a key and a value.
pub open spec fn duck_entries(entries: Seq<(DuckValue, DuckValue)>) -> Seq<Json>
    decreases entries,
{
    if entries.len() == 0 {
        seq![]
    } else {
        duck_entries(entries.drop_last()).push(
            Json::Object(
                no_entries().insert("key"@, duck_json(entries.last().0)).insert(
                    "value"@,
                    duck_json(entries.last().1),
                ),
            ),
        )
    }
}

/// A value in JSON.
pub fn duck_value_to_json(value: DuckValue) -> (r: serde_json::Value)
    ensures
        json_tree(r) == duck_json(value),
    decreases value,
{
    match value {
        DuckValue::Null => null_value(),
        DuckValue::Boolean(flag) => bool_value(flag),
        DuckValue::TinyInt(number) => signed_value(number as i64),
        DuckValue::SmallInt(number) => signed_value(number as i64),
        DuckValue::Int(number) => signed_value(number as i64),
        DuckValue::BigInt(number) => signed_value(number),
        DuckValue::HugeInt(number) => text_value(signed_decimal_text(number)),
        DuckValue::UTinyInt(number) => unsigned_value(number as u64),
        DuckValue::USmallInt(number) => unsigned_value(number as u64),
        DuckValue::UInt(number) => unsigned_value(number as u64),
        DuckValue::UBigInt(number) => unsigned_value(number),
        DuckValue::Float(cell) => f64_to_json(cell),
        DuckValue::Double(cell) => f64_to_json(cell),
        DuckValue::Decimal(text) => text_value(text),
        DuckValue::Timestamp(unit, count) => text_value(format_timestamp(unit, count)),
        DuckValue::Text(text) => text_value(text),
        DuckValue::Blob(bytes) => {
            let mut text: String = "0x".to_owned();
            text.append(encode_hex(bytes.as_slice()).as_str());
            text_value(text)
        },
        DuckValue::Date32(day) => {
            let mut text: String = "date32:".to_owned();
            text.append(signed_decimal_text(day as i128).as_str());
            text_value(text)
        },
        DuckValue::Time64(unit, count) => text_value(format_time64(unit, count)),
        DuckValue::Interval { months, days, nanos } => {
            let mut object = new_object();
            insert_entry(&mut object, "months".to_owned(), signed_value(months as i64));
            insert_entry(&mut object, "days".to_owned(), signed_value(days as i64));
            insert_entry(&mut object, "nanos".to_owned(), signed_value(nanos));
            object_value(object)
        },
        DuckValue::List(items) => list_to_json(items),
        DuckValue::Enum(text) => text_value(text),
        DuckValue::Struct(fields) => {
            let mut object = new_object();
            for field in it: fields.into_iter()
                invariant
                    it.seq() == fields@,
                    decreases_to!(value => fields),
                    object_tree(object) == duck_fields(fields@.take(it.index() as int)),
            {
                let ghost i = it.index() as int;
                assert(fields@.take(i + 1).drop_last() =~= fields@.take(i));
                assert(fields@[i] == field);
                assert(decreases_to!(fields@[i] => fields@[i].1));
                let (name, content) = field;
                insert_entry(&mut object, name, duck_value_to_json(content));
            }
            assert(fields@.take(fields@.len() as int) =~= fields@);
            object_value(object)
        },
        DuckValue::Array(items) => list_to_json(items),
        DuckValue::Entries(entries) => {
            let mut r: Vec<serde_json::Value> = Vec::new();
            for entry in it: entries.into_iter()
                invariant
                    it.seq() == entries@,
                    decreases_to!(value => entries),
                    trees(r@) == duck_entries(entries@.take(it.index() as int)),
            {
                let ghost i = it.index() as int;
                assert(entries@.take(i + 1).drop_last() =~= entries@.take(i));
                assert(entries@[i] == entry);
                assert(decreases_to!(entries@[i] => entries@[i].0));
                assert(decreases_to!(entries@[i] => entries@[i].1));
                let (key, content) = entry;
                let mut object = new_object();
                insert_entry(&mut object, "key".to_owned(), duck_value_to_json(key));
                insert_entry(&mut object, "value".to_owned(), duck_value_to_json(content));
                let ghost before = r@;
                let item = object_value(object);
                r.push(item);
                assert(trees(r@) =~= trees(before).push(
                    json_tree(item),
                ));
            }
            assert(entries@.take(entries@.len() as int) =~= entries@);
            array_value(r)
        },
        DuckValue::Union(inner) => duck_value_to_json(*inner),
    }
}

fn list_to_json(items: Vec<DuckValue>) -> (r: serde_json::Value)
    ensures
        json_tree(r) == Json::Array(duck_items(items@)),
    decreases items,
{
    let mut r: Vec<serde_json::Value> = Vec::new();
    for item in it: items.into_iter()
        invariant
            it.seq() == items@,
            trees(r@) == duck_items(items@.take(it.index() as int)),
    {
        let ghost i = it.index() as int;
        assert(items@.take(i + 1).drop_last() =~= items@.take(i));
        assert(items@[i] == item);
        let ghost before = r@;
        let content = duck_value_to_json(item);
        r.push(content);
        assert(trees(r@) =~= trees(before).push(
            json_tree(content),
        ));
    }
    assert(items@.take(items@.len() as int) =~= items@);
    array_value(r)
}

/// The items of a list keep their order and their number.
pub proof fn law_items_keep_their_order(items: Seq<DuckValue>, i: int)
    requires
        0 <= i < items.len(),
    ensures
        duck_items(items).len() == items.len(),
        duck_items(items)[i] == duck_json(items[i]),
    decreases items.len(),
{
    if items.len() > 1 {
        let j = if i < items.len() - 1 {
            i
        } else {
            0
        };
        law_items_keep_their_order(items.drop_last(), j);
    } else {
        assert(duck_items(items.drop_last()) =~= seq![]);
    }
}

/// Whether a value is null, within any unions.
pub open spec fn is_null(value: DuckValue) -> bool
    decreases value,
{
    match value {
        DuckValue::Null => true,
        DuckValue::Union(inner) => is_null(*inner),
        _ => false,
    }
}

/// Whether a value, within any unions, is no floating-point number or holds one as it should.
pub open spec fn holds_number(value: DuckValue) -> bool
    decreases value,
{
    match value {
        DuckValue::Float(cell) => is_float_cell(cell),
        DuckValue::Double(cell) => is_float_cell(cell),
        DuckValue::Union(inner) => holds_number(*inner),
        _ => true,
    }
}

/// A union is what is in it.
pub proof fn law_union_is_what_it_holds(inner: DuckValue)
    ensures
        duck_json(DuckValue::Union(Box::new(inner))) == duck_json(inner),
{
}

/// A value is null in JSON exactly where it is null in the database: no other value, such as a
/// number that is not finite, becomes null.
pub proof fn law_null_comes_from_null_alone(value: DuckValue)
    requires
        holds_number(value),
    ensures
        duck_json(value) is Null <==> is_null(value),
    decreases value,
{
    if let DuckValue::Union(inner) = value {
        law_null_comes_from_null_alone(*inner);
    }
}

/// A struct gives back the value of each field under its name, or of the last field of that name.
pub proof fn law_struct_gives_back_its_fields(fields: Seq<(String, DuckValue)>, i: int)
    requires
        0 <= i < fields.len(),
        forall|j: int| i < j < fields.len() ==> fields[j].0@ != fields[i].0@,
    ensures
        duck_fields(fields).contains_key(fields[i].0@),
        duck_fields(fields)[fields[i].0@] == duck_json(fields[i].1),
    decreases fields.len(),
{
    if i < fields.len() - 1 {
        assert(fields[fields.len() - 1].0@ != fields[i].0@);
        law_struct_gives_back_its_fields(fields.drop_last(), i);
    }
}

/// What DuckDB says of a column: its name, if it has one, and its type.
pub struct DuckColumn {
    pub name: Option<String>,
    pub data_type: String,
}

/// A column: one without a name is named after its index.
pub open spec fn duck_column(column: DuckColumn, index: int) -> ColumnView {
    ColumnView {
        name: match column.name {
            Some(name) => name@,
            None => "column_"@ + decimal(index as nat),
        },
        data_type: column.data_type@,
    }
}

/// The columns of a statement.
pub open spec fn duck_columns(columns: Seq<DuckColumn>) -> Seq<ColumnView> {
    Seq::new(columns.len(), |i: int| duck_column(columns[i], i))
}

/// The columns of a statement.
pub fn statement_columns(columns: Vec<DuckColumn>) -> (r: Vec<ColumnMeta>)
    ensures
        column_views(r@) == duck_columns(columns@),
        column_views(r@) == Seq::new(
            columns@.len(),
            |i: int| duck_column(columns@[i], i),
        ),
{
    let mut r: Vec<ColumnMeta> = Vec::new();
    let mut index: usize = 0;
    for column in it: columns.into_iter()
        invariant
            it.seq() == columns@,
            index == it.index(),
            r@.len() == index,
            forall|j: int| 0 <= j < index ==> (#[trigger] r@[j])@ == duck_column(columns@[j], j),
    {
        let name: String = match column.name {
            Some(name) => name,
            None => {
                let mut name: String = "column_".to_owned();
                name.append(decimal_text(index as u128).as_str());
                name
            },
        };
        r.push(ColumnMeta { name, data_type: column.data_type });
        index = r.len();
    }
    assert(column_views(r@) =~= duck_columns(columns@));
    assert(column_views(r@) =~= Seq::new(
        columns@.len(),
        |i: int| duck_column(columns@[i], i),
    ));
    r
}

/// What a row is in JSON: an object with a value for each column.
pub open spec fn row_json(columns: Seq<ColumnMeta>, values: Seq<DuckValue>) -> Json {
    Json::Object(
        row_entries(column_names(columns), duck_items(values)),
    )
}

/// A row in JSON: an object with a value for each column.
pub fn row_to_json(columns: &[ColumnMeta], values: Vec<DuckValue>) -> (r: serde_json::Value)
    requires
        columns@.len() == values@.len(),
    ensures
        json_tree(r) == row_json(columns@, values@),
{
    let mut contents: Vec<serde_json::Value> = Vec::new();
    for value in it: values.into_iter()
        invariant
            it.seq() == values@,
            contents@.len() == it.index(),
            trees(contents@) == duck_items(values@.take(it.index() as int)),
    {
        let ghost i = it.index() as int;
        assert(values@.take(i + 1).drop_last() =~= values@.take(i));
        let ghost before = contents@;
        let content = duck_value_to_json(value);
        contents.push(content);
        assert(trees(contents@) =~= trees(before).push(
            json_tree(content),
        ));
    }
    assert(values@.take(values@.len() as int) =~= values@);
    row_object(columns, contents)
}

/// Hands out the rows of a query in batches.
pub struct DuckDbStream {
    columns: Vec<ColumnMeta>,
    batcher: RowBatcher,
}

/// The state of a `DuckDbStream`: the columns of the query, and the rows that are being collected.
pub struct DuckStreamView {
    pub columns: Seq<ColumnMeta>,
    pub batcher: BatcherView,
}

impl View for DuckDbStream {
    type V = DuckStreamView;

    closed spec fn view(&self) -> DuckStreamView {
        DuckStreamView { columns: self.columns@, batcher: self.batcher@ }
    }
}

impl DuckDbStream {
    /// Before the first row.
    pub fn new(batch_size: usize, limit: usize, columns: Vec<ColumnMeta>) -> (r: Self)
        ensures
            r@.columns == columns@,
            r@.batcher == BatcherView::start(batch_size as nat, limit as nat).with_columns(
                column_views(columns@),
            ),
    {
        let mut batcher = RowBatcher::new(batch_size, limit);
        batcher.set_columns(clone_columns(columns.as_slice()));
        DuckDbStream { columns, batcher }
    }

    /// Whether another row is to be asked for.
    pub fn wants_row(&self) -> (r: bool)
        ensures
            r == self@.batcher.wants_row(),
    {
        self.batcher.wants_row()
    }

    /// Takes the values of one more row; hands out the batch if it is full.
    pub fn push(&mut self, values: Vec<DuckValue>) -> (r: Option<QueryBatch>)
        requires
            old(self)@.batcher.wants_row(),
            old(self)@.columns.len() == values@.len(),
        ensures
            final(self)@.columns == old(self)@.columns,
            final(self)@.batcher == old(self)@.batcher.pushed(
                row_json(old(self)@.columns, values@),
            ),
            optional_batch(r) == old(self)@.batcher.batch_of(
                row_json(old(self)@.columns, values@),
            ),
    {
        let row = row_to_json(self.columns.as_slice(), values);
        self.batcher.push(row)
    }

    /// Hands out what is left at the end.
    pub fn finish(self) -> (r: Option<QueryBatch>)
        ensures
            optional_batch(r) == self@.batcher.last_batch(),
    {
        self.batcher.finish()
    }
}

proof fn lemma_entries_keep_their_order(entries: Seq<(DuckValue, DuckValue)>, i: int)
    requires
        0 <= i < entries.len(),
    ensures
        duck_entries(entries).len() == entries.len(),
        duck_entries(entries)[i] == Json::Object(
            no_entries().insert("key"@, duck_json(entries[i].0)).insert(
                "value"@,
                duck_json(entries[i].1),
            ),
        ),
    decreases entries.len(),
{
    if entries.len() > 1 {
        let j = if i < entries.len() - 1 {
            i
        } else {
            0
        };
        lemma_entries_keep_their_order(entries.drop_last(), j);
    } else {
        assert(duck_entries(entries.drop_last()) =~= seq![]);
    }
}

/// A map in JSON is an array with an item for each entry, in their order: the item at each index
/// is an object whose `key` is the key there in JSON, whose `value` is the value there in JSON, and
/// which holds nothing else.
pub proof fn law_map_gives_back_its_entries(entries: Vec<(DuckValue, DuckValue)>)
    ensures
        duck_json(DuckValue::Entries(entries)) matches Json::Array(items) && items.len()
            == entries@.len() && (forall|i: int|
            0 <= i < entries@.len() ==> #[trigger] items[i] == Json::Object(
                map![
                    seq!['k', 'e', 'y'] => duck_json(entries@[i].0),
                    seq!['v', 'a', 'l', 'u', 'e'] => duck_json(entries@[i].1),
                ],
            )),
{
    reveal_strlit("key");
    reveal_strlit("value");
    assert("key"@ =~= seq!['k', 'e', 'y']);
    assert("value"@ =~= seq!['v', 'a', 'l', 'u', 'e']);
    let items = duck_entries(entries@);
    if entries@.len() > 0 {
        lemma_entries_keep_their_order(entries@, 0);
    }
    assert forall|i: int| 0 <= i < entries@.len() implies #[trigger] items[i] == Json::Object(
        map![
            seq!['k', 'e', 'y'] => duck_json(entries@[i].0),
            seq!['v', 'a', 'l', 'u', 'e'] => duck_json(entries@[i].1),
        ],
    ) by {
        lemma_entries_keep_their_order(entries@, i);
        assert(no_entries().insert("key"@, duck_json(entries@[i].0)).insert(
            "value"@,
            duck_json(entries@[i].1),
        ) =~= map![
            seq!['k', 'e', 'y'] => duck_json(entries@[i].0),
            seq!['v', 'a', 'l', 'u', 'e'] => duck_json(entries@[i].1),
        ]);
    }
}

/// A list or an array in JSON is an array with each of its values in JSON, in their order.
pub proof fn law_list_gives_back_its_items(items: Vec<DuckValue>)
    ensures
        duck_json(DuckValue::List(items)) matches Json::Array(found) && found.len() == items@.len()
            && (forall|i: int| 0 <= i < items@.len() ==> #[trigger] found[i] == duck_json(items@[i])),
        duck_json(DuckValue::Array(items)) == duck_json(DuckValue::List(items)),
{
    let found = duck_items(items@);
    if items@.len() > 0 {
        law_items_keep_their_order(items@, 0);
    }
    assert forall|i: int| 0 <= i < items@.len() implies #[trigger] found[i] == duck_json(
        items@[i],
    ) by {
        law_items_keep_their_order(items@, i);
    }
}

/// A struct in JSON is an object that has a value under each name of a field, that of the last
/// field of the name, and no others.
pub proof fn law_struct_has_the_names_of_its_fields(
    fields: Vec<(String, DuckValue)>,
    name: Seq<char>,
)
    ensures
        duck_json(DuckValue::Struct(fields)) matches Json::Object(found) && (found.contains_key(name)
            <==> exists|i: int| 0 <= i < fields@.len() && (#[trigger] fields@[i]).0@ == name) && (
        forall|i: int|
            0 <= i < fields@.len() && (#[trigger] fields@[i]).0@ == name && (forall|j: int|
                i < j < fields@.len() ==> (#[trigger] fields@[j]).0@ != name) ==> found[name]
                == duck_json(fields@[i].1)),
{
    lemma_names_of_fields(fields@, name);
    let found = duck_fields(fields@);
    assert forall|i: int|
        0 <= i < fields@.len() && (#[trigger] fields@[i]).0@ == name && (forall|j: int|
            i < j < fields@.len() ==> (#[trigger] fields@[j]).0@ != name) implies found[name]
        == duck_json(fields@[i].1) by {
        law_struct_gives_back_its_fields(fields@, i);
    }
}

proof fn lemma_names_of_fields(fields: Seq<(String, DuckValue)>, name: Seq<char>)
    ensures
        duck_fields(fields).contains_key(name) <==> exists|i: int|
            0 <= i < fields.len() && (#[trigger] fields[i]).0@ == name,
    decreases fields.len(),
{
    if fields.len() > 0 {
        let before = fields.drop_last();
        lemma_names_of_fields(before, name);
        if fields.last().0@ == name {
            assert(fields[fields.len() - 1].0@ == name);
        }
        if exists|i: int| 0 <= i < before.len() && (#[trigger] before[i]).0@ == name {
            let i = choose|i: int| 0 <= i < before.len() && (#[trigger] before[i]).0@ == name;
            assert(fields[i].0@ == name);
        }
        if exists|i: int| 0 <= i < fields.len() && (#[trigger] fields[i]).0@ == name {
            let i = choose|i: int| 0 <= i < fields.len() && (#[trigger] fields[i]).0@ == name;
            if i < before.len() {
                assert(before[i].0@ == name);
            }
        }
    }
}

/// An integer of any width up to 64 bits is that integer in JSON; a wider one is its digits.
pub proof fn law_integers_keep_their_value(
    tiny: i8,
    small: i16,
    normal: i32,
    big: i64,
    huge: i128,
    tiny_unsigned: u8,
    small_unsigned: u16,
    unsigned: u32,
    big_unsigned: u64,
)
    ensures
        duck_json(DuckValue::TinyInt(tiny)) == Json::Integer(tiny as int),
        duck_json(DuckValue::SmallInt(small)) == Json::Integer(small as int),
        duck_json(DuckValue::Int(normal)) == Json::Integer(normal as int),
        duck_json(DuckValue::BigInt(big)) == Json::Integer(big as int),
        duck_json(DuckValue::HugeInt(huge)) == Json::Text(signed_decimal(huge as int)),
        duck_json(DuckValue::UTinyInt(tiny_unsigned)) == Json::Integer(tiny_unsigned as int),
        duck_json(DuckValue::USmallInt(small_unsigned)) == Json::Integer(small_unsigned as int),
        duck_json(DuckValue::UInt(unsigned)) == Json::Integer(unsigned as int),
        duck_json(DuckValue::UBigInt(big_unsigned)) == Json::Integer(big_unsigned as int),
{
}

/// Truth values, texts, decimal numbers and names of an enum are in JSON what they are; a
/// floating-point number is the JSON number that it was given with, or else its text.
pub proof fn law_plain_values_are_kept(
    flag: bool,
    text: String,
    number: serde_json::Value,
)
    ensures
        duck_json(DuckValue::Null) == Json::Null,
        duck_json(DuckValue::Boolean(flag)) == Json::Bool(flag),
        duck_json(DuckValue::Text(text)) == Json::Text(text@),
        duck_json(DuckValue::Decimal(text)) == Json::Text(text@),
        duck_json(DuckValue::Enum(text)) == Json::Text(text@),
        duck_json(DuckValue::Float(FloatCell { number: Some(number), text })) == json_tree(number),
        duck_json(DuckValue::Double(FloatCell { number: Some(number), text })) == json_tree(number),
        duck_json(DuckValue::Float(FloatCell { number: None, text })) == Json::Text(text@),
        duck_json(DuckValue::Double(FloatCell { number: None, text })) == Json::Text(text@),
{
}

/// Bytes are `0x` and two digits for each byte; different bytes are different in JSON.
pub proof fn law_bytes_are_hexadecimal(bytes: Vec<u8>, others: Vec<u8>)
    ensures
        duck_json(DuckValue::Blob(bytes)) == Json::Text(seq!['0', 'x'] + hex_text(bytes@)),
        duck_json(DuckValue::Blob(bytes)) == duck_json(DuckValue::Blob(others)) ==> bytes@
            == others@,
{
    reveal_strlit("0x");
    assert("0x"@ =~= seq!['0', 'x']);
    if duck_json(DuckValue::Blob(bytes)) == duck_json(DuckValue::Blob(others)) {
        let left = "0x"@ + hex_text(bytes@);
        let right = "0x"@ + hex_text(others@);
        assert(left.skip(2) =~= hex_text(bytes@));
        assert(right.skip(2) =~= hex_text(others@));
        assert(hex_text(bytes@).len() == 2 * bytes@.len());
        assert(hex_text(others@).len() == 2 * others@.len());
        assert forall|i: int| 0 <= i < bytes@.len() implies bytes@[i] == others@[i] by {
            law_hex_reads_back(bytes@, i);
            law_hex_reads_back(others@, i);
        }
        assert(bytes@ =~= others@);
    }
}

/// An interval is an object with its months, its days and its nanoseconds, and nothing else.
pub proof fn law_interval_gives_back_its_parts(months: i32, days: i32, nanos: i64)
    ensures
        duck_json(DuckValue::Interval { months, days, nanos }) matches Json::Object(found)
            && found.dom() == set!["months"@, "days"@, "nanos"@] && found["months"@]
            == Json::Integer(months as int) && found["days"@] == Json::Integer(days as int)
            && found["nanos"@] == Json::Integer(nanos as int),
{
    reveal_strlit("months");
    reveal_strlit("days");
    reveal_strlit("nanos");
    let entries = no_entries().insert("months"@, Json::Integer(months as int)).insert(
        "days"@,
        Json::Integer(days as int),
    ).insert("nanos"@, Json::Integer(nanos as int));
    assert("months"@.len() == 6 && "days"@.len() == 4 && "nanos"@.len() == 5);
    assert(entries.dom() =~= set!["months"@, "days"@, "nanos"@]);
}

/// Dates and times are texts that name their kind, their unit and their number: different numbers
/// have different texts.
pub proof fn law_times_are_told_by_number(unit: TimeUnit, count: i64, other: i64, day: i32)
    ensures
        duck_json(DuckValue::Timestamp(unit, count)) == Json::Text(
            "timestamp"@ + seq!['('] + unit.name() + seq![',', ' '] + signed_decimal(count as int)
                + seq![')'],
        ),
        duck_json(DuckValue::Time64(unit, count)) == Json::Text(
            "time64"@ + seq!['('] + unit.name() + seq![',', ' '] + signed_decimal(count as int)
                + seq![')'],
        ),
        duck_json(DuckValue::Date32(day)) == Json::Text("date32:"@ + signed_decimal(day as int)),
        duck_json(DuckValue::Timestamp(unit, count)) == duck_json(
            DuckValue::Timestamp(unit, other),
        ) ==> count == other,
        duck_json(DuckValue::Time64(unit, count)) == duck_json(DuckValue::Time64(unit, other))
            ==> count == other,
        TimeUnit::Second.name() == "Second"@,
        TimeUnit::Millisecond.name() == "Millisecond"@,
        TimeUnit::Microsecond.name() == "Microsecond"@,
        TimeUnit::Nanosecond.name() == "Nanosecond"@,
{
    reveal_strlit("(");
    reveal_strlit(", ");
    reveal_strlit(")");
    assert("("@ =~= seq!['(']);
    assert(", "@ =~= seq![',', ' ']);
    assert(")"@ =~= seq![')']);
    if duck_json(DuckValue::Timestamp(unit, count)) == duck_json(
        DuckValue::Timestamp(unit, other),
    ) {
        lemma_time_tells_its_number("timestamp"@, unit, count, other);
    }
    if duck_json(DuckValue::Time64(unit, count)) == duck_json(DuckValue::Time64(unit, other)) {
        lemma_time_tells_its_number("time64"@, unit, count, other);
    }
}

proof fn lemma_time_tells_its_number(kind: Seq<char>, unit: TimeUnit, count: i64, other: i64)
    requires
        time_text(kind, unit, count) == time_text(kind, unit, other),
    ensures
        count == other,
{
    reveal_strlit(")");
    let head = kind + "("@ + unit.name() + ", "@;
    let left = time_text(kind, unit, count);
    let right = time_text(kind, unit, other);
    assert(left.subrange(head.len() as int, left.len() - 1) =~= signed_decimal(count as int));
    assert(right.subrange(head.len() as int, right.len() - 1) =~= signed_decimal(other as int));
    law_different_numbers_differ(count as int, other as int);
}

/// A column is called what the database calls it, or `column_` and its index where it has no name;
/// its type is the one that the database says.
pub proof fn law_column_keeps_its_name(name: String, data_type: String, index: nat)
    ensures
        duck_column(DuckColumn { name: Some(name), data_type }, index as int).name == name@,
        duck_column(DuckColumn { name: Some(name), data_type }, index as int).data_type
            == data_type@,
        duck_column(DuckColumn { name: None, data_type }, index as int).name == "column_"@
            + decimal(index),
        duck_column(DuckColumn { name: None, data_type }, index as int).data_type == data_type@,
{
}

/// The cell of a row under the name of a column is the value of that column in JSON, where no later
/// column has the same name, and there are no other cells.
pub proof fn law_row_holds_its_values(
    columns: Seq<ColumnMeta>,
    values: Seq<DuckValue>,
    i: int,
    name: Seq<char>,
)
    requires
        columns.len() == values.len(),
        0 <= i < columns.len(),
    ensures
        (forall|j: int| i < j < columns.len() ==> (#[trigger] columns[j]).name@ != columns[i].name@)
            ==> cell_of(row_json(columns, values), columns[i].name@) == Some(duck_json(values[i])),
        (forall|j: int| 0 <= j < columns.len() ==> (#[trigger] columns[j]).name@ != name)
            ==> cell_of(row_json(columns, values), name) is None,
{
    let names = column_names(columns);
    law_items_keep_their_order(values, i);
    if forall|j: int| i < j < columns.len() ==> (#[trigger] columns[j]).name@ != columns[i].name@ {
        assert forall|j: int| i < j < names.len() implies names[j] != names[i] by {
            assert(columns[j].name@ != columns[i].name@);
        }
        law_row_gives_back_its_values(names, duck_items(values), i);
    }
    if forall|j: int| 0 <= j < columns.len() ==> (#[trigger] columns[j]).name@ != name {
        assert(!names.contains(name)) by {
            if names.contains(name) {
                let j = choose|j: int| 0 <= j < names.len() && names[j] == name;
                assert(columns[j].name@ == name);
            }
        }
        law_row_has_no_other_cells(names, duck_items(values), name);
    }
}

/// The scheme `http` or `https` is taken off an endpoint, and only `http` means that TLS is not
/// used; an endpoint that starts with neither is kept.
pub proof fn law_scheme_of_an_endpoint(host: Seq<char>)
    ensures
        endpoint_host(seq!['h', 't', 't', 'p', ':', '/', '/'] + host) == host,
        !endpoint_uses_ssl(seq!['h', 't', 't', 'p', ':', '/', '/'] + host),
        endpoint_host(seq!['h', 't', 't', 'p', 's', ':', '/', '/'] + host) == host,
        endpoint_uses_ssl(seq!['h', 't', 't', 'p', 's', ':', '/', '/'] + host),
        !seq!['h', 't', 't', 'p', ':', '/', '/'].is_prefix_of(host) && !seq![
            'h',
            't',
            't',
            'p',
            's',
            ':',
            '/',
            '/',
        ].is_prefix_of(host) ==> endpoint_host(host) == host && endpoint_uses_ssl(host),
{
    reveal_strlit("http://");
    reveal_strlit("https://");
    assert("http://"@ =~= seq!['h', 't', 't', 'p', ':', '/', '/']);
    assert("https://"@ =~= seq!['h', 't', 't', 'p', 's', ':', '/', '/']);
    let plain = "http://"@ + host;
    let secure = "https://"@ + host;
    assert(plain.take(7) =~= "http://"@);
    assert(plain.skip(7) =~= host);
    assert(secure.take(8) =~= "https://"@);
    assert(secure.skip(8) =~= host);
    assert(secure.take(7)[4] == 's');
    assert(!has_prefix(secure, "http://"@));
}

/// Escaping goes character by character: a quote is doubled, any other character stays.
pub proof fn law_quotes_are_doubled(left: Seq<char>, right: Seq<char>, c: char)
    ensures
        escaped(left + right) == escaped(left) + escaped(right),
        escaped(seq![c]) == (if c == '\'' {
            seq![c, c]
        } else {
            seq![c]
        }),
        escaped(seq![]) == Seq::<char>::empty(),
    decreases right.len(),
{
    if right.len() == 0 {
        assert(left + right =~= left);
        assert(escaped(left) + escaped(right) =~= escaped(left));
    } else {
        law_quotes_are_doubled(left, right.drop_last(), c);
        assert((left + right).drop_last() =~= left + right.drop_last());
        assert((left + right).last() == right.last());
        assert(escaped(left + right) =~= escaped(left) + escaped(right));
    }
    assert(seq![c].drop_last() =~= seq![]);
    assert(escaped(seq![c].drop_last()) =~= seq![]);
    assert(escaped(seq![c]) =~= (if c == '\'' {
        seq![c, c]
    } else {
        seq![c]
    }));
}

/// A text without quotes is its own escaped form.
pub proof fn law_text_without_quotes_stays(value: Seq<char>)
    requires
        forall|i: int| 0 <= i < value.len() ==> #[trigger] value[i] != '\'',
    ensures
        escaped(value) == value,
    decreases value.len(),
{
    if value.len() > 0 {
        assert forall|i: int| 0 <= i < value.drop_last().len() implies #[trigger] value.drop_last()[i]
            != '\'' by {
            assert(value[i] != '\'');
        }
        law_text_without_quotes_stays(value.drop_last());
        assert(value[value.len() - 1] != '\'');
        assert(value.drop_last().push(value.last()) =~= value);
    }
}

/// White space around what an S3 storage is known by makes no difference. An endpoint with the
/// scheme `http` is reached without TLS, one with `https` and one that has no scheme with it; in
/// each case the host is set, then the key and its secret, each between quotes.
pub proof fn law_storage_settings(host: Seq<char>, id: Seq<char>, secret: Seq<char>)
    requires
        host.len() > 0 ==> !is_white_space(host.last()),
    ensures
        ({
            let keys = "';SET s3_access_key_id = '"@ + escaped(trimmed(id))
                + "';SET s3_secret_access_key = '"@ + escaped(trimmed(secret))
                + "';SET s3_url_style = 'path';SET s3_use_ssl = "@;
            let start = "SET s3_endpoint = '"@ + escaped(host);
            &&& (host.len() > 0 ==> !is_white_space(host.first())) && !"http://"@.is_prefix_of(host)
                && !"https://"@.is_prefix_of(host) ==> s3_settings(host, id, secret) == start + keys
                + "true;"@
            &&& s3_settings("https://"@ + host, id, secret) == start + keys + "true;"@
            &&& s3_settings("http://"@ + host, id, secret) == start + keys + "false;"@
        }),
{
    reveal_strlit("http://");
    reveal_strlit("https://");
    assert("http://"@ =~= seq!['h', 't', 't', 'p', ':', '/', '/']);
    assert("https://"@ =~= seq!['h', 't', 't', 'p', 's', ':', '/', '/']);
    law_scheme_of_an_endpoint(host);
    let plain = "http://"@ + host;
    let secure = "https://"@ + host;
    assert(plain.first() == 'h' && secure.first() == 'h');
    assert(plain.last() == '/' || plain.last() == host.last());
    assert(secure.last() == '/' || secure.last() == host.last());
    law_trimmed_text_stays(plain);
    law_trimmed_text_stays(secure);
    let keys = "';SET s3_access_key_id = '"@ + escaped(trimmed(id))
        + "';SET s3_secret_access_key = '"@ + escaped(trimmed(secret))
        + "';SET s3_url_style = 'path';SET s3_use_ssl = "@;
    let start = "SET s3_endpoint = '"@ + escaped(host);
    if (host.len() > 0 ==> !is_white_space(host.first())) && !"http://"@.is_prefix_of(host)
        && !"https://"@.is_prefix_of(host) {
        law_trimmed_text_stays(host);
        assert(s3_settings(host, id, secret) =~= start + keys + "true;"@);
    }
    assert(s3_settings(secure, id, secret) =~= start + keys + "true;"@);
    assert(s3_settings(plain, id, secret) =~= start + keys + "false;"@);
}

/// White space around the endpoint, the key and the secret of a storage makes no difference.
pub proof fn law_padding_of_a_storage(
    before: Seq<char>,
    endpoint: Seq<char>,
    id: Seq<char>,
    secret: Seq<char>,
    after: Seq<char>,
)
    requires
        forall|i: int| 0 <= i < before.len() ==> is_white_space(#[trigger] before[i]),
        forall|i: int| 0 <= i < after.len() ==> is_white_space(#[trigger] after[i]),
    ensures
        s3_settings(before + endpoint + after, before + id + after, before + secret + after)
            == s3_settings(endpoint, id, secret),
{
    lemma_trim_padding(before, endpoint, after);
    lemma_trim_padding(before, id, after);
    lemma_trim_padding(before, secret, after);
}

/// The digits of a number below 2^64 are that number, also after a plus sign; those of a larger
/// number, and a text that holds anything but digits, are none.
pub proof fn law_numbers_are_parsed(n: nat, text: Seq<char>, i: int)
    ensures
        n <= 0xffff_ffff_ffff_ffff ==> parsed_u64(decimal(n)) == Some(n) && parsed_u64(
            seq!['+'] + decimal(n),
        ) == Some(n),
        n > 0xffff_ffff_ffff_ffff ==> parsed_u64(decimal(n)) is None,
        1 <= i < text.len() && !(48 <= text[i] as int <= 57) ==> parsed_u64(text) is None,
        text.len() > 0 && text[0] != '+' && !(48 <= text[0] as int <= 57) ==> parsed_u64(text)
            is None,
        text.len() == 0 ==> parsed_u64(text) is None,
        text.len() > 0 && (forall|k: int|
            0 <= k < text.len() ==> 48 <= #[trigger] text[k] as int && text[k] as int <= 57) && decimal_value(
            text,
        ) <= 0xffff_ffff_ffff_ffff ==> parsed_u64(text) == Some(decimal_value(text)),
{
    law_decimal_digits(n, 0);
    lemma_decimal_reads_back(n);
    let digits = decimal(n);
    assert(all_digits(digits)) by {
        assert forall|k: int| 0 <= k < digits.len() implies '0' <= #[trigger] digits[k] && digits[k]
            <= '9' by {
            assert(48 <= digits[k] as int && digits[k] as int <= 57);
        }
    }
    assert(digits.first() != '+') by {
        assert('0' <= digits[0]);
    }
    let signed = seq!['+'] + digits;
    assert(signed.first() == '+');
    assert(signed.drop_first() =~= digits);
    if 1 <= i < text.len() && !(48 <= text[i] as int <= 57) {
        if text.first() == '+' {
            assert(text.drop_first()[i - 1] == text[i]);
        }
    }
    if text.len() > 0 && text[0] != '+' && !(48 <= text[0] as int <= 57) {
        assert(!all_digits(text));
    }
    if text.len() > 0 && (forall|k: int|
        0 <= k < text.len() ==> 48 <= #[trigger] text[k] as int && text[k] as int <= 57) {
        assert forall|k: int| 0 <= k < text.len() implies '0' <= #[trigger] text[k] && text[k]
            <= '9' by {
            assert(48 <= text[k] as int && text[k] as int <= 57);
        }
        assert(text[0] != '+');
        assert(all_digits(text));
    }
}

/// A limit of the memory is set exactly where something other than white space is asked for, and
/// to what is asked for without the white space around it.
pub proof fn law_memory_is_limited_when_asked(
    before: Seq<char>,
    limit: Seq<char>,
    after: Seq<char>,
)
    requires
        forall|i: int| 0 <= i < before.len() ==> is_white_space(#[trigger] before[i]),
        forall|i: int| 0 <= i < after.len() ==> is_white_space(#[trigger] after[i]),
        limit.len() > 0 ==> !is_white_space(limit.first()) && !is_white_space(limit.last()),
    ensures
        limit.len() > 0 ==> memory_statements(Some(before + limit + after))
            == seq!["SET memory_limit = '"@ + escaped(limit) + "';"@],
        limit.len() == 0 ==> memory_statements(Some(before + limit + after)).len() == 0,
        memory_statements(None).len() == 0,
{
    lemma_trim_padding(before, limit, after);
    law_trimmed_text_stays(limit);
}

/// The number of threads is set exactly where a number is asked for, and to that number; anything
/// else but white space is bad.
pub proof fn law_threads_are_set_when_asked(
    before: Seq<char>,
    threads: Seq<char>,
    after: Seq<char>,
    n: nat,
)
    requires
        forall|i: int| 0 <= i < before.len() ==> is_white_space(#[trigger] before[i]),
        forall|i: int| 0 <= i < after.len() ==> is_white_space(#[trigger] after[i]),
        threads.len() > 0 ==> !is_white_space(threads.first()) && !is_white_space(threads.last()),
    ensures
        parsed_u64(threads) == Some(n) ==> thread_statements(Some(before + threads + after))
            == seq!["SET threads = "@ + decimal(n) + ";"@] && !bad_threads(
            Some(before + threads + after),
        ),
        threads.len() > 0 && parsed_u64(threads) is None ==> thread_statements(
            Some(before + threads + after),
        ).len() == 0 && bad_threads(Some(before + threads + after)) && wanted_threads(
            Some(before + threads + after),
        ) == Some(threads),
        threads.len() == 0 ==> thread_statements(Some(before + threads + after)).len() == 0
            && !bad_threads(Some(before + threads + after)),
        thread_statements(None).len() == 0 && !bad_threads(None),
{
    lemma_trim_padding(before, threads, after);
    law_trimmed_text_stays(threads);
    law_numbers_are_parsed(0, threads, 0);
}

/// A statement has a column for each that the database describes, in their order, with its name,
/// or `column_` and its index where it has none, and its type.
pub proof fn law_columns_of_a_statement(columns: Seq<DuckColumn>, i: int)
    requires
        0 <= i < columns.len(),
    ensures
        duck_columns(columns).len() == columns.len(),
        duck_columns(columns)[i].data_type == columns[i].data_type@,
        columns[i].name matches Some(name) ==> duck_columns(columns)[i].name == name@,
        columns[i].name is None ==> duck_columns(columns)[i].name == "column_"@ + decimal(i as nat),
{
}

/// A limit of the memory that is asked for is set before the number of threads, also where that is
/// no number, which is reported then; without either nothing is run.
pub proof fn law_settings_of_a_connection(
    limit: Seq<char>,
    threads: Seq<char>,
    n: nat,
)
    requires
        limit.len() > 0,
        !is_white_space(limit.first()) && !is_white_space(limit.last()),
        threads.len() > 0,
        !is_white_space(threads.first()) && !is_white_space(threads.last()),
    ensures
        parsed_u64(threads) == Some(n) ==> runtime_statements(Some(limit), Some(threads)) == seq![
            "SET memory_limit = '"@ + escaped(limit) + "';"@,
            "SET threads = "@ + decimal(n) + ";"@,
        ] && runtime_statements(None, Some(threads)) == seq!["SET threads = "@ + decimal(n) + ";"@]
            && runtime_error(Some(threads)) is None,
        parsed_u64(threads) is None ==> runtime_statements(Some(limit), Some(threads)) == seq![
            "SET memory_limit = '"@ + escaped(limit) + "';"@,
        ] && runtime_error(Some(threads)) == Some(
            "Invalid DUCKDB_THREADS value: "@ + u64_error(threads),
        ),
        runtime_statements(Some(limit), None) == seq![
            "SET memory_limit = '"@ + escaped(limit) + "';"@,
        ],
        runtime_statements(None, None).len() == 0,
        runtime_error(None) is None,
{
    law_trimmed_text_stays(limit);
    law_trimmed_text_stays(threads);
    let memory = "SET memory_limit = '"@ + escaped(limit) + "';"@;
    let number = "SET threads = "@ + decimal(n) + ";"@;
    if parsed_u64(threads) == Some(n) {
        assert(runtime_statements(Some(limit), Some(threads)) =~= seq![memory, number]);
        assert(runtime_statements(None, Some(threads)) =~= seq![number]);
    }
    if parsed_u64(threads) is None {
        assert(runtime_statements(Some(limit), Some(threads)) =~= seq![memory]);
    }
    assert(runtime_statements(Some(limit), None) =~= seq![memory]);
}

} // verus!
