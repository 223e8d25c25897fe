//! ClickHouse: how to reach a server, and its answers in the format
//! `JSONCompactEachRowWithNamesAndTypes`: a line with the names of the columns, a line with their
//! types, and a line for each row, each line a JSON array.
use vstd::prelude::*;
use vstd::string::*;

use crate::error::{state_error, DbNativeResult, Error};
use crate::json::{json_tree, keyed_object, row_entries, trees, Json};
use crate::stream::{
    all_rows, lemma_all_rows, lemma_one_more_batch, optional_batch, smaller, BatchView, BatcherView,
    RowBatcher,
};
use crate::text::{
    contains, contains_text, decimal, decimal_text, is_white_space, law_trimmed_text_stays,
    lemma_trim_padding, occurs_at, optional_text, texts, trim, trim_end_matches, trimmed,
    without_trailing,
};
use crate::{column_views, ColumnMeta, ColumnView, QueryBatch};

verus! {

/// A connection to a ClickHouse server until it is closed.
pub struct ClickHouseDriver<C> {
    pub client: Option<C>,
}

impl<C> ClickHouseDriver<C> {
    /// A connection through `client`.
    pub fn new(client: C) -> (r: Self)
        ensures
            r.client == Some(client),
    {
        ClickHouseDriver { client: Some(client) }
    }

    /// The client, unless the connection is closed.
    pub fn client(&self) -> (r: DbNativeResult<&C>)
        ensures
            match r {
                Ok(client) => self.client == Some(*client),
                Err(error) => self.client is None && error.reason@
                    == "ClickHouse connection is already closed"@,
            },
    {
        match &self.client {
            Some(client) => Ok(client),
            None => Err(state_error("ClickHouse connection is already closed")),
        }
    }

    /// Closes the connection; closing it again changes nothing.
    pub fn close(&mut self)
        ensures
            final(self).client is None,
    {
        self.client = None;
    }
}

/// What a client is told before it connects.
pub struct ClickHouseSettings {
    pub url: String,
    pub user: String,
    pub password: String,
    pub database: Option<String>,
    pub wait_end_of_query: bool,
}

/// The URL of a server: a host that is a URL already is kept, a bare host gets the scheme `http`
/// and the port, an IPv6 address brackets.
pub open spec fn clickhouse_url(host: Seq<char>, port: u16) -> Seq<char> {
    let host = without_trailing(trimmed(host), '/');
    if contains_text(host, "://"@) {
        host
    } else if contains_text(host, ":"@) && !(host.first() == '[') && !(host.last()
        == ']') {
        "http://["@ + host + "]:"@ + decimal(port as nat)
    } else {
        "http://"@ + host + ":"@ + decimal(port as nat)
    }
}

/// The URL of a server; a trailing slash and surrounding white space are dropped.
pub fn normalize_clickhouse_url(host: &str, port: u16) -> (r: String)
    ensures
        r@ == clickhouse_url(host@, port),
{
    let host: &str = trim_end_matches(trim(host), '/');
    if contains(host, "://") {
        return host.to_owned();
    }
    let length: usize = host.unicode_len();
    let has_colon: bool = contains(host, ":");
    proof {
        if has_colon {
            reveal_strlit(":");
            let i = choose|i: int| #[trigger] occurs_at(host@, ":"@, i);
            assert(host@.len() > 0);
        }
    }
    let bare: bool = has_colon && host.get_char(0) != '[' && host.get_char(length - 1) != ']';
    let mut url: String = if bare {
        "http://[".to_owned()
    } else {
        "http://".to_owned()
    };
    url.append(host);
    url.append(
        if bare {
            "]:"
        } else {
            ":"
        },
    );
    url.append(decimal_text(port as u128).as_str());
    url
}

/// The database that is named, if anything is left of the name without white space around it.
pub open spec fn database_named(database: Seq<char>) -> Option<Seq<char>> {
    if trimmed(database).len() > 0 {
        Some(trimmed(database))
    } else {
        None
    }
}

impl ClickHouseSettings {
    /// The settings for a server: the database is left to the server where none is named, and the
    /// server is asked to answer only when the query is done.
    pub fn new(host: &str, port: u16, database: &str, username: String, password: String) -> (r:
        Self)
        ensures
            r.url@ == clickhouse_url(host@, port),
            r.user == username,
            r.password == password,
            match r.database {
                Some(name) => name@ == trimmed(database@) && name@.len() > 0,
                None => trimmed(database@).len() == 0,
            },
            optional_text(r.database) == database_named(database@),
            r.wait_end_of_query,
    {
        let name: &str = trim(database);
        ClickHouseSettings {
            url: normalize_clickhouse_url(host, port),
            user: username,
            password,
            database: if name.unicode_len() > 0 {
                Some(name.to_owned())
            } else {
                None
            },
            wait_end_of_query: true,
        }
    }
}

/// What `serde_json::from_str` reads from a line as an array of strings, or its error as text.
pub uninterp spec fn json_strings(line: Seq<char>) -> Result<Seq<Seq<char>>, Seq<char>>;

/// What `serde_json::from_str` reads from a line as an array of values, or its error as text.
pub uninterp spec fn json_values(line: Seq<char>) -> Result<Seq<Json>, Seq<char>>;

/// `serde_json::from_str` for an array of strings: the strings in their order, or why the line is
/// no such array. Both depend on the line alone.
#[verifier::external_body]
fn read_strings(line: &str) -> (r: Result<Vec<String>, String>)
    ensures
        match r {
            Ok(strings) => json_strings(line@) == Ok::<Seq<Seq<char>>, Seq<char>>(
                texts(strings@),
            ),
            Err(error) => json_strings(line@) == Err::<Seq<Seq<char>>, Seq<char>>(error@),
        },
{
    serde_json::from_str(line).map_err(|error| error.to_string())
}

/// `serde_json::from_str` for an array of values: the values in their order, or why the line is no
/// such array. Both depend on the line alone.
#[verifier::external_body]
fn read_values(line: &str) -> (r: Result<Vec<serde_json::Value>, String>)
    ensures
        match r {
            Ok(values) => json_values(line@) == Ok::<Seq<Json>, Seq<char>>(
                trees(values@),
            ),
            Err(error) => json_values(line@) == Err::<Seq<Json>, Seq<char>>(error@),
        },
{
    serde_json::from_str(line).map_err(|error| error.to_string())
}

/// Why a line could not be read as an array.
pub open spec fn array_error(context: Seq<char>, error: Seq<char>) -> Seq<char> {
    "Failed to parse ClickHouse "@ + context + " JSON array: "@ + error
}

/// Why the header lines do not go together.
pub open spec fn header_error(names: nat, types: nat) -> Seq<char> {
    "ClickHouse response has "@ + decimal(names) + " column names but "@
        + decimal(types) + " column types"@
}

/// Why a row does not go with the header.
pub open spec fn row_error(values: nat, columns: nat) -> Seq<char> {
    "ClickHouse row has "@ + decimal(values) + " values but header defines "@
        + decimal(columns) + " columns"@
}

/// An error that says why a line could not be read as an array.
fn array_failure(context: &str, error: &str) -> (r: Error)
    ensures
        r.reason@ == array_error(context@, error@),
{
    let mut reason: String = "Failed to parse ClickHouse ".to_owned();
    reason.append(context);
    reason.append(" JSON array: ");
    reason.append(error);
    Error { reason }
}

/// The strings of a line, which holds what `context` says.
pub fn parse_string_array(line: &str, context: &str) -> (r: DbNativeResult<Vec<String>>)
    ensures
        match json_strings(line@) {
            Ok(strings) => r matches Ok(found) && texts(found@) == strings,
            Err(error) => r matches Err(failure) && failure.reason@ == array_error(context@, error),
        },
{
    match read_strings(line) {
        Ok(strings) => Ok(strings),
        Err(error) => Err(array_failure(context, error.as_str())),
    }
}

/// The values of a line.
pub fn parse_value_array(line: &str) -> (r: DbNativeResult<Vec<serde_json::Value>>)
    ensures
        match json_values(line@) {
            Ok(values) => r matches Ok(found) && trees(found@) == values,
            Err(error) => r matches Err(failure) && failure.reason@ == array_error("row"@, error),
        },
{
    match read_values(line) {
        Ok(values) => Ok(values),
        Err(error) => Err(array_failure("row", error.as_str())),
    }
}

/// An error that says why the header lines do not go together.
fn header_failure(names: usize, types: usize) -> (r: Error)
    ensures
        r.reason@ == header_error(names as nat, types as nat),
{
    let mut reason: String = "ClickHouse response has ".to_owned();
    reason.append(decimal_text(names as u128).as_str());
    reason.append(" column names but ");
    reason.append(decimal_text(types as u128).as_str());
    reason.append(" column types");
    Error { reason }
}

/// Columns with the given names and types.
pub open spec fn named_columns(names: Seq<Seq<char>>, types: Seq<Seq<char>>) -> Seq<
    ColumnView,
> {
    Seq::new(names.len(), |i: int| ColumnView { name: names[i], data_type: types[i] })
}

/// Columns with the given names and types, of which there have to be equally many.
pub fn build_columns(column_names: &[String], column_types: &[String]) -> (r: DbNativeResult<
    Vec<ColumnMeta>,
>)
    ensures
        match r {
            Ok(columns) => column_names@.len() == column_types@.len() && column_views(
                columns@,
            ) == named_columns(
                texts(column_names@),
                texts(column_types@),
            ),
            Err(error) => column_names@.len() != column_types@.len() && error.reason@
                == header_error(column_names@.len(), column_types@.len()),
        },
{
    if column_names.len() != column_types.len() {
        return Err(header_failure(column_names.len(), column_types.len()));
    }
    let mut columns: Vec<ColumnMeta> = Vec::new();
    let mut i: usize = 0;
    while i < column_names.len()
        invariant
            i <= column_names.len(),
            column_names.len() == column_types.len(),
            columns@.len() == i,
            forall|j: int|
                0 <= j < i ==> (#[trigger] columns@[j])@ == (ColumnView {
                    name: column_names@[j]@,
                    data_type: column_types@[j]@,
                }),
        decreases column_names.len() - i,
    {
        columns.push(
            ColumnMeta { name: column_names[i].clone(), data_type: column_types[i].clone() },
        );
        i = i + 1;
    }
    assert(column_views(columns@) =~= named_columns(
        texts(column_names@),
        texts(column_types@),
    ));
    Ok(columns)
}

/// A row: an object with the values under the names of the columns. There have to be as many
/// values as columns.
pub fn values_to_row(column_names: &[String], values: Vec<serde_json::Value>) -> (r: DbNativeResult<
    serde_json::Value,
>)
    ensures
        match r {
            Ok(row) => column_names@.len() == values@.len() && json_tree(row)
                == Json::Object(
                row_entries(texts(column_names@), trees(values@)),
            ),
            Err(error) => column_names@.len() != values@.len() && error.reason@ == row_error(
                values@.len(),
                column_names@.len(),
            ),
        },
{
    if column_names.len() != values.len() {
        let mut reason: String = "ClickHouse row has ".to_owned();
        reason.append(decimal_text(values.len() as u128).as_str());
        reason.append(" values but header defines ");
        reason.append(decimal_text(column_names.len() as u128).as_str());
        reason.append(" columns");
        return Err(Error { reason });
    }
    Ok(keyed_object(column_names, values))
}

/// Reads the lines of an answer and collects its rows up to a limit.
pub struct ClickHouseResponseParser {
    limit: usize,
    column_names: Option<Vec<String>>,
    column_types: Option<Vec<String>>,
    rows: Vec<serde_json::Value>,
}

/// The strings that may be there, as text.
pub open spec fn optional_texts(strings: Option<Vec<String>>) -> Option<Seq<Seq<char>>> {
    match strings {
        Some(found) => Some(texts(found@)),
        None => None,
    }
}

/// The state of a `ClickHouseResponseParser`: the largest number of rows, the names and types of
/// the columns once they are known, and what the rows hold.
pub struct ParserView {
    pub limit: nat,
    pub names: Option<Seq<Seq<char>>>,
    pub types: Option<Seq<Seq<char>>>,
    pub rows: Seq<Json>,
}

impl View for ClickHouseResponseParser {
    type V = ParserView;

    closed spec fn view(&self) -> ParserView {
        ParserView {
            limit: self.limit as nat,
            names: optional_texts(self.column_names),
            types: optional_texts(self.column_types),
            rows: trees(self.rows@),
        }
    }
}

impl ParserView {
    /// Before the first line.
    pub open spec fn start(limit: nat) -> ParserView {
        ParserView { limit, names: None, types: None, rows: seq![] }
    }

    /// After the line with the names of the columns.
    pub open spec fn with_names(self, names: Seq<Seq<char>>) -> ParserView {
        ParserView { names: Some(names), ..self }
    }

    /// After the line with the types of the columns, of which there are as many as names.
    pub open spec fn with_types(self, types: Seq<Seq<char>>) -> Result<ParserView, Seq<char>>
        recommends
            self.names is Some,
    {
        if self.names->0.len() != types.len() {
            Err(header_error(self.names->0.len(), types.len()))
        } else {
            Ok(ParserView { types: Some(types), ..self })
        }
    }

    /// After the line of a row, which has as many values as there are names.
    pub open spec fn with_row(self, values: Seq<Json>) -> Result<ParserView, Seq<char>>
        recommends
            self.names is Some,
    {
        if self.names->0.len() != values.len() {
            Err(row_error(values.len(), self.names->0.len()))
        } else {
            Ok(
                ParserView {
                    rows: self.rows.push(
                        Json::Object(row_entries(self.names->0, values)),
                    ),
                    ..self
                },
            )
        }
    }

    /// After one more line, where `strings` and `values` are what the trimmed line reads as: a
    /// blank line is passed over, and so is a row after the limit.
    pub open spec fn after_line(
        self,
        line: Seq<char>,
        strings: Result<Seq<Seq<char>>, Seq<char>>,
        values: Result<Seq<Json>, Seq<char>>,
    ) -> Result<ParserView, Seq<char>> {
        if trimmed(line).len() == 0 {
            Ok(self)
        } else if self.names is None {
            match strings {
                Ok(names) => Ok(self.with_names(names)),
                Err(error) => Err(array_error("column names"@, error)),
            }
        } else if self.types is None {
            match strings {
                Ok(types) => self.with_types(types),
                Err(error) => Err(array_error("column types"@, error)),
            }
        } else if self.rows.len() >= self.limit {
            Ok(self)
        } else {
            match values {
                Ok(values) => self.with_row(values),
                Err(error) => Err(array_error("row"@, error)),
            }
        }
    }

    /// Whether the header and as many rows as the limit allows have been read.
    pub open spec fn complete(self) -> bool {
        self.names is Some && self.types is Some && self.rows.len() >= self.limit
    }
}

/// The columns and the rows of an answer: none where no line came, an error where only half of the
/// header came.
pub open spec fn answer_of(state: ParserView) -> Result<(Seq<ColumnView>, Seq<Json>), Seq<char>> {
    match (state.names, state.types) {
        (None, None) => Ok((seq![], seq![])),
        (Some(names), Some(types)) => if names.len() == types.len() {
            Ok((named_columns(names, types), state.rows))
        } else {
            Err(header_error(names.len(), types.len()))
        },
        _ => Err("Incomplete ClickHouse response header while parsing query result"@),
    }
}

/// Whether a step went as it should: to the next state, or to an error that leaves the state as
/// it was.
pub open spec fn parser_step(
    before: ParserView,
    expected: Result<ParserView, Seq<char>>,
    after: ParserView,
    r: DbNativeResult<()>,
) -> bool {
    match expected {
        Ok(next) => r is Ok && after == next,
        Err(text) => r matches Err(error) && error.reason@ == text && after == before,
    }
}

impl ClickHouseResponseParser {
    /// Before the first line.
    pub fn new(limit: usize) -> (r: Self)
        ensures
            r@ == ParserView::start(limit as nat),
    {
        let r = ClickHouseResponseParser {
            limit,
            column_names: None,
            column_types: None,
            rows: Vec::new(),
        };
        assert(r@.rows =~= seq![]);
        r
    }

    /// Takes the names of the columns.
    pub fn accept_names(&mut self, names: Vec<String>)
        ensures
            final(self)@ == old(self)@.with_names(texts(names@)),
    {
        self.column_names = Some(names);
    }

    /// Takes the types of the columns, of which there have to be as many as names.
    pub fn accept_types(&mut self, types: Vec<String>) -> (r: DbNativeResult<()>)
        requires
            old(self)@.names is Some,
        ensures
            parser_step(
                old(self)@,
                old(self)@.with_types(texts(types@)),
                final(self)@,
                r,
            ),
    {
        match &self.column_names {
            Some(names) => {
                if names.len() != types.len() {
                    return Err(header_failure(names.len(), types.len()));
                }
            },
            None => {},
        }
        self.column_types = Some(types);
        Ok(())
    }

    /// Takes the values of a row, of which there have to be as many as names.
    pub fn accept_values(&mut self, values: Vec<serde_json::Value>) -> (r: DbNativeResult<()>)
        requires
            old(self)@.names is Some,
        ensures
            parser_step(
                old(self)@,
                old(self)@.with_row(trees(values@)),
                final(self)@,
                r,
            ),
    {
        let row = match &self.column_names {
            Some(names) => values_to_row(names.as_slice(), values),
            None => Err(state_error("ClickHouse response is missing column names")),
        };
        match row {
            Ok(row) => {
                self.rows.push(row);
                assert(self@.rows =~= old(self)@.rows.push(json_tree(row)));
                Ok(())
            },
            Err(error) => Err(error),
        }
    }

    /// Takes one more line.
    pub fn ingest_line(&mut self, line: &str) -> (r: DbNativeResult<()>)
        ensures
            !old(self)@.complete() ==> forall|rest: Seq<Seq<char>>|
                #[trigger] parser_run(old(self)@, seq![line@] + rest) == (match r {
                    Ok(()) => parser_run(final(self)@, rest),
                    Err(error) => Err(error.reason@),
                }),
            parser_step(
                old(self)@,
                old(self)@.after_line(
                    line@,
                    json_strings(trimmed(line@)),
                    json_values(trimmed(line@)),
                ),
                final(self)@,
                r,
            ),
    {
        proof {
            assert forall|rest: Seq<Seq<char>>|
                (#[trigger] (seq![line@] + rest)).first() == line@ && (seq![line@]
                    + rest).drop_first() == rest by {
                assert((seq![line@] + rest).drop_first() =~= rest);
            }
        }
        let line: &str = trim(line);
        if line.unicode_len() == 0 {
            return Ok(());
        }
        if self.column_names.is_none() {
            return match parse_string_array(line, "column names") {
                Ok(names) => {
                    self.accept_names(names);
                    Ok(())
                },
                Err(error) => Err(error),
            };
        }
        if self.column_types.is_none() {
            return match parse_string_array(line, "column types") {
                Ok(types) => self.accept_types(types),
                Err(error) => Err(error),
            };
        }
        if self.rows.len() >= self.limit {
            return Ok(());
        }
        match parse_value_array(line) {
            Ok(values) => self.accept_values(values),
            Err(error) => Err(error),
        }
    }

    /// Whether the header and as many rows as the limit allows have been read.
    pub fn is_complete_for_limit(&self) -> (r: bool)
        ensures
            r == self@.complete(),
    {
        self.column_names.is_some() && self.column_types.is_some() && self.rows.len() >= self.limit
    }

    /// The columns and the rows: none where no line came, an error where only half of the header
    /// came.
    pub fn finish(self) -> (r: DbNativeResult<(Vec<ColumnMeta>, Vec<serde_json::Value>)>)
        ensures
            match (self@.names, self@.types) {
                (None, None) => r matches Ok(found) && found.0@.len() == 0 && found.1@.len() == 0,
                (Some(names), Some(types)) => if names.len() == types.len() {
                    r matches Ok(found) && column_views(found.0@) == named_columns(
                        names,
                        types,
                    ) && trees(found.1@) == self@.rows
                } else {
                    r matches Err(error) && error.reason@ == header_error(names.len(), types.len())
                },
                _ => r matches Err(error) && error.reason@
                    == "Incomplete ClickHouse response header while parsing query result"@,
            },
            match answer_of(self@) {
                Ok((columns, rows)) => r matches Ok(found) && column_views(found.0@) == columns
                    && trees(found.1@) == rows,
                Err(text) => r matches Err(error) && error.reason@ == text,
            },
    {
        match (self.column_names, self.column_types) {
            (None, None) => Ok((Vec::new(), Vec::new())),
            (Some(names), Some(types)) => match build_columns(names.as_slice(), types.as_slice()) {
                Ok(columns) => Ok((columns, self.rows)),
                Err(error) => Err(error),
            },
            _ => Err(
                state_error("Incomplete ClickHouse response header while parsing query result"),
            ),
        }
    }
}

/// Once the header and as many rows as the limit allows have been read, a line changes nothing.
pub proof fn law_complete_answer_stays(
    state: ParserView,
    line: Seq<char>,
    strings: Result<Seq<Seq<char>>, Seq<char>>,
    values: Result<Seq<Json>, Seq<char>>,
)
    requires
        state.complete(),
    ensures
        state.after_line(line, strings, values) == Ok::<ParserView, Seq<char>>(state),
{
}

/// What a parser keeps: no more rows than the limit, and as many types as names.
pub open spec fn parser_holds(state: ParserView) -> bool {
    &&& state.rows.len() <= state.limit
    &&& state.types is Some ==> state.names is Some && state.types->0.len() == state.names->0.len()
    &&& state.types is None ==> state.rows.len() == 0
}

/// A parser starts without more rows than the limit and keeps to that, whatever the lines are;
/// the header it has read and the rows it has collected stay.
pub proof fn law_parser_keeps_to_limit(
    state: ParserView,
    line: Seq<char>,
    strings: Result<Seq<Seq<char>>, Seq<char>>,
    values: Result<Seq<Json>, Seq<char>>,
)
    requires
        parser_holds(state),
    ensures
        parser_holds(ParserView::start(state.limit)),
        state.after_line(line, strings, values) matches Ok(next) ==> {
            &&& parser_holds(next)
            &&& next.limit == state.limit
            &&& state.names is Some ==> next.names == state.names
            &&& state.types is Some ==> next.types == state.types
            &&& state.rows.is_prefix_of(next.rows)
        },
{
}

/// Reads the lines of an answer and hands out its rows in batches.
pub struct ClickHouseStream {
    column_names: Option<Vec<String>>,
    batcher: RowBatcher,
}

/// The state of a `ClickHouseStream`: the names of the columns once they are known, and the rows
/// that are being collected.
pub struct StreamView {
    pub names: Option<Seq<Seq<char>>>,
    pub batcher: BatcherView,
}

impl View for ClickHouseStream {
    type V = StreamView;

    closed spec fn view(&self) -> StreamView {
        StreamView { names: optional_texts(self.column_names), batcher: self.batcher@ }
    }
}

impl StreamView {
    /// Before the first line.
    pub open spec fn start(batch_size: nat, limit: nat) -> StreamView {
        StreamView { names: None, batcher: BatcherView::start(batch_size, limit) }
    }

    /// After the line with the names of the columns.
    pub open spec fn with_names(self, names: Seq<Seq<char>>) -> StreamView {
        StreamView { names: Some(names), ..self }
    }

    /// After the line with the types of the columns, of which there are as many as names.
    pub open spec fn with_types(self, types: Seq<Seq<char>>) -> Result<StreamView, Seq<char>>
        recommends
            self.names is Some,
    {
        if self.names->0.len() != types.len() {
            Err(header_error(self.names->0.len(), types.len()))
        } else {
            Ok(
                StreamView {
                    batcher: self.batcher.with_columns(named_columns(self.names->0, types)),
                    ..self
                },
            )
        }
    }

    /// After the line of a row, which has as many values as there are names; with the batch that
    /// the row fills, if it fills one.
    pub open spec fn with_row(self, values: Seq<Json>) -> Result<
        (StreamView, Option<BatchView>),
        Seq<char>,
    >
        recommends
            self.names is Some,
    {
        if self.names->0.len() != values.len() {
            Err(row_error(values.len(), self.names->0.len()))
        } else {
            let row = Json::Object(row_entries(self.names->0, values));
            Ok(
                (
                    StreamView { batcher: self.batcher.pushed(row), ..self },
                    self.batcher.batch_of(row),
                ),
            )
        }
    }

    /// After one more line, where `strings` and `values` are what the trimmed line reads as: a
    /// blank line is passed over.
    pub open spec fn after_line(
        self,
        line: Seq<char>,
        strings: Result<Seq<Seq<char>>, Seq<char>>,
        values: Result<Seq<Json>, Seq<char>>,
    ) -> Result<(StreamView, Option<BatchView>), Seq<char>> {
        if trimmed(line).len() == 0 {
            Ok((self, None))
        } else if self.names is None {
            match strings {
                Ok(names) => Ok((self.with_names(names), None)),
                Err(error) => Err(array_error("column names"@, error)),
            }
        } else if self.batcher.columns is None {
            match strings {
                Ok(types) => match self.with_types(types) {
                    Ok(next) => Ok((next, None)),
                    Err(error) => Err(error),
                },
                Err(error) => Err(array_error("column types"@, error)),
            }
        } else {
            match values {
                Ok(values) => self.with_row(values),
                Err(error) => Err(array_error("row"@, error)),
            }
        }
    }
}

/// Whether a step went as it should: to the next state with the batch that is due, or to an error
/// that leaves the state as it was.
pub open spec fn stream_step(
    before: StreamView,
    expected: Result<(StreamView, Option<BatchView>), Seq<char>>,
    after: StreamView,
    r: DbNativeResult<Option<QueryBatch>>,
) -> bool {
    match expected {
        Ok((next, batch)) => r matches Ok(found) && optional_batch(found) == batch
            && after == next,
        Err(text) => r matches Err(error) && error.reason@ == text && after == before,
    }
}

impl ClickHouseStream {
    /// Before the first line.
    pub fn new(batch_size: usize, limit: usize) -> (r: Self)
        ensures
            r@ == StreamView::start(batch_size as nat, limit as nat),
    {
        ClickHouseStream { column_names: None, batcher: RowBatcher::new(batch_size, limit) }
    }

    /// Whether another line is to be read.
    pub fn wants_line(&self) -> (r: bool)
        ensures
            r == self@.batcher.wants_row(),
    {
        self.batcher.wants_row()
    }

    /// Takes the names of the columns.
    pub fn accept_names(&mut self, names: Vec<String>)
        ensures
            final(self)@ == old(self)@.with_names(texts(names@)),
    {
        self.column_names = Some(names);
    }

    /// Takes the types of the columns, of which there have to be as many as names.
    pub fn accept_types(&mut self, types: Vec<String>) -> (r: DbNativeResult<()>)
        requires
            old(self)@.names is Some,
        ensures
            match old(self)@.with_types(texts(types@)) {
                Ok(next) => r is Ok && final(self)@ == next,
                Err(text) => r matches Err(error) && error.reason@ == text && final(self)@ == old(
                    self,
                )@,
            },
    {
        let columns = match &self.column_names {
            Some(names) => build_columns(names.as_slice(), types.as_slice()),
            None => Err(state_error("ClickHouse response is missing column names")),
        };
        match columns {
            Ok(columns) => {
                self.batcher.set_columns(columns);
                Ok(())
            },
            Err(error) => Err(error),
        }
    }

    /// Takes the values of a row, of which there have to be as many as names; hands out the batch
    /// if it is full.
    pub fn accept_values(&mut self, values: Vec<serde_json::Value>) -> (r: DbNativeResult<
        Option<QueryBatch>,
    >)
        requires
            old(self)@.names is Some,
            old(self)@.batcher.wants_row(),
        ensures
            stream_step(
                old(self)@,
                old(self)@.with_row(trees(values@)),
                final(self)@,
                r,
            ),
    {
        let row = match &self.column_names {
            Some(names) => values_to_row(names.as_slice(), values),
            None => Err(state_error("ClickHouse response is missing column names")),
        };
        match row {
            Ok(row) => Ok(self.batcher.push(row)),
            Err(error) => Err(error),
        }
    }

    /// Takes one more line; hands out the batch if it is full.
    pub fn ingest_line(&mut self, line: &str) -> (r: DbNativeResult<Option<QueryBatch>>)
        requires
            old(self)@.batcher.wants_row(),
        ensures
            forall|rest: Seq<Seq<char>>|
                #[trigger] stream_run(old(self)@, seq![line@] + rest) == (match r {
                    Ok(Some(batch)) => match stream_run(final(self)@, rest) {
                        Ok(more) => Ok(seq![batch@] + more),
                        Err(error) => Err(error),
                    },
                    Ok(None) => stream_run(final(self)@, rest),
                    Err(error) => Err(error.reason@),
                }),
            stream_step(
                old(self)@,
                old(self)@.after_line(
                    line@,
                    json_strings(trimmed(line@)),
                    json_values(trimmed(line@)),
                ),
                final(self)@,
                r,
            ),
    {
        proof {
            assert forall|rest: Seq<Seq<char>>|
                (#[trigger] (seq![line@] + rest)).first() == line@ && (seq![line@]
                    + rest).drop_first() == rest by {
                assert((seq![line@] + rest).drop_first() =~= rest);
            }
        }
        let line: &str = trim(line);
        if line.unicode_len() == 0 {
            return Ok(None);
        }
        if self.column_names.is_none() {
            return match parse_string_array(line, "column names") {
                Ok(names) => {
                    self.accept_names(names);
                    Ok(None)
                },
                Err(error) => Err(error),
            };
        }
        if !self.batcher.has_columns() {
            return match parse_string_array(line, "column types") {
                Ok(types) => match self.accept_types(types) {
                    Ok(()) => Ok(None),
                    Err(error) => Err(error),
                },
                Err(error) => Err(error),
            };
        }
        match parse_value_array(line) {
            Ok(values) => self.accept_values(values),
            Err(error) => Err(error),
        }
    }

    /// Hands out what is left at the end.
    pub fn finish(self) -> (r: Option<QueryBatch>)
        ensures
            optional_batch(r) == self@.batcher.last_batch(),
    {
        self.batcher.finish()
    }
}

/// The parser after the lines of an answer; it reads no further once it is complete.
pub open spec fn parser_run(state: ParserView, lines: Seq<Seq<char>>) -> Result<
    ParserView,
    Seq<char>,
>
    decreases lines.len(),
{
    if lines.len() == 0 || state.complete() {
        Ok(state)
    } else {
        let line = trimmed(lines.first());
        match state.after_line(lines.first(), json_strings(line), json_values(line)) {
            Ok(next) => parser_run(next, lines.drop_first()),
            Err(error) => Err(error),
        }
    }
}

/// The batches of an answer; no line is read once there are as many rows as the limit allows.
pub open spec fn stream_run(state: StreamView, lines: Seq<Seq<char>>) -> Result<
    Seq<BatchView>,
    Seq<char>,
>
    decreases lines.len(),
{
    if lines.len() == 0 || !state.batcher.wants_row() {
        match state.batcher.last_batch() {
            Some(batch) => Ok(seq![batch]),
            None => Ok(seq![]),
        }
    } else {
        let line = trimmed(lines.first());
        match state.after_line(lines.first(), json_strings(line), json_values(line)) {
            Ok((next, batch)) => match (batch, stream_run(next, lines.drop_first())) {
                (Some(batch), Ok(more)) => Ok(seq![batch] + more),
                (_, rest) => rest,
            },
            Err(error) => Err(error),
        }
    }
}

/// Whether a parser and a stream have read the same: `sent` are the rows of the batches that have
/// been handed out.
spec fn in_step(
    parser: ParserView,
    stream: StreamView,
    sent: Seq<Json>,
) -> bool {
    &&& parser.names == stream.names
    &&& stream.batcher.columns == (match parser.types {
        Some(types) => Some(named_columns(parser.names->0, types)),
        None => None,
    })
    &&& parser.types is Some ==> parser.names is Some
    &&& parser.types is None ==> parser.rows.len() == 0
    &&& parser.limit == stream.batcher.limit
    &&& parser.limit > 0
    &&& parser.rows.len() == stream.batcher.sent_rows
    &&& parser.rows == sent + stream.batcher.rows
}

proof fn lemma_runs_agree(
    parser: ParserView,
    stream: StreamView,
    sent: Seq<Json>,
    lines: Seq<Seq<char>>,
)
    requires
        in_step(parser, stream, sent),
    ensures
        match (parser_run(parser, lines), stream_run(stream, lines)) {
            (Ok(end), Ok(batches)) => end.rows == sent + all_rows(batches),
            (Err(left), Err(right)) => left == right,
            _ => false,
        },
    decreases lines.len(),
{
    if lines.len() == 0 || !stream.batcher.wants_row() {
        assert(parser_run(parser, lines) == Ok::<ParserView, Seq<char>>(parser));
        match stream.batcher.last_batch() {
            Some(batch) => {
                lemma_all_rows(batch, seq![]);
            },
            None => {
                lemma_all_rows(BatchView { columns: seq![], rows: seq![] }, seq![]);
                assert(stream.batcher.rows =~= seq![]);
                assert(sent + Seq::<Json>::empty() =~= sent);
            },
        }
    } else {
        let line = trimmed(lines.first());
        let strings = json_strings(line);
        let values = json_values(line);
        let left = parser.after_line(lines.first(), strings, values);
        let right = stream.after_line(lines.first(), strings, values);
        assert(!parser.complete());
        match (left, right) {
            (Ok(next_parser), Ok((next_stream, batch))) => {
                match batch {
                    Some(batch) => {
                        let more = sent + batch.rows;
                        assert(next_parser.rows =~= more + next_stream.batcher.rows);
                        lemma_runs_agree(next_parser, next_stream, more, lines.drop_first());
                        match stream_run(next_stream, lines.drop_first()) {
                            Ok(rest) => {
                                lemma_all_rows(batch, rest);
                                assert(sent + (batch.rows + all_rows(rest)) =~= more
                                    + all_rows(rest));
                            },
                            Err(_) => {},
                        }
                    },
                    None => {
                        assert(next_parser.rows =~= sent + next_stream.batcher.rows);
                        lemma_runs_agree(next_parser, next_stream, sent, lines.drop_first());
                    },
                }
            },
            _ => {},
        }
    }
}

/// Reading an answer in batches gives the same rows as reading it at once, or the same error.
pub proof fn law_stream_gives_the_rows_of_the_query(
    lines: Seq<Seq<char>>,
    batch_size: nat,
    limit: nat,
)
    requires
        limit > 0,
    ensures
        match (
            parser_run(ParserView::start(limit), lines),
            stream_run(StreamView::start(batch_size, limit), lines),
        ) {
            (Ok(end), Ok(batches)) => end.rows == all_rows(batches),
            (Err(left), Err(right)) => left == right,
            _ => false,
        },
{
    let none = Seq::<Json>::empty();
    assert(none + none =~= none);
    lemma_runs_agree(
        ParserView::start(limit),
        StreamView::start(batch_size, limit),
        none,
        lines,
    );
    match stream_run(StreamView::start(batch_size, limit), lines) {
        Ok(batches) => {
            assert(none + all_rows(batches) =~= all_rows(batches));
        },
        Err(_) => {},
    }
}

/// The parser when it stops: at the end of the lines, once it is complete, or before the line that
/// is wrong.
pub open spec fn parser_stop(state: ParserView, lines: Seq<Seq<char>>) -> ParserView
    decreases lines.len(),
{
    if lines.len() == 0 || state.complete() {
        state
    } else {
        let line = trimmed(lines.first());
        match state.after_line(lines.first(), json_strings(line), json_values(line)) {
            Ok(next) => parser_stop(next, lines.drop_first()),
            Err(_) => state,
        }
    }
}

/// The batches that are handed out while the lines of an answer are read, without what is left at
/// the end: those that have been sent even if a line is wrong then.
pub open spec fn stream_sent(state: StreamView, lines: Seq<Seq<char>>) -> Seq<BatchView>
    decreases lines.len(),
{
    if lines.len() == 0 || !state.batcher.wants_row() {
        seq![]
    } else {
        let line = trimmed(lines.first());
        match state.after_line(lines.first(), json_strings(line), json_values(line)) {
            Ok((next, Some(batch))) => seq![batch] + stream_sent(next, lines.drop_first()),
            Ok((next, None)) => stream_sent(next, lines.drop_first()),
            Err(_) => seq![],
        }
    }
}

/// What has been sent of the rows that were read: full batches only, as many as there can be, with
/// the first rows in their order and the columns of the answer.
pub open spec fn sent_in_full(
    stop: ParserView,
    before: Seq<Json>,
    out: Seq<BatchView>,
    batch_size: nat,
) -> bool {
    &&& before.len() <= stop.rows.len()
    &&& out.len() == ((stop.rows.len() - before.len()) as nat) / batch_size
    &&& before + all_rows(out) == stop.rows.take((before.len() + out.len() * batch_size) as int)
    &&& forall|i: int|
        0 <= i < out.len() ==> (#[trigger] out[i]).rows.len() == batch_size && out[i].columns
            == named_columns(stop.names->0, stop.types->0)
}

proof fn lemma_sent_in_full(
    parser: ParserView,
    stream: StreamView,
    sent: Seq<Json>,
    lines: Seq<Seq<char>>,
)
    requires
        in_step(parser, stream, sent),
        stream.batcher.rows.len() < stream.batcher.batch_size,
    ensures
        sent_in_full(
            parser_stop(parser, lines),
            sent,
            stream_sent(stream, lines),
            stream.batcher.batch_size,
        ),
        parser.types is Some ==> parser_stop(parser, lines).types == parser.types && parser_stop(
            parser,
            lines,
        ).names == parser.names,
        stream_run(stream, lines) matches Ok(batches) ==> stream_sent(stream, lines).is_prefix_of(
            batches,
        ),
        parser_run(parser, lines) matches Ok(end) ==> end == parser_stop(parser, lines),
    decreases lines.len(),
{
    let size = stream.batcher.batch_size;
    let stop = parser_stop(parser, lines);
    let out = stream_sent(stream, lines);
    let line = trimmed(lines.first());
    let strings = json_strings(line);
    let values = json_values(line);
    let left = parser.after_line(lines.first(), strings, values);
    let right = stream.after_line(lines.first(), strings, values);
    if lines.len() == 0 || !stream.batcher.wants_row() || left is Err {
        assert(stop == parser);
        assert(out =~= seq![]);
        let k = stream.batcher.rows.len();
        assert(k / size == 0) by (nonlinear_arith)
            requires
                k < size,
        ;
        assert(out.len() * size == 0) by (nonlinear_arith)
            requires
                out.len() == 0,
        ;
        lemma_all_rows(BatchView { columns: seq![], rows: seq![] }, seq![]);
        assert(sent + all_rows(out) =~= stop.rows.take(sent.len() as int));
    } else {
        assert(!parser.complete());
        match (left, right) {
            (Ok(next_parser), Ok((next_stream, batch))) => {
                let rest = lines.drop_first();
                match batch {
                    Some(batch) => {
                        let more = sent + batch.rows;
                        let later = stream_sent(next_stream, rest);
                        assert(next_parser.rows =~= more + next_stream.batcher.rows);
                        lemma_sent_in_full(next_parser, next_stream, more, rest);
                        let count = (stop.rows.len() - more.len()) as nat;
                        lemma_one_more_batch(count, size);
                        lemma_all_rows(batch, later);
                        assert(sent + all_rows(out) =~= more + all_rows(later));
                        assert(more.len() + later.len() * size == sent.len() + out.len() * size);
                        assert forall|i: int| 0 <= i < out.len() implies (#[trigger] out[i]).rows.len()
                            == size && out[i].columns == named_columns(
                            stop.names->0,
                            stop.types->0,
                        ) by {
                            if i > 0 {
                                assert(out[i] == later[i - 1]);
                            }
                        }
                    },
                    None => {
                        assert(next_parser.rows =~= sent + next_stream.batcher.rows);
                        lemma_sent_in_full(next_parser, next_stream, sent, rest);
                    },
                }
            },
            _ => {},
        }
    }
}

/// Where a line of an answer is wrong, all the full batches of the rows before it have been sent:
/// as many as the batch size goes into the number of these rows. The same holds of an answer that
/// is read to its end, whose last batch comes after them.
pub proof fn law_full_batches_are_sent_before_an_error(
    lines: Seq<Seq<char>>,
    batch_size: nat,
    limit: nat,
)
    requires
        batch_size > 0,
        limit > 0,
    ensures
        sent_in_full(
            parser_stop(ParserView::start(limit), lines),
            seq![],
            stream_sent(StreamView::start(batch_size, limit), lines),
            batch_size,
        ),
        stream_run(StreamView::start(batch_size, limit), lines) matches Ok(batches) ==> stream_sent(
            StreamView::start(batch_size, limit),
            lines,
        ).is_prefix_of(batches),
        parser_run(ParserView::start(limit), lines) matches Ok(end) ==> end == parser_stop(
            ParserView::start(limit),
            lines,
        ),
{
    let none = Seq::<Json>::empty();
    assert(none + none =~= none);
    lemma_sent_in_full(
        ParserView::start(limit),
        StreamView::start(batch_size, limit),
        none,
        lines,
    );
}

/// Column by column the names and the types of an answer go together: the column at each index has
/// the name and the type at that index of the header lines, and in their order the names and the
/// types of the columns give back both lines.
pub proof fn law_columns_give_back_the_header(names: Seq<Seq<char>>, types: Seq<Seq<char>>)
    requires
        names.len() == types.len(),
    ensures
        named_columns(names, types).len() == names.len(),
        forall|i: int|
            0 <= i < names.len() ==> (#[trigger] named_columns(names, types)[i]).name == names[i]
                && named_columns(names, types)[i].data_type == types[i],
        named_columns(names, types).map_values(|column: ColumnView| column.name) == names,
        named_columns(names, types).map_values(|column: ColumnView| column.data_type) == types,
{
    assert(named_columns(names, types).map_values(|column: ColumnView| column.name) =~= names);
    assert(named_columns(names, types).map_values(|column: ColumnView| column.data_type) =~= types);
}

/// Different names or different types make different columns.
pub proof fn law_different_headers_make_different_columns(
    names: Seq<Seq<char>>,
    types: Seq<Seq<char>>,
    other_names: Seq<Seq<char>>,
    other_types: Seq<Seq<char>>,
)
    requires
        names.len() == types.len(),
        other_names.len() == other_types.len(),
        named_columns(names, types) == named_columns(other_names, other_types),
    ensures
        names == other_names,
        types == other_types,
{
    law_columns_give_back_the_header(names, types);
    law_columns_give_back_the_header(other_names, other_types);
}

proof fn lemma_has_colon(host: Seq<char>)
    ensures
        contains_text(host, ":"@) <==> host.contains(':'),
{
    reveal_strlit(":");
    assert(":"@ =~= seq![':']);
    if contains_text(host, ":"@) {
        let i = choose|i: int| #[trigger] occurs_at(host, ":"@, i);
        assert(host.subrange(i, i + 1)[0] == host[i]);
        assert(host[i] == ':');
    }
    if host.contains(':') {
        let i = choose|i: int| 0 <= i < host.len() && host[i] == ':';
        assert(host.subrange(i, i + 1) =~= ":"@);
        assert(occurs_at(host, ":"@, i));
    }
}

/// Without white space around it and slashes at its end, a host that is a URL is kept; any other
/// host gets the scheme `http` and the port, and an address with colons brackets unless it has one
/// already.
pub proof fn law_url_of_a_host(given: Seq<char>, host: Seq<char>, slashes: Seq<char>, port: u16)
    requires
        trimmed(given) == host + slashes,
        forall|i: int| 0 <= i < slashes.len() ==> #[trigger] slashes[i] == '/',
        host.len() > 0 ==> host.last() != '/',
    ensures
        contains_text(host, seq![':', '/', '/']) ==> clickhouse_url(given, port) == host,
        !contains_text(host, seq![':', '/', '/']) && host.contains(':') && host[0] != '['
            && host[host.len() - 1] != ']' ==> clickhouse_url(given, port) == "http://"@ + seq!['[']
            + host + seq![']', ':'] + decimal(port as nat),
        !contains_text(host, seq![':', '/', '/']) && !(host.contains(':') && host[0] != '['
            && host[host.len() - 1] != ']') ==> clickhouse_url(given, port) == "http://"@ + host
            + seq![':'] + decimal(port as nat),
{
    reveal_strlit("://");
    reveal_strlit("http://");
    reveal_strlit("http://[");
    reveal_strlit("]:");
    reveal_strlit(":");
    assert("://"@ =~= seq![':', '/', '/']);
    assert("http://["@ =~= "http://"@ + seq!['[']);
    assert("]:"@ =~= seq![']', ':']);
    assert(":"@ =~= seq![':']);
    lemma_without_slashes(host, slashes);
    lemma_has_colon(host);
}

proof fn lemma_without_slashes(host: Seq<char>, slashes: Seq<char>)
    requires
        host.len() > 0 ==> host.last() != '/',
        forall|i: int| 0 <= i < slashes.len() ==> #[trigger] slashes[i] == '/',
    ensures
        without_trailing(host + slashes, '/') == host,
    decreases slashes.len(),
{
    if slashes.len() == 0 {
        assert(host + slashes =~= host);
    } else {
        assert((host + slashes).drop_last() =~= host + slashes.drop_last());
        assert((host + slashes).last() == slashes[slashes.len() - 1]);
        lemma_without_slashes(host, slashes.drop_last());
    }
}

/// White space around a host, and slashes at its end, make no difference.
pub proof fn law_padding_of_a_host(
    before: Seq<char>,
    host: Seq<char>,
    slashes: Seq<char>,
    after: Seq<char>,
    port: u16,
)
    requires
        forall|i: int| 0 <= i < before.len() ==> is_white_space(#[trigger] before[i]),
        forall|i: int| 0 <= i < after.len() ==> is_white_space(#[trigger] after[i]),
        forall|i: int| 0 <= i < slashes.len() ==> #[trigger] slashes[i] == '/',
        host.len() > 0 ==> !is_white_space(host.first()) && !is_white_space(host.last())
            && host.last() != '/',
    ensures
        clickhouse_url(before + (host + slashes) + after, port) == clickhouse_url(host, port),
{
    let middle = host + slashes;
    lemma_trim_padding(before, middle, after);
    if middle.len() > 0 {
        if host.len() == 0 {
            assert(middle.first() == slashes[0]);
        }
        if slashes.len() > 0 {
            assert(middle.last() == slashes[slashes.len() - 1]);
        }
    }
    law_trimmed_text_stays(middle);
    law_trimmed_text_stays(host);
    lemma_without_slashes(host, slashes);
    assert(without_trailing(host, '/') == host);
}

/// An error says what could not be read and why, or which numbers do not go together.
pub proof fn law_errors_tell_what_is_wrong(
    context: Seq<char>,
    error: Seq<char>,
    found: nat,
    wanted: nat,
)
    ensures
        array_error(context, error) == "Failed to parse ClickHouse "@ + (context
            + (" JSON array: "@ + error)),
        header_error(wanted, found) == "ClickHouse response has "@ + (decimal(wanted)
            + (" column names but "@ + (decimal(found) + " column types"@))),
        row_error(found, wanted) == "ClickHouse row has "@ + (decimal(found)
            + (" values but header defines "@ + (decimal(wanted) + " columns"@))),
{
    assert(array_error(context, error) =~= "Failed to parse ClickHouse "@ + (context
        + (" JSON array: "@ + error)));
    assert(header_error(wanted, found) =~= "ClickHouse response has "@ + (decimal(wanted)
        + (" column names but "@ + (decimal(found) + " column types"@))));
    assert(row_error(found, wanted) =~= "ClickHouse row has "@ + (decimal(found)
        + (" values but header defines "@ + (decimal(wanted) + " columns"@))));
}

/// The strings that are there are seen as they are.
pub proof fn law_strings_are_seen_as_they_are(strings: Vec<String>, i: int)
    ensures
        optional_texts(None) is None,
        optional_texts(Some(strings)) matches Some(found) && found.len() == strings@.len() && (0
            <= i < strings@.len() ==> found[i] == strings@[i]@),
{
}

/// A blank line is passed over, before the header, within it and after it.
pub proof fn law_blank_lines_are_passed_over(
    parser: ParserView,
    stream: StreamView,
    line: Seq<char>,
    strings: Result<Seq<Seq<char>>, Seq<char>>,
    values: Result<Seq<Json>, Seq<char>>,
)
    requires
        forall|i: int| 0 <= i < line.len() ==> is_white_space(#[trigger] line[i]),
    ensures
        parser.after_line(line, strings, values) == Ok::<ParserView, Seq<char>>(parser),
        stream.after_line(line, strings, values) == Ok::<
            (StreamView, Option<BatchView>),
            Seq<char>,
        >((stream, None)),
{
    let nothing = Seq::<char>::empty();
    lemma_trim_padding(line, nothing, nothing);
    assert(line + nothing + nothing =~= line);
    law_trimmed_text_stays(nothing);
}

/// The first line gives the names, the second one the types, and every line after that one row,
/// which holds its values under the names; nothing else changes.
pub proof fn law_lines_of_an_answer(
    state: ParserView,
    line: Seq<char>,
    strings: Result<Seq<Seq<char>>, Seq<char>>,
    values: Result<Seq<Json>, Seq<char>>,
)
    requires
        trimmed(line).len() > 0,
    ensures
        state.names is None ==> (strings matches Ok(names) ==> (state.after_line(
            line,
            strings,
            values,
        ) matches Ok(next) && next.names == Some(names) && next.types == state.types && next.rows
            == state.rows && next.limit == state.limit)),
        state.names is Some && state.types is None ==> (strings matches Ok(types) ==> (
        state.names->0.len() == types.len() ==> (state.after_line(
            line,
            strings,
            values,
        ) matches Ok(next) && next.types == Some(types) && next.names == state.names && next.rows
            == state.rows && next.limit == state.limit))),
        state.names is Some && state.types is Some && state.rows.len() < state.limit ==> (
        values matches Ok(cells) ==> (state.names->0.len() == cells.len() ==> (state.after_line(
            line,
            strings,
            values,
        ) matches Ok(next) && next.rows.len() == state.rows.len() + 1 && next.rows.drop_last()
            == state.rows && next.rows.last() == Json::Object(row_entries(state.names->0, cells))
            && next.names == state.names && next.types == state.types && next.limit
            == state.limit))),
        ParserView::start(state.limit).names is None,
        ParserView::start(state.limit).types is None,
        ParserView::start(state.limit).rows.len() == 0,
        ParserView::start(state.limit).limit == state.limit,
{
    if let Ok(cells) = values {
        let row = Json::Object(row_entries(state.names->0, cells));
        assert(state.rows.push(row).drop_last() =~= state.rows);
    }
}

/// A line that cannot be read is an error that says which line it is; so is a line of types or of
/// values whose number does not go with the names.
pub proof fn law_wrong_lines_are_errors(
    state: ParserView,
    line: Seq<char>,
    strings: Result<Seq<Seq<char>>, Seq<char>>,
    values: Result<Seq<Json>, Seq<char>>,
)
    requires
        trimmed(line).len() > 0,
    ensures
        state.names is None ==> (strings matches Err(error) ==> state.after_line(
            line,
            strings,
            values,
        ) == Err::<ParserView, Seq<char>>(array_error("column names"@, error))),
        state.names is Some && state.types is None ==> (strings matches Err(error)
            ==> state.after_line(line, strings, values) == Err::<ParserView, Seq<char>>(
            array_error("column types"@, error),
        )),
        state.names is Some && state.types is None ==> (strings matches Ok(types) ==> (
        state.names->0.len() != types.len() ==> state.after_line(line, strings, values) == Err::<
            ParserView,
            Seq<char>,
        >(header_error(state.names->0.len(), types.len())))),
        state.names is Some && state.types is Some && state.rows.len() < state.limit ==> (
        values matches Err(error) ==> state.after_line(line, strings, values) == Err::<
            ParserView,
            Seq<char>,
        >(array_error("row"@, error))),
        state.names is Some && state.types is Some && state.rows.len() < state.limit ==> (
        values matches Ok(cells) ==> (state.names->0.len() != cells.len() ==> state.after_line(
            line,
            strings,
            values,
        ) == Err::<ParserView, Seq<char>>(row_error(cells.len(), state.names->0.len())))),
{
}

/// An answer is complete exactly where both header lines and as many rows as the limit allows have
/// been read.
pub proof fn law_completeness(state: ParserView)
    requires
        parser_holds(state),
    ensures
        state.complete() <==> state.types is Some && state.rows.len() == state.limit,
{
}

/// Whether `line` holds the row `values`.
pub open spec fn is_row_line(line: Seq<char>, values: Seq<Json>) -> bool {
    trimmed(line).len() > 0 && json_values(trimmed(line)) == Ok::<Seq<Json>, Seq<char>>(values)
}

/// Whether `line` holds the strings `items`.
pub open spec fn is_header_line(line: Seq<char>, items: Seq<Seq<char>>) -> bool {
    trimmed(line).len() > 0 && json_strings(trimmed(line)) == Ok::<Seq<Seq<char>>, Seq<char>>(items)
}

proof fn lemma_rows_of_an_answer(
    state: ParserView,
    lines: Seq<Seq<char>>,
    values: Seq<Seq<Json>>,
)
    requires
        state.names is Some,
        state.types is Some,
        state.rows.len() <= state.limit,
        lines.len() == values.len(),
        forall|i: int|
            0 <= i < lines.len() ==> is_row_line(#[trigger] lines[i], values[i]) && values[i].len()
                == state.names->0.len(),
    ensures
        parser_run(state, lines) matches Ok(end) && end.names == state.names && end.types
            == state.types && end.rows.len() == smaller(
            state.rows.len() + lines.len(),
            state.limit,
        ) && (forall|i: int| 0 <= i < state.rows.len() ==> #[trigger] end.rows[i] == state.rows[i])
            && (forall|i: int|
            state.rows.len() <= i < end.rows.len() ==> #[trigger] end.rows[i] == Json::Object(
                row_entries(state.names->0, values[i - state.rows.len()]),
            )),
    decreases lines.len(),
{
    if lines.len() > 0 && !state.complete() {
        assert(is_row_line(lines[0], values[0]));
        let row = Json::Object(row_entries(state.names->0, values[0]));
        let next = ParserView { rows: state.rows.push(row), ..state };
        let rest = lines.drop_first();
        let later = values.drop_first();
        assert forall|i: int| 0 <= i < rest.len() implies is_row_line(#[trigger] rest[i], later[i])
            && later[i].len() == next.names->0.len() by {
            assert(is_row_line(lines[i + 1], values[i + 1]));
        }
        lemma_rows_of_an_answer(next, rest, later);
        let end = parser_run(state, lines)->Ok_0;
        assert(parser_run(next, rest) == parser_run(state, lines));
        assert forall|i: int| 0 <= i < state.rows.len() implies #[trigger] end.rows[i]
            == state.rows[i] by {
            assert(end.rows[i] == next.rows[i]);
        }
        assert forall|i: int| state.rows.len() <= i < end.rows.len() implies #[trigger] end.rows[i]
            == Json::Object(row_entries(state.names->0, values[i - state.rows.len()])) by {
            if i == state.rows.len() {
                assert(end.rows[i] == next.rows[i]);
            } else {
                assert(later[i - next.rows.len()] == values[i - state.rows.len()]);
            }
        }
    }
}

/// An answer with a line of names, a line of as many types, and lines of as many values gives
/// columns and rows: the names and the types as they are, and the first rows, up to the limit, each
/// with its values under the names.
pub proof fn law_answer_is_read_in_full(
    limit: nat,
    names_line: Seq<char>,
    types_line: Seq<char>,
    lines: Seq<Seq<char>>,
    names: Seq<Seq<char>>,
    types: Seq<Seq<char>>,
    values: Seq<Seq<Json>>,
)
    requires
        is_header_line(names_line, names),
        is_header_line(types_line, types),
        names.len() == types.len(),
        lines.len() == values.len(),
        forall|i: int|
            0 <= i < lines.len() ==> is_row_line(#[trigger] lines[i], values[i]) && values[i].len()
                == names.len(),
    ensures
        parser_run(
            ParserView::start(limit),
            seq![names_line, types_line] + lines,
        ) matches Ok(end) && end.names == Some(names) && end.types == Some(types) && end.rows.len()
            == smaller(lines.len(), limit) && (forall|i: int|
            0 <= i < end.rows.len() ==> #[trigger] end.rows[i] == Json::Object(
                row_entries(names, values[i]),
            )),
{
    let start = ParserView::start(limit);
    let all = seq![names_line, types_line] + lines;
    let named = start.with_names(names);
    let typed = ParserView { types: Some(types), ..named };
    assert(all.first() == names_line);
    assert(all.drop_first() =~= seq![types_line] + lines);
    assert(all.drop_first().first() == types_line);
    assert(all.drop_first().drop_first() =~= lines);
    assert(parser_run(start, all) == parser_run(named, all.drop_first()));
    assert(parser_run(named, all.drop_first()) == parser_run(typed, lines));
    lemma_rows_of_an_answer(typed, lines, values);
}

proof fn lemma_batches_have_the_columns(
    state: StreamView,
    lines: Seq<Seq<char>>,
    columns: Seq<ColumnView>,
)
    requires
        state.batcher.columns == Some(columns),
    ensures
        stream_run(state, lines) matches Ok(batches) ==> (forall|i: int|
            0 <= i < batches.len() ==> (#[trigger] batches[i]).columns == columns),
    decreases lines.len(),
{
    if lines.len() > 0 && state.batcher.wants_row() {
        let line = trimmed(lines.first());
        match state.after_line(lines.first(), json_strings(line), json_values(line)) {
            Ok((next, batch)) => {
                lemma_batches_have_the_columns(next, lines.drop_first(), columns);
                match (batch, stream_run(next, lines.drop_first())) {
                    (Some(batch), Ok(more)) => {
                        let batches = seq![batch] + more;
                        assert forall|i: int| 0 <= i < batches.len() implies (#[trigger] batches[i]).columns
                            == columns by {
                            if i > 0 {
                                assert(batches[i] == more[i - 1]);
                            }
                        }
                    },
                    _ => {},
                }
            },
            Err(_) => {},
        }
    }
}

/// Read in batches, an answer with a line of names and a line of as many types hands out batches
/// that all carry these names and types, whatever the lines after them are.
pub proof fn law_batches_have_the_columns_of_the_header(
    batch_size: nat,
    limit: nat,
    names_line: Seq<char>,
    types_line: Seq<char>,
    lines: Seq<Seq<char>>,
    names: Seq<Seq<char>>,
    types: Seq<Seq<char>>,
)
    requires
        limit > 0,
        is_header_line(names_line, names),
        is_header_line(types_line, types),
        names.len() == types.len(),
    ensures
        stream_run(
            StreamView::start(batch_size, limit),
            seq![names_line, types_line] + lines,
        ) matches Ok(batches) ==> (forall|i: int, j: int|
            0 <= i < batches.len() && 0 <= j < names.len() ==> (#[trigger] batches[i]).columns.len()
                == names.len() && (#[trigger] batches[i].columns[j]).name == names[j]
                && batches[i].columns[j].data_type == types[j]),
{
    let start = StreamView::start(batch_size, limit);
    let all = seq![names_line, types_line] + lines;
    let columns = named_columns(names, types);
    let named = start.with_names(names);
    let typed = StreamView { batcher: named.batcher.with_columns(columns), ..named };
    assert(all.first() == names_line);
    assert(all.drop_first() =~= seq![types_line] + lines);
    assert(all.drop_first().first() == types_line);
    assert(all.drop_first().drop_first() =~= lines);
    assert(start.after_line(
        names_line,
        json_strings(trimmed(names_line)),
        json_values(trimmed(names_line)),
    ) == Ok::<(StreamView, Option<BatchView>), Seq<char>>((named, None)));
    assert(stream_run(start, all) == stream_run(named, all.drop_first()));
    assert(named.after_line(
        types_line,
        json_strings(trimmed(types_line)),
        json_values(trimmed(types_line)),
    ) == Ok::<(StreamView, Option<BatchView>), Seq<char>>((typed, None)));
    assert(stream_run(named, all.drop_first()) == stream_run(typed, lines));
    lemma_batches_have_the_columns(typed, lines, columns);
}

/// A stream takes each line as a parser without a limit does: the same names, the same errors, and
/// each row with the same values; the batch that a row fills holds the rows before it and that row.
pub proof fn law_stream_takes_lines_as_a_parser(
    parser: ParserView,
    stream: StreamView,
    line: Seq<char>,
    strings: Result<Seq<Seq<char>>, Seq<char>>,
    values: Result<Seq<Json>, Seq<char>>,
)
    requires
        parser.names == stream.names,
        parser.types is Some <==> stream.batcher.columns is Some,
        parser.types is Some ==> parser.names is Some,
        parser.rows.len() < parser.limit,
    ensures
        match (
            parser.after_line(line, strings, values),
            stream.after_line(line, strings, values),
        ) {
            (Ok(next), Ok((next_stream, batch))) => {
                &&& next.names == next_stream.names
                &&& next.types is Some <==> next_stream.batcher.columns is Some
                &&& parser.types is None && next.types is Some ==> next_stream.batcher.columns
                    == Some(named_columns(next.names->0, next.types->0))
                &&& next.rows.len() > parser.rows.len() ==> next_stream.batcher.sent_rows
                    == stream.batcher.sent_rows + 1 && (match batch {
                    Some(full) => full.rows == stream.batcher.rows.push(next.rows.last())
                        && next_stream.batcher.rows.len() == 0,
                    None => next_stream.batcher.rows == stream.batcher.rows.push(next.rows.last()),
                })
                &&& next.rows.len() == parser.rows.len() ==> batch is None
                    && next_stream.batcher.rows == stream.batcher.rows
                    && next_stream.batcher.sent_rows == stream.batcher.sent_rows
            },
            (Err(left), Err(right)) => left == right,
            _ => false,
        },
        StreamView::start(stream.batcher.batch_size, stream.batcher.limit).names is None,
        StreamView::start(stream.batcher.batch_size, stream.batcher.limit).batcher
            == BatcherView::start(stream.batcher.batch_size, stream.batcher.limit),
{
}

/// A step that is due goes to the next state with the batch, and an error is reported as it is and
/// leaves the state.
pub proof fn law_steps(
    before: ParserView,
    next: ParserView,
    after: ParserView,
    done: DbNativeResult<()>,
    stream_before: StreamView,
    stream_next: StreamView,
    stream_after: StreamView,
    batch: Option<BatchView>,
    handed: DbNativeResult<Option<QueryBatch>>,
    text: Seq<char>,
)
    ensures
        parser_step(before, Ok(next), after, done) <==> done is Ok && after == next,
        parser_step(before, Err(text), after, done) <==> done is Err && done->Err_0.reason@ == text
            && after == before,
        stream_step(stream_before, Ok((stream_next, batch)), stream_after, handed) <==> handed is Ok
            && optional_batch(handed->Ok_0) == batch && stream_after == stream_next,
        stream_step(stream_before, Err(text), stream_after, handed) <==> handed is Err
            && handed->Err_0.reason@ == text && stream_after == stream_before,
{
}

/// An answer whose header has been read has a column for each name, with its type, and the rows
/// that have been read. Where no line came it has no columns and no rows, and where only half of
/// the header came it is an error.
pub proof fn law_answer_has_columns_and_rows(
    state: ParserView,
    names: Seq<Seq<char>>,
    types: Seq<Seq<char>>,
    i: int,
)
    ensures
        state.names == Some(names) && state.types == Some(types) && names.len() == types.len() ==> (
        answer_of(state) matches Ok((columns, rows)) && rows == state.rows && columns.len()
            == names.len() && (0 <= i < names.len() ==> columns[i].name == names[i]
            && columns[i].data_type == types[i])),
        state.names == Some(names) && state.types == Some(types) && names.len() != types.len()
            ==> answer_of(state) == Err::<(Seq<ColumnView>, Seq<Json>), Seq<char>>(
            header_error(names.len(), types.len()),
        ),
        state.names is None && state.types is None ==> (answer_of(state) matches Ok((columns, rows))
            && columns.len() == 0 && rows.len() == 0),
        state.names is Some && state.types is None || state.names is None && state.types is Some
            ==> answer_of(state) == Err::<(Seq<ColumnView>, Seq<Json>), Seq<char>>(
            "Incomplete ClickHouse response header while parsing query result"@,
        ),
{
}

/// The names of a line are those of the columns from then on, and change nothing else.
pub proof fn law_names_are_taken(
    parser: ParserView,
    stream: StreamView,
    names: Seq<Seq<char>>,
)
    ensures
        parser.with_names(names).names == Some(names),
        parser.with_names(names).types == parser.types,
        parser.with_names(names).rows == parser.rows,
        parser.with_names(names).limit == parser.limit,
        stream.with_names(names).names == Some(names),
        stream.with_names(names).batcher == stream.batcher,
{
}

/// As many types as names are taken, and make columns with the name and the type at each index;
/// any other number of types is an error. Nothing else changes.
pub proof fn law_types_are_taken(
    parser: ParserView,
    stream: StreamView,
    names: Seq<Seq<char>>,
    types: Seq<Seq<char>>,
    i: int,
)
    requires
        parser.names == Some(names),
        stream.names == Some(names),
    ensures
        names.len() == types.len() ==> (parser.with_types(types) matches Ok(next) && next.types
            == Some(types) && next.names == parser.names && next.rows == parser.rows && next.limit
            == parser.limit),
        names.len() == types.len() ==> (stream.with_types(types) matches Ok(next) && next.names
            == stream.names && next.batcher.columns is Some && next.batcher.columns->0.len()
            == names.len() && (0 <= i < names.len() ==> next.batcher.columns->0[i].name == names[i]
            && next.batcher.columns->0[i].data_type == types[i]) && next.batcher.rows
            == stream.batcher.rows && next.batcher.sent_rows == stream.batcher.sent_rows
            && next.batcher.emitted == stream.batcher.emitted && next.batcher.limit
            == stream.batcher.limit && next.batcher.batch_size == stream.batcher.batch_size),
        names.len() != types.len() ==> parser.with_types(types) == Err::<ParserView, Seq<char>>(
            header_error(names.len(), types.len()),
        ),
        names.len() != types.len() ==> stream.with_types(types) == Err::<StreamView, Seq<char>>(
            header_error(names.len(), types.len()),
        ),
{
}

/// As many values as names are taken as a row, after the rows before it; any other number of values
/// is an error. Nothing else changes.
pub proof fn law_values_are_taken(
    parser: ParserView,
    stream: StreamView,
    names: Seq<Seq<char>>,
    values: Seq<Json>,
)
    requires
        parser.names == Some(names),
        stream.names == Some(names),
    ensures
        names.len() == values.len() ==> (parser.with_row(values) matches Ok(next) && next.rows
            == parser.rows + seq![Json::Object(row_entries(names, values))] && next.names
            == parser.names && next.types == parser.types && next.limit == parser.limit),
        names.len() == values.len() ==> (stream.with_row(values) matches Ok((next, batch))
            && next.names == stream.names && next.batcher == stream.batcher.pushed(
            Json::Object(row_entries(names, values)),
        ) && batch == stream.batcher.batch_of(Json::Object(row_entries(names, values)))),
        names.len() != values.len() ==> parser.with_row(values) == Err::<ParserView, Seq<char>>(
            row_error(values.len(), names.len()),
        ),
        names.len() != values.len() ==> stream.with_row(values) == Err::<
            (StreamView, Option<BatchView>),
            Seq<char>,
        >(row_error(values.len(), names.len())),
{
    let row = Json::Object(row_entries(names, values));
    assert(parser.rows.push(row) =~= parser.rows + seq![row]);
}

/// The database that is named is the one that is asked for, without the white space around it;
/// where nothing else is left, none is named.
pub proof fn law_database_that_is_named(
    before: Seq<char>,
    database: Seq<char>,
    after: Seq<char>,
)
    requires
        forall|i: int| 0 <= i < before.len() ==> is_white_space(#[trigger] before[i]),
        forall|i: int| 0 <= i < after.len() ==> is_white_space(#[trigger] after[i]),
        database.len() > 0 ==> !is_white_space(database.first()) && !is_white_space(
            database.last(),
        ),
    ensures
        database.len() > 0 ==> database_named(before + database + after) == Some(database),
        database.len() == 0 ==> database_named(before + database + after) is None,
{
    lemma_trim_padding(before, database, after);
    law_trimmed_text_stays(database);
}

} // verus!
