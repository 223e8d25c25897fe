//! The record of a session: which views were made by which statements, and how that went.
use vstd::prelude::*;

use crate::QueryResult;
use crate::error::{state_error, DbNativeResult};
use crate::text::{
    decimal, decimal_text, is_white_space, law_decimal_digits, law_trimmed_text_stays,
    lemma_decimal_reads_back, lemma_trim_padding, optional_text, trim, trimmed,
};

verus! {

/// Identifier of a session, and where its document is kept.
pub struct SessionInfo {
    pub session_id: String,
    pub path: String,
}

/// What is recorded of one statement.
pub struct SessionViewRecord {
    pub view_name: String,
    pub operation: String,
    pub sql: String,
    pub created_at: String,
    pub row_count: Option<i64>,
    pub status: String,
    pub error: Option<String>,
}

/// What is kept of a session.
pub struct SessionDocument {
    pub session_id: String,
    pub created_at: String,
    pub updated_at: String,
    pub views: Vec<SessionViewRecord>,
}

/// A session that is going on: its document, where that is kept, and the number of the next view
/// without a name of its own.
pub struct SessionState {
    pub document: SessionDocument,
    pub path: String,
    pub next_view_index: u64,
}

/// What is recorded of one statement, as text.
pub struct RecordView {
    pub view_name: Seq<char>,
    pub operation: Seq<char>,
    pub sql: Seq<char>,
    pub created_at: Seq<char>,
    pub row_count: Option<i64>,
    pub status: Seq<char>,
    pub error: Option<Seq<char>>,
}

/// What is kept of a session, as text.
pub struct DocumentView {
    pub session_id: Seq<char>,
    pub created_at: Seq<char>,
    pub updated_at: Seq<char>,
    pub views: Seq<RecordView>,
}

/// A session that is going on.
pub struct StateView {
    pub document: DocumentView,
    pub path: Seq<char>,
    pub next_view_index: u64,
}

impl View for SessionViewRecord {
    type V = RecordView;

    open spec fn view(&self) -> RecordView {
        RecordView {
            view_name: self.view_name@,
            operation: self.operation@,
            sql: self.sql@,
            created_at: self.created_at@,
            row_count: self.row_count,
            status: self.status@,
            error: optional_text(self.error),
        }
    }
}

impl View for SessionDocument {
    type V = DocumentView;

    open spec fn view(&self) -> DocumentView {
        DocumentView {
            session_id: self.session_id@,
            created_at: self.created_at@,
            updated_at: self.updated_at@,
            views: self.views@.map_values(|record: SessionViewRecord| record@),
        }
    }
}

impl View for SessionState {
    type V = StateView;

    open spec fn view(&self) -> StateView {
        StateView {
            document: self.document@,
            path: self.path@,
            next_view_index: self.next_view_index,
        }
    }
}

/// The name of the view with the given number.
pub open spec fn generated_name(index: nat) -> Seq<char> {
    "view_"@ + decimal(index)
}

/// The name that is asked for, trimmed, if anything is left of it.
pub open spec fn wanted_name(view_name: Option<Seq<char>>) -> Option<Seq<char>> {
    match view_name {
        Some(name) => if trimmed(name).len() > 0 {
            Some(trimmed(name))
        } else {
            None
        },
        None => None,
    }
}

/// The name of the next view: the one that is asked for, or else one with the next number.
pub open spec fn next_name(view_name: Option<Seq<char>>, index: u64) -> Seq<char> {
    match wanted_name(view_name) {
        Some(name) => name,
        None => generated_name(index as nat),
    }
}

/// The number of the view after the next one: a name that is asked for uses up no number.
pub open spec fn index_after(view_name: Option<Seq<char>>, index: u64) -> int {
    if wanted_name(view_name) is Some {
        index as int
    } else {
        index + 1
    }
}

/// A session after one more statement.
pub open spec fn recorded(
    state: StateView,
    view_name: Option<Seq<char>>,
    operation: Seq<char>,
    sql: Seq<char>,
    row_count: Option<i64>,
    status: Seq<char>,
    error: Option<Seq<char>>,
    created_at: Seq<char>,
) -> StateView {
    let record = RecordView {
        view_name: next_name(view_name, state.next_view_index),
        operation,
        sql,
        created_at,
        row_count,
        status,
        error,
    };
    StateView {
        document: DocumentView {
            updated_at: created_at,
            views: state.document.views.push(record),
            ..state.document
        },
        next_view_index: index_after(view_name, state.next_view_index) as u64,
        ..state
    }
}

/// A session after one more statement that succeeded.
pub open spec fn succeeded(
    state: StateView,
    view_name: Option<Seq<char>>,
    operation: Seq<char>,
    sql: Seq<char>,
    row_count: Option<i64>,
    created_at: Seq<char>,
) -> StateView {
    recorded(state, view_name, operation, sql, row_count, "success"@, None, created_at)
}

/// A session after one more statement that failed.
pub open spec fn failed(
    state: StateView,
    view_name: Option<Seq<char>>,
    operation: Seq<char>,
    sql: Seq<char>,
    error: Seq<char>,
    created_at: Seq<char>,
) -> StateView {
    recorded(state, view_name, operation, sql, None, "error"@, Some(error), created_at)
}

/// A session after one more query, which gave so many rows or an error.
pub open spec fn queried(
    state: StateView,
    view_name: Option<Seq<char>>,
    sql: Seq<char>,
    outcome: Result<nat, Seq<char>>,
    created_at: Seq<char>,
) -> StateView {
    match outcome {
        Ok(rows) => succeeded(state, view_name, "query"@, sql, Some(rows as i64), created_at),
        Err(error) => failed(state, view_name, "query"@, sql, error, created_at),
    }
}

/// Whether a text is a UUID of version 4 in its usual form: 36 characters, hyphens after the
/// groups of 8, 4, 4 and 4, the digit 4 at the head of the third group.
pub open spec fn is_uuid(s: Seq<char>) -> bool {
    &&& s.len() == 36
    &&& forall|i: int|
        0 <= i < 36 ==> if i == 8 || i == 13 || i == 18 || i == 23 {
            #[trigger] s[i] == '-'
        } else {
            ('0' <= s[i] && s[i] <= '9') || ('a' <= s[i] && s[i] <= 'f')
        }
    &&& s[14] == '4'
}

/// Whether a character is a decimal digit.
pub open spec fn is_digit(c: char) -> bool {
    '0' <= c && c <= '9'
}

/// Whether a text is a time in UTC to the millisecond: a year of at least four characters, and
/// then `-MM-DDThh:mm:ss.mmmZ`.
pub open spec fn is_timestamp(s: Seq<char>) -> bool {
    let tail = s.skip(s.len() - 20);
    &&& s.len() >= 24
    &&& tail[0] == '-' && is_digit(tail[1]) && is_digit(tail[2])
    &&& tail[3] == '-' && is_digit(tail[4]) && is_digit(tail[5])
    &&& tail[6] == 'T' && is_digit(tail[7]) && is_digit(tail[8])
    &&& tail[9] == ':' && is_digit(tail[10]) && is_digit(tail[11])
    &&& tail[12] == ':' && is_digit(tail[13]) && is_digit(tail[14])
    &&& tail[15] == '.' && is_digit(tail[16]) && is_digit(tail[17]) && is_digit(tail[18])
    &&& tail[19] == 'Z'
}

/// `uuid::Uuid::new_v4` as text: a random UUID of version 4, in lower case with hyphens. That no
/// two are the same rests on chance and is not claimed.
#[verifier::external_body]
fn new_session_id() -> (r: String)
    ensures
        is_uuid(r@),
{
    uuid::Uuid::new_v4().to_string()
}

/// `chrono::Utc::now` as text by `to_rfc3339_opts`: the time in UTC to the millisecond. Which time
/// that is the clock of the machine says, and nothing is claimed of it.
#[verifier::external_body]
fn now_timestamp() -> (r: String)
    ensures
        is_timestamp(r@),
{
    chrono::Utc::now().to_rfc3339_opts(chrono::SecondsFormat::Millis, true)
}

impl SessionDocument {
    /// The document of a session that starts now, under a fresh identifier.
    pub fn new() -> (r: Self)
        ensures
            is_uuid(r@.session_id),
            is_timestamp(r@.created_at),
            r@ == started(r@.session_id, r@.created_at),
    {
        SessionDocument::starting(new_session_id(), now_timestamp())
    }

    /// The document of a session that starts at the given time.
    pub fn starting(session_id: String, created_at: String) -> (r: Self)
        ensures
            r@ == started(session_id@, created_at@),
    {
        let r = SessionDocument {
            session_id,
            created_at: created_at.clone(),
            updated_at: created_at,
            views: Vec::new(),
        };
        assert(r@.views =~= Seq::<RecordView>::empty());
        r
    }
}

/// The document of a session that has just started: it was last updated when it was created, and
/// holds no views.
pub open spec fn started(session_id: Seq<char>, created_at: Seq<char>) -> DocumentView {
    DocumentView { session_id, created_at, updated_at: created_at, views: seq![] }
}

/// A session whose document is kept at `path`; its first view gets the number one.
pub open spec fn begun(document: DocumentView, path: Seq<char>) -> StateView {
    StateView { document, path, next_view_index: 1 }
}

impl SessionState {
    /// A session whose document is kept at `path`; its first view gets the number one.
    pub fn new(document: SessionDocument, path: String) -> (r: Self)
        ensures
            r@ == begun(document@, path@),
            r@ == (StateView { document: document@, path: path@, next_view_index: 1 }),
    {
        SessionState { document, path, next_view_index: 1 }
    }

    /// Identifier of the session, and where its document is kept.
    pub fn info(&self) -> (r: SessionInfo)
        ensures
            r.session_id@ == self@.document.session_id,
            r.path@ == self@.path,
    {
        SessionInfo { session_id: self.document.session_id.clone(), path: self.path.clone() }
    }

    /// Records a statement that succeeded just now.
    pub fn record_success(
        &mut self,
        view_name: Option<String>,
        operation: &str,
        sql: &str,
        row_count: Option<i64>,
    )
        requires
            wanted_name(optional_text(view_name)) is None ==> old(self).next_view_index < u64::MAX,
        ensures
            final(self)@ == recorded(
                old(self)@,
                optional_text(view_name),
                operation@,
                sql@,
                row_count,
                "success"@,
                None,
                final(self)@.document.updated_at,
            ),
            final(self)@ == succeeded(
                old(self)@,
                optional_text(view_name),
                operation@,
                sql@,
                row_count,
                final(self)@.document.updated_at,
            ),
            is_timestamp(final(self)@.document.updated_at),
    {
        let created_at = now_timestamp();
        self.record(view_name, operation, sql, row_count, "success", None, created_at);
    }

    /// Records a statement that failed just now.
    pub fn record_error(
        &mut self,
        view_name: Option<String>,
        operation: &str,
        sql: &str,
        error: String,
    )
        requires
            wanted_name(optional_text(view_name)) is None ==> old(self).next_view_index < u64::MAX,
        ensures
            final(self)@ == recorded(
                old(self)@,
                optional_text(view_name),
                operation@,
                sql@,
                None,
                "error"@,
                Some(error@),
                final(self)@.document.updated_at,
            ),
            final(self)@ == failed(
                old(self)@,
                optional_text(view_name),
                operation@,
                sql@,
                error@,
                final(self)@.document.updated_at,
            ),
            is_timestamp(final(self)@.document.updated_at),
    {
        let created_at = now_timestamp();
        self.record(view_name, operation, sql, None, "error", Some(error), created_at);
    }

    /// Records a query that ended just now: with the number of its rows, or with its error.
    pub fn record_query(
        &mut self,
        view_name: Option<String>,
        sql: &str,
        outcome: &DbNativeResult<QueryResult>,
    )
        requires
            wanted_name(optional_text(view_name)) is None ==> old(self).next_view_index < u64::MAX,
            outcome matches Ok(result) ==> result.rows@.len() <= i64::MAX,
        ensures
            final(self)@ == (match *outcome {
                Ok(result) => recorded(
                    old(self)@,
                    optional_text(view_name),
                    "query"@,
                    sql@,
                    Some(result.rows@.len() as i64),
                    "success"@,
                    None,
                    final(self)@.document.updated_at,
                ),
                Err(error) => recorded(
                    old(self)@,
                    optional_text(view_name),
                    "query"@,
                    sql@,
                    None,
                    "error"@,
                    Some(error.reason@),
                    final(self)@.document.updated_at,
                ),
            }),
            final(self)@ == queried(
                old(self)@,
                optional_text(view_name),
                sql@,
                match *outcome {
                    Ok(result) => Ok(result.rows@.len()),
                    Err(error) => Err(error.reason@),
                },
                final(self)@.document.updated_at,
            ),
            is_timestamp(final(self)@.document.updated_at),
    {
        match outcome {
            Ok(result) => self.record_success(
                view_name,
                "query",
                sql,
                Some(result.rows.len() as i64),
            ),
            Err(error) => self.record_error(view_name, "query", sql, error.reason.clone()),
        }
    }

    /// Records a statement that ended at the given time.
    pub fn record(
        &mut self,
        view_name: Option<String>,
        operation: &str,
        sql: &str,
        row_count: Option<i64>,
        status: &str,
        error: Option<String>,
        created_at: String,
    )
        requires
            wanted_name(optional_text(view_name)) is None ==> old(self).next_view_index < u64::MAX,
        ensures
            final(self)@ == recorded(
                old(self)@,
                optional_text(view_name),
                operation@,
                sql@,
                row_count,
                status@,
                optional_text(error),
                created_at@,
            ),
    {
        let name = resolve_view_name(self, view_name);
        self.document.updated_at = created_at.clone();
        let record = SessionViewRecord {
            view_name: name,
            operation: operation.to_owned(),
            sql: sql.to_owned(),
            created_at,
            row_count,
            status: status.to_owned(),
            error,
        };
        self.document.views.push(record);
        assert(self@.document.views =~= old(self)@.document.views.push(record@));
    }
}

/// The name of the next view: the one that is asked for, or else one with the next number, which
/// is then used up.
pub fn resolve_view_name(state: &mut SessionState, view_name: Option<String>) -> (r: String)
    requires
        wanted_name(optional_text(view_name)) is None ==> old(state).next_view_index < u64::MAX,
    ensures
        r@ == next_name(optional_text(view_name), old(state).next_view_index),
        final(state).next_view_index == index_after(
            optional_text(view_name),
            old(state).next_view_index,
        ),
        final(state).document == old(state).document,
        final(state).path == old(state).path,
{
    if let Some(name) = view_name {
        let wanted = trim(name.as_str());
        if wanted.unicode_len() > 0 {
            return wanted.to_owned();
        }
    }
    let mut name: String = "view_".to_owned();
    name.append(decimal_text(state.next_view_index as u128).as_str());
    state.next_view_index = state.next_view_index + 1;
    name
}

/// The home directory, which has to be known and not empty.
pub fn require_home<H>(home: Option<H>, empty: bool) -> (r: DbNativeResult<H>)
    ensures
        match r {
            Ok(value) => home == Some(value) && !empty,
            Err(error) => (home is None || empty) && error.reason@
                == "Unable to resolve home directory for db-native session"@,
        },
{
    match home {
        Some(value) => if empty {
            Err(state_error("Unable to resolve home directory for db-native session"))
        } else {
            Ok(value)
        },
        None => Err(state_error("Unable to resolve home directory for db-native session")),
    }
}

/// Views with different numbers have different names.
pub proof fn law_generated_names_differ(i: nat, j: nat)
    requires
        i != j,
    ensures
        generated_name(i) != generated_name(j),
{
    lemma_decimal_reads_back(i);
    lemma_decimal_reads_back(j);
    let n = "view_"@.len() as int;
    assert(generated_name(i).skip(n) == decimal(i));
    assert(generated_name(j).skip(n) == decimal(j));
}

/// The number of the next view after views with the given names have been asked for.
pub open spec fn index_after_all(view_names: Seq<Option<Seq<char>>>, index: nat) -> nat
    decreases view_names.len(),
{
    if view_names.len() == 0 {
        index
    } else {
        let before = index_after_all(view_names.drop_last(), index);
        if wanted_name(view_names.last()) is Some {
            before
        } else {
            before + 1
        }
    }
}

proof fn lemma_index_grows(view_names: Seq<Option<Seq<char>>>, index: nat, i: int, j: int)
    requires
        0 <= i < j <= view_names.len(),
    ensures
        index_after_all(view_names.take(i + 1), index) <= index_after_all(
            view_names.take(j),
            index,
        ),
    decreases j,
{
    if i + 1 < j {
        lemma_index_grows(view_names, index, i, j - 1);
        assert(view_names.take(j).drop_last() =~= view_names.take(j - 1));
    }
}

/// Two views of a session that no name is asked for get different names, whatever views come
/// before and between them.
pub proof fn law_unnamed_views_get_different_names(
    view_names: Seq<Option<Seq<char>>>,
    index: nat,
    i: int,
    j: int,
)
    requires
        0 <= i < j < view_names.len(),
        wanted_name(view_names[i]) is None,
        wanted_name(view_names[j]) is None,
    ensures
        generated_name(index_after_all(view_names.take(i), index)) != generated_name(
            index_after_all(view_names.take(j), index),
        ),
{
    assert(view_names.take(i + 1).drop_last() =~= view_names.take(i));
    lemma_index_grows(view_names, index, i, j);
    law_generated_names_differ(
        index_after_all(view_names.take(i), index),
        index_after_all(view_names.take(j), index),
    );
}

/// A record is added at the end: what was recorded before stays, the session keeps its
/// identifier, its start and its place, and it was last updated when the new record was made.
pub proof fn law_records_are_kept(
    state: StateView,
    view_name: Option<Seq<char>>,
    operation: Seq<char>,
    sql: Seq<char>,
    row_count: Option<i64>,
    status: Seq<char>,
    error: Option<Seq<char>>,
    created_at: Seq<char>,
)
    ensures
        ({
            let next = recorded(
                state,
                view_name,
                operation,
                sql,
                row_count,
                status,
                error,
                created_at,
            );
            &&& next.document.views.drop_last() == state.document.views
            &&& next.document.views.last().created_at == next.document.updated_at
            &&& next.document.session_id == state.document.session_id
            &&& next.document.created_at == state.document.created_at
            &&& next.path == state.path
        }),
{
}

/// A name that is asked for is the name of the view, without the white space around it, and uses up
/// no number. Where no name is asked for, or a blank one, the view is named by the next number,
/// which is then used up.
pub proof fn law_view_gets_the_name_that_is_asked_for(
    before: Seq<char>,
    name: Seq<char>,
    after: Seq<char>,
    index: u64,
)
    requires
        forall|i: int| 0 <= i < before.len() ==> is_white_space(#[trigger] before[i]),
        forall|i: int| 0 <= i < after.len() ==> is_white_space(#[trigger] after[i]),
        name.len() > 0 ==> !is_white_space(name.first()) && !is_white_space(name.last()),
    ensures
        name.len() > 0 ==> next_name(Some(before + name + after), index) == name && index_after(
            Some(before + name + after),
            index,
        ) == index,
        name.len() == 0 ==> next_name(Some(before + name + after), index) == "view_"@ + decimal(
            index as nat,
        ) && index_after(Some(before + name + after), index) == index + 1,
        next_name(None, index) == "view_"@ + decimal(index as nat),
        index_after(None, index) == index + 1,
        wanted_name(Some(before + name + after)) is Some <==> name.len() > 0,
        wanted_name(None) is None,
{
    lemma_trim_padding(before, name, after);
    law_trimmed_text_stays(name);
}

/// The record that is added holds what it is given: the statement and how it went, and the name of
/// the view. The next number is the one after that name.
pub proof fn law_record_holds_what_is_given(
    state: StateView,
    view_name: Option<Seq<char>>,
    operation: Seq<char>,
    sql: Seq<char>,
    row_count: Option<i64>,
    status: Seq<char>,
    error: Option<Seq<char>>,
    created_at: Seq<char>,
)
    requires
        wanted_name(view_name) is None ==> state.next_view_index < u64::MAX,
    ensures
        ({
            let next = recorded(
                state,
                view_name,
                operation,
                sql,
                row_count,
                status,
                error,
                created_at,
            );
            let record = next.document.views.last();
            &&& next.document.views.len() == state.document.views.len() + 1
            &&& record.operation == operation
            &&& record.sql == sql
            &&& record.row_count == row_count
            &&& record.status == status
            &&& record.error == error
            &&& record.created_at == created_at
            &&& next.document.updated_at == created_at
            &&& wanted_name(view_name) is Some ==> record.view_name == wanted_name(view_name)->0
                && next.next_view_index == state.next_view_index
            &&& wanted_name(view_name) is None ==> record.view_name == "view_"@ + decimal(
                state.next_view_index as nat,
            ) && next.next_view_index == state.next_view_index + 1
        }),
{
}

/// A session that has just started has its identifier and no views, and was last updated when it
/// was created.
pub proof fn law_new_session_is_empty(session_id: Seq<char>, created_at: Seq<char>)
    ensures
        started(session_id, created_at).session_id == session_id,
        started(session_id, created_at).created_at == created_at,
        started(session_id, created_at).updated_at == created_at,
        started(session_id, created_at).views.len() == 0,
{
}

/// What is seen of a session is what its fields hold.
pub proof fn law_session_is_seen_as_it_is(state: SessionState, i: int)
    ensures
        state@.path == state.path@,
        state@.next_view_index == state.next_view_index,
        state@.document.session_id == state.document.session_id@,
        state@.document.created_at == state.document.created_at@,
        state@.document.updated_at == state.document.updated_at@,
        state@.document.views.len() == state.document.views@.len(),
        0 <= i < state.document.views@.len() ==> ({
            let seen = state@.document.views[i];
            let record = state.document.views@[i];
            &&& seen.view_name == record.view_name@
            &&& seen.operation == record.operation@
            &&& seen.sql == record.sql@
            &&& seen.created_at == record.created_at@
            &&& seen.row_count == record.row_count
            &&& seen.status == record.status@
            &&& match record.error {
                Some(text) => seen.error == Some(text@),
                None => seen.error is None,
            }
        }),
{
}

/// A query is recorded as one: with the number of its rows and as a success, or with its error and
/// as one that failed; its statement and its time are those that are given.
pub proof fn law_query_is_recorded(
    state: StateView,
    view_name: Option<Seq<char>>,
    sql: Seq<char>,
    rows: nat,
    error: Seq<char>,
    created_at: Seq<char>,
)
    requires
        rows <= i64::MAX,
    ensures
        ({
            let good = queried(state, view_name, sql, Ok(rows), created_at);
            let bad = queried(state, view_name, sql, Err(error), created_at);
            &&& good.document.views.drop_last() == state.document.views
            &&& bad.document.views.drop_last() == state.document.views
            &&& good.document.views.last().operation == "query"@
            &&& bad.document.views.last().operation == "query"@
            &&& good.document.views.last().row_count == Some(rows as i64)
            &&& good.document.views.last().row_count->0 == rows
            &&& bad.document.views.last().row_count is None
            &&& good.document.views.last().status == "success"@
            &&& bad.document.views.last().status == "error"@
            &&& good.document.views.last().error is None
            &&& bad.document.views.last().error == Some(error)
            &&& good.document.views.last().sql == sql
            &&& bad.document.views.last().sql == sql
            &&& good.document.views.last().created_at == created_at
            &&& bad.document.views.last().created_at == created_at
        }),
{
}

/// A statement is recorded as it went: one that succeeded with the number of rows that is given and
/// no error, one that failed with its error and no number.
pub proof fn law_statement_is_recorded_as_it_went(
    state: StateView,
    view_name: Option<Seq<char>>,
    operation: Seq<char>,
    sql: Seq<char>,
    row_count: Option<i64>,
    error: Seq<char>,
    created_at: Seq<char>,
)
    ensures
        ({
            let good = succeeded(state, view_name, operation, sql, row_count, created_at);
            let bad = failed(state, view_name, operation, sql, error, created_at);
            &&& good.document.views.last().status == "success"@
            &&& bad.document.views.last().status == "error"@
            &&& good.document.views.last().row_count == row_count
            &&& bad.document.views.last().row_count is None
            &&& good.document.views.last().error is None
            &&& bad.document.views.last().error == Some(error)
            &&& good.document.views.last().operation == operation
            &&& bad.document.views.last().operation == operation
            &&& good.document.views.last().sql == sql
            &&& bad.document.views.last().sql == sql
            &&& good.document.views.last().view_name == bad.document.views.last().view_name
            &&& good.document.views.drop_last() == state.document.views
            &&& bad.document.views.drop_last() == state.document.views
        }),
{
}

/// A session goes on with the document that it is given, at the place that it is given, and the
/// first view that no name is asked for is `view_1`.
pub proof fn law_first_view_has_the_number_one(
    document: DocumentView,
    path: Seq<char>,
    operation: Seq<char>,
    sql: Seq<char>,
    row_count: Option<i64>,
    created_at: Seq<char>,
)
    ensures
        begun(document, path).document == document,
        begun(document, path).path == path,
        succeeded(
            begun(document, path),
            None,
            operation,
            sql,
            row_count,
            created_at,
        ).document.views.last().view_name == "view_"@ + seq!['1'],
{
    law_decimal_digits(0, 1);
    assert(decimal(1) =~= seq!['1']);
}

} // verus!
