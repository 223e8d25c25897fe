//! JSON files: one array with an item for each row.
use vstd::prelude::*;

use crate::error::{state_error, DbNativeResult};
use crate::json::{json_tree, trees, Json};
use crate::save::chunks::{chunk_views, flat, lemma_flat_push};
use crate::text::{decimal, law_decimal_digits, lemma_decimal_ends_in_digit, signed_decimal};

verus! {

/// Where the closing bracket of an array stands in a file, and whether the array has items.
pub struct JsonArrayAppendState {
    pub closing_bracket_pos: u64,
    pub has_rows: bool,
}

/// Whether a byte is white space in ASCII: a space, tab, line feed, form feed or carriage return.
pub open spec fn is_blank(byte: u8) -> bool {
    byte == 0x20 || byte == 0x09 || byte == 0x0a || byte == 0x0c || byte == 0x0d
}

/// Where the first byte stands that is not white space.
pub open spec fn first_solid(bytes: Seq<u8>) -> Option<int>
    decreases bytes.len(),
{
    if bytes.len() == 0 {
        None
    } else if !is_blank(bytes.first()) {
        Some(0)
    } else {
        match first_solid(bytes.drop_first()) {
            Some(position) => Some(position + 1),
            None => None,
        }
    }
}

/// Where the last byte stands that is not white space.
pub open spec fn last_solid(bytes: Seq<u8>) -> Option<int>
    decreases bytes.len(),
{
    if bytes.len() == 0 {
        None
    } else if !is_blank(bytes.last()) {
        Some(bytes.len() - 1)
    } else {
        last_solid(bytes.drop_last())
    }
}

fn blank(byte: u8) -> (r: bool)
    ensures
        r == is_blank(byte),
{
    byte == 0x20 || byte == 0x09 || byte == 0x0a || byte == 0x0c || byte == 0x0d
}

proof fn lemma_first_solid(bytes: Seq<u8>, n: int)
    requires
        0 <= n <= bytes.len(),
        forall|i: int| 0 <= i < n ==> is_blank(#[trigger] bytes[i]),
    ensures
        n == bytes.len() ==> first_solid(bytes) is None,
        n < bytes.len() && !is_blank(bytes[n]) ==> first_solid(bytes) == Some(n),
    decreases bytes.len(),
{
    if n > 0 {
        assert(is_blank(bytes[0]));
        assert forall|i: int| 0 <= i < n - 1 implies is_blank(#[trigger] bytes.drop_first()[i]) by {
            assert(is_blank(bytes[i + 1]));
        }
        lemma_first_solid(bytes.drop_first(), n - 1);
    }
}

/// Where the first byte stands that is not white space, and which byte that is.
pub fn find_first_non_whitespace_byte(bytes: &[u8]) -> (r: Option<(u64, u8)>)
    ensures
        match r {
            Some((position, byte)) => first_solid(bytes@) == Some(position as int) && position
                < bytes@.len() && byte == bytes@[position as int],
            None => first_solid(bytes@) is None,
        },
{
    let mut position: usize = 0;
    while position < bytes.len()
        invariant
            position <= bytes.len(),
            forall|i: int| 0 <= i < position ==> is_blank(#[trigger] bytes@[i]),
        decreases bytes.len() - position,
    {
        if !blank(bytes[position]) {
            proof {
                lemma_first_solid(bytes@, position as int);
            }
            return Some((position as u64, bytes[position]));
        }
        position = position + 1;
    }
    proof {
        lemma_first_solid(bytes@, position as int);
    }
    None
}

/// Where the last byte below `upper_bound_exclusive` stands that is not white space, and which
/// byte that is.
pub fn find_last_non_whitespace_byte(bytes: &[u8], upper_bound_exclusive: u64) -> (r: Option<
    (u64, u8),
>)
    requires
        upper_bound_exclusive <= bytes@.len(),
    ensures
        match r {
            Some((position, byte)) => last_solid(bytes@.take(upper_bound_exclusive as int)) == Some(
                position as int,
            ) && position < upper_bound_exclusive && byte == bytes@[position as int],
            None => last_solid(bytes@.take(upper_bound_exclusive as int)) is None,
        },
{
    let length: usize = bytes.len();
    assert(upper_bound_exclusive <= length);
    let mut position: usize = upper_bound_exclusive as usize;
    while position > 0
        invariant
            position <= upper_bound_exclusive <= bytes@.len(),
            last_solid(bytes@.take(upper_bound_exclusive as int)) == last_solid(
                bytes@.take(position as int),
            ),
        decreases position,
    {
        assert(bytes@.take(position as int).drop_last() =~= bytes@.take(position - 1));
        position = position - 1;
        if !blank(bytes[position]) {
            return Some((position as u64, bytes[position]));
        }
    }
    None
}

/// What a file that is to be appended to has to be: a JSON array as far as its brackets show.
/// Gives where the closing bracket stands and whether the array has items, or why the file is
/// refused.
pub open spec fn append_state(bytes: Seq<u8>) -> Result<(int, bool), Seq<char>> {
    match (first_solid(bytes), last_solid(bytes)) {
        (Some(first), Some(last)) => if bytes[first] == 0x5b && bytes[last] == 0x5d {
            Ok(
                (
                    last,
                    match last_solid(bytes.take(last)) {
                        Some(before) => bytes[before] != 0x5b,
                        None => false,
                    },
                ),
            )
        } else {
            Err("Append mode for JSON requires an existing JSON array file."@)
        },
        (None, _) => Err(
            "Cannot append to an empty JSON file. Use overwrite mode or recreate the file."@,
        ),
        (_, None) => Err("Append mode for JSON requires an existing JSON array file."@),
    }
}

/// Where the closing bracket of the array in a file stands, and whether the array has items.
pub fn inspect_json_array_for_append(bytes: &[u8]) -> (r: DbNativeResult<JsonArrayAppendState>)
    ensures
        match append_state(bytes@) {
            Ok((position, has_rows)) => r matches Ok(state) && state.closing_bracket_pos == position
                && state.has_rows == has_rows && position < bytes@.len(),
            Err(text) => r matches Err(error) && error.reason@ == text,
        },
{
    let first: u8 = match find_first_non_whitespace_byte(bytes) {
        Some((_, byte)) => byte,
        None => {
            return Err(
                state_error(
                    "Cannot append to an empty JSON file. Use overwrite mode or recreate the file.",
                ),
            );
        },
    };
    assert(bytes@.take(bytes@.len() as int) =~= bytes@);
    match find_last_non_whitespace_byte(bytes, bytes.len() as u64) {
        Some((closing_bracket_pos, last)) if first == 0x5b && last == 0x5d => {
            let has_rows: bool = match find_last_non_whitespace_byte(bytes, closing_bracket_pos) {
                Some((_, byte)) => byte != 0x5b,
                None => false,
            };
            Ok(JsonArrayAppendState { closing_bracket_pos, has_rows })
        },
        _ => Err(state_error("Append mode for JSON requires an existing JSON array file.")),
    }
}

/// The bytes that `serde_json::to_vec` gives of a value, but for the last one.
pub uninterp spec fn json_lead(tree: Json) -> Seq<u8>;

/// The last byte of a value in JSON: a quote, a bracket or a brace, the last digit of a number, or
/// the last letter of `null`, `true` or `false`.
pub open spec fn json_last(tree: Json) -> u8 {
    match tree {
        Json::Null => 0x6c,
        Json::Bool(_) => 0x65,
        Json::Integer(i) => signed_decimal(i).last() as u8,
        Json::Float(text) => text.last() as u8,
        Json::Text(_) => 0x22,
        Json::Array(_) => 0x5d,
        Json::Object(_) => 0x7d,
    }
}

/// A value in JSON.
pub open spec fn json_bytes(tree: Json) -> Seq<u8> {
    json_lead(tree).push(json_last(tree))
}

/// Whether a value is one that JSON has: a number with a fraction or an exponent ends in a digit.
pub open spec fn is_json(tree: Json) -> bool {
    tree is Float ==> 0x30 <= json_last(tree) <= 0x39
}

/// `serde_json::to_vec`: the value in compact JSON. The bytes are a function of what the value
/// holds, since an object is written in the order of its keys, and the last one shows what kind of
/// value it is: that of a floating-point number is a digit. Writing a `Value` does not fail.
#[verifier::external_body]
fn to_bytes(value: &serde_json::Value) -> (r: Vec<u8>)
    ensures
        r@ == json_lead(json_tree(*value)).push(
            json_last(json_tree(*value)),
        ),
        json_tree(*value) is Float ==> 0x30 <= r@.last() <= 0x39,
{
    serde_json::to_vec(value).unwrap_or_default()
}

/// The items of an array, with a comma between any two, and before the first one if `continued`.
pub open spec fn json_items(rows: Seq<Json>, continued: bool) -> Seq<u8>
    decreases rows.len(),
{
    if rows.len() == 0 {
        seq![]
    } else {
        json_items(rows.drop_last(), continued) + (if continued || rows.len() > 1 {
            seq![0x2cu8]
        } else {
            seq![]
        }) + json_bytes(rows.last())
    }
}

/// A whole file.
pub open spec fn json_document(rows: Seq<Json>) -> Seq<u8> {
    seq![0x5bu8] + json_items(rows, false) + seq![0x5du8]
}

/// The pieces of an array for some rows: one for each item, with the comma before it.
pub open spec fn json_chunks(rows: Seq<Json>, continued: bool) -> Seq<Seq<u8>>
    decreases rows.len(),
{
    if rows.len() == 0 {
        seq![]
    } else {
        json_chunks(rows.drop_last(), continued).push(
            (if continued || rows.len() > 1 {
                seq![0x2cu8]
            } else {
                seq![]
            }) + json_bytes(rows.last()),
        )
    }
}

/// The pieces make up the items of the array.
pub proof fn lemma_json_chunks(rows: Seq<Json>, continued: bool)
    ensures
        flat(json_chunks(rows, continued)) == json_items(rows, continued),
        json_chunks(rows, continued).len() == rows.len(),
    decreases rows.len(),
{
    if rows.len() > 0 {
        lemma_json_chunks(rows.drop_last(), continued);
        let chunks = json_chunks(rows, continued);
        lemma_flat_push(json_chunks(rows.drop_last(), continued), chunks.last());
        assert(flat(chunks) =~= json_items(rows, continued));
    }
}

/// Writes rows as the items of a JSON array.
pub struct JsonStreamingWriter {
    pub wrote_any_row: bool,
}

impl JsonStreamingWriter {
    /// What to write for some rows: one piece for each. The rows are values that JSON has.
    pub fn write_batch(&self, rows: &[serde_json::Value]) -> (r: Vec<Vec<u8>>)
        ensures
            chunk_views(r@) == json_chunks(trees(rows@), self.wrote_any_row),
            forall|i: int| 0 <= i < rows@.len() ==> is_json(#[trigger] trees(rows@)[i]),
    {
        let ghost contents = trees(rows@);
        let mut r: Vec<Vec<u8>> = Vec::new();
        let mut i: usize = 0;
        assert(chunk_views(r@) =~= json_chunks(contents.take(0), self.wrote_any_row));
        while i < rows.len()
            invariant
                i <= rows.len(),
                contents == trees(rows@),
                chunk_views(r@) == json_chunks(contents.take(i as int), self.wrote_any_row),
                forall|j: int| 0 <= j < i ==> is_json(#[trigger] contents[j]),
            decreases rows.len() - i,
        {
            let mut chunk: Vec<u8> = Vec::new();
            if self.wrote_any_row || i > 0 {
                chunk.push(0x2c);
            }
            let ghost comma = chunk@;
            let mut item: Vec<u8> = to_bytes(&rows[i]);
            assert(item@.last() == json_last(json_tree(rows@[i as int])));
            chunk.append(&mut item);
            let ghost before = r@;
            r.push(chunk);
            proof {
                let tree = json_tree(rows@[i as int]);
                assert(contents.take(i + 1).drop_last() =~= contents.take(i as int));
                assert(contents.take(i + 1).last() == tree);
                assert(comma =~= (if self.wrote_any_row || i > 0 {
                    seq![0x2cu8]
                } else {
                    seq![]
                }));
                assert(chunk@ =~= comma + json_bytes(tree));
                assert(chunk_views(r@) =~= chunk_views(before).push(chunk@));
                assert(is_json(contents[i as int]));
            }
            i = i + 1;
        }
        assert(contents.take(contents.len() as int) =~= contents);
        r
    }

    /// What to write at the end.
    pub fn finish(&self) -> (r: Vec<Vec<u8>>)
        ensures
            chunk_views(r@) == seq![seq![0x5du8]],
    {
        let mut bracket: Vec<u8> = Vec::new();
        bracket.push(0x5d);
        assert(bracket@ =~= seq![0x5du8]);
        let mut r: Vec<Vec<u8>> = Vec::new();
        r.push(bracket);
        assert(chunk_views(r@) =~= seq![seq![0x5du8]]);
        r
    }

    /// Takes note that `done` pieces have been written.
    pub fn advance(&mut self, done: usize)
        ensures
            final(self).wrote_any_row == (old(self).wrote_any_row || done > 0),
    {
        if done > 0 {
            self.wrote_any_row = true;
        }
    }
}

/// It makes no difference in which batches the rows come.
pub proof fn law_json_batches_join(
    first: Seq<Json>,
    second: Seq<Json>,
    continued: bool,
)
    ensures
        json_items(first + second, continued) == json_items(first, continued) + json_items(
            second,
            continued || first.len() > 0,
        ),
    decreases second.len(),
{
    if second.len() == 0 {
        assert(first + second =~= first);
        assert(json_items(first, continued) + json_items(second, continued || first.len() > 0)
            =~= json_items(first, continued));
    } else {
        law_json_batches_join(first, second.drop_last(), continued);
        assert((first + second).drop_last() =~= first + second.drop_last());
        assert(json_items(first + second, continued) =~= json_items(first, continued) + json_items(
            second,
            continued || first.len() > 0,
        ));
    }
}

/// Whether all of some bytes are white space.
pub open spec fn all_blank(bytes: Seq<u8>) -> bool {
    forall|i: int| 0 <= i < bytes.len() ==> is_blank(#[trigger] bytes[i])
}

proof fn lemma_first_after_blank(lead: Seq<u8>, rest: Seq<u8>)
    requires
        all_blank(lead),
        rest.len() > 0,
        !is_blank(rest[0]),
    ensures
        first_solid(lead + rest) == Some(lead.len() as int),
{
    let bytes = lead + rest;
    assert forall|i: int| 0 <= i < lead.len() implies is_blank(#[trigger] bytes[i]) by {
        assert(is_blank(lead[i]));
    }
    assert(bytes[lead.len() as int] == rest[0]);
    lemma_first_solid(bytes, lead.len() as int);
}

proof fn lemma_last_before_blank(bytes: Seq<u8>, trail: Seq<u8>)
    requires
        all_blank(trail),
    ensures
        last_solid(bytes + trail) == last_solid(bytes),
    decreases trail.len(),
{
    if trail.len() > 0 {
        assert(is_blank(trail[trail.len() - 1]));
        assert((bytes + trail).drop_last() =~= bytes + trail.drop_last());
        lemma_last_before_blank(bytes, trail.drop_last());
    } else {
        assert(bytes + trail =~= bytes);
    }
}

proof fn lemma_last_behind(lead: Seq<u8>, body: Seq<u8>)
    ensures
        last_solid(lead + body) == (match last_solid(body) {
            Some(i) => Some(lead.len() + i),
            None => last_solid(lead),
        }),
        last_solid(body) matches Some(i) ==> 0 <= i < body.len(),
    decreases body.len(),
{
    if body.len() == 0 {
        assert(lead + body =~= lead);
    } else if is_blank(body.last()) {
        assert((lead + body).drop_last() =~= lead + body.drop_last());
        lemma_last_behind(lead, body.drop_last());
    }
}

/// An array in any layout can be appended to: white space may stand around it and within it, and
/// it has items where anything but white space stands between its brackets. What stands between
/// the brackets of an array does not end in an opening bracket.
pub proof fn law_any_array_can_be_appended_to(lead: Seq<u8>, body: Seq<u8>, trail: Seq<u8>)
    requires
        all_blank(lead),
        all_blank(trail),
        last_solid(body) matches Some(i) ==> body[i] != 0x5b,
    ensures
        append_state(lead + seq![0x5bu8] + body + seq![0x5du8] + trail) == Ok::<
            (int, bool),
            Seq<char>,
        >(((lead.len() + 1 + body.len()) as int, last_solid(body) is Some)),
{
    let open = lead + seq![0x5bu8] + body;
    let closed = open + seq![0x5du8];
    let bytes = closed + trail;
    let last = (lead.len() + 1 + body.len()) as int;
    assert(bytes =~= lead + (seq![0x5bu8] + body + seq![0x5du8] + trail));
    lemma_first_after_blank(lead, seq![0x5bu8] + body + seq![0x5du8] + trail);
    lemma_last_before_blank(closed, trail);
    assert(closed.last() == 0x5d);
    assert(last_solid(closed) == Some(last));
    assert(bytes.take(last) =~= open);
    lemma_last_behind(lead + seq![0x5bu8], body);
    assert((lead + seq![0x5bu8]).last() == 0x5b);
    match last_solid(body) {
        Some(i) => {
            assert(bytes[lead.len() + 1 + i] == body[i]);
        },
        None => {
            assert(last_solid(lead + seq![0x5bu8]) == Some(lead.len() as int));
        },
    }
}

/// A file that was written is one that can be appended to, and what is appended continues its
/// array: the result is the file that all the rows make.
pub proof fn law_json_append_continues(first: Seq<Json>, second: Seq<Json>)
    requires
        forall|i: int| 0 <= i < first.len() ==> is_json(#[trigger] first[i]),
    ensures
        append_state(json_document(first)) == Ok::<(int, bool), Seq<char>>(
            (json_document(first).len() - 1, first.len() > 0),
        ),
        json_document(first).take(json_document(first).len() - 1) + json_items(
            second,
            first.len() > 0,
        ) + seq![0x5du8] == json_document(first + second),
{
    let none = Seq::<u8>::empty();
    let body = json_items(first, false);
    let document = json_document(first);
    if first.len() > 0 {
        let item = first[first.len() - 1];
        assert(is_json(item));
        if let Json::Integer(i) = item {
            let magnitude = if i < 0 {
                (-i) as nat
            } else {
                i as nat
            };
            lemma_decimal_ends_in_digit(magnitude);
            assert(signed_decimal(i).last() == decimal(magnitude).last());
        }
        assert(body.last() == json_last(item));
        assert(!is_blank(json_last(item)) && json_last(item) != 0x5b);
        assert(last_solid(body) == Some(body.len() - 1));
    }
    law_any_array_can_be_appended_to(none, body, none);
    assert(none + seq![0x5bu8] + body + seq![0x5du8] + none =~= document);
    law_json_batches_join(first, second, false);
    assert(document.take(document.len() - 1) + json_items(second, first.len() > 0) + seq![0x5du8]
        =~= json_document(first + second));
}

/// White space in a file is a space, a tab, a line feed, a form feed or a carriage return.
pub proof fn law_blank_bytes(byte: u8)
    ensures
        is_blank(byte) <==> byte == ' ' as u8 || byte == '\t' as u8 || byte == '\n' as u8 || byte
            == '\u{c}' as u8 || byte == '\r' as u8,
{
}

/// The first byte that is not white space stands where only white space stands before it.
pub proof fn law_first_byte_that_counts(bytes: Seq<u8>, position: int)
    ensures
        first_solid(bytes) == Some(position) <==> 0 <= position < bytes.len() && !is_blank(
            bytes[position],
        ) && (forall|i: int| 0 <= i < position ==> is_blank(#[trigger] bytes[i])),
        first_solid(bytes) is None <==> (forall|i: int|
            0 <= i < bytes.len() ==> is_blank(#[trigger] bytes[i])),
    decreases bytes.len(),
{
    if bytes.len() > 0 {
        let rest = bytes.drop_first();
        law_first_byte_that_counts(rest, position - 1);
        if first_solid(bytes) == Some(position) && position > 0 {
            assert forall|i: int| 0 <= i < position implies is_blank(#[trigger] bytes[i]) by {
                if i > 0 {
                    assert(bytes[i] == rest[i - 1]);
                }
            }
        }
        if 0 <= position < bytes.len() && !is_blank(bytes[position]) && (forall|i: int|
            0 <= i < position ==> is_blank(#[trigger] bytes[i])) {
            lemma_first_solid(bytes, position);
        }
        if first_solid(bytes) is None {
            assert forall|i: int| 0 <= i < bytes.len() implies is_blank(#[trigger] bytes[i]) by {
                if i > 0 {
                    assert(bytes[i] == rest[i - 1]);
                }
            }
        }
        if forall|i: int| 0 <= i < bytes.len() ==> is_blank(#[trigger] bytes[i]) {
            lemma_first_solid(bytes, bytes.len() as int);
        }
    }
}

/// The last byte that is not white space stands where only white space stands after it.
pub proof fn law_last_byte_that_counts(bytes: Seq<u8>, position: int)
    ensures
        last_solid(bytes) == Some(position) <==> 0 <= position < bytes.len() && !is_blank(
            bytes[position],
        ) && (forall|i: int| position < i < bytes.len() ==> is_blank(#[trigger] bytes[i])),
        last_solid(bytes) is None <==> (forall|i: int|
            0 <= i < bytes.len() ==> is_blank(#[trigger] bytes[i])),
    decreases bytes.len(),
{
    if bytes.len() > 0 {
        let rest = bytes.drop_last();
        let last = bytes.len() - 1;
        law_last_byte_that_counts(rest, position);
        if is_blank(bytes.last()) {
            assert(is_blank(bytes[last]));
            if last_solid(bytes) == Some(position) {
                assert forall|i: int| position < i < bytes.len() implies is_blank(
                    #[trigger] bytes[i],
                ) by {
                    if i < last {
                        assert(bytes[i] == rest[i]);
                    }
                }
            }
            if 0 <= position < bytes.len() && !is_blank(bytes[position]) && (forall|i: int|
                position < i < bytes.len() ==> is_blank(#[trigger] bytes[i])) {
                assert forall|i: int| position < i < rest.len() implies is_blank(
                    #[trigger] rest[i],
                ) by {
                    assert(is_blank(bytes[i]));
                }
                assert(rest[position] == bytes[position]);
            }
            if last_solid(bytes) is None {
                assert forall|i: int| 0 <= i < bytes.len() implies is_blank(#[trigger] bytes[i]) by {
                    if i < last {
                        assert(bytes[i] == rest[i]);
                    }
                }
            }
            if forall|i: int| 0 <= i < bytes.len() ==> is_blank(#[trigger] bytes[i]) {
                assert forall|i: int| 0 <= i < rest.len() implies is_blank(#[trigger] rest[i]) by {
                    assert(is_blank(bytes[i]));
                }
            }
        } else {
            assert(!is_blank(bytes[last]));
        }
    }
}

/// Only an array can be appended to, as far as the first and the last byte show that are not white
/// space: an opening and a closing bracket. It is continued where its closing bracket stands. A
/// file of nothing but white space, and one that is no array, are refused, each in its own words.
pub proof fn law_only_arrays_can_be_appended_to(bytes: Seq<u8>, first: int, last: int, before: int)
    requires
        0 <= first <= last < bytes.len(),
        !is_blank(bytes[first]),
        !is_blank(bytes[last]),
        forall|i: int| 0 <= i < first ==> is_blank(#[trigger] bytes[i]),
        forall|i: int| last < i < bytes.len() ==> is_blank(#[trigger] bytes[i]),
    ensures
        append_state(bytes) is Ok <==> bytes[first] == '[' as u8 && bytes[last] == ']' as u8,
        append_state(bytes) is Ok ==> append_state(bytes)->Ok_0.0 == last,
        append_state(bytes) is Ok && 0 <= before < last && !is_blank(bytes[before]) && (forall|
            i: int,
        |
            before < i < last ==> is_blank(#[trigger] bytes[i])) ==> (append_state(bytes)->Ok_0.1
            <==> bytes[before] != '[' as u8),
        append_state(bytes) is Err ==> append_state(bytes)->Err_0
            == "Append mode for JSON requires an existing JSON array file."@,
{
    law_first_byte_that_counts(bytes, first);
    law_last_byte_that_counts(bytes, last);
    let inner = bytes.take(last);
    if 0 <= before < last && !is_blank(bytes[before]) && (forall|i: int|
        before < i < last ==> is_blank(#[trigger] bytes[i])) {
        assert(inner[before] == bytes[before]);
        assert forall|i: int| before < i < inner.len() implies is_blank(#[trigger] inner[i]) by {
            assert(is_blank(bytes[i]));
        }
        law_last_byte_that_counts(inner, before);
    }
}

/// A file of nothing but white space cannot be appended to.
pub proof fn law_blank_file_cannot_be_appended_to(bytes: Seq<u8>)
    requires
        forall|i: int| 0 <= i < bytes.len() ==> is_blank(#[trigger] bytes[i]),
    ensures
        append_state(bytes) == Err::<(int, bool), Seq<char>>(
            "Cannot append to an empty JSON file. Use overwrite mode or recreate the file."@,
        ),
{
    law_first_byte_that_counts(bytes, 0);
}

/// A value ends as its kind does: a text in a quote, an array in a bracket, an object in a brace,
/// `null`, `true` and `false` in their last letter, and an integer in its last digit.
pub proof fn law_last_byte_of_a_value(
    n: int,
    flag: bool,
    text: Seq<char>,
    items: Seq<Json>,
    entries: Map<Seq<char>, Json>,
)
    ensures
        json_bytes(Json::Null).last() == 'l' as u8,
        json_bytes(Json::Bool(flag)).last() == 'e' as u8,
        json_bytes(Json::Text(text)).last() == '"' as u8,
        json_bytes(Json::Array(items)).last() == ']' as u8,
        json_bytes(Json::Object(entries)).last() == '}' as u8,
        json_bytes(Json::Integer(n)).last() == (48 + (if n < 0 {
            -n
        } else {
            n
        }) % 10) as u8,
        json_bytes(Json::Float(text)).last() == text.last() as u8,
        forall|tree: Json| #[trigger] json_bytes(tree).drop_last() == json_lead(tree),
        is_json(Json::Float(text)) <==> 48 <= (text.last() as u8) <= 57,
        is_json(Json::Integer(n)),
        is_json(Json::Null),
        is_json(Json::Bool(flag)),
        is_json(Json::Text(text)),
        is_json(Json::Array(items)),
        is_json(Json::Object(entries)),
{
    let magnitude = if n < 0 {
        (-n) as nat
    } else {
        n as nat
    };
    lemma_decimal_ends_in_digit(magnitude);
    assert(signed_decimal(n).last() == decimal(magnitude).last());
    law_decimal_digits(0, magnitude % 10);
    assert(decimal(magnitude % 10)[0] as int == 48 + magnitude % 10);
    assert forall|tree: Json| #[trigger] json_bytes(tree).drop_last() == json_lead(tree) by {
        assert(json_bytes(tree).drop_last() =~= json_lead(tree));
    }
}

/// The items stand one after the other with a comma between any two; a first item has one before it
/// exactly where items stand before it.
pub proof fn law_items_of_an_array(rows: Seq<Json>, row: Json)
    ensures
        json_items(seq![], true).len() == 0,
        json_items(seq![], false).len() == 0,
        json_items(seq![row], false) == json_bytes(row),
        json_items(seq![row], true) == seq![',' as u8] + json_bytes(row),
        json_items(rows + seq![row], true) == json_items(rows, true) + seq![',' as u8] + json_bytes(
            row,
        ),
        rows.len() > 0 ==> json_items(rows + seq![row], false) == json_items(rows, false)
            + seq![',' as u8] + json_bytes(row),
{
    let one = seq![row];
    assert(one.drop_last() =~= seq![]);
    assert(json_items(one.drop_last(), false) =~= seq![]);
    assert(json_items(one.drop_last(), true) =~= seq![]);
    assert(json_items(one, false) =~= json_bytes(row));
    assert(json_items(one, true) =~= seq![',' as u8] + json_bytes(row));
    law_json_batches_join(rows, one, true);
    law_json_batches_join(rows, one, false);
    assert(json_items(rows + one, true) =~= json_items(rows, true) + seq![',' as u8] + json_bytes(
        row,
    ));
    if rows.len() > 0 {
        assert(json_items(rows + one, false) =~= json_items(rows, false) + seq![',' as u8]
            + json_bytes(row));
    }
}

/// A file is an array: its items stand between brackets, nothing where there are none.
pub proof fn law_document_is_an_array(rows: Seq<Json>)
    ensures
        json_document(seq![]) == seq!['[' as u8, ']' as u8],
        json_document(rows).first() == '[' as u8,
        json_document(rows).last() == ']' as u8,
        json_document(rows).subrange(1, json_document(rows).len() - 1) == json_items(rows, false),
{
    assert(json_document(seq![]) =~= seq!['[' as u8, ']' as u8]);
    assert(json_document(rows).subrange(1, json_document(rows).len() - 1) =~= json_items(
        rows,
        false,
    ));
}

/// The pieces of some rows are the item of each, in their order, after a comma where an item stands
/// before it.
pub proof fn law_pieces_are_the_items(rows: Seq<Json>, continued: bool, i: int)
    requires
        0 <= i < rows.len(),
    ensures
        json_chunks(rows, continued).len() == rows.len(),
        i > 0 || continued ==> json_chunks(rows, continued)[i] == seq![',' as u8] + json_bytes(
            rows[i],
        ),
        i == 0 && !continued ==> json_chunks(rows, continued)[i] == json_bytes(rows[i]),
    decreases rows.len(),
{
    lemma_json_chunks(rows, continued);
    lemma_json_chunks(rows.drop_last(), continued);
    if i < rows.len() - 1 {
        law_pieces_are_the_items(rows.drop_last(), continued, i);
    } else {
        assert(Seq::<u8>::empty() + json_bytes(rows[i]) =~= json_bytes(rows[i]));
    }
}

} // verus!
