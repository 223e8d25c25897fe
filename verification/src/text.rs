//! Text as sequences of characters: trimming, decimal numbers, searching and joining.
use vstd::prelude::*;
use vstd::string::*;

verus! {

/// `String::push`: the character is appended at the end of the string.
pub assume_specification[ String::push ](text: &mut String, c: char)
    ensures
        final(text)@ == old(text)@.push(c),
;

/// Characters with the Unicode property White_Space.
pub open spec fn is_white_space(c: char) -> bool {
    let code = c as u32;
    ||| 0x09 <= code <= 0x0d
    ||| code == 0x20
    ||| code == 0x85
    ||| code == 0xa0
    ||| code == 0x1680
    ||| 0x2000 <= code <= 0x200a
    ||| code == 0x2028
    ||| code == 0x2029
    ||| code == 0x202f
    ||| code == 0x205f
    ||| code == 0x3000
}

/// The text without its leading white space.
pub open spec fn trimmed_start(s: Seq<char>) -> Seq<char>
    decreases s.len(),
{
    if s.len() > 0 && is_white_space(s.first()) {
        trimmed_start(s.drop_first())
    } else {
        s
    }
}

/// The text without its trailing white space.
pub open spec fn trimmed_end(s: Seq<char>) -> Seq<char>
    decreases s.len(),
{
    if s.len() > 0 && is_white_space(s.last()) {
        trimmed_end(s.drop_last())
    } else {
        s
    }
}

/// The text without white space at either end.
pub open spec fn trimmed(s: Seq<char>) -> Seq<char> {
    trimmed_end(trimmed_start(s))
}

/// The text without the characters `c` at its end.
pub open spec fn without_trailing(s: Seq<char>, c: char) -> Seq<char>
    decreases s.len(),
{
    if s.len() > 0 && s.last() == c {
        without_trailing(s.drop_last(), c)
    } else {
        s
    }
}

/// An ASCII letter in lower case; any other character is kept.
pub open spec fn lower_char(c: char) -> char {
    if 'A' <= c && c <= 'Z' {
        (c as u8 + 32) as u8 as char
    } else {
        c
    }
}

/// The text with its ASCII letters in lower case.
pub open spec fn lowered(s: Seq<char>) -> Seq<char> {
    s.map_values(|c: char| lower_char(c))
}

/// Whether `part` occurs in `s`.
pub open spec fn contains_text(s: Seq<char>, part: Seq<char>) -> bool {
    exists|i: int| #[trigger] occurs_at(s, part, i)
}

/// Whether `part` stands in `s` from index `i` on.
pub open spec fn occurs_at(s: Seq<char>, part: Seq<char>, i: int) -> bool {
    0 <= i && i + part.len() <= s.len() && s.subrange(i, i + part.len()) == part
}

/// The decimal digit of value `d`.
pub open spec fn digit(d: nat) -> char {
    (('0' as u8) + d) as u8 as char
}

/// The decimal digits of `n`, without leading zeros.
pub open spec fn decimal(n: nat) -> Seq<char>
    decreases n,
{
    if n < 10 {
        seq![digit(n)]
    } else {
        decimal(n / 10).push(digit(n % 10))
    }
}

/// The decimal digits of `i`, after a minus sign if it is negative.
pub open spec fn signed_decimal(i: int) -> Seq<char> {
    if i < 0 {
        seq!['-'] + decimal((-i) as nat)
    } else {
        decimal(i as nat)
    }
}

/// A text that may be there.
pub open spec fn optional_text(text: Option<String>) -> Option<Seq<char>> {
    match text {
        Some(value) => Some(value@),
        None => None,
    }
}

/// A borrowed text that may be there.
pub open spec fn optional_str(text: Option<&str>) -> Option<Seq<char>> {
    match text {
        Some(value) => Some(value@),
        None => None,
    }
}

/// Some strings as text.
pub open spec fn texts(strings: Seq<String>) -> Seq<Seq<char>> {
    strings.map_values(|string: String| string@)
}

/// The number that some decimal digits stand for.
pub open spec fn decimal_value(s: Seq<char>) -> nat
    decreases s.len(),
{
    if s.len() == 0 {
        0
    } else {
        decimal_value(s.drop_last()) * 10 + (s.last() as int - '0' as int) as nat
    }
}

/// A number can be read back from its decimal digits.
pub proof fn lemma_decimal_reads_back(n: nat)
    ensures
        decimal_value(decimal(n)) == n,
    decreases n,
{
    if n < 10 {
        assert(decimal(n).drop_last() == Seq::<char>::empty());
        assert(decimal_value(Seq::<char>::empty()) == 0);
    } else {
        lemma_decimal_reads_back(n / 10);
        assert(decimal(n).drop_last() == decimal(n / 10));
    }
}

/// The last character of a number is one of its digits.
pub proof fn lemma_decimal_ends_in_digit(n: nat)
    ensures
        decimal(n).len() > 0,
        decimal(n).last() == digit(n % 10),
{
}

/// The characters of `text`.
pub fn chars_of(text: &str) -> (r: Vec<char>)
    ensures
        r@ == text@,
{
    let mut r: Vec<char> = Vec::new();
    for c in it: text.chars()
        invariant
            r@ == it.seq().take(it.index() as int),
            it.seq() == text@,
    {
        r.push(c);
    }
    r
}

/// Whether `c` has the Unicode property White_Space.
pub fn white_space(c: char) -> (r: bool)
    ensures
        r == is_white_space(c),
{
    let code: u32 = c as u32;
    (0x09 <= code && code <= 0x0d) || code == 0x20 || code == 0x85 || code == 0xa0
        || code == 0x1680 || (0x2000 <= code && code <= 0x200a) || code == 0x2028
        || code == 0x2029 || code == 0x202f || code == 0x205f || code == 0x3000
}

/// Trimming leaves a stretch of the text: nothing but white space goes, and what stays neither
/// starts nor ends with it.
proof fn lemma_trimmed_range(s: Seq<char>, from: int, to: int)
    requires
        0 <= from <= to <= s.len(),
        forall|i: int| 0 <= i < from ==> is_white_space(s[i]),
        forall|i: int| to <= i < s.len() ==> is_white_space(s[i]),
        from < to ==> !is_white_space(s[from]) && !is_white_space(s[to - 1]),
        from == to ==> to == s.len(),
    ensures
        trimmed(s) == s.subrange(from, to),
{
    lemma_trimmed_start_range(s, from);
    let rest = s.skip(from);
    assert(rest.subrange(0, to - from) == s.subrange(from, to));
    assert forall|i: int| to - from <= i < rest.len() implies is_white_space(rest[i]) by {
        assert(rest[i] == s[from + i]);
    }
    lemma_trimmed_end_range(rest, to - from);
    assert(rest.take(to - from) == s.subrange(from, to));
}

proof fn lemma_trimmed_start_range(s: Seq<char>, from: int)
    requires
        0 <= from <= s.len(),
        forall|i: int| 0 <= i < from ==> is_white_space(s[i]),
        from < s.len() ==> !is_white_space(s[from]),
    ensures
        trimmed_start(s) == s.skip(from),
    decreases from,
{
    if from > 0 {
        assert(is_white_space(s[0]));
        assert forall|i: int| 0 <= i < from - 1 implies is_white_space(s.drop_first()[i]) by {
            assert(s.drop_first()[i] == s[i + 1]);
        }
        lemma_trimmed_start_range(s.drop_first(), from - 1);
        assert(s.drop_first().skip(from - 1) == s.skip(from));
    } else {
        assert(s.skip(0) == s);
    }
}

proof fn lemma_trimmed_end_range(s: Seq<char>, to: int)
    requires
        0 <= to <= s.len(),
        forall|i: int| to <= i < s.len() ==> is_white_space(s[i]),
        0 < to ==> !is_white_space(s[to - 1]),
    ensures
        trimmed_end(s) == s.take(to),
    decreases s.len(),
{
    if to < s.len() {
        assert(is_white_space(s.last()));
        lemma_trimmed_end_range(s.drop_last(), to);
        assert(s.drop_last().take(to) == s.take(to));
    } else {
        assert(s.take(to) == s);
    }
}

proof fn lemma_trim_start_padding(before: Seq<char>, s: Seq<char>)
    requires
        forall|i: int| 0 <= i < before.len() ==> is_white_space(#[trigger] before[i]),
    ensures
        trimmed_start(before + s) == trimmed_start(s),
    decreases before.len(),
{
    if before.len() > 0 {
        assert(is_white_space(before[0]));
        assert((before + s).drop_first() == before.drop_first() + s);
        lemma_trim_start_padding(before.drop_first(), s);
    } else {
        assert(before + s == s);
    }
}

proof fn lemma_trim_end_padding(s: Seq<char>, after: Seq<char>)
    requires
        forall|i: int| 0 <= i < after.len() ==> is_white_space(#[trigger] after[i]),
    ensures
        trimmed_end(s + after) == trimmed_end(s),
    decreases after.len(),
{
    if after.len() > 0 {
        assert(is_white_space(after[after.len() - 1]));
        assert((s + after).drop_last() == s + after.drop_last());
        lemma_trim_end_padding(s, after.drop_last());
    } else {
        assert(s + after == s);
    }
}

proof fn lemma_trim_after(s: Seq<char>, after: Seq<char>)
    requires
        forall|i: int| 0 <= i < after.len() ==> is_white_space(#[trigger] after[i]),
    ensures
        trimmed(s + after) == trimmed(s),
    decreases s.len(),
{
    if s.len() == 0 {
        assert(s + after == after + s);
        lemma_trim_start_padding(after, s);
    } else if is_white_space(s.first()) {
        assert((s + after).drop_first() == s.drop_first() + after);
        lemma_trim_after(s.drop_first(), after);
    } else {
        assert((s + after).first() == s.first());
        lemma_trim_end_padding(s, after);
    }
}

/// White space around a text is trimmed away.
pub proof fn lemma_trim_padding(before: Seq<char>, s: Seq<char>, after: Seq<char>)
    requires
        forall|i: int| 0 <= i < before.len() ==> is_white_space(#[trigger] before[i]),
        forall|i: int| 0 <= i < after.len() ==> is_white_space(#[trigger] after[i]),
    ensures
        trimmed(before + s + after) == trimmed(s),
{
    assert(before + s + after == before + (s + after));
    lemma_trim_start_padding(before, s + after);
    lemma_trim_after(s, after);
}

/// The text without white space at either end, as `str::trim` has it.
pub fn trim(text: &str) -> (r: &str)
    ensures
        r@ == trimmed(text@),
{
    let chars: Vec<char> = chars_of(text);
    let mut from: usize = 0;
    while from < chars.len() && white_space(chars[from])
        invariant
            0 <= from <= chars.len(),
            forall|i: int| 0 <= i < from ==> is_white_space(chars@[i]),
        ensures
            0 <= from <= chars.len(),
            forall|i: int| 0 <= i < from ==> is_white_space(chars@[i]),
            from < chars.len() ==> !is_white_space(chars@[from as int]),
        decreases chars.len() - from,
    {
        from = from + 1;
    }
    let mut to: usize = chars.len();
    while from < to && white_space(chars[to - 1])
        invariant
            0 <= from <= to <= chars.len(),
            from < chars.len() ==> !is_white_space(chars@[from as int]),
            forall|i: int| to <= i < chars.len() ==> is_white_space(chars@[i]),
        ensures
            0 <= from <= to <= chars.len(),
            forall|i: int| to <= i < chars.len() ==> is_white_space(chars@[i]),
            from < to ==> !is_white_space(chars@[to - 1]),
            from == to ==> to == chars.len(),
        decreases to,
    {
        to = to - 1;
    }
    proof {
        lemma_trimmed_range(text@, from as int, to as int);
    }
    text.substring_char(from, to)
}

/// The text without the characters `c` at its end.
pub fn trim_end_matches(text: &str, c: char) -> (r: &str)
    ensures
        r@ == without_trailing(text@, c),
{
    let chars: Vec<char> = chars_of(text);
    let mut to: usize = chars.len();
    assert(text@.take(to as int) == text@);
    while 0 < to && chars[to - 1] == c
        invariant
            0 <= to <= chars.len(),
            chars@ == text@,
            without_trailing(text@, c) == without_trailing(text@.take(to as int), c),
        ensures
            0 <= to <= chars.len(),
            without_trailing(text@, c) == text@.take(to as int),
        decreases to,
    {
        assert(text@.take(to as int).drop_last() == text@.take(to - 1));
        to = to - 1;
    }
    text.substring_char(0, to)
}

/// The text with its ASCII letters in lower case.
pub fn ascii_lowercase(text: &str) -> (r: String)
    ensures
        r@ == lowered(text@),
{
    let mut r: String = String::new();
    for c in it: text.chars()
        invariant
            r@ == lowered(it.seq().take(it.index() as int)),
            it.seq() == text@,
    {
        let lower: char = if 'A' <= c && c <= 'Z' {
            (c as u8 + 32) as char
        } else {
            c
        };
        proof {
            let before = it.seq().take(it.index() as int);
            assert(it.seq().take(it.index() + 1) == before.push(c));
            assert(lowered(before.push(c)) == lowered(before).push(lower_char(c)));
        }
        r.push(lower);
    }
    assert(text@.take(text@.len() as int) == text@);
    r
}

/// Whether the two texts are the same.
pub fn same_text(a: &str, b: &str) -> (r: bool)
    ensures
        r == (a@ == b@),
{
    let left: Vec<char> = chars_of(a);
    let right: Vec<char> = chars_of(b);
    if left.len() != right.len() {
        return false;
    }
    let mut i: usize = 0;
    while i < left.len()
        invariant
            0 <= i <= left.len(),
            left.len() == right.len(),
            left@ == a@,
            right@ == b@,
            forall|j: int| 0 <= j < i ==> left@[j] == right@[j],
        decreases left.len() - i,
    {
        if left[i] != right[i] {
            return false;
        }
        i = i + 1;
    }
    assert(a@ =~= b@);
    true
}

/// Whether `part` occurs in `text`.
pub fn contains(text: &str, part: &str) -> (r: bool)
    ensures
        r == contains_text(text@, part@),
{
    let chars: Vec<char> = chars_of(text);
    let wanted: Vec<char> = chars_of(part);
    if wanted.len() > chars.len() {
        return false;
    }
    let last: usize = chars.len() - wanted.len();
    let mut start: usize = 0;
    loop
        invariant
            last == chars.len() - wanted.len(),
            start <= last,
            chars@ == text@,
            wanted@ == part@,
            forall|i: int| 0 <= i < start ==> !occurs_at(text@, part@, i),
        decreases last - start,
    {
        let mut matched: usize = 0;
        while matched < wanted.len() && chars[start + matched] == wanted[matched]
            invariant
                matched <= wanted.len(),
                start + wanted.len() <= chars.len(),
                forall|j: int| 0 <= j < matched ==> chars@[start + j] == wanted@[j],
            ensures
                matched <= wanted.len(),
                forall|j: int| 0 <= j < matched ==> chars@[start + j] == wanted@[j],
                matched < wanted.len() ==> chars@[start + matched] != wanted@[matched as int],
            decreases wanted.len() - matched,
        {
            matched = matched + 1;
        }
        if matched == wanted.len() {
            assert(text@.subrange(start as int, start + part@.len()) =~= part@);
            assert(occurs_at(text@, part@, start as int));
            return true;
        }
        assert(!occurs_at(text@, part@, start as int)) by {
            assert(text@.subrange(start as int, start + part@.len())[matched as int]
                == chars@[start + matched]);
        }
        if start == last {
            return false;
        }
        start = start + 1;
    }
}

/// The decimal digits of `n`.
pub fn decimal_text(n: u128) -> (r: String)
    ensures
        r@ == decimal(n as nat),
{
    let mut r: String = String::new();
    push_decimal(&mut r, n);
    assert(Seq::<char>::empty() + decimal(n as nat) == decimal(n as nat));
    r
}

fn push_decimal(out: &mut String, n: u128)
    ensures
        final(out)@ == old(out)@ + decimal(n as nat),
    decreases n,
{
    if n >= 10 {
        push_decimal(out, n / 10);
    }
    let d: u8 = (n % 10) as u8;
    out.push(('0' as u8 + d) as char);
    assert(out@ == old(out)@ + decimal(n as nat));
}

/// The decimal digits of `i`, after a minus sign if it is negative.
pub fn signed_decimal_text(i: i128) -> (r: String)
    ensures
        r@ == signed_decimal(i as int),
{
    if i < 0 {
        let magnitude: u128 = (-(i + 1)) as u128 + 1;
        let mut r: String = String::new();
        r.push('-');
        push_decimal(&mut r, magnitude);
        assert(Seq::<char>::empty().push('-') == seq!['-']);
        r
    } else {
        decimal_text(i as u128)
    }
}

/// Trimming takes white space off both ends and nothing else: what is left stands in the text as
/// it was, and neither starts nor ends with white space.
pub proof fn law_trim_takes_white_space_off_the_ends(s: Seq<char>)
    ensures
        exists|from: int, to: int|
            #![trigger s.subrange(from, to)]
            0 <= from <= to <= s.len() && trimmed(s) == s.subrange(from, to) && (forall|i: int|
                0 <= i < from ==> is_white_space(#[trigger] s[i])) && (forall|i: int|
                to <= i < s.len() ==> is_white_space(#[trigger] s[i])) && (from < to
                ==> !is_white_space(s[from]) && !is_white_space(s[to - 1])),
{
    let from = lemma_start_of_text(s);
    let rest = s.skip(from);
    let length = lemma_end_of_text(rest);
    let to = from + length;
    assert(rest.take(length) =~= s.subrange(from, to));
    assert forall|i: int| to <= i < s.len() implies is_white_space(#[trigger] s[i]) by {
        assert(rest[i - from] == s[i]);
    }
    if from < to {
        assert(rest[length - 1] == s[to - 1]);
        if length > 0 {
            assert(rest[0] == s[from]);
        }
    }
    assert(trimmed(s) == s.subrange(from, to));
}

proof fn lemma_start_of_text(s: Seq<char>) -> (from: int)
    ensures
        0 <= from <= s.len(),
        trimmed_start(s) == s.skip(from),
        forall|i: int| 0 <= i < from ==> is_white_space(#[trigger] s[i]),
        from < s.len() ==> !is_white_space(s[from]),
    decreases s.len(),
{
    if s.len() > 0 && is_white_space(s.first()) {
        let rest = s.drop_first();
        let from = lemma_start_of_text(rest);
        assert(rest.skip(from) =~= s.skip(from + 1));
        assert forall|i: int| 0 <= i < from + 1 implies is_white_space(#[trigger] s[i]) by {
            if i > 0 {
                assert(rest[i - 1] == s[i]);
            }
        }
        if from + 1 < s.len() {
            assert(rest[from] == s[from + 1]);
        }
        from + 1
    } else {
        assert(s.skip(0) =~= s);
        0
    }
}

proof fn lemma_end_of_text(s: Seq<char>) -> (to: int)
    ensures
        0 <= to <= s.len(),
        trimmed_end(s) == s.take(to),
        forall|i: int| to <= i < s.len() ==> is_white_space(#[trigger] s[i]),
        to > 0 ==> !is_white_space(s[to - 1]),
    decreases s.len(),
{
    if s.len() > 0 && is_white_space(s.last()) {
        let to = lemma_end_of_text(s.drop_last());
        assert(s.drop_last().take(to) =~= s.take(to));
        assert forall|i: int| to <= i < s.len() implies is_white_space(#[trigger] s[i]) by {
            if i < s.len() - 1 {
                assert(s.drop_last()[i] == s[i]);
            }
        }
        to
    } else {
        assert(s.take(s.len() as int) =~= s);
        s.len() as int
    }
}

/// A text without white space at its ends is left as it is.
pub proof fn law_trimmed_text_stays(s: Seq<char>)
    requires
        s.len() > 0 ==> !is_white_space(s.first()) && !is_white_space(s.last()),
    ensures
        trimmed(s) == s,
{
}

/// Of a text only the characters `c` at its end are taken off, and all of them.
pub proof fn law_only_trailing_characters_go(s: Seq<char>, c: char)
    ensures
        exists|n: int|
            #![trigger s.take(n)]
            0 <= n <= s.len() && without_trailing(s, c) == s.take(n) && (forall|i: int|
                n <= i < s.len() ==> #[trigger] s[i] == c) && (n > 0 ==> s[n - 1] != c),
    decreases s.len(),
{
    if s.len() > 0 && s.last() == c {
        let part = s.drop_last();
        law_only_trailing_characters_go(part, c);
        let n = choose|n: int|
            #![trigger part.take(n)]
            0 <= n <= part.len() && without_trailing(part, c) == part.take(n) && (forall|i: int|
                n <= i < part.len() ==> #[trigger] part[i] == c) && (n > 0 ==> part[n - 1] != c);
        assert(part.take(n) =~= s.take(n));
        assert forall|i: int| n <= i < s.len() implies #[trigger] s[i] == c by {
            if i < part.len() {
                assert(part[i] == s[i]);
            }
        }
    } else {
        assert(s.take(s.len() as int) =~= s);
    }
}

/// In lower case a text keeps its length; the letters `A` to `Z` become `a` to `z`, and every
/// other character stays.
pub proof fn law_only_ascii_letters_change(s: Seq<char>, i: int)
    requires
        0 <= i < s.len(),
    ensures
        lowered(s).len() == s.len(),
        65 <= s[i] as int <= 90 ==> lowered(s)[i] as int == s[i] as int + 32,
        !(65 <= s[i] as int <= 90) ==> lowered(s)[i] == s[i],
{
}

/// A text contains a part exactly where it is something, the part, and something.
pub proof fn law_contained_part_stands_between(s: Seq<char>, part: Seq<char>)
    ensures
        contains_text(s, part) <==> exists|before: Seq<char>, after: Seq<char>|
            s == #[trigger] (before + part + after),
{
    if contains_text(s, part) {
        let i = choose|i: int| #[trigger] occurs_at(s, part, i);
        let before = s.take(i);
        let after = s.skip(i + part.len());
        assert(s =~= before + part + after);
    }
    if exists|before: Seq<char>, after: Seq<char>| s == #[trigger] (before + part + after) {
        let (before, after) = choose|before: Seq<char>, after: Seq<char>|
            s == #[trigger] (before + part + after);
        assert(s.subrange(before.len() as int, (before.len() + part.len()) as int) =~= part);
        assert(occurs_at(s, part, before.len() as int));
    }
}

/// A number is written in the digits `0` to `9`, without a zero at its head unless it is zero, and
/// a further digit makes it ten times as large and adds the digit.
pub proof fn law_decimal_digits(n: nat, d: nat)
    requires
        d < 10,
    ensures
        forall|i: int|
            0 <= i < decimal(n).len() ==> 48 <= #[trigger] decimal(n)[i] as int
                && decimal(n)[i] as int <= 57,
        n > 0 ==> decimal(n)[0] as int != 48,
        decimal(n).len() > 0,
        decimal(d).len() == 1 && decimal(d)[0] as int == 48 + d,
        n > 0 ==> decimal(10 * n + d) == decimal(n) + decimal(d),
    decreases n,
{
    if n >= 10 {
        law_decimal_digits(n / 10, d);
    }
    if n > 0 {
        assert((10 * n + d) / 10 == n && (10 * n + d) % 10 == d);
        assert(decimal(n).push(digit(d)) =~= decimal(n) + decimal(d));
    }
}

/// The value of some digits grows tenfold with each further digit.
pub proof fn law_value_of_digits(s: Seq<char>, c: char)
    requires
        48 <= c as int <= 57,
    ensures
        decimal_value(seq![]) == 0,
        decimal_value(s.push(c)) == 10 * decimal_value(s) + (c as int - 48),
{
    assert(s.push(c).drop_last() =~= s);
}

/// An integer is written as its magnitude, after a minus sign exactly if it is negative.
pub proof fn law_sign_of_a_number(n: nat)
    ensures
        signed_decimal(n as int) == decimal(n),
        n > 0 ==> signed_decimal(-(n as int)).len() == decimal(n).len() + 1,
        n > 0 ==> signed_decimal(-(n as int))[0] == '-',
        n > 0 ==> signed_decimal(-(n as int)).skip(1) == decimal(n),
{
    if n > 0 {
        assert(signed_decimal(-(n as int)).skip(1) =~= decimal(n));
    }
}

/// Different integers are written differently.
pub proof fn law_different_numbers_differ(i: int, j: int)
    requires
        signed_decimal(i) == signed_decimal(j),
    ensures
        i == j,
{
    let m = if i < 0 {
        (-i) as nat
    } else {
        i as nat
    };
    let n = if j < 0 {
        (-j) as nat
    } else {
        j as nat
    };
    law_decimal_digits(m, 0);
    law_decimal_digits(n, 0);
    lemma_decimal_reads_back(m);
    lemma_decimal_reads_back(n);
    assert(decimal(m)[0] as int >= 48 && decimal(n)[0] as int >= 48);
    assert('-' as int == 45);
    if i < 0 {
        assert(signed_decimal(i)[0] == '-');
        assert(signed_decimal(i).skip(1) =~= decimal(m));
    }
    if j < 0 {
        assert(signed_decimal(j)[0] == '-');
        assert(signed_decimal(j).skip(1) =~= decimal(n));
    }
}

/// The text of a string that is there is that of the string.
pub proof fn law_text_of_a_string(string: String, strings: Seq<String>, i: int)
    requires
        0 <= i < strings.len(),
    ensures
        optional_text(Some(string)) == Some(string@),
        optional_text(None) is None,
        texts(strings).len() == strings.len(),
        texts(strings)[i] == strings[i]@,
{
}

/// The text of a borrowed string that is there is that of the string.
pub proof fn law_text_of_a_str(string: &str)
    ensures
        optional_str(Some(string)) == Some(string@),
        optional_str(None) is None,
{
}

/// The white space is that of Unicode: five control characters and the space, the next line, the
/// spaces that are wider, narrower or do not break, and the ends of lines and paragraphs.
pub proof fn law_white_space(c: char)
    ensures
        is_white_space(c) <==> c == '\t' || c == '\n' || c == '\u{b}' || c == '\u{c}' || c == '\r'
            || c == ' ' || c == '\u{85}' || c == '\u{a0}' || c == '\u{1680}' || (0x2000 <= c as int
            <= 0x200a) || c == '\u{2028}' || c == '\u{2029}' || c == '\u{202f}' || c == '\u{205f}'
            || c == '\u{3000}',
{
}

} // verus!
