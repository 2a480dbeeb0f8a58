//! A JSON document model: values parsed by `serde_json`, field lookups,
//! integer reads, and compact JSON text.
use vstd::prelude::*;
use crate::text;
use crate::text::{chars_of, concat, concat_str, string_of, eq_str};

verus! {

/// A JSON value.  Numbers keep the text that `serde_json` prints for them, so
/// integers read back exactly and fractions keep their `.`/`e` form.
#[derive(Debug, PartialEq, Eq)]
pub enum Json {
    Null,
    Bool(bool),
    Number(String),
    Str(String),
    Array(Vec<Json>),
    /// Members in order; a parsed object never repeats a name.
    Object(Vec<(String, Json)>),
}

// ---------------------------------------------------------------------------
// Parsing through serde_json
// ---------------------------------------------------------------------------

#[verifier::external_type_specification]
#[verifier::external_body]
pub struct ExJsonValue(serde_json::Value);

/// The document `serde_json::from_str::<serde_json::Value>` reads from a text,
/// or `None` when it rejects the text.
pub uninterp spec fn json_parse(text: Seq<char>) -> Option<Json>;

/// Converts a `serde_json::Value` into a [`Json`] one for one: each variant to
/// the variant of the same name, numbers to their `Display` text, arrays and
/// objects member by member in the order serde_json keeps them.
#[verifier::external_body]
fn json_from_serde(v: serde_json::Value) -> Json {
    match v {
        serde_json::Value::Null => Json::Null,
        serde_json::Value::Bool(b) => Json::Bool(b),
        serde_json::Value::Number(n) => Json::Number(n.to_string()),
        serde_json::Value::String(s) => Json::Str(s),
        serde_json::Value::Array(a) => Json::Array(a.into_iter().map(json_from_serde).collect()),
        serde_json::Value::Object(m) => Json::Object(
            m.into_iter().map(|(k, v)| (k, json_from_serde(v))).collect(),
        ),
    }
}

/// `serde_json::from_str::<serde_json::Value>`: parses a JSON document.  Its
/// result is named by [`json_parse`]; nothing else is claimed of it.
#[verifier::external_body]
pub(crate) fn parse_json(text: &str) -> (res: Option<Json>)
    ensures
        res == json_parse(text@),
{
    serde_json::from_str::<serde_json::Value>(text).ok().map(json_from_serde)
}

// ---------------------------------------------------------------------------
// Field access
// ---------------------------------------------------------------------------

/// Index of the first member named `key`.
pub open spec fn field_index(fields: Seq<(String, Json)>, key: Seq<char>) -> Option<int>
    decreases fields.len(),
{
    if fields.len() == 0 {
        None
    } else {
        match field_index(fields.drop_last(), key) {
            Some(i) => Some(i),
            None => if fields.last().0@ == key {
                Some(fields.len() - 1)
            } else {
                None
            },
        }
    }
}

proof fn lemma_field_index_first(fields: Seq<(String, Json)>, key: Seq<char>, i: int)
    requires
        0 <= i < fields.len(),
        fields[i].0@ == key,
        forall|j: int| 0 <= j < i ==> fields[j].0@ != key,
    ensures
        field_index(fields, key) == Some(i),
    decreases fields.len(),
{
    if i < fields.len() - 1 {
        let init = fields.drop_last();
        assert forall|j: int| 0 <= j < i implies init[j].0@ != key by {
            assert(init[j] == fields[j]);
        }
        assert(init[i] == fields[i]);
        lemma_field_index_first(init, key, i);
    } else {
        lemma_field_index_absent(fields.drop_last(), key);
    }
}

proof fn lemma_field_index_absent(fields: Seq<(String, Json)>, key: Seq<char>)
    requires
        forall|j: int| 0 <= j < fields.len() ==> fields[j].0@ != key,
    ensures
        field_index(fields, key) is None,
    decreases fields.len(),
{
    if fields.len() > 0 {
        let init = fields.drop_last();
        assert forall|j: int| 0 <= j < init.len() implies init[j].0@ != key by {
            assert(init[j] == fields[j]);
        }
        lemma_field_index_absent(init, key);
        assert(fields.last() == fields[fields.len() - 1]);
    }
}

/// The member `key` of an object (as `serde_json::Value::get` with a name);
/// `None` for other values.
pub open spec fn json_get(j: Json, key: Seq<char>) -> Option<Json> {
    match j {
        Json::Object(fields) => match field_index(fields@, key) {
            Some(i) => Some(fields@[i].1),
            None => None,
        },
        _ => None,
    }
}

/// The text of a string value.
pub open spec fn json_str(j: Json) -> Option<Seq<char>> {
    match j {
        Json::Str(s) => Some(s@),
        _ => None,
    }
}

/// The string member `key` of an object, if it is present and a string.
pub open spec fn get_str_spec(j: Json, key: Seq<char>) -> Option<Seq<char>> {
    match json_get(j, key) {
        Some(v) => json_str(v),
        None => None,
    }
}

/// Position of the first member named `key`.
pub fn find_member(fields: &Vec<(String, Json)>, key: &str) -> (res: Option<usize>)
    ensures
        match res {
            Some(i) => field_index(fields@, key@) == Some(i as int) && i < fields@.len(),
            None => field_index(fields@, key@) is None,
        },
{
    let mut i: usize = 0;
    while i < fields.len()
        invariant
            i <= fields.len(),
            forall|j: int| 0 <= j < i ==> fields@[j].0@ != key@,
        decreases fields.len() - i,
    {
        let name = chars_of(fields[i].0.as_str());
        if eq_str(&name, key) {
            proof {
                lemma_field_index_first(fields@, key@, i as int);
            }
            return Some(i);
        }
        i = i + 1;
    }
    proof {
        lemma_field_index_absent(fields@, key@);
    }
    None
}

impl Json {
    /// The member `key` of an object.
    pub fn get(&self, key: &str) -> (res: Option<&Json>)
        ensures
            match res {
                Some(v) => json_get(*self, key@) == Some(*v),
                None => json_get(*self, key@) is None,
            },
    {
        match self {
            Json::Object(fields) => match find_member(fields, key) {
                Some(i) => Some(&fields[i].1),
                None => None,
            },
            _ => None,
        }
    }

    /// The text of a string value.
    pub fn as_str(&self) -> (res: Option<&str>)
        ensures
            match res {
                Some(s) => json_str(*self) == Some(s@),
                None => json_str(*self) is None,
            },
    {
        match self {
            Json::Str(s) => Some(s.as_str()),
            _ => None,
        }
    }

    /// The string member `key`, if present and a string.
    pub fn get_str(&self, key: &str) -> (res: Option<&str>)
        ensures
            match res {
                Some(s) => get_str_spec(*self, key@) == Some(s@),
                None => get_str_spec(*self, key@) is None,
            },
    {
        match self.get(key) {
            Some(v) => v.as_str(),
            None => None,
        }
    }

    /// The integer value of a number that fits in an `i64` (as `serde_json`'s
    /// `as_i64`); `None` for fractions, out-of-range numbers and other values.
    pub fn as_i64(&self) -> (res: Option<i64>)
        ensures
            match res {
                Some(n) => json_i64(*self) == Some(n as int),
                None => json_i64(*self) is None,
            },
    {
        match self {
            Json::Number(t) => {
                let c = chars_of(t.as_str());
                parse_i64_text(&c)
            },
            _ => None,
        }
    }

    /// The integer member `key`, if present and an `i64`.
    pub fn get_i64(&self, key: &str) -> (res: Option<i64>)
        ensures
            match res {
                Some(n) => get_i64_spec(*self, key@) == Some(n as int),
                None => get_i64_spec(*self, key@) is None,
            },
    {
        match self.get(key) {
            Some(v) => v.as_i64(),
            None => None,
        }
    }
}

// ---------------------------------------------------------------------------
// Integers
// ---------------------------------------------------------------------------

/// The value of a decimal digit character.
pub open spec fn digit_value(c: char) -> int {
    (c as u32) - ('0' as u32)
}

/// The character is a decimal digit.
pub open spec fn is_digit(c: char) -> bool {
    '0' <= c && c <= '9'
}

/// The value of a string of decimal digits.
pub open spec fn digits_value(s: Seq<char>) -> int
    decreases s.len(),
{
    if s.len() == 0 {
        0
    } else {
        digits_value(s.drop_last()) * 10 + digit_value(s.last())
    }
}

/// All characters are decimal digits, and there is at least one.
pub open spec fn all_digits(s: Seq<char>) -> bool {
    s.len() > 0 && forall|i: int| 0 <= i < s.len() ==> is_digit(#[trigger] s[i])
}

/// The integer an integer-literal text denotes: digits with an optional leading `-`.
pub open spec fn integer_text_value(t: Seq<char>) -> Option<int> {
    if t.len() > 0 && t[0] == '-' && all_digits(t.drop_first()) {
        Some(-digits_value(t.drop_first()))
    } else if all_digits(t) {
        Some(digits_value(t))
    } else {
        None
    }
}

/// The `i64` value of a number, when it is an integer in range.
pub open spec fn json_i64(j: Json) -> Option<int> {
    match j {
        Json::Number(t) => match integer_text_value(t@) {
            Some(v) => if i64::MIN <= v <= i64::MAX {
                Some(v)
            } else {
                None
            },
            None => None,
        },
        _ => None,
    }
}

/// The integer member `key`, if present and an `i64`.
pub open spec fn get_i64_spec(j: Json, key: Seq<char>) -> Option<int> {
    match json_get(j, key) {
        Some(v) => json_i64(v),
        None => None,
    }
}

proof fn lemma_digits_nonneg(s: Seq<char>)
    requires
        forall|i: int| 0 <= i < s.len() ==> is_digit(#[trigger] s[i]),
    ensures
        digits_value(s) >= 0,
    decreases s.len(),
{
    if s.len() > 0 {
        assert forall|i: int| 0 <= i < s.drop_last().len() implies is_digit(
            #[trigger] s.drop_last()[i],
        ) by {
            assert(s.drop_last()[i] == s[i]);
        }
        lemma_digits_nonneg(s.drop_last());
    }
}

/// Reads the digits of `s` from position `from`: `Some` when all are digits
/// and the value is at most `2^63`.
fn digits_upto_2_63(s: &Vec<char>, from: usize) -> (res: Option<u64>)
    requires
        from <= s.len(),
    ensures
        match res {
            Some(v) => all_digits(s@.skip(from as int)) && v == digits_value(s@.skip(from as int))
                && v <= 9223372036854775808u64,
            None => !all_digits(s@.skip(from as int)) || digits_value(s@.skip(from as int))
                > 9223372036854775808u64,
        },
{
    let ghost t = s@.skip(from as int);
    if from == s.len() {
        return None;
    }
    let bound: u128 = 9223372036854775808u128;
    let mut acc: u128 = 0;
    let mut big = false;
    let mut i: usize = from;
    proof {
        assert(s@.subrange(from as int, from as int) =~= Seq::<char>::empty());
    }
    while i < s.len()
        invariant
            from <= i <= s.len(),
            t == s@.skip(from as int),
            forall|k: int| from <= k < i ==> is_digit(#[trigger] s@[k]),
            !big ==> acc == digits_value(s@.subrange(from as int, i as int)) && acc <= bound,
            big ==> digits_value(s@.subrange(from as int, i as int)) > bound,
            bound == 9223372036854775808u128,
        decreases s.len() - i,
    {
        let c = s[i];
        if !('0' <= c && c <= '9') {
            proof {
                assert(t[i - from] == c);
            }
            return None;
        }
        let d: u128 = ((c as u32) - ('0' as u32)) as u128;
        proof {
            let pre = s@.subrange(from as int, i as int);
            let post = s@.subrange(from as int, i + 1);
            assert(post.drop_last() =~= pre);
            assert(post.last() == c);
            assert forall|k: int| 0 <= k < pre.len() implies is_digit(#[trigger] pre[k]) by {
                assert(pre[k] == s@[from + k]);
            }
            lemma_digits_nonneg(pre);
        }
        if !big {
            acc = acc * 10 + d;
            if acc > bound {
                big = true;
            }
        }
        i = i + 1;
    }
    proof {
        assert(s@.subrange(from as int, s.len() as int) =~= t);
        assert forall|k: int| 0 <= k < t.len() implies is_digit(#[trigger] t[k]) by {
            assert(t[k] == s@[from + k]);
        }
    }
    if big {
        None
    } else {
        Some(acc as u64)
    }
}

/// Reads an integer literal that fits in an `i64`.
pub fn parse_i64_text(s: &Vec<char>) -> (res: Option<i64>)
    ensures
        match res {
            Some(n) => integer_text_value(s@) == Some(n as int),
            None => match integer_text_value(s@) {
                Some(v) => v < i64::MIN || v > i64::MAX,
                None => true,
            },
        },
{
    proof {
        assert(s@.skip(0) =~= s@);
        assert(s@.skip(1) =~= s@.drop_first());
    }
    if s.len() > 0 && s[0] == '-' {
        match digits_upto_2_63(s, 1) {
            Some(v) => {
                if v == 9223372036854775808u64 {
                    Some(i64::MIN)
                } else {
                    Some(-(v as i64))
                }
            },
            None => {
                proof {
                    if all_digits(s@) {
                        assert(is_digit(s@[0]));
                    }
                }
                None
            },
        }
    } else {
        match digits_upto_2_63(s, 0) {
            Some(v) => {
                if v <= 9223372036854775807u64 {
                    Some(v as i64)
                } else {
                    None
                }
            },
            None => None,
        }
    }
}

// ---------------------------------------------------------------------------
// Compact JSON text
// ---------------------------------------------------------------------------

/// The JSON string literal `serde_json` writes for a text: the text in
/// double quotes, with quotes, backslashes and control characters escaped.
pub uninterp spec fn json_quoted(s: Seq<char>) -> Seq<char>;

/// `serde_json::to_string` of a string slice: its JSON string literal, named
/// by [`json_quoted`].  Writing a string into memory cannot fail.
#[verifier::external_body]
fn json_string_literal(s: &str) -> (res: String)
    ensures
        res@ == json_quoted(s@),
{
    serde_json::to_string(s).unwrap_or_default()
}

/// Compact JSON text of a value (no spaces, as `serde_json::to_string`).
pub open spec fn json_text(j: Json) -> Seq<char>
    decreases j,
{
    match j {
        Json::Null => "null"@,
        Json::Bool(b) => if b {
            "true"@
        } else {
            "false"@
        },
        Json::Number(t) => t@,
        Json::Str(s) => json_quoted(s@),
        Json::Array(items) => seq!['['] + items_text(items@) + seq![']'],
        Json::Object(fields) => seq!['{'] + fields_text(fields@) + seq!['}'],
    }
}

/// Comma-separated texts of array items.
pub open spec fn items_text(items: Seq<Json>) -> Seq<char>
    decreases items,
{
    if items.len() == 0 {
        Seq::empty()
    } else if items.len() == 1 {
        json_text(items[0])
    } else {
        items_text(items.drop_last()) + seq![','] + json_text(items.last())
    }
}

/// Comma-separated `"name":value` texts of object members.
pub open spec fn fields_text(fields: Seq<(String, Json)>) -> Seq<char>
    decreases fields,
{
    if fields.len() == 0 {
        Seq::empty()
    } else if fields.len() == 1 {
        json_quoted(fields[0].0@) + seq![':'] + json_text(fields[0].1)
    } else {
        fields_text(fields.drop_last()) + seq![','] + json_quoted(fields.last().0@) + seq![':']
            + json_text(fields.last().1)
    }
}

fn push_quoted(out: &mut Vec<char>, s: &str)
    ensures
        final(out)@ == old(out)@ + json_quoted(s@),
{
    let q = json_string_literal(s);
    push_str(out, q.as_str());
}

fn push_str(out: &mut Vec<char>, s: &str)
    ensures
        final(out)@ == old(out)@ + s@,
{
    let cs = chars_of(s);
    let mut i: usize = 0;
    let ghost start = out@;
    while i < cs.len()
        invariant
            i <= cs.len(),
            out@ == start + cs@.take(i as int),
        decreases cs.len() - i,
    {
        out.push(cs[i]);
        proof {
            assert(cs@.take(i + 1) =~= cs@.take(i as int).push(cs@[i as int]));
            assert(out@ =~= start + cs@.take(i + 1));
        }
        i = i + 1;
    }
    proof {
        assert(cs@.take(cs.len() as int) =~= cs@);
    }
}

proof fn lemma_item_smaller(j: Json, i: int)
    requires
        j is Array,
        0 <= i < j->Array_0@.len(),
    ensures
        decreases_to!(j => j->Array_0@[i]),
{
    let v = j->Array_0;
    assert(decreases_to!(j => v));
    assert(decreases_to!(v => v@));
    assert(decreases_to!(v@ => v@[i]));
}

proof fn lemma_member_smaller(j: Json, i: int)
    requires
        j is Object,
        0 <= i < j->Object_0@.len(),
    ensures
        decreases_to!(j => j->Object_0@[i].1),
{
    let v = j->Object_0;
    assert(decreases_to!(j => v));
    assert(decreases_to!(v => v@));
    assert(decreases_to!(v@ => v@[i]));
    assert(decreases_to!(v@[i] => v@[i].1));
}

fn write_json(j: &Json, out: &mut Vec<char>)
    ensures
        final(out)@ == old(out)@ + json_text(*j),
    decreases j,
{
    let ghost start = out@;
    match j {
        Json::Null => push_str(out, "null"),
        Json::Bool(b) => if *b {
            push_str(out, "true")
        } else {
            push_str(out, "false")
        },
        Json::Number(t) => push_str(out, t.as_str()),
        Json::Str(s) => push_quoted(out, s.as_str()),
        Json::Array(items) => {
            out.push('[');
            let mut i: usize = 0;
            while i < items.len()
                invariant
                    i <= items.len(),
                    *j == Json::Array(*items),
                    out@ == start + seq!['['] + items_text(items@.take(i as int)),
                decreases items.len() - i,
            {
                let ghost before = out@;
                if i > 0 {
                    out.push(',');
                }
                proof {
                    lemma_item_smaller(*j, i as int);
                }
                write_json(&items[i], out);
                proof {
                    let t = items@.take(i + 1);
                    assert(t.drop_last() =~= items@.take(i as int));
                    assert(t.last() == items@[i as int]);
                    if i == 0 {
                        assert(t.len() == 1);
                    }
                    assert(out@ =~= start + seq!['['] + items_text(t));
                }
                i = i + 1;
            }
            out.push(']');
            proof {
                assert(items@.take(items.len() as int) =~= items@);
                assert(out@ =~= start + json_text(*j));
            }
        },
        Json::Object(fields) => {
            out.push('{');
            let mut i: usize = 0;
            while i < fields.len()
                invariant
                    i <= fields.len(),
                    *j == Json::Object(*fields),
                    out@ == start + seq!['{'] + fields_text(fields@.take(i as int)),
                decreases fields.len() - i,
            {
                if i > 0 {
                    out.push(',');
                }
                push_quoted(out, fields[i].0.as_str());
                out.push(':');
                proof {
                    lemma_member_smaller(*j, i as int);
                }
                write_json(&fields[i].1, out);
                proof {
                    let t = fields@.take(i + 1);
                    assert(t.drop_last() =~= fields@.take(i as int));
                    assert(t.last() == fields@[i as int]);
                    if i == 0 {
                        assert(t.len() == 1);
                    }
                    assert(out@ =~= start + seq!['{'] + fields_text(t));
                }
                i = i + 1;
            }
            out.push('}');
            proof {
                assert(fields@.take(fields.len() as int) =~= fields@);
                assert(out@ =~= start + json_text(*j));
            }
        },
    }
}

impl Json {
    /// Compact JSON text of the value.
    pub fn to_json_string(&self) -> (res: String)
        ensures
            res@ == json_text(*self),
    {
        let mut out: Vec<char> = Vec::new();
        write_json(self, &mut out);
        proof {
            assert(out@ =~= json_text(*self));
        }
        string_of(&out)
    }
}

// ---------------------------------------------------------------------------
// Lists of strings
// ---------------------------------------------------------------------------

/// The texts of a list of strings.
pub open spec fn string_views(v: Seq<String>) -> Seq<Seq<char>> {
    Seq::new(v.len(), |i: int| v[i]@)
}

/// The texts a parsed document holds when it is an array of strings only (as
/// `serde_json` reads a `Vec<String>`); `None` for any other document.
pub open spec fn string_array(doc: Option<Json>) -> Option<Seq<Seq<char>>> {
    match doc {
        Some(Json::Array(items)) => if forall|i: int|
            0 <= i < items@.len() ==> (#[trigger] json_str(items@[i])) is Some {
            Some(Seq::new(items@.len(), |i: int| json_str(items@[i])->0))
        } else {
            None
        },
        _ => None,
    }
}

/// The texts of an array of strings; `None` for any other value.
pub fn string_items(j: &Json) -> (res: Option<Vec<String>>)
    ensures
        match string_array(Some(*j)) {
            Some(k) => res matches Some(v) && string_views(v@) == k,
            None => res is None,
        },
{
    match j {
        Json::Array(items) => {
            let mut out: Vec<String> = Vec::new();
            let mut i: usize = 0;
            while i < items.len()
                invariant
                    i <= items@.len(),
                    *j == Json::Array(*items),
                    out@.len() == i,
                    forall|k: int| 0 <= k < i ==> (#[trigger] json_str(items@[k])) is Some,
                    forall|k: int| 0 <= k < i ==> out@[k]@ == json_str(items@[k])->0,
                decreases items@.len() - i,
            {
                match &items[i] {
                    Json::Str(s) => out.push(s.clone()),
                    _ => {
                        proof {
                            assert(json_str(items@[i as int]) is None);
                            assert(!(forall|k: int|
                                0 <= k < items@.len() ==> (#[trigger] json_str(items@[k])) is Some));
                            assert(string_array(Some(*j)) is None);
                        }
                        return None;
                    },
                }
                i = i + 1;
            }
            proof {
                assert(string_views(out@) =~= Seq::new(
                    items@.len(),
                    |k: int| json_str(items@[k])->0,
                ));
            }
            Some(out)
        },
        _ => None,
    }
}

/// Comma-separated JSON string literals of texts.
pub open spec fn literals_text(ks: Seq<Seq<char>>) -> Seq<char>
    decreases ks.len(),
{
    if ks.len() == 0 {
        Seq::empty()
    } else if ks.len() == 1 {
        json_quoted(ks[0])
    } else {
        literals_text(ks.drop_last()) + seq![','] + json_quoted(ks.last())
    }
}

/// The compact JSON text of a list of texts: `[`, their string literals
/// separated by commas, `]`.
pub open spec fn string_list_json(ks: Seq<Seq<char>>) -> Seq<char> {
    seq!['['] + literals_text(ks) + seq![']']
}

/// `serde_json::to_string` of a list of strings: its compact JSON array text.
/// Writing strings into memory cannot fail.
#[verifier::external_body]
fn json_string_array(items: &Vec<String>) -> (res: String)
    ensures
        res@ == string_list_json(string_views(items@)),
{
    serde_json::to_string(items).unwrap_or_default()
}

/// The compact JSON text of a list of strings.
pub fn string_list_text(items: &Vec<String>) -> (res: String)
    ensures
        res@ == string_list_json(string_views(items@)),
{
    json_string_array(items)
}

} // verus!
