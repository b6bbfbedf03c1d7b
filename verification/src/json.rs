//! A JSON document model and the minimal dotted-path extractor.
//!
//! Parsing a response body is delegated to `serde_json`; the parsed
//! document is carried as a [`JsonValue`] of plain values so that path
//! traversal and leaf rendering are verified logic.  A path is a leading
//! `$.` (stripped, repeatedly) followed by dot-separated field names;
//! only object-field traversal is supported.  A missing key or a
//! non-object node yields the empty string.

use vstd::prelude::*;

verus! {

/// A parsed JSON document.  Numbers keep the decimal text the parser
/// rendered for them.
pub enum JsonValue {
    Null,
    Bool(bool),
    Number(String),
    Str(String),
    Array(Vec<JsonValue>),
    Object(Vec<(String, JsonValue)>),
}

pub ghost enum JsonView {
    Null,
    Bool(bool),
    Number(Seq<char>),
    Str(Seq<char>),
    Array(Seq<JsonView>),
    Object(Seq<(Seq<char>, JsonView)>),
}

pub open spec fn json_view(v: JsonValue) -> JsonView
    decreases v,
{
    match v {
        JsonValue::Null => JsonView::Null,
        JsonValue::Bool(b) => JsonView::Bool(b),
        JsonValue::Number(s) => JsonView::Number(s@),
        JsonValue::Str(s) => JsonView::Str(s@),
        JsonValue::Array(items) => JsonView::Array(json_view_seq(items@)),
        JsonValue::Object(fields) => JsonView::Object(json_view_fields(fields@)),
    }
}

pub open spec fn json_view_seq(items: Seq<JsonValue>) -> Seq<JsonView>
    decreases items,
{
    if items.len() == 0 {
        Seq::empty()
    } else {
        json_view_seq(items.drop_last()).push(json_view(items.last()))
    }
}

pub open spec fn json_view_fields(fields: Seq<(String, JsonValue)>) -> Seq<(Seq<char>, JsonView)>
    decreases fields,
{
    if fields.len() == 0 {
        Seq::empty()
    } else {
        json_view_fields(fields.drop_last()).push(
            (fields.last().0@, json_view(fields.last().1)),
        )
    }
}

/// The view of a list of documents is the list of their views.
pub proof fn lemma_json_view_seq(items: Seq<JsonValue>)
    ensures
        json_view_seq(items).len() == items.len(),
        forall|i: int|
            0 <= i < items.len() ==> #[trigger] json_view_seq(items)[i] == json_view(items[i]),
    decreases items.len(),
{
    if items.len() > 0 {
        lemma_json_view_seq(items.drop_last());
        assert(forall|i: int|
            0 <= i < items.len() - 1 ==> #[trigger] items.drop_last()[i] == items[i]);
    }
}

/// The view of a field list is the list of viewed fields.
pub proof fn lemma_json_view_fields(fields: Seq<(String, JsonValue)>)
    ensures
        json_view_fields(fields).len() == fields.len(),
        forall|i: int|
            0 <= i < fields.len() ==> #[trigger] json_view_fields(fields)[i] == (
                fields[i].0@,
                json_view(fields[i].1),
            ),
    decreases fields.len(),
{
    if fields.len() > 0 {
        lemma_json_view_fields(fields.drop_last());
        assert(forall|i: int|
            0 <= i < fields.len() - 1 ==> #[trigger] fields.drop_last()[i] == fields[i]);
    }
}

impl View for JsonValue {
    type V = JsonView;

    open spec fn view(&self) -> JsonView {
        json_view(*self)
    }
}

/// The document that a text parses to, when it is valid JSON.  Relied
/// upon from `serde_json::from_str`: the outcome depends on the text
/// alone.
pub uninterp spec fn json_parse(s: Seq<char>) -> Option<JsonView>;

#[verifier::external_type_specification]
#[verifier::external_body]
pub struct ExSerdeJsonValue(serde_json::Value);

/// Relies on `serde_json::Value`'s public variants and
/// `serde_json::Number::to_string`: each parsed node is carried over
/// one-for-one into the plain document model.
#[verifier::external_body]
fn value_to_json(v: &serde_json::Value) -> JsonValue {
    match v {
        serde_json::Value::Null => JsonValue::Null,
        serde_json::Value::Bool(b) => JsonValue::Bool(*b),
        serde_json::Value::Number(n) => JsonValue::Number(n.to_string()),
        serde_json::Value::String(s) => JsonValue::Str(s.clone()),
        serde_json::Value::Array(items) => JsonValue::Array(
            items.iter().map(value_to_json).collect(),
        ),
        serde_json::Value::Object(map) => JsonValue::Object(
            map.iter().map(|(k, w)| (k.clone(), value_to_json(w))).collect(),
        ),
    }
}

/// Relies on `serde_json::from_str`: a text either parses to one JSON
/// document, named `json_parse` here, or is rejected with a parse error.
#[verifier::external_body]
pub fn parse_json(s: &str) -> (r: Result<JsonValue, String>)
    ensures
        match r {
            Ok(v) => json_parse(s@) == Some(v@),
            Err(_) => json_parse(s@) is None,
        },
{
    match serde_json::from_str::<serde_json::Value>(s) {
        Ok(v) => Ok(value_to_json(&v)),
        Err(e) => Err(e.to_string()),
    }
}

/// Index just past every leading `$.` of `s`, scanning from `i`.
pub open spec fn strip_from(s: Seq<char>, i: int) -> int
    decreases s.len() - i when 0 <= i <= s.len()
{
    if i + 2 <= s.len() && s[i] == '$' && s[i + 1] == '.' {
        strip_from(s, i + 2)
    } else {
        i
    }
}

/// First position at or after `i` holding a dot, or the length.
pub open spec fn dot_run(s: Seq<char>, i: int) -> int
    decreases s.len() - i when 0 <= i <= s.len()
{
    if i >= s.len() || s[i] == '.' {
        i
    } else {
        dot_run(s, i + 1)
    }
}

pub proof fn lemma_dot_run_bounds(s: Seq<char>, i: int)
    requires
        0 <= i <= s.len(),
    ensures
        i <= dot_run(s, i) <= s.len(),
        forall|k: int| i <= k < dot_run(s, i) ==> #[trigger] s[k] != '.',
        dot_run(s, i) == s.len() || s[dot_run(s, i)] == '.',
    decreases s.len() - i,
{
    if i < s.len() && s[i] != '.' {
        lemma_dot_run_bounds(s, i + 1);
    }
}

pub proof fn lemma_dot_run_is(s: Seq<char>, i: int, j: int)
    requires
        0 <= i <= j <= s.len(),
        forall|k: int| i <= k < j ==> #[trigger] s[k] != '.',
        j == s.len() || s[j] == '.',
    ensures
        dot_run(s, i) == j,
    decreases j - i,
{
    if i < j {
        lemma_dot_run_is(s, i + 1, j);
    }
}

/// First value stored under `key`, scanning the fields in order.
pub open spec fn obj_get(fields: Seq<(Seq<char>, JsonView)>, key: Seq<char>) -> Option<JsonView>
    decreases fields.len(),
{
    if fields.len() == 0 {
        None
    } else if fields.first().0 == key {
        Some(fields.first().1)
    } else {
        obj_get(fields.drop_first(), key)
    }
}

/// Walk the dot-separated field names of `s[p..]` down from `v`.  Every
/// visited node must be an object holding the named field; otherwise the
/// walk fails.
pub open spec fn lookup_from(v: JsonView, s: Seq<char>, p: int) -> Option<JsonView>
    decreases s.len() - p when 0 <= p <= s.len() via lookup_from_dec
{
    let d = dot_run(s, p);
    match v {
        JsonView::Object(fields) => match obj_get(fields, s.subrange(p, d)) {
            Some(w) => if d >= s.len() {
                Some(w)
            } else {
                lookup_from(w, s, d + 1)
            },
            None => None,
        },
        _ => None,
    }
}

#[via_fn]
proof fn lookup_from_dec(v: JsonView, s: Seq<char>, p: int) {
    if 0 <= p <= s.len() {
        lemma_dot_run_bounds(s, p);
    }
}

/// The two-character escape of a JSON string character, when it has one.
pub open spec fn short_escape(c: char) -> Option<char> {
    if c == '"' {
        Some('"')
    } else if c == '\\' {
        Some('\\')
    } else if c as u32 == 8 {
        Some('b')
    } else if c as u32 == 12 {
        Some('f')
    } else if c == '\n' {
        Some('n')
    } else if c == '\r' {
        Some('r')
    } else if c == '\t' {
        Some('t')
    } else {
        None
    }
}

pub open spec fn hex_digit(d: int) -> char {
    if d < 10 {
        crate::numbers::dec_digit(d)
    } else if d == 10 {
        'a'
    } else if d == 11 {
        'b'
    } else if d == 12 {
        'c'
    } else if d == 13 {
        'd'
    } else if d == 14 {
        'e'
    } else {
        'f'
    }
}

/// How one character appears inside a rendered JSON string.
pub open spec fn escape_char(c: char) -> Seq<char> {
    match short_escape(c) {
        Some(e) => seq!['\\', e],
        None => {
            if (c as u32) < 32 {
                seq!['\\', 'u', '0', '0', hex_digit(c as int / 16), hex_digit(c as int % 16)]
            } else {
                seq![c]
            }
        },
    }
}

pub open spec fn escape_str(s: Seq<char>) -> Seq<char>
    decreases s.len(),
{
    if s.len() == 0 {
        Seq::empty()
    } else {
        escape_char(s.first()) + escape_str(s.drop_first())
    }
}

/// The compact rendering of a JSON document, as the generic string form
/// of non-scalar nodes.
pub open spec fn json_text(v: JsonView) -> Seq<char>
    decreases v,
{
    match v {
        JsonView::Null => "null"@,
        JsonView::Bool(b) => if b {
            "true"@
        } else {
            "false"@
        },
        JsonView::Number(n) => n,
        JsonView::Str(s) => seq!['"'] + escape_str(s) + seq!['"'],
        JsonView::Array(items) => seq!['['] + json_text_items(items) + seq![']'],
        JsonView::Object(fields) => seq!['{'] + json_text_fields(fields) + seq!['}'],
    }
}

pub open spec fn json_text_items(items: Seq<JsonView>) -> Seq<char>
    decreases items,
{
    if items.len() == 0 {
        Seq::empty()
    } else if items.len() == 1 {
        json_text(items.first())
    } else {
        json_text(items.first()) + seq![','] + json_text_items(items.drop_first())
    }
}

pub open spec fn json_text_fields(fields: Seq<(Seq<char>, JsonView)>) -> Seq<char>
    decreases fields,
{
    if fields.len() == 0 {
        Seq::empty()
    } else if fields.len() == 1 {
        json_text_field(fields.first())
    } else {
        json_text_field(fields.first()) + seq![','] + json_text_fields(fields.drop_first())
    }
}

pub open spec fn json_text_field(field: (Seq<char>, JsonView)) -> Seq<char>
    decreases field,
{
    seq!['"'] + escape_str(field.0) + seq!['"', ':'] + json_text(field.1)
}

/// How a node found at the end of a path is rendered: strings as they
/// are, scalars canonically, anything else in its generic string form.
pub open spec fn render_leaf(v: JsonView) -> Seq<char> {
    match v {
        JsonView::Str(s) => s,
        JsonView::Number(n) => n,
        JsonView::Bool(b) => if b {
            "true"@
        } else {
            "false"@
        },
        JsonView::Null => "null"@,
        _ => json_text(v),
    }
}

/// What the dotted-path extractor returns over a parsed document.
pub open spec fn spec_extract(v: JsonView, path: Seq<char>) -> Seq<char> {
    match lookup_from(v, path, strip_from(path, 0)) {
        Some(leaf) => render_leaf(leaf),
        None => Seq::empty(),
    }
}

/// What a JSON-path extraction over a body text yields: the empty string
/// when the body is not valid JSON, the extracted leaf otherwise.
pub open spec fn spec_extract_from_body(body: Seq<char>, path: Seq<char>) -> Seq<char> {
    match json_parse(body) {
        Some(doc) => spec_extract(doc, path),
        None => Seq::empty(),
    }
}

fn hex_digit_str(d: u32) -> (r: &'static str)
    requires
        d <= 15,
    ensures
        r@ =~= seq![hex_digit(d as int)],
{
    proof {
        reveal_strlit("a");
        reveal_strlit("b");
        reveal_strlit("c");
        reveal_strlit("d");
        reveal_strlit("e");
        reveal_strlit("f");
    }
    if d < 10 {
        crate::numbers::dec_digit_str_u32(d)
    } else if d == 10 {
        "a"
    } else if d == 11 {
        "b"
    } else if d == 12 {
        "c"
    } else if d == 13 {
        "d"
    } else if d == 14 {
        "e"
    } else {
        "f"
    }
}

fn push_escaped(out: &mut String, c: char)
    ensures
        final(out)@ == old(out)@ + escape_char(c),
{
    proof {
        reveal_strlit("\\\"");
        reveal_strlit("\\\\");
        reveal_strlit("\\b");
        reveal_strlit("\\f");
        reveal_strlit("\\n");
        reveal_strlit("\\r");
        reveal_strlit("\\t");
        reveal_strlit("\\u00");
    }
    let u = c as u32;
    if c == '"' {
        out.append("\\\"");
        assert(out@ =~= old(out)@ + escape_char(c));
    } else if c == '\\' {
        out.append("\\\\");
        assert(out@ =~= old(out)@ + escape_char(c));
    } else if u == 8 {
        out.append("\\b");
        assert(out@ =~= old(out)@ + escape_char(c));
    } else if u == 12 {
        out.append("\\f");
        assert(out@ =~= old(out)@ + escape_char(c));
    } else if c == '\n' {
        out.append("\\n");
        assert(out@ =~= old(out)@ + escape_char(c));
    } else if c == '\r' {
        out.append("\\r");
        assert(out@ =~= old(out)@ + escape_char(c));
    } else if c == '\t' {
        out.append("\\t");
        assert(out@ =~= old(out)@ + escape_char(c));
    } else if u < 32 {
        out.append("\\u00");
        out.append(hex_digit_str(u / 16));
        out.append(hex_digit_str(u % 16));
        assert(out@ =~= old(out)@ + escape_char(c));
    } else {
        let one = char_str(c);
        out.append(one.as_str());
        assert(out@ =~= old(out)@ + escape_char(c));
    }
}

/// A string holding exactly one character.
fn char_str(c: char) -> (r: String)
    ensures
        r@ =~= seq![c],
{
    let mut v: Vec<char> = Vec::new();
    v.push(c);
    let r = chars_to_string(&v);
    assert(v@ =~= seq![c]);
    r
}

/// Relies on `String::from_iter` over `Vec<char>`: the characters of
/// the result are exactly the characters of the vector, in order.
#[verifier::external_body]
fn chars_to_string(v: &Vec<char>) -> (r: String)
    ensures
        r@ == v@,
{
    v.iter().collect()
}

proof fn lemma_escape_str_push(s: Seq<char>, c: char)
    ensures
        escape_str(s.push(c)) == escape_str(s) + escape_char(c),
    decreases s.len(),
{
    if s.len() == 0 {
        assert(s.push(c).drop_first() =~= Seq::<char>::empty());
        assert(s.push(c).first() == c);
        assert(escape_str(s.push(c)) == escape_char(c) + escape_str(Seq::<char>::empty()));
        assert(escape_char(c) + Seq::<char>::empty() =~= escape_char(c));
        assert(escape_str(s) + escape_char(c) =~= escape_char(c));
    } else {
        assert(s.push(c).drop_first() =~= s.drop_first().push(c));
        lemma_escape_str_push(s.drop_first(), c);
        assert(escape_char(s.first()) + (escape_str(s.drop_first()) + escape_char(c)) =~= (
        escape_char(s.first()) + escape_str(s.drop_first())) + escape_char(c));
    }
}

fn escape_string(s: &str) -> (r: String)
    ensures
        r@ == escape_str(s@),
{
    let n = s.unicode_len();
    let mut out = String::new();
    let mut i: usize = 0;
    proof {
        assert(s@.take(0) =~= Seq::<char>::empty());
    }
    while i < n
        invariant
            n == s@.len(),
            0 <= i <= n,
            out@ == escape_str(s@.take(i as int)),
        decreases n - i,
    {
        let c = s.get_char(i);
        push_escaped(&mut out, c);
        proof {
            assert(s@.take(i + 1) =~= s@.take(i as int).push(s@[i as int]));
            lemma_escape_str_push(s@.take(i as int), s@[i as int]);
        }
        i += 1;
    }
    proof {
        assert(s@.take(n as int) =~= s@);
    }
    out
}

proof fn lemma_json_text_items_push(items: Seq<JsonView>, x: JsonView)
    ensures
        items.len() == 0 ==> json_text_items(items.push(x)) == json_text(x),
        items.len() > 0 ==> json_text_items(items.push(x)) == json_text_items(items) + seq![',']
            + json_text(x),
    decreases items.len(),
{
    if items.len() == 0 {
        assert(items.push(x).first() == x);
    } else {
        assert(items.push(x).drop_first() =~= items.drop_first().push(x));
        lemma_json_text_items_push(items.drop_first(), x);
        if items.len() == 1 {
            assert(json_text_items(items.push(x)) == json_text(items.first()) + seq![',']
                + json_text(x));
        } else {
            assert(json_text(items.first()) + seq![','] + (json_text_items(items.drop_first())
                + seq![','] + json_text(x)) =~= (json_text(items.first()) + seq![',']
                + json_text_items(items.drop_first())) + seq![','] + json_text(x));
        }
    }
}

proof fn lemma_json_text_fields_push(fields: Seq<(Seq<char>, JsonView)>, x: (Seq<char>, JsonView))
    ensures
        fields.len() == 0 ==> json_text_fields(fields.push(x)) == json_text_field(x),
        fields.len() > 0 ==> json_text_fields(fields.push(x)) == json_text_fields(fields) + seq![
            ',',
        ] + json_text_field(x),
    decreases fields.len(),
{
    if fields.len() == 0 {
        assert(fields.push(x).first() == x);
    } else {
        assert(fields.push(x).drop_first() =~= fields.drop_first().push(x));
        lemma_json_text_fields_push(fields.drop_first(), x);
        if fields.len() == 1 {
            assert(json_text_fields(fields.push(x)) == json_text_field(fields.first()) + seq![',']
                + json_text_field(x));
        } else {
            assert(json_text_field(fields.first()) + seq![','] + (json_text_fields(
                fields.drop_first(),
            ) + seq![','] + json_text_field(x)) =~= (json_text_field(fields.first()) + seq![',']
                + json_text_fields(fields.drop_first())) + seq![','] + json_text_field(x));
        }
    }
}

/// Render a document in its compact generic string form.
#[verifier::loop_isolation(false)]
pub fn render_json(v: &JsonValue) -> (r: String)
    ensures
        r@ == json_text(v@),
    decreases v,
{
    match v {
        JsonValue::Null => {
            let mut out = String::new();
            out.append("null");
            out
        },
        JsonValue::Bool(b) => {
            let mut out = String::new();
            if *b {
                out.append("true");
            } else {
                out.append("false");
            }
            out
        },
        JsonValue::Number(n) => n.clone(),
        JsonValue::Str(s) => {
            let mut out = String::new();
            out.append("\"");
            proof {
                reveal_strlit("\"");
            }
            let esc = escape_string(s.as_str());
            out.append(esc.as_str());
            out.append("\"");
            assert(out@ =~= json_text(v@));
            out
        },
        JsonValue::Array(items) => {
            let mut out = String::new();
            out.append("[");
            proof {
                reveal_strlit("[");
                reveal_strlit("]");
                reveal_strlit(",");
                lemma_json_view_seq(items@);
                assert(json_view_seq(items@).take(0) =~= Seq::<JsonView>::empty());
            }
            let m = items.len();
            let mut i: usize = 0;
            while i < m
                invariant
                    m == items@.len(),
                    0 <= i <= m,
                    v@ == JsonView::Array(json_view_seq(items@)),
                    json_view_seq(items@).len() == m,
                    forall|k: int|
                        0 <= k < m ==> #[trigger] json_view_seq(items@)[k] == json_view(
                            items@[k],
                        ),
                    out@ == seq!['['] + json_text_items(json_view_seq(items@).take(i as int)),
                decreases m - i,
            {
                if i > 0 {
                    out.append(",");
                }
                let ghost pre = json_view_seq(items@).take(i as int);
                proof {
                    reveal_strlit("[");
                    reveal_strlit(",");
                }
                let piece = render_json(&items[i]);
                out.append(piece.as_str());
                proof {
                    assert(json_view_seq(items@).take(i + 1) =~= pre.push(
                        json_view_seq(items@)[i as int],
                    ));
                    lemma_json_text_items_push(pre, json_view_seq(items@)[i as int]);
                    assert(out@ =~= seq!['['] + json_text_items(
                        json_view_seq(items@).take(i + 1),
                    ));
                }
                i += 1;
            }
            proof {
                assert(json_view_seq(items@).take(m as int) =~= json_view_seq(items@));
            }
            out.append("]");
            assert(out@ =~= json_text(v@));
            out
        },
        JsonValue::Object(fields) => {
            let mut out = String::new();
            out.append("{");
            proof {
                reveal_strlit("{");
                reveal_strlit("}");
                reveal_strlit(",");
                reveal_strlit("\"");
                reveal_strlit("\":");
                lemma_json_view_fields(fields@);
                assert(json_view_fields(fields@).take(0) =~= Seq::<(Seq<char>, JsonView)>::empty());
            }
            let m = fields.len();
            let mut i: usize = 0;
            while i < m
                invariant
                    m == fields@.len(),
                    0 <= i <= m,
                    v@ == JsonView::Object(json_view_fields(fields@)),
                    json_view_fields(fields@).len() == m,
                    forall|k: int|
                        0 <= k < m ==> #[trigger] json_view_fields(fields@)[k] == (
                            fields@[k].0@,
                            json_view(fields@[k].1),
                        ),
                    out@ == seq!['{'] + json_text_fields(json_view_fields(fields@).take(i as int)),
                decreases m - i,
            {
                if i > 0 {
                    out.append(",");
                }
                let ghost pre = json_view_fields(fields@).take(i as int);
                let ghost entry = json_view_fields(fields@)[i as int];
                proof {
                    reveal_strlit("{");
                    reveal_strlit(",");
                }
                out.append("\"");
                let esc = escape_string(fields[i].0.as_str());
                out.append(esc.as_str());
                out.append("\":");
                let piece = render_json(&fields[i].1);
                out.append(piece.as_str());
                proof {
                    reveal_strlit("\"");
                    reveal_strlit("\":");
                    assert(json_view_fields(fields@).take(i + 1) =~= pre.push(entry));
                    lemma_json_text_fields_push(pre, entry);
                    assert(out@ =~= seq!['{'] + json_text_fields(
                        json_view_fields(fields@).take(i + 1),
                    ));
                }
                i += 1;
            }
            proof {
                assert(json_view_fields(fields@).take(m as int) =~= json_view_fields(fields@));
            }
            out.append("}");
            assert(out@ =~= json_text(v@));
            out
        },
    }
}

/// Render a node found at the end of a path.
fn render_leaf_exec(v: &JsonValue) -> (r: String)
    ensures
        r@ == render_leaf(v@),
{
    match v {
        JsonValue::Str(s) => s.clone(),
        JsonValue::Number(n) => n.clone(),
        JsonValue::Bool(b) => {
            let mut out = String::new();
            if *b {
                out.append("true");
            } else {
                out.append("false");
            }
            out
        },
        JsonValue::Null => {
            let mut out = String::new();
            out.append("null");
            out
        },
        JsonValue::Array(_) => render_json(v),
        JsonValue::Object(_) => render_json(v),
    }
}

proof fn lemma_obj_get_at(fields: Seq<(Seq<char>, JsonView)>, key: Seq<char>, i: int)
    requires
        0 <= i < fields.len(),
        forall|j: int| 0 <= j < i ==> (#[trigger] fields[j]).0 != key,
        fields[i].0 == key,
    ensures
        obj_get(fields, key) == Some(fields[i].1),
    decreases i,
{
    if i > 0 {
        assert(fields.drop_first()[i - 1] == fields[i]);
        assert(forall|j: int|
            0 <= j < i - 1 ==> (#[trigger] fields.drop_first()[j]) == fields[j + 1]);
        lemma_obj_get_at(fields.drop_first(), key, i - 1);
    }
}

proof fn lemma_obj_get_none(fields: Seq<(Seq<char>, JsonView)>, key: Seq<char>)
    requires
        forall|j: int| 0 <= j < fields.len() ==> (#[trigger] fields[j]).0 != key,
    ensures
        obj_get(fields, key) is None,
    decreases fields.len(),
{
    if fields.len() > 0 {
        assert(forall|j: int|
            0 <= j < fields.len() - 1 ==> (#[trigger] fields.drop_first()[j]) == fields[j + 1]);
        lemma_obj_get_none(fields.drop_first(), key);
    }
}

/// Extract the value at a dotted path from a parsed document.  A path
/// that misses, or a traversal through a non-object node, yields the
/// empty string.
pub fn extract_json_path(doc: &JsonValue, path: &str) -> (r: String)
    ensures
        r@ == spec_extract(doc@, path@),
{
    let n = path.unicode_len();
    let mut p: usize = 0;
    while n - p >= 2 && dollar_dot_at(path, n, p)
        invariant
            n == path@.len(),
            0 <= p <= n,
            strip_from(path@, 0) == strip_from(path@, p as int),
        decreases n - p,
    {
        p += 2;
    }
    assert(strip_from(path@, p as int) == p);
    let mut cur: &JsonValue = doc;
    loop
        invariant
            n == path@.len(),
            0 <= p <= n,
            lookup_from(doc@, path@, strip_from(path@, 0)) == lookup_from(cur@, path@, p as int),
        decreases n - p,
    {
        // find the end of the current field name
        let mut d: usize = p;
        while d < n && not_dot_at(path, n, d)
            invariant
                n == path@.len(),
                p <= d <= n,
                forall|k: int| p <= k < d ==> #[trigger] path@[k] != '.',
            decreases n - d,
        {
            d += 1;
        }
        proof {
            lemma_dot_run_is(path@, p as int, d as int);
        }
        match cur {
            JsonValue::Object(fields) => {
                proof {
                    lemma_json_view_fields(fields@);
                }
                let key = path.substring_char(p, d);
                let m = fields.len();
                let mut i: usize = 0;
                let mut found: Option<usize> = None;
                while i < m
                    invariant
                        m == fields@.len(),
                        0 <= i <= m,
                        json_view_fields(fields@).len() == m,
                        forall|k: int|
                            0 <= k < m ==> #[trigger] json_view_fields(fields@)[k] == (
                                fields@[k].0@,
                                json_view(fields@[k].1),
                            ),
                        key@ == path@.subrange(p as int, d as int),
                        match found {
                            Some(t) => t < m && fields@[t as int].0@ == key@ && forall|j: int|
                                0 <= j < t ==> (#[trigger] json_view_fields(fields@)[j]).0 != key@,
                            None => forall|j: int|
                                0 <= j < i ==> (#[trigger] json_view_fields(fields@)[j]).0 != key@,
                        },
                    decreases m - i,
                {
                    if found.is_none() && crate::text::str_eq(fields[i].0.as_str(), key) {
                        found = Some(i);
                    }
                    i += 1;
                }
                match found {
                    Some(t) => {
                        proof {
                            lemma_obj_get_at(json_view_fields(fields@), key@, t as int);
                        }
                        if d == n {
                            return render_leaf_exec(&fields[t].1);
                        }
                        cur = &fields[t].1;
                        p = d + 1;
                    },
                    None => {
                        proof {
                            lemma_obj_get_none(json_view_fields(fields@), key@);
                        }
                        return String::new();
                    },
                }
            },
            _ => {
                return String::new();
            },
        }
    }
}

fn dollar_dot_at(path: &str, n: usize, p: usize) -> (r: bool)
    requires
        n == path@.len(),
        p + 2 <= n,
    ensures
        r == (path@[p as int] == '$' && path@[p + 1] == '.'),
{
    path.get_char(p) == '$' && path.get_char(p + 1) == '.'
}

fn not_dot_at(path: &str, n: usize, d: usize) -> (r: bool)
    requires
        n == path@.len(),
        d < n,
    ensures
        r == (path@[d as int] != '.'),
{
    path.get_char(d) != '.'
}

/// Extract the value at a dotted path from a body text; a body that is
/// not valid JSON yields the empty string.
pub fn extract_from_body(body: &str, path: &str) -> (r: String)
    ensures
        r@ == spec_extract_from_body(body@, path@),
{
    match parse_json(body) {
        Ok(doc) => extract_json_path(&doc, path),
        Err(_) => String::new(),
    }
}

} // verus!
