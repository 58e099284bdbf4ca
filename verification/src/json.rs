//! A small JSON codec.
//!
//! The listing endpoints return records whose schema this client does not
//! model: entries are carried through as opaque JSON values. Strings and
//! numbers are kept as raw lexemes — the exact characters that stood in the
//! document between the quotes (for a string) or that formed the number —
//! so a value that is parsed and written again is preserved exactly as it
//! came over the wire.

use vstd::prelude::*;

verus! {

/// A JSON document: null, a boolean, a number, a string, an array, or an
/// object with its fields in document order.
#[derive(Debug)]
pub enum JsonValue {
    Null,
    Bool(bool),
    /// The raw number lexeme, e.g. `-1.5e3`.
    Number(String),
    /// The raw characters between the quotes, escape sequences kept as written.
    String(String),
    Array(Vec<JsonValue>),
    /// Key/value pairs in document order; keys are raw string contents.
    Object(Vec<(String, JsonValue)>),
}

/// The canonical text of a JSON value: no whitespace, lexemes as stored.
pub open spec fn json_text(v: JsonValue) -> Seq<char>
    decreases v, 0int,
{
    match v {
        JsonValue::Null => "null"@,
        JsonValue::Bool(b) => if b {
            "true"@
        } else {
            "false"@
        },
        JsonValue::Number(s) => s@,
        JsonValue::String(s) => seq!['"'] + s@ + seq!['"'],
        JsonValue::Array(items) => seq!['['] + elems_text(items, 0) + seq![']'],
        JsonValue::Object(fields) => seq!['{'] + fields_text(fields, 0) + seq!['}'],
    }
}

/// The text of the array elements from index `i` on, comma-separated.
pub open spec fn elems_text(items: Vec<JsonValue>, i: int) -> Seq<char>
    decreases items, items.len() - i,
{
    if i < 0 || i >= items.len() {
        Seq::empty()
    } else if i == items.len() - 1 {
        json_text(items[i])
    } else {
        json_text(items[i]) + seq![','] + elems_text(items, i + 1)
    }
}

/// The text of one object field: the quoted key, a colon, and the value.
pub open spec fn field_text(f: (String, JsonValue)) -> Seq<char>
    decreases f, 0int,
{
    seq!['"'] + f.0@ + seq!['"'] + seq![':'] + json_text(f.1)
}

/// The text of the object fields from index `i` on, comma-separated.
pub open spec fn fields_text(fields: Vec<(String, JsonValue)>, i: int) -> Seq<char>
    decreases fields, fields.len() - i,
{
    if i < 0 || i >= fields.len() {
        Seq::empty()
    } else if i == fields.len() - 1 {
        field_text(fields[i])
    } else {
        field_text(fields[i]) + seq![','] + fields_text(fields, i + 1)
    }
}

/// Appends one character to a string.
///
/// Relies on `String::push` from std: it appends the given character to the
/// end of the string.
#[verifier::external_body]
fn push_char(out: &mut String, c: char)
    ensures
        final(out)@ == old(out)@ + seq![c],
{
    out.push(c);
}

fn write_json(v: &JsonValue, out: &mut String)
    ensures
        final(out)@ == old(out)@ + json_text(*v),
    decreases *v, 0int,
{
    match v {
        JsonValue::Null => {
            out.append("null");
        },
        JsonValue::Bool(b) => {
            if *b {
                out.append("true");
            } else {
                out.append("false");
            }
        },
        JsonValue::Number(s) => {
            out.append(s.as_str());
        },
        JsonValue::String(s) => {
            push_char(out, '"');
            out.append(s.as_str());
            push_char(out, '"');
            assert(final(out)@ =~= old(out)@ + json_text(*v));
        },
        JsonValue::Array(items) => {
            push_char(out, '[');
            if items.len() > 0 {
                write_elems(items, 0, out);
            }
            push_char(out, ']');
            assert(final(out)@ =~= old(out)@ + json_text(*v));
        },
        JsonValue::Object(fields) => {
            push_char(out, '{');
            if fields.len() > 0 {
                write_fields(fields, 0, out);
            }
            push_char(out, '}');
            assert(final(out)@ =~= old(out)@ + json_text(*v));
        },
    }
}

fn write_elems(items: &Vec<JsonValue>, i: usize, out: &mut String)
    requires
        i < items@.len(),
    ensures
        final(out)@ == old(out)@ + elems_text(*items, i as int),
    decreases *items, items@.len() - i,
{
    let n: usize = items.len();
    write_json(&items[i], out);
    if i < n - 1 {
        push_char(out, ',');
        write_elems(items, i + 1, out);
        assert(final(out)@ =~= old(out)@ + elems_text(*items, i as int));
    }
}

fn write_fields(fields: &Vec<(String, JsonValue)>, i: usize, out: &mut String)
    requires
        i < fields@.len(),
    ensures
        final(out)@ == old(out)@ + fields_text(*fields, i as int),
    decreases *fields, fields@.len() - i,
{
    let n: usize = fields.len();
    write_field(&fields[i], out);
    if i < n - 1 {
        push_char(out, ',');
        write_fields(fields, i + 1, out);
        assert(final(out)@ =~= old(out)@ + fields_text(*fields, i as int));
    }
}

fn write_field(f: &(String, JsonValue), out: &mut String)
    ensures
        final(out)@ == old(out)@ + field_text(*f),
    decreases *f, 0int,
{
    push_char(out, '"');
    out.append(f.0.as_str());
    push_char(out, '"');
    push_char(out, ':');
    write_json(&f.1, out);
    assert(final(out)@ =~= old(out)@ + field_text(*f));
}

/// Writes a JSON value as its canonical text: no whitespace, string and
/// number lexemes exactly as stored.
pub fn to_json_string(v: &JsonValue) -> (r: String)
    ensures
        r@ == json_text(*v),
{
    let mut out = String::new();
    write_json(v, &mut out);
    assert(out@ =~= json_text(*v));
    out
}

/// The mathematical shape of a JSON document: a [`JsonValue`] with every
/// string replaced by its characters. The contracts of the parser speak of
/// models, so that they can compare what the text denotes with what the
/// parser built.
pub enum JsonModel {
    Null,
    Bool(bool),
    Number(Seq<char>),
    String(Seq<char>),
    Array(Seq<JsonModel>),
    Object(Seq<(Seq<char>, JsonModel)>),
}

/// The model of a JSON value.
pub open spec fn json_model(v: JsonValue) -> JsonModel
    decreases v, 0int,
{
    match v {
        JsonValue::Null => JsonModel::Null,
        JsonValue::Bool(b) => JsonModel::Bool(b),
        JsonValue::Number(s) => JsonModel::Number(s@),
        JsonValue::String(s) => JsonModel::String(s@),
        JsonValue::Array(items) => JsonModel::Array(models_of(items, items.len() as int)),
        JsonValue::Object(fields) => JsonModel::Object(
            field_models_of(fields, fields.len() as int),
        ),
    }
}

/// The models of the first `k` elements.
pub open spec fn models_of(items: Vec<JsonValue>, k: int) -> Seq<JsonModel>
    decreases items, k,
{
    if k <= 0 || k > items.len() {
        Seq::empty()
    } else {
        models_of(items, k - 1).push(json_model(items[k - 1]))
    }
}

/// The model of one object field.
pub open spec fn field_model(f: (String, JsonValue)) -> (Seq<char>, JsonModel)
    decreases f, 0int,
{
    (f.0@, json_model(f.1))
}

/// The models of the first `k` fields.
pub open spec fn field_models_of(fields: Vec<(String, JsonValue)>, k: int) -> Seq<
    (Seq<char>, JsonModel),
>
    decreases fields, k,
{
    if k <= 0 || k > fields.len() {
        Seq::empty()
    } else {
        field_models_of(fields, k - 1).push(field_model(fields[k - 1]))
    }
}

/// The models of all elements of a vector.
pub open spec fn vec_model(items: Vec<JsonValue>) -> Seq<JsonModel> {
    models_of(items, items.len() as int)
}

/// The models of all fields of a vector.
pub open spec fn fields_model(fields: Vec<(String, JsonValue)>) -> Seq<(Seq<char>, JsonModel)> {
    field_models_of(fields, fields.len() as int)
}

/// The elements a vector shares with an extension of it have the same models.
proof fn lemma_models_of_prefix(a: Vec<JsonValue>, b: Vec<JsonValue>, v: JsonValue, k: int)
    requires
        b@ == a@.push(v),
        k <= a@.len(),
    ensures
        models_of(b, k) == models_of(a, k),
    decreases k,
{
    if k > 0 {
        lemma_models_of_prefix(a, b, v, k - 1);
        assert(b@[k - 1] == a@.push(v)[k - 1]);
    }
}

/// Pushing an element onto a vector pushes its model onto the models.
proof fn lemma_models_of_push(a: Vec<JsonValue>, b: Vec<JsonValue>, v: JsonValue)
    requires
        b@ == a@.push(v),
    ensures
        models_of(b, b@.len() as int) == models_of(a, a@.len() as int).push(json_model(v)),
{
    lemma_models_of_prefix(a, b, v, a@.len() as int);
    assert(b@[b@.len() - 1] == a@.push(v)[a@.len() as int]);
}

/// The fields a vector shares with an extension of it have the same models.
proof fn lemma_field_models_of_prefix(
    a: Vec<(String, JsonValue)>,
    b: Vec<(String, JsonValue)>,
    f: (String, JsonValue),
    k: int,
)
    requires
        b@ == a@.push(f),
        k <= a@.len(),
    ensures
        field_models_of(b, k) == field_models_of(a, k),
    decreases k,
{
    if k > 0 {
        lemma_field_models_of_prefix(a, b, f, k - 1);
        assert(b@[k - 1] == a@.push(f)[k - 1]);
    }
}

/// Pushing a field onto a vector pushes its model onto the models.
pub(crate) proof fn lemma_field_models_of_push(
    a: Vec<(String, JsonValue)>,
    b: Vec<(String, JsonValue)>,
    f: (String, JsonValue),
)
    requires
        b@ == a@.push(f),
    ensures
        field_models_of(b, b@.len() as int) == field_models_of(a, a@.len() as int).push(
            field_model(f),
        ),
{
    lemma_field_models_of_prefix(a, b, f, a@.len() as int);
    assert(b@[b@.len() - 1] == a@.push(f)[a@.len() as int]);
}

/// The lowercase hexadecimal digit for `d`.
pub open spec fn hex_digit(d: int) -> char {
    if d == 0 {
        '0'
    } else if d == 1 {
        '1'
    } else if d == 2 {
        '2'
    } else if d == 3 {
        '3'
    } else if d == 4 {
        '4'
    } else if d == 5 {
        '5'
    } else if d == 6 {
        '6'
    } else if d == 7 {
        '7'
    } else if d == 8 {
        '8'
    } else if d == 9 {
        '9'
    } else if d == 10 {
        'a'
    } else if d == 11 {
        'b'
    } else if d == 12 {
        'c'
    } else if d == 13 {
        'd'
    } else if d == 14 {
        'e'
    } else {
        'f'
    }
}

/// How one character is written inside a JSON string: quote, backslash and
/// the named control characters get their two-character escapes, any other
/// control character a `\u00xx` escape, and everything else stands as it is.
pub open spec fn escape_char(c: char) -> Seq<char> {
    if c == '"' {
        seq!['\\', '"']
    } else if c == '\\' {
        seq!['\\', '\\']
    } else if c as u32 == 8 {
        seq!['\\', 'b']
    } else if c as u32 == 12 {
        seq!['\\', 'f']
    } else if c == '\n' {
        seq!['\\', 'n']
    } else if c == '\r' {
        seq!['\\', 'r']
    } else if c == '\t' {
        seq!['\\', 't']
    } else if (c as u32) < 32 {
        seq!['\\', 'u', '0', '0', hex_digit(((c as u32) as int) / 16), hex_digit(
            ((c as u32) as int) % 16,
        )]
    } else {
        seq![c]
    }
}

/// The text of `s` escaped for embedding between the quotes of a JSON string.
pub open spec fn json_escape(s: Seq<char>) -> Seq<char>
    decreases s.len(),
{
    if s.len() == 0 {
        Seq::empty()
    } else {
        json_escape(s.drop_last()) + escape_char(s.last())
    }
}

fn hex_digit_char(d: u32) -> (r: char)
    requires
        d < 16,
    ensures
        r == hex_digit(d as int),
{
    if d == 0 {
        '0'
    } else if d == 1 {
        '1'
    } else if d == 2 {
        '2'
    } else if d == 3 {
        '3'
    } else if d == 4 {
        '4'
    } else if d == 5 {
        '5'
    } else if d == 6 {
        '6'
    } else if d == 7 {
        '7'
    } else if d == 8 {
        '8'
    } else if d == 9 {
        '9'
    } else if d == 10 {
        'a'
    } else if d == 11 {
        'b'
    } else if d == 12 {
        'c'
    } else if d == 13 {
        'd'
    } else if d == 14 {
        'e'
    } else {
        'f'
    }
}

fn push_escaped(out: &mut String, c: char)
    ensures
        final(out)@ == old(out)@ + escape_char(c),
{
    let u: u32 = c as u32;
    if c == '"' {
        push_char(out, '\\');
        push_char(out, '"');
        assert(final(out)@ =~= old(out)@ + escape_char(c));
    } else if c == '\\' {
        push_char(out, '\\');
        push_char(out, '\\');
        assert(final(out)@ =~= old(out)@ + escape_char(c));
    } else if u == 8 {
        push_char(out, '\\');
        push_char(out, 'b');
        assert(final(out)@ =~= old(out)@ + escape_char(c));
    } else if u == 12 {
        push_char(out, '\\');
        push_char(out, 'f');
        assert(final(out)@ =~= old(out)@ + escape_char(c));
    } else if c == '\n' {
        push_char(out, '\\');
        push_char(out, 'n');
        assert(final(out)@ =~= old(out)@ + escape_char(c));
    } else if c == '\r' {
        push_char(out, '\\');
        push_char(out, 'r');
        assert(final(out)@ =~= old(out)@ + escape_char(c));
    } else if c == '\t' {
        push_char(out, '\\');
        push_char(out, 't');
        assert(final(out)@ =~= old(out)@ + escape_char(c));
    } else if u < 32 {
        push_char(out, '\\');
        push_char(out, 'u');
        push_char(out, '0');
        push_char(out, '0');
        push_char(out, hex_digit_char(u / 16));
        push_char(out, hex_digit_char(u % 16));
        assert(final(out)@ =~= old(out)@ + escape_char(c));
    } else {
        push_char(out, c);
        assert(final(out)@ =~= old(out)@ + escape_char(c));
    }
}

/// Escapes a string for embedding between the quotes of a JSON document.
pub fn escape_json_string(s: &str) -> (r: String)
    ensures
        r@ == json_escape(s@),
{
    let n: usize = s.unicode_len();
    let mut out = String::new();
    let mut i: usize = 0;
    assert(out@ =~= json_escape(s@.subrange(0, 0)));
    while i < n
        invariant
            n as nat == s@.len(),
            i <= n,
            out@ == json_escape(s@.subrange(0, i as int)),
        decreases n - i,
    {
        let c = s.get_char(i);
        push_escaped(&mut out, c);
        proof {
            assert(s@.subrange(0, i + 1).drop_last() =~= s@.subrange(0, i as int));
            assert(s@.subrange(0, i + 1).last() == s@[i as int]);
        }
        i = i + 1;
    }
    proof {
        assert(s@.subrange(0, n as int) =~= s@);
    }
    out
}

/// JSON whitespace: space, tab, line feed, carriage return.
pub open spec fn is_json_ws(c: char) -> bool {
    c == ' ' || c == '\t' || c == '\n' || c == '\r'
}

/// Where scanning whitespace from `pos` stops.
pub open spec fn spec_ws(s: Seq<char>, pos: int) -> int
    decreases s.len() - pos,
{
    if 0 <= pos < s.len() && is_json_ws(s[pos]) {
        spec_ws(s, pos + 1)
    } else {
        pos
    }
}

/// A decimal digit.
pub open spec fn is_digit_char(c: char) -> bool {
    48 <= c as u32 <= 57
}

/// Where scanning decimal digits from `pos` stops.
pub open spec fn spec_digits(s: Seq<char>, pos: int) -> int
    decreases s.len() - pos,
{
    if 0 <= pos < s.len() && is_digit_char(s[pos]) {
        spec_digits(s, pos + 1)
    } else {
        pos
    }
}

fn skip_ws(s: &str, n: usize, pos: usize) -> (r: usize)
    requires
        n as nat == s@.len(),
        pos <= n,
    ensures
        pos <= r <= n,
        r as int == spec_ws(s@, pos as int),
{
    let mut i: usize = pos;
    while i < n
        invariant
            n as nat == s@.len(),
            pos <= i <= n,
            spec_ws(s@, pos as int) == spec_ws(s@, i as int),
        decreases n - i,
    {
        let c = s.get_char(i);
        if !(c == ' ' || c == '\t' || c == '\n' || c == '\r') {
            return i;
        }
        i = i + 1;
    }
    i
}

fn is_digit(c: char) -> (r: bool)
    ensures
        r == is_digit_char(c),
{
    let u: u32 = c as u32;
    48 <= u && u <= 57
}

/// The numeric value of a hexadecimal digit, or a negative number.
pub open spec fn hex_value(c: char) -> int {
    if 48 <= c as u32 <= 57 {
        c as u32 - 48
    } else if 65 <= c as u32 <= 70 {
        c as u32 - 55
    } else if 97 <= c as u32 <= 102 {
        c as u32 - 87
    } else {
        -1
    }
}

/// A hexadecimal digit.
pub open spec fn is_hex(c: char) -> bool {
    hex_value(c) >= 0
}

/// The code unit named by the four hexadecimal digits at `i`.
pub open spec fn hex4(s: Seq<char>, i: int) -> int {
    4096 * hex_value(s[i]) + 256 * hex_value(s[i + 1]) + 16 * hex_value(s[i + 2]) + hex_value(
        s[i + 3],
    )
}

fn is_hex_digit(c: char) -> (r: bool)
    ensures
        r == is_hex(c),
{
    let u: u32 = c as u32;
    (48 <= u && u <= 57) || (65 <= u && u <= 70) || (97 <= u && u <= 102)
}

fn hex_val(c: char) -> (r: u32)
    requires
        is_hex(c),
    ensures
        r as int == hex_value(c),
        r < 16,
{
    let u: u32 = c as u32;
    if u <= 57 {
        u - 48
    } else if u <= 70 {
        u - 55
    } else {
        u - 87
    }
}

fn skip_digits(s: &str, n: usize, pos: usize) -> (r: usize)
    requires
        n as nat == s@.len(),
        pos <= n,
    ensures
        pos <= r <= n,
        r as int == spec_digits(s@, pos as int),
{
    let mut i: usize = pos;
    while i < n
        invariant
            n as nat == s@.len(),
            pos <= i <= n,
            spec_digits(s@, pos as int) == spec_digits(s@, i as int),
        decreases n - i,
    {
        if !is_digit(s.get_char(i)) {
            return i;
        }
        i = i + 1;
    }
    i
}

/// An escape character that stands for itself or a named control character.
pub open spec fn is_simple_escape(c: char) -> bool {
    c == '"' || c == '\\' || c == '/' || c == 'b' || c == 'f' || c == 'n' || c == 'r' || c == 't'
}

/// Where the string whose opening quote stands just before `i` ends: the
/// position just past the closing quote, if the text from `i` on is a well
/// formed string body. A backslash must carry one of the eight simple
/// escapes or `u` and four hexadecimal digits; a high-surrogate escape must
/// be followed by a low-surrogate escape; a lone low surrogate and an
/// unescaped control character are refused.
pub open spec fn spec_string_end(s: Seq<char>, i: int) -> Option<int>
    decreases s.len() - i,
{
    if i < 0 || i >= s.len() {
        Option::None
    } else if s[i] == '"' {
        Option::Some(i + 1)
    } else if s[i] == '\\' {
        if s.len() - i < 2 {
            Option::None
        } else if is_simple_escape(s[i + 1]) {
            spec_string_end(s, i + 2)
        } else if s[i + 1] == 'u' {
            if s.len() - i < 6 || !(is_hex(s[i + 2]) && is_hex(s[i + 3]) && is_hex(s[i + 4])
                && is_hex(s[i + 5])) {
                Option::None
            } else if 0xD800 <= hex4(s, i + 2) <= 0xDBFF {
                if s.len() - i >= 12 && s[i + 6] == '\\' && s[i + 7] == 'u' && is_hex(s[i + 8])
                    && is_hex(s[i + 9]) && is_hex(s[i + 10]) && is_hex(s[i + 11]) && 0xDC00 <= hex4(
                    s,
                    i + 8,
                ) <= 0xDFFF {
                    spec_string_end(s, i + 12)
                } else {
                    Option::None
                }
            } else if 0xDC00 <= hex4(s, i + 2) <= 0xDFFF {
                Option::None
            } else {
                spec_string_end(s, i + 6)
            }
        } else {
            Option::None
        }
    } else if (s[i] as u32) < 32 {
        Option::None
    } else {
        spec_string_end(s, i + 1)
    }
}

/// Scans one string literal starting at the opening quote at `pos`. On
/// success returns the raw characters between the quotes, escape sequences
/// kept as written, and the position just past the closing quote; the end
/// position is exactly what [`spec_string_end`] gives, and the scan fails
/// exactly when that is nothing.
fn parse_string(s: &str, n: usize, pos: usize) -> (r: Option<(String, usize)>)
    requires
        n as nat == s@.len(),
        pos < n,
        s@[pos as int] == '"',
    ensures
        r matches Some((content, p)) ==> pos + 2 <= p <= n && s@[p as int - 1] == '"'
            && content@ == s@.subrange(pos as int + 1, p as int - 1) && spec_string_end(
            s@,
            pos as int + 1,
        ) == Some(p as int),
        r is None ==> spec_string_end(s@, pos as int + 1) is None,
{
    let mut i: usize = pos + 1;
    while i < n
        invariant
            n as nat == s@.len(),
            pos + 1 <= i <= n,
            spec_string_end(s@, pos as int + 1) == spec_string_end(s@, i as int),
        decreases n - i,
    {
        let c = s.get_char(i);
        if c == '"' {
            let content = s.substring_char(pos + 1, i).to_owned();
            return Some((content, i + 1));
        } else if c == '\\' {
            if n - i < 2 {
                return None;
            }
            let e = s.get_char(i + 1);
            if e == '"' || e == '\\' || e == '/' || e == 'b' || e == 'f' || e == 'n' || e == 'r'
                || e == 't' {
                i = i + 2;
            } else if e == 'u' {
                if n - i < 6 || !(is_hex_digit(s.get_char(i + 2)) && is_hex_digit(
                    s.get_char(i + 3),
                ) && is_hex_digit(s.get_char(i + 4)) && is_hex_digit(s.get_char(i + 5))) {
                    return None;
                }
                let unit: u32 = 4096 * hex_val(s.get_char(i + 2)) + 256 * hex_val(
                    s.get_char(i + 3),
                ) + 16 * hex_val(s.get_char(i + 4)) + hex_val(s.get_char(i + 5));
                assert(unit as int == hex4(s@, i as int + 2));
                if 0xD800 <= unit && unit <= 0xDBFF {
                    if n - i >= 12 && s.get_char(i + 6) == '\\' && s.get_char(i + 7) == 'u'
                        && is_hex_digit(s.get_char(i + 8)) && is_hex_digit(s.get_char(i + 9))
                        && is_hex_digit(s.get_char(i + 10)) && is_hex_digit(s.get_char(i + 11)) {
                        let unit2: u32 = 4096 * hex_val(s.get_char(i + 8)) + 256 * hex_val(
                            s.get_char(i + 9),
                        ) + 16 * hex_val(s.get_char(i + 10)) + hex_val(s.get_char(i + 11));
                        assert(unit2 as int == hex4(s@, i as int + 8));
                        if 0xDC00 <= unit2 && unit2 <= 0xDFFF {
                            i = i + 12;
                        } else {
                            return None;
                        }
                    } else {
                        return None;
                    }
                } else if 0xDC00 <= unit && unit <= 0xDFFF {
                    return None;
                } else {
                    i = i + 6;
                }
            } else {
                return None;
            }
        } else if (c as u32) < 32 {
            return None;
        } else {
            i = i + 1;
        }
    }
    None
}

/// Where the optional fraction part starting at `i` ends.
pub open spec fn spec_number_frac(s: Seq<char>, i: int) -> Option<int> {
    if i < s.len() && s[i] == '.' {
        if s.len() - i < 2 || !is_digit_char(s[i + 1]) {
            Option::None
        } else {
            Option::Some(spec_digits(s, i + 1))
        }
    } else {
        Option::Some(i)
    }
}

/// Where the optional exponent part starting at `j` ends.
pub open spec fn spec_number_exp(s: Seq<char>, j: int) -> Option<int> {
    if j < s.len() && (s[j] == 'e' || s[j] == 'E') {
        let k = if j + 1 < s.len() && (s[j + 1] == '+' || s[j + 1] == '-') {
            j + 2
        } else {
            j + 1
        };
        if k >= s.len() || !is_digit_char(s[k]) {
            Option::None
        } else {
            Option::Some(spec_digits(s, k))
        }
    } else {
        Option::Some(j)
    }
}

/// Where the number starting at `pos` ends, if the text there follows the
/// JSON number grammar: an optional minus, an integer part without a
/// leading zero unless it is zero itself, an optional fraction, an
/// optional exponent.
pub open spec fn spec_number_end(s: Seq<char>, pos: int) -> Option<int> {
    if !(0 <= pos < s.len()) {
        Option::None
    } else {
        let i0 = if s[pos] == '-' {
            pos + 1
        } else {
            pos
        };
        if i0 >= s.len() {
            Option::None
        } else {
            let i1 = if s[i0] == '0' {
                Option::Some(i0 + 1)
            } else if is_digit_char(s[i0]) {
                Option::Some(spec_digits(s, i0 + 1))
            } else {
                Option::None
            };
            match i1 {
                Option::None => Option::None,
                Option::Some(i1) => match spec_number_frac(s, i1) {
                    Option::None => Option::None,
                    Option::Some(i2) => spec_number_exp(s, i2),
                },
            }
        }
    }
}

/// Scans one number starting at `pos`, following the JSON number grammar.
/// On success returns the raw lexeme and the position just past it; the end
/// position is exactly what [`spec_number_end`] gives, and the scan fails
/// exactly when that is nothing.
fn parse_number(s: &str, n: usize, pos: usize) -> (r: Option<(String, usize)>)
    requires
        n as nat == s@.len(),
        pos < n,
    ensures
        r matches Some((lex, p)) ==> pos < p <= n && lex@ == s@.subrange(pos as int, p as int)
            && spec_number_end(s@, pos as int) == Some(p as int),
        r is None ==> spec_number_end(s@, pos as int) is None,
{
    let mut i: usize = pos;
    if s.get_char(i) == '-' {
        i = i + 1;
    }
    if i >= n {
        return None;
    }
    let c0 = s.get_char(i);
    if c0 == '0' {
        i = i + 1;
    } else if is_digit(c0) {
        i = skip_digits(s, n, i + 1);
    } else {
        return None;
    }
    if i < n {
        if s.get_char(i) == '.' {
            if n - i < 2 || !is_digit(s.get_char(i + 1)) {
                return None;
            }
            i = skip_digits(s, n, i + 1);
        }
    }
    if i < n {
        let c = s.get_char(i);
        if c == 'e' || c == 'E' {
            let mut j: usize = i + 1;
            if j < n {
                let sign = s.get_char(j);
                if sign == '+' || sign == '-' {
                    j = j + 1;
                }
            }
            if j >= n || !is_digit(s.get_char(j)) {
                return None;
            }
            i = skip_digits(s, n, j);
        }
    }
    let lex = s.substring_char(pos, i).to_owned();
    Some((lex, i))
}

/// What the JSON text denotes from `pos` on: the model of the value that
/// starts exactly at `pos` and the position just past it. This is the
/// grammar the parser follows; the parser's contract says it returns
/// exactly this.
pub open spec fn spec_value(s: Seq<char>, pos: int) -> Option<(JsonModel, int)>
    decreases s.len() - pos, 1int,
{
    if !(0 <= pos < s.len()) {
        Option::None
    } else {
        let c = s[pos];
        if c == 'n' {
            if s.len() - pos >= 4 && s[pos + 1] == 'u' && s[pos + 2] == 'l' && s[pos + 3] == 'l' {
                Option::Some((JsonModel::Null, pos + 4))
            } else {
                Option::None
            }
        } else if c == 't' {
            if s.len() - pos >= 4 && s[pos + 1] == 'r' && s[pos + 2] == 'u' && s[pos + 3] == 'e' {
                Option::Some((JsonModel::Bool(true), pos + 4))
            } else {
                Option::None
            }
        } else if c == 'f' {
            if s.len() - pos >= 5 && s[pos + 1] == 'a' && s[pos + 2] == 'l' && s[pos + 3] == 's'
                && s[pos + 4] == 'e' {
                Option::Some((JsonModel::Bool(false), pos + 5))
            } else {
                Option::None
            }
        } else if c == '"' {
            match spec_string_end(s, pos + 1) {
                Option::Some(e) => Option::Some(
                    (JsonModel::String(s.subrange(pos + 1, e - 1)), e),
                ),
                Option::None => Option::None,
            }
        } else if c == '-' || is_digit_char(c) {
            match spec_number_end(s, pos) {
                Option::Some(e) => Option::Some((JsonModel::Number(s.subrange(pos, e)), e)),
                Option::None => Option::None,
            }
        } else if c == '[' {
            spec_array(s, pos + 1)
        } else if c == '{' {
            spec_object(s, pos + 1)
        } else {
            Option::None
        }
    }
}

/// What the text denotes as an array whose opening bracket stands just
/// before `pos`.
pub open spec fn spec_array(s: Seq<char>, pos: int) -> Option<(JsonModel, int)>
    decreases s.len() - pos, 3int,
{
    if !(0 <= pos <= s.len()) {
        Option::None
    } else {
        let first = spec_ws(s, pos);
        if !(pos <= first <= s.len()) {
            Option::None
        } else if first < s.len() && s[first] == ']' {
            Option::Some((JsonModel::Array(Seq::empty()), first + 1))
        } else {
            spec_array_items(s, first, Seq::empty())
        }
    }
}

/// What the text denotes as the remaining elements of an array, with the
/// elements already read carried in `acc`. A value never ends where it
/// began; the checks on the nested end position only keep the recursion
/// well founded.
pub open spec fn spec_array_items(s: Seq<char>, cur: int, acc: Seq<JsonModel>) -> Option<
    (JsonModel, int),
>
    decreases s.len() - cur, 2int,
{
    if !(0 <= cur <= s.len()) {
        Option::None
    } else {
        match spec_value(s, cur) {
            Option::None => Option::None,
            Option::Some((m, p)) => if !(cur < p <= s.len()) {
                Option::None
            } else {
                let after = spec_ws(s, p);
                if after >= s.len() {
                    Option::None
                } else if s[after] == ']' {
                    Option::Some((JsonModel::Array(acc.push(m)), after + 1))
                } else if s[after] == ',' {
                    let next = spec_ws(s, after + 1);
                    if !(cur < next <= s.len()) {
                        Option::None
                    } else {
                        spec_array_items(s, next, acc.push(m))
                    }
                } else {
                    Option::None
                }
            },
        }
    }
}

/// What the text denotes as an object whose opening brace stands just
/// before `pos`.
pub open spec fn spec_object(s: Seq<char>, pos: int) -> Option<(JsonModel, int)>
    decreases s.len() - pos, 3int,
{
    if !(0 <= pos <= s.len()) {
        Option::None
    } else {
        let first = spec_ws(s, pos);
        if !(pos <= first <= s.len()) {
            Option::None
        } else if first < s.len() && s[first] == '}' {
            Option::Some((JsonModel::Object(Seq::empty()), first + 1))
        } else {
            spec_object_items(s, first, Seq::empty())
        }
    }
}

/// What the text denotes as the remaining fields of an object, with the
/// fields already read carried in `acc`. As in [`spec_array_items`], the
/// checks on the nested end positions only keep the recursion well founded.
pub open spec fn spec_object_items(
    s: Seq<char>,
    cur: int,
    acc: Seq<(Seq<char>, JsonModel)>,
) -> Option<(JsonModel, int)>
    decreases s.len() - cur, 2int,
{
    if !(0 <= cur < s.len()) {
        Option::None
    } else if s[cur] != '"' {
        Option::None
    } else {
        match spec_string_end(s, cur + 1) {
            Option::None => Option::None,
            Option::Some(kend) => if !(cur < kend <= s.len()) {
                Option::None
            } else {
                let key = s.subrange(cur + 1, kend - 1);
                let colon = spec_ws(s, kend);
                if colon >= s.len() || s[colon] != ':' {
                    Option::None
                } else {
                    let vstart = spec_ws(s, colon + 1);
                    if !(cur < vstart <= s.len()) {
                        Option::None
                    } else {
                        match spec_value(s, vstart) {
                            Option::None => Option::None,
                            Option::Some((m, p)) => if !(vstart < p <= s.len()) {
                                Option::None
                            } else {
                                let after = spec_ws(s, p);
                                if after >= s.len() {
                                    Option::None
                                } else if s[after] == '}' {
                                    Option::Some(
                                        (JsonModel::Object(acc.push((key, m))), after + 1),
                                    )
                                } else if s[after] == ',' {
                                    let next = spec_ws(s, after + 1);
                                    if !(cur < next <= s.len()) {
                                        Option::None
                                    } else {
                                        spec_object_items(s, next, acc.push((key, m)))
                                    }
                                } else {
                                    Option::None
                                }
                            },
                        }
                    }
                }
            },
        }
    }
}

/// What a complete JSON document denotes: exactly one value, surrounded by
/// optional whitespace.
pub open spec fn json_doc(s: Seq<char>) -> Option<JsonModel> {
    match spec_value(s, spec_ws(s, 0)) {
        Option::None => Option::None,
        Option::Some((m, p)) => if spec_ws(s, p) == s.len() {
            Option::Some(m)
        } else {
            Option::None
        },
    }
}

/// Parses one JSON value starting exactly at `pos`. Returns exactly what
/// the text denotes under [`spec_value`]: the value whose model that is,
/// and the position just past it.
fn parse_value(s: &str, n: usize, pos: usize) -> (r: Option<(JsonValue, usize)>)
    requires
        n as nat == s@.len(),
        pos <= n,
    ensures
        r matches Some((v, p)) ==> pos < p <= n && spec_value(s@, pos as int) == Some(
            (json_model(v), p as int),
        ),
        r is None ==> spec_value(s@, pos as int) is None,
    decreases n - pos, 1int,
{
    if pos >= n {
        return None;
    }
    let c = s.get_char(pos);
    if c == 'n' {
        if n - pos >= 4 && s.get_char(pos + 1) == 'u' && s.get_char(pos + 2) == 'l' && s.get_char(
            pos + 3,
        ) == 'l' {
            Some((JsonValue::Null, pos + 4))
        } else {
            None
        }
    } else if c == 't' {
        if n - pos >= 4 && s.get_char(pos + 1) == 'r' && s.get_char(pos + 2) == 'u' && s.get_char(
            pos + 3,
        ) == 'e' {
            Some((JsonValue::Bool(true), pos + 4))
        } else {
            None
        }
    } else if c == 'f' {
        if n - pos >= 5 && s.get_char(pos + 1) == 'a' && s.get_char(pos + 2) == 'l' && s.get_char(
            pos + 3,
        ) == 's' && s.get_char(pos + 4) == 'e' {
            Some((JsonValue::Bool(false), pos + 5))
        } else {
            None
        }
    } else if c == '"' {
        match parse_string(s, n, pos) {
            Some((content, p)) => Some((JsonValue::String(content), p)),
            None => None,
        }
    } else if c == '-' || is_digit(c) {
        match parse_number(s, n, pos) {
            Some((lex, p)) => Some((JsonValue::Number(lex), p)),
            None => None,
        }
    } else if c == '[' {
        parse_array(s, n, pos + 1)
    } else if c == '{' {
        parse_object(s, n, pos + 1)
    } else {
        None
    }
}

/// Parses the elements of an array whose opening bracket stood just before
/// `pos`, up to and including the closing bracket. Returns exactly what the
/// text denotes under [`spec_array`].
#[verifier::loop_isolation(false)]
fn parse_array(s: &str, n: usize, pos: usize) -> (r: Option<(JsonValue, usize)>)
    requires
        n as nat == s@.len(),
        pos <= n,
    ensures
        r matches Some((v, p)) ==> pos < p <= n && spec_array(s@, pos as int) == Some(
            (json_model(v), p as int),
        ),
        r is None ==> spec_array(s@, pos as int) is None,
    decreases n - pos, 2int,
{
    let mut items: Vec<JsonValue> = Vec::new();
    let first: usize = skip_ws(s, n, pos);
    if first < n && s.get_char(first) == ']' {
        assert(models_of(items, items.len() as int) =~= Seq::<JsonModel>::empty());
        return Some((JsonValue::Array(items), first + 1));
    }
    let mut cur: usize = first;
    assert(models_of(items, items.len() as int) =~= Seq::<JsonModel>::empty());
    loop
        invariant
            pos <= cur <= n,
            spec_array(s@, pos as int) == spec_array_items(
                s@,
                cur as int,
                models_of(items, items.len() as int),
            ),
        decreases n - cur,
    {
        match parse_value(s, n, cur) {
            None => {
                return None;
            },
            Some((v, p)) => {
                let ghost before = items;
                items.push(v);
                proof {
                    lemma_models_of_push(before, items, v);
                }
                let after: usize = skip_ws(s, n, p);
                if after >= n {
                    return None;
                }
                let c = s.get_char(after);
                if c == ']' {
                    return Some((JsonValue::Array(items), after + 1));
                }
                if c != ',' {
                    return None;
                }
                cur = skip_ws(s, n, after + 1);
            },
        }
    }
}

/// Parses the fields of an object whose opening brace stood just before
/// `pos`, up to and including the closing brace. Returns exactly what the
/// text denotes under [`spec_object`].
#[verifier::loop_isolation(false)]
fn parse_object(s: &str, n: usize, pos: usize) -> (r: Option<(JsonValue, usize)>)
    requires
        n as nat == s@.len(),
        pos <= n,
    ensures
        r matches Some((v, p)) ==> pos < p <= n && spec_object(s@, pos as int) == Some(
            (json_model(v), p as int),
        ),
        r is None ==> spec_object(s@, pos as int) is None,
    decreases n - pos, 2int,
{
    let mut fields: Vec<(String, JsonValue)> = Vec::new();
    let first: usize = skip_ws(s, n, pos);
    if first < n && s.get_char(first) == '}' {
        assert(field_models_of(fields, fields.len() as int) =~= Seq::<
            (Seq<char>, JsonModel),
        >::empty());
        return Some((JsonValue::Object(fields), first + 1));
    }
    let mut cur: usize = first;
    assert(field_models_of(fields, fields.len() as int) =~= Seq::<
        (Seq<char>, JsonModel),
    >::empty());
    loop
        invariant
            pos <= cur <= n,
            spec_object(s@, pos as int) == spec_object_items(
                s@,
                cur as int,
                field_models_of(fields, fields.len() as int),
            ),
        decreases n - cur,
    {
        if cur >= n || s.get_char(cur) != '"' {
            return None;
        }
        let key_pair = match parse_string(s, n, cur) {
            Some(x) => x,
            None => {
                return None;
            },
        };
        let key = key_pair.0;
        let kp: usize = key_pair.1;
        let colon: usize = skip_ws(s, n, kp);
        if colon >= n || s.get_char(colon) != ':' {
            return None;
        }
        let vstart: usize = skip_ws(s, n, colon + 1);
        match parse_value(s, n, vstart) {
            None => {
                return None;
            },
            Some((v, p)) => {
                let ghost before = fields;
                let ghost entry = (key, v);
                fields.push((key, v));
                proof {
                    lemma_field_models_of_push(before, fields, entry);
                }
                let after: usize = skip_ws(s, n, p);
                if after >= n {
                    return None;
                }
                let c = s.get_char(after);
                if c == '}' {
                    return Some((JsonValue::Object(fields), after + 1));
                }
                if c != ',' {
                    return None;
                }
                cur = skip_ws(s, n, after + 1);
            },
        }
    }
}

/// Parses a complete JSON document: exactly one value, surrounded by
/// optional whitespace. Returns the value whose model the text denotes
/// under [`json_doc`], and nothing exactly when the text denotes nothing —
/// an empty input, a malformed value, trailing text.
pub fn parse_json(s: &str) -> (r: Option<JsonValue>)
    ensures
        r matches Some(v) ==> json_doc(s@) == Some(json_model(v)),
        r is None ==> json_doc(s@) is None,
{
    let n: usize = s.unicode_len();
    let start: usize = skip_ws(s, n, 0);
    match parse_value(s, n, start) {
        None => None,
        Some((v, p)) => {
            let end: usize = skip_ws(s, n, p);
            if end == n {
                Some(v)
            } else {
                None
            }
        },
    }
}

} // verus!
