//! Durable text and JSON output of submitted values.

use vstd::prelude::*;

use crate::bang_core::value::{
    date_text, fields_model, list_model, Date, Number, Value, ValueModel,
};
use crate::text::{join_with, push_char, push_signed_decimal, push_str, signed_decimal_chars};

verus! {

/// The durable output format of submitted values.
#[derive(Clone, Copy, Debug, Eq, PartialEq, Structural)]
pub enum OutputFormat {
    Text,
    Json,
}

impl Default for OutputFormat {
    fn default() -> (format: Self)
        ensures
            format == OutputFormat::Text,
    {
        OutputFormat::Text
    }
}

/// A character as it stands inside a JSON string: quote, backslash, newline,
/// carriage return and tab escaped, every other character as it is.
pub open spec fn json_escaped_char(c: char) -> Seq<char> {
    if c == '"' {
        seq!['\\', '"']
    } else if c == '\\' {
        seq!['\\', '\\']
    } else if c == '\n' {
        seq!['\\', 'n']
    } else if c == '\r' {
        seq!['\\', 'r']
    } else if c == '\t' {
        seq!['\\', 't']
    } else {
        seq![c]
    }
}

/// A text with each character escaped for a JSON string.
pub open spec fn json_escaped(text: Seq<char>) -> Seq<char>
    decreases text.len(),
{
    if text.len() == 0 {
        Seq::empty()
    } else {
        json_escaped(text.drop_last()) + json_escaped_char(text.last())
    }
}

/// JSON string escaping works character by character: the escape of two
/// texts one after the other is their escapes one after the other; a quote,
/// a backslash, a newline, a carriage return and a tab are written as a
/// backslash and the quote, the backslash, `n`, `r` or `t`; every other
/// character stands for itself, so a text without those characters is its
/// own escape.
pub proof fn law_json_escaping(a: Seq<char>, b: Seq<char>)
    ensures
        json_escaped(a + b) == json_escaped(a) + json_escaped(b),
        json_escaped(seq!['"']) == seq!['\\', '"'],
        json_escaped(seq!['\\']) == seq!['\\', '\\'],
        json_escaped(seq!['\n']) == seq!['\\', 'n'],
        json_escaped(seq!['\r']) == seq!['\\', 'r'],
        json_escaped(seq!['\t']) == seq!['\\', 't'],
        (forall|i: int| 0 <= i < a.len() ==> #[trigger] a[i] != '"' && a[i] != '\\' && a[i] != '\n' && a[i] != '\r'
            && a[i] != '\t') ==> json_escaped(a) == a,
    decreases b.len(),
{
    lemma_single_escape('"');
    lemma_single_escape('\\');
    lemma_single_escape('\n');
    lemma_single_escape('\r');
    lemma_single_escape('\t');
    if b.len() > 0 {
        law_json_escaping(a, b.drop_last());
        assert((a + b).drop_last() =~= a + b.drop_last());
        assert((a + b).last() == b.last());
    } else {
        assert(a + b =~= a);
    }
    lemma_plain_text_escapes_to_itself(a);
}

proof fn lemma_single_escape(c: char)
    ensures
        json_escaped(seq![c]) == json_escaped_char(c),
{
    assert(seq![c].drop_last() =~= Seq::<char>::empty());
    assert(json_escaped(Seq::<char>::empty()) == Seq::<char>::empty());
    assert(Seq::<char>::empty() + json_escaped_char(c) =~= json_escaped_char(c));
}

proof fn lemma_plain_text_escapes_to_itself(a: Seq<char>)
    ensures
        (forall|i: int| 0 <= i < a.len() ==> #[trigger] a[i] != '"' && a[i] != '\\' && a[i] != '\n' && a[i] != '\r'
            && a[i] != '\t') ==> json_escaped(a) == a,
    decreases a.len(),
{
    if a.len() > 0 {
        lemma_plain_text_escapes_to_itself(a.drop_last());
        if forall|i: int| 0 <= i < a.len() ==> #[trigger] a[i] != '"' && a[i] != '\\' && a[i] != '\n' && a[i] != '\r'
            && a[i] != '\t' {
            assert(a[a.len() - 1] != '"');
            assert(a.drop_last().push(a.last()) =~= a);
        }
    }
}

/// Escape a text for a JSON string.
pub fn escape_json(value: &str) -> (escaped: String)
    ensures
        escaped@ == json_escaped(value@),
{
    let chars = crate::text::chars_of(value);
    let mut escaped = String::new();
    let mut i: usize = 0;
    while i < chars.len()
        invariant
            i <= chars@.len(),
            chars@ == value@,
            escaped@ == json_escaped(chars@.subrange(0, i as int)),
        decreases chars@.len() - i,
    {
        let c = chars[i];
        if c == '"' {
            push_char(&mut escaped, '\\');
            push_char(&mut escaped, '"');
        } else if c == '\\' {
            push_char(&mut escaped, '\\');
            push_char(&mut escaped, '\\');
        } else if c == '\n' {
            push_char(&mut escaped, '\\');
            push_char(&mut escaped, 'n');
        } else if c == '\r' {
            push_char(&mut escaped, '\\');
            push_char(&mut escaped, 'r');
        } else if c == '\t' {
            push_char(&mut escaped, '\\');
            push_char(&mut escaped, 't');
        } else {
            push_char(&mut escaped, c);
        }
        assert(chars@.subrange(0, i + 1).drop_last() =~= chars@.subrange(0, i as int));
        assert(escaped@ =~= json_escaped(chars@.subrange(0, i + 1)));
        i += 1;
    }
    assert(chars@.subrange(0, chars@.len() as int) =~= chars@);
    escaped
}

/// A text in quotes with its characters escaped.
pub open spec fn json_string(text: Seq<char>) -> Seq<char> {
    seq!['"'] + json_escaped(text) + seq!['"']
}

/// The JSON of a value: `null`, `true`/`false`, escaped strings, integers in
/// decimal, floats as their text, dates as strings `YYYY-MM-DD`, arrays and
/// objects without spaces.
pub open spec fn json_of(value: ValueModel) -> Seq<char>
    decreases value,
{
    match value {
        ValueModel::Null => seq!['n', 'u', 'l', 'l'],
        ValueModel::Bool(b) => bool_text(b),
        ValueModel::Text(t) => json_string(t),
        ValueModel::Integer(i) => signed_decimal_chars(i as int),
        ValueModel::Float(t) => t,
        ValueModel::Date(d) => seq!['"'] + date_text(d) + seq!['"'],
        ValueModel::List(items) => seq!['['] + json_items(items) + seq![']'],
        ValueModel::Object(fields) => seq!['{'] + json_fields(fields) + seq!['}'],
    }
}

/// The JSON of the items of an array, separated by commas.
pub open spec fn json_items(items: Seq<ValueModel>) -> Seq<char>
    decreases items,
{
    if items.len() == 0 {
        Seq::empty()
    } else if items.len() == 1 {
        json_of(items[0])
    } else {
        json_items(items.drop_last()) + seq![','] + json_of(items.last())
    }
}

/// The JSON of the members of an object, separated by commas.
pub open spec fn json_fields(fields: Seq<(Seq<char>, ValueModel)>) -> Seq<char>
    decreases fields,
{
    if fields.len() == 0 {
        Seq::empty()
    } else if fields.len() == 1 {
        json_string(fields[0].0) + seq![':'] + json_of(fields[0].1)
    } else {
        json_fields(fields.drop_last()) + seq![','] + json_string(fields.last().0) + seq![':']
            + json_of(fields.last().1)
    }
}

/// `true` or `false`.
pub open spec fn bool_text(b: bool) -> Seq<char> {
    if b {
        seq!['t', 'r', 'u', 'e']
    } else {
        seq!['f', 'a', 'l', 's', 'e']
    }
}

/// A number as `{:?}` writes it: `Integer(..)` or `Float(..)`.
pub open spec fn number_debug_text(value: ValueModel) -> Seq<char> {
    match value {
        ValueModel::Integer(i) => seq!['I', 'n', 't', 'e', 'g', 'e', 'r', '('] + signed_decimal_chars(
            i as int,
        ) + seq![')'],
        ValueModel::Float(t) => seq!['F', 'l', 'o', 'a', 't', '('] + t + seq![')'],
        _ => Seq::empty(),
    }
}

/// A list item in text output: a string as it is, anything else as JSON.
pub open spec fn text_item(value: ValueModel) -> Seq<char> {
    match value {
        ValueModel::Text(t) => t,
        _ => json_of(value),
    }
}

/// The text output of a value, ending in a newline: strings, booleans and
/// dates as they read, numbers as `{:?}` writes them, list items one per
/// line, anything else as JSON.
pub open spec fn text_of(value: ValueModel) -> Seq<char> {
    match value {
        ValueModel::Null => seq!['\n'],
        ValueModel::Bool(b) => bool_text(b) + seq!['\n'],
        ValueModel::Text(t) => t + seq!['\n'],
        ValueModel::Integer(_) => number_debug_text(value) + seq!['\n'],
        ValueModel::Float(_) => number_debug_text(value) + seq!['\n'],
        ValueModel::Date(d) => date_text(d) + seq!['\n'],
        ValueModel::List(items) => join_with(items.map_values(|v: ValueModel| text_item(v)), seq!['\n'])
            + seq!['\n'],
        ValueModel::Object(_) => json_of(value) + seq!['\n'],
    }
}

/// The output of a value in a format.
pub open spec fn output_of(value: ValueModel, format: OutputFormat) -> Seq<char> {
    match format {
        OutputFormat::Text => text_of(value),
        OutputFormat::Json => json_of(value) + seq!['\n'],
    }
}

/// JSON output is the value's JSON text on one line: the text and a
/// newline.
pub proof fn law_json_output_is_one_line(value: ValueModel)
    ensures
        output_of(value, OutputFormat::Json) == json_of(value) + seq!['\n'],
{
}

fn push_bool(text: &mut String, b: bool)
    ensures
        final(text)@ == old(text)@ + bool_text(b),
{
    if b {
        push_char(text, 't');
        push_char(text, 'r');
        push_char(text, 'u');
        push_char(text, 'e');
    } else {
        push_char(text, 'f');
        push_char(text, 'a');
        push_char(text, 'l');
        push_char(text, 's');
        push_char(text, 'e');
    }
    assert(final(text)@ =~= old(text)@ + bool_text(b));
}

fn push_json_string(text: &mut String, value: &str)
    ensures
        final(text)@ == old(text)@ + json_string(value@),
{
    push_char(text, '"');
    let escaped = escape_json(value);
    push_str(text, escaped.as_str());
    push_char(text, '"');
    assert(final(text)@ =~= old(text)@ + json_string(value@));
}

fn push_date_text(text: &mut String, date: &Date)
    ensures
        final(text)@ == old(text)@ + date_text(*date),
{
    let written = date.to_text();
    push_str(text, written.as_str());
}

/// Write the JSON of a value.
fn push_json(text: &mut String, value: &Value)
    ensures
        final(text)@ == old(text)@ + json_of(value@),
    decreases value,
{
    match value {
        Value::Null => {
            push_char(text, 'n');
            push_char(text, 'u');
            push_char(text, 'l');
            push_char(text, 'l');
            assert(final(text)@ =~= old(text)@ + json_of(value@));
        },
        Value::Bool(b) => push_bool(text, *b),
        Value::String(s) => push_json_string(text, s.as_str()),
        Value::Number(Number::Integer(i)) => push_signed_decimal(text, *i),
        Value::Number(Number::Float(f)) => push_str(text, f.as_str()),
        Value::Date(d) => {
            push_char(text, '"');
            push_date_text(text, d);
            push_char(text, '"');
            assert(final(text)@ =~= old(text)@ + json_of(value@));
        },
        Value::List(items) => {
            push_char(text, '[');
            let ghost start = text@;
            let mut i: usize = 0;
            assert(list_model(items@.subrange(0, 0)) =~= Seq::<ValueModel>::empty());
            while i < items.len()
                invariant
                    i <= items@.len(),
                    *value == Value::List(*items),
                    text@ == start + json_items(list_model(items@.subrange(0, i as int))),
                decreases items@.len() - i,
            {
                proof {
                    vstd::std_specs::vec::axiom_vec_index_decreases(*items, i as int);
                    assert(decreases_to!(*value => value->List_0));
                }
                if i > 0 {
                    push_char(text, ',');
                }
                push_json(text, &items[i]);
                proof {
                    let before = list_model(items@.subrange(0, i as int));
                    assert(items@.subrange(0, i + 1).drop_last() =~= items@.subrange(0, i as int));
                    let after = list_model(items@.subrange(0, i + 1));
                    assert(after == before.push(items@[i as int]@));
                    assert(after.drop_last() =~= before);
                    if i > 0 {
                        crate::bang_core::value::lemma_list_model_len(items@.subrange(0, i as int));
                    }
                    assert(text@ =~= start + json_items(after));
                }
                i += 1;
            }
            assert(items@.subrange(0, items@.len() as int) =~= items@);
            push_char(text, ']');
            assert(final(text)@ =~= old(text)@ + json_of(value@));
        },
        Value::Object(fields) => {
            push_char(text, '{');
            let ghost start = text@;
            let mut i: usize = 0;
            assert(fields_model(fields@.subrange(0, 0)) =~= Seq::<(Seq<char>, ValueModel)>::empty());
            while i < fields.len()
                invariant
                    i <= fields@.len(),
                    *value == Value::Object(*fields),
                    text@ == start + json_fields(fields_model(fields@.subrange(0, i as int))),
                decreases fields@.len() - i,
            {
                proof {
                    vstd::std_specs::vec::axiom_vec_index_decreases(*fields, i as int);
                    assert(decreases_to!(*value => value->Object_0));
                    assert(decreases_to!(fields[i as int] => fields[i as int].1));
                }
                if i > 0 {
                    push_char(text, ',');
                }
                push_json_string(text, fields[i].0.as_str());
                push_char(text, ':');
                push_json(text, &fields[i].1);
                proof {
                    let before = fields_model(fields@.subrange(0, i as int));
                    assert(fields@.subrange(0, i + 1).drop_last() =~= fields@.subrange(0, i as int));
                    let after = fields_model(fields@.subrange(0, i + 1));
                    assert(after == before.push((fields@[i as int].0@, fields@[i as int].1@)));
                    assert(after.drop_last() =~= before);
                    if i > 0 {
                        crate::bang_core::value::lemma_fields_model_len(fields@.subrange(0, i as int));
                    }
                    assert(text@ =~= start + json_fields(after));
                }
                i += 1;
            }
            assert(fields@.subrange(0, fields@.len() as int) =~= fields@);
            push_char(text, '}');
            assert(final(text)@ =~= old(text)@ + json_of(value@));
        },
    }
}

/// The JSON of a value.
pub fn format_json(value: &Value) -> (json: String)
    ensures
        json@ == json_of(value@),
{
    let mut json = String::new();
    push_json(&mut json, value);
    assert(json@ =~= json_of(value@));
    json
}

fn push_number_debug(text: &mut String, number: &Number)
    ensures
        final(text)@ == old(text)@ + number_debug_text(Value::Number(*number)@),
{
    match number {
        Number::Integer(i) => {
            push_str(text, "Integer(");
            push_signed_decimal(text, *i);
            push_char(text, ')');
            proof {
                reveal_strlit("Integer(");
            }
        },
        Number::Float(f) => {
            push_str(text, "Float(");
            push_str(text, f.as_str());
            push_char(text, ')');
            proof {
                reveal_strlit("Float(");
            }
        },
    }
    assert(final(text)@ =~= old(text)@ + number_debug_text(Value::Number(*number)@));
}

/// The text output of a value.
pub fn format_text(value: &Value) -> (text: String)
    ensures
        text@ == text_of(value@),
{
    let mut text = String::new();
    match value {
        Value::Null => {},
        Value::Bool(b) => push_bool(&mut text, *b),
        Value::String(s) => push_str(&mut text, s.as_str()),
        Value::Number(n) => push_number_debug(&mut text, n),
        Value::Date(d) => push_date_text(&mut text, d),
        Value::List(items) => {
            proof {
                crate::bang_core::value::lemma_list_model_len(items@);
            }
            let ghost model = list_model(items@);
            let ghost parts = model.map_values(|v: ValueModel| text_item(v));
            let mut i: usize = 0;
            while i < items.len()
                invariant
                    i <= items@.len(),
                    model == list_model(items@),
                    parts == model.map_values(|v: ValueModel| text_item(v)),
                    model.len() == items@.len(),
                    forall|k: int| 0 <= k < items@.len() ==> #[trigger] model[k] == items@[k]@,
                    text@ == join_with(parts.subrange(0, i as int), seq!['\n']),
                decreases items@.len() - i,
            {
                if i > 0 {
                    push_char(&mut text, '\n');
                }
                match &items[i] {
                    Value::String(s) => push_str(&mut text, s.as_str()),
                    other => {
                        let json = format_json(other);
                        push_str(&mut text, json.as_str());
                    },
                }
                proof {
                    assert(parts.subrange(0, i + 1).drop_last() =~= parts.subrange(0, i as int));
                    assert(parts[i as int] == text_item(items@[i as int]@));
                    assert(text@ =~= join_with(parts.subrange(0, i + 1), seq!['\n']));
                }
                i += 1;
            }
            assert(parts.subrange(0, items@.len() as int) =~= parts);
        },
        Value::Object(_) => {
            let json = format_json(value);
            push_str(&mut text, json.as_str());
        },
    }
    push_char(&mut text, '\n');
    assert(text@ =~= text_of(value@));
    text
}

/// The output of a value in a format, ending in a newline.
pub fn format_output(value: &Value, output: OutputFormat) -> (text: String)
    ensures
        text@ == output_of(value@, output),
{
    match output {
        OutputFormat::Text => format_text(value),
        OutputFormat::Json => {
            let mut text = format_json(value);
            push_char(&mut text, '\n');
            text
        },
    }
}

} // verus!
