//! Values submitted by widgets.

use vstd::prelude::*;

use crate::text::{push_char, push_str, push_zero_padded, zero_padded_chars, parse_natural, parse_natural_text, chars_of, all_digit_chars, lemma_zero_padded_parses};

verus! {

/// A calendar date.
#[derive(Clone, Copy, Debug, PartialEq, Eq, Structural, PartialOrd, Ord, Hash)]
pub struct Date {
    pub year: i32,
    pub month: u8,
    pub day: u8,
}

pub open spec fn is_leap_year_spec(year: int) -> bool {
    (year % 4 == 0 && year % 100 != 0) || year % 400 == 0
}

/// The number of days in a month, 0 for a month outside `1..=12`.
pub open spec fn days_in_month_spec(year: int, month: int) -> int {
    if month == 1 || month == 3 || month == 5 || month == 7 || month == 8 || month == 10 || month == 12 {
        31
    } else if month == 4 || month == 6 || month == 9 || month == 11 {
        30
    } else if month == 2 {
        if is_leap_year_spec(year) {
            29
        } else {
            28
        }
    } else {
        0
    }
}

/// A date that names a real day.
pub open spec fn valid_date(year: int, month: int, day: int) -> bool {
    1 <= month <= 12 && 1 <= day <= days_in_month_spec(year, month)
}

pub fn is_leap_year(year: i32) -> (leap: bool)
    ensures
        leap == is_leap_year_spec(year as int),
{
    // A whole number of 400-year cycles moves the year into the unsigned
    // range without changing its remainders by 4, 100 or 400.
    let shifted: u64 = (year as i64 + 4_000_000_000i64) as u64;
    proof {
        let y = year as int;
        assert(shifted as int == y + 4_000_000_000);
        assert((y + 4_000_000_000) % 4 == y % 4) by (nonlinear_arith);
        assert((y + 4_000_000_000) % 100 == y % 100) by (nonlinear_arith);
        assert((y + 4_000_000_000) % 400 == y % 400) by (nonlinear_arith);
    }
    (shifted % 4 == 0 && shifted % 100 != 0) || shifted % 400 == 0
}

pub fn days_in_month(year: i32, month: u8) -> (days: u8)
    ensures
        days as int == days_in_month_spec(year as int, month as int),
{
    if month == 1 || month == 3 || month == 5 || month == 7 || month == 8 || month == 10 || month
        == 12 {
        31
    } else if month == 4 || month == 6 || month == 9 || month == 11 {
        30
    } else if month == 2 {
        if is_leap_year(year) {
            29
        } else {
            28
        }
    } else {
        0
    }
}

/// The text `YYYY-MM-DD` of a date, each field zero-padded.
pub open spec fn date_text(date: Date) -> Seq<char> {
    zero_padded_chars(date.year as int, 4) + seq!['-'] + zero_padded_chars(date.month as int, 2)
        + seq!['-'] + zero_padded_chars(date.day as int, 2)
}

/// The `-`-separated fields of a date text.
pub open spec fn date_fields(text: Seq<char>) -> Seq<Seq<char>>
    decreases text.len(),
{
    let dash = first_dash(text, 0);
    if dash >= text.len() {
        seq![text]
    } else {
        proof {
            lemma_first_dash_bounds(text, 0);
        }
        seq![text.subrange(0, dash)] + date_fields(text.subrange(dash + 1, text.len() as int))
    }
}

pub open spec fn first_dash(text: Seq<char>, from: int) -> int
    decreases text.len() - from,
{
    if from >= text.len() {
        text.len() as int
    } else if text[from] == '-' {
        from
    } else {
        first_dash(text, from + 1)
    }
}

pub proof fn lemma_first_dash_bounds(text: Seq<char>, from: int)
    requires
        0 <= from,
    ensures
        from <= first_dash(text, from) || from > text.len(),
        first_dash(text, from) <= text.len() || from > text.len(),
        0 <= first_dash(text, from),
    decreases text.len() - from,
{
    if from < text.len() && text[from] != '-' {
        lemma_first_dash_bounds(text, from + 1);
    }
}

/// The date that a text `YYYY-MM-DD` names: three `-`-separated fields,
/// each an optional `+` and decimal digits whose value fits its field.
pub open spec fn date_from_text(text: Seq<char>) -> Option<Date> {
    let fields = date_fields(text);
    if fields.len() != 3 {
        None
    } else {
        match (parse_natural(fields[0], 0x7fff_ffff), parse_natural(fields[1], 255), parse_natural(fields[2], 255)) {
            (Some(year), Some(month), Some(day)) => if valid_date(year, month, day) {
                Some(Date { year: year as i32, month: month as u8, day: day as u8 })
            } else {
                None
            },
            _ => None,
        }
    }
}

impl core::str::FromStr for Date {
    type Err = String;

    /// Read a date written `YYYY-MM-DD`.
    fn from_str(value: &str) -> Result<Date, String> {
        Date::parse(value)
    }
}

impl Date {
    /// A date, when it names a real day.
    pub fn new(year: i32, month: u8, day: u8) -> (date: Option<Self>)
        ensures
            date is Some <==> valid_date(year as int, month as int, day as int),
            date matches Some(d) ==> d == (Date { year, month, day }),
    {
        if month < 1 || month > 12 {
            return None;
        }
        let max_day = days_in_month(year, month);
        if day < 1 || day > max_day {
            return None;
        }
        Some(Date { year, month, day })
    }

    /// The text `YYYY-MM-DD`.
    pub fn to_text(&self) -> (text: String)
        ensures
            text@ == date_text(*self),
    {
        let mut text = String::new();
        push_zero_padded(&mut text, self.year as i64, 4);
        push_char(&mut text, '-');
        push_zero_padded(&mut text, self.month as i64, 2);
        push_char(&mut text, '-');
        push_zero_padded(&mut text, self.day as i64, 2);
        assert(text@ =~= date_text(*self));
        text
    }

    /// Read a date written `YYYY-MM-DD`; the message names the text when it
    /// is no such date.
    pub fn parse(value: &str) -> (date: Result<Date, String>)
        ensures
            date matches Ok(d) ==> date_from_text(value@) == Some(d),
            date matches Err(message) ==> date_from_text(value@) is None && message@ == invalid_date_message(value@),
    {
        let chars = chars_of(value);
        let fields = split_dashes(&chars);
        if fields.len() != 3 {
            return Err(invalid_date(value));
        }
        let year = parse_natural_text(crate::text::string_of(&fields[0]).as_str(), 0x7fff_ffff);
        let month = parse_natural_text(crate::text::string_of(&fields[1]).as_str(), 255);
        let day = parse_natural_text(crate::text::string_of(&fields[2]).as_str(), 255);
        match (year, month, day) {
            (Some(year), Some(month), Some(day)) => {
                match Date::new(year as i32, month as u8, day as u8) {
                    Some(date) => Ok(date),
                    None => Err(invalid_date(value)),
                }
            },
            _ => Err(invalid_date(value)),
        }
    }
}

/// Whether a text holds no dash.
pub open spec fn dash_free(text: Seq<char>) -> bool {
    forall|i: int| 0 <= i < text.len() ==> #[trigger] text[i] != '-'
}

proof fn lemma_first_dash_at(text: Seq<char>, from: int, k: int)
    requires
        0 <= from <= k <= text.len(),
        forall|i: int| from <= i < k ==> #[trigger] text[i] != '-',
        k == text.len() || text[k] == '-',
    ensures
        first_dash(text, from) == k,
    decreases k - from,
{
    if from < k {
        lemma_first_dash_at(text, from + 1, k);
    }
}

/// A text of three dash-free fields joined by dashes splits into them.
proof fn lemma_three_fields(a: Seq<char>, b: Seq<char>, c: Seq<char>)
    requires
        dash_free(a),
        dash_free(b),
        dash_free(c),
    ensures
        date_fields(a + seq!['-'] + b + seq!['-'] + c) == seq![a, b, c],
{
    let rest = b + seq!['-'] + c;
    let whole = a + seq!['-'] + b + seq!['-'] + c;
    assert(whole =~= a + seq!['-'] + rest);
    lemma_first_dash_at(c, 0, c.len() as int);
    assert(date_fields(c) == seq![c]);
    lemma_first_dash_at(rest, 0, b.len() as int);
    assert(rest.subrange(0, b.len() as int) =~= b);
    assert(rest.subrange(b.len() + 1int, rest.len() as int) =~= c);
    assert(date_fields(rest) =~= seq![b, c]);
    assert forall|i: int| 0 <= i < a.len() implies #[trigger] whole[i] != '-' by {
        assert(whole[i] == a[i]);
    }
    lemma_first_dash_at(whole, 0, a.len() as int);
    assert(whole.subrange(0, a.len() as int) =~= a);
    assert(whole.subrange(a.len() + 1int, whole.len() as int) =~= rest);
    assert(date_fields(whole) =~= seq![a, b, c]);
}

proof fn lemma_digits_dash_free(text: Seq<char>)
    requires
        all_digit_chars(text),
    ensures
        dash_free(text),
{
    assert forall|i: int| 0 <= i < text.len() implies #[trigger] text[i] != '-' by {
        assert(crate::text::is_digit_char(text[i]));
    }
}

/// Writing a real date whose year is from 0 on as `YYYY-MM-DD` and reading
/// the text back gives the same date.
pub proof fn law_date_text_round_trip(date: Date)
    requires
        valid_date(date.year as int, date.month as int, date.day as int),
        date.year >= 0,
    ensures
        date_from_text(date_text(date)) == Some(date),
{
    let year = zero_padded_chars(date.year as int, 4);
    let month = zero_padded_chars(date.month as int, 2);
    let day = zero_padded_chars(date.day as int, 2);
    lemma_zero_padded_parses(date.year as nat, 4, 0x7fff_ffff);
    lemma_zero_padded_parses(date.month as nat, 2, 255);
    lemma_zero_padded_parses(date.day as nat, 2, 255);
    lemma_digits_dash_free(year);
    lemma_digits_dash_free(month);
    lemma_digits_dash_free(day);
    lemma_three_fields(year, month, day);
}

/// The message for a text that is no date.
pub open spec fn invalid_date_message(value: Seq<char>) -> Seq<char> {
    "invalid date '"@ + value + "', expected YYYY-MM-DD"@
}

fn invalid_date(value: &str) -> (message: String)
    ensures
        message@ == invalid_date_message(value@),
{
    let mut message = String::new();
    push_str(&mut message, "invalid date '");
    push_str(&mut message, value);
    push_str(&mut message, "', expected YYYY-MM-DD");
    message
}

/// The `-`-separated fields of some characters.
fn split_dashes(chars: &Vec<char>) -> (fields: Vec<Vec<char>>)
    ensures
        fields@.len() == date_fields(chars@).len(),
        forall|i: int| 0 <= i < fields@.len() ==> #[trigger] fields@[i]@ == date_fields(chars@)[i],
    decreases chars@.len(),
{
    let mut dash: usize = 0;
    while dash < chars.len() && chars[dash] != '-'
        invariant
            dash <= chars.len(),
            first_dash(chars@, 0) == first_dash(chars@, dash as int),
        decreases chars.len() - dash,
    {
        dash += 1;
    }
    let mut head: Vec<char> = Vec::new();
    let mut i: usize = 0;
    while i < dash
        invariant
            i <= dash <= chars.len(),
            head@ == chars@.subrange(0, i as int),
        decreases dash - i,
    {
        head.push(chars[i]);
        assert(head@ =~= chars@.subrange(0, i + 1));
        i += 1;
    }
    let mut fields: Vec<Vec<char>> = Vec::new();
    if dash >= chars.len() {
        assert(head@ =~= chars@);
        fields.push(head);
        return fields;
    }
    let mut tail: Vec<char> = Vec::new();
    let mut j = dash + 1;
    while j < chars.len()
        invariant
            dash + 1 <= j <= chars.len(),
            tail@ == chars@.subrange(dash + 1, j as int),
        decreases chars.len() - j,
    {
        tail.push(chars[j]);
        assert(tail@ =~= chars@.subrange(dash + 1, j + 1));
        j += 1;
    }
    let rest = split_dashes(&tail);
    fields.push(head);
    let mut k: usize = 0;
    while k < rest.len()
        invariant
            k <= rest.len(),
            fields@.len() == k + 1,
            fields@[0]@ == chars@.subrange(0, dash as int),
            forall|m: int| 0 <= m < k ==> #[trigger] fields@[m + 1]@ == rest@[m]@,
        decreases rest.len() - k,
    {
        let copy = rest[k].clone();
        fields.push(copy);
        k += 1;
    }
    proof {
        let spec_fields = date_fields(chars@);
        assert(spec_fields =~= seq![chars@.subrange(0, dash as int)] + date_fields(tail@));
        assert forall|i: int| 0 <= i < fields@.len() implies #[trigger] fields@[i]@ == date_fields(chars@)[i] by {
            if i > 0 {
                assert(fields@[(i - 1) + 1]@ == rest@[i - 1]@);
            }
        }
    }
    fields
}

/// A number submitted by a widget.
#[derive(Debug, PartialEq)]
pub enum Number {
    Integer(i64),
    /// A floating-point number, held as the decimal text that Rust's
    /// formatting gives it.
    Float(String),
}

impl Clone for Number {
    fn clone(&self) -> (copy: Self)
        ensures
            number_model(copy) == number_model(*self),
    {
        match self {
            Number::Integer(i) => Number::Integer(*i),
            Number::Float(f) => Number::Float(f.clone()),
        }
    }
}

/// The mathematical value of a number.
pub open spec fn number_model(number: Number) -> ValueModel {
    match number {
        Number::Integer(i) => ValueModel::Integer(i),
        Number::Float(f) => ValueModel::Float(f@),
    }
}

/// A value submitted by a widget.
#[derive(Debug)]
pub enum Value {
    Null,
    Bool(bool),
    String(String),
    Number(Number),
    Date(Date),
    List(Vec<Value>),
    /// Named fields, in increasing order of their names.
    Object(Vec<(String, Value)>),
}

/// The mathematical value of a [`Value`].
pub enum ValueModel {
    Null,
    Bool(bool),
    Text(Seq<char>),
    Integer(i64),
    Float(Seq<char>),
    Date(Date),
    List(Seq<ValueModel>),
    Object(Seq<(Seq<char>, ValueModel)>),
}

pub open spec fn value_model(value: Value) -> ValueModel
    decreases value,
{
    match value {
        Value::Null => ValueModel::Null,
        Value::Bool(b) => ValueModel::Bool(b),
        Value::String(s) => ValueModel::Text(s@),
        Value::Number(n) => number_model(n),
        Value::Date(d) => ValueModel::Date(d),
        Value::List(items) => ValueModel::List(list_model(items@)),
        Value::Object(fields) => ValueModel::Object(fields_model(fields@)),
    }
}

pub open spec fn list_model(items: Seq<Value>) -> Seq<ValueModel>
    decreases items,
{
    if items.len() == 0 {
        Seq::empty()
    } else {
        list_model(items.drop_last()).push(value_model(items.last()))
    }
}

pub open spec fn fields_model(fields: Seq<(String, Value)>) -> Seq<(Seq<char>, ValueModel)>
    decreases fields,
{
    if fields.len() == 0 {
        Seq::empty()
    } else {
        fields_model(fields.drop_last()).push((fields.last().0@, value_model(fields.last().1)))
    }
}

impl View for Value {
    type V = ValueModel;

    open spec fn view(&self) -> ValueModel {
        value_model(*self)
    }
}

pub proof fn lemma_list_model_len(items: Seq<Value>)
    ensures
        list_model(items).len() == items.len(),
        forall|i: int| 0 <= i < items.len() ==> #[trigger] list_model(items)[i] == value_model(items[i]),
    decreases items.len(),
{
    if items.len() > 0 {
        lemma_list_model_len(items.drop_last());
    }
}

pub proof fn lemma_fields_model_len(fields: Seq<(String, Value)>)
    ensures
        fields_model(fields).len() == fields.len(),
        forall|i: int| 0 <= i < fields.len() ==> #[trigger] fields_model(fields)[i] == (
            fields[i].0@,
            value_model(fields[i].1),
        ),
    decreases fields.len(),
{
    if fields.len() > 0 {
        lemma_fields_model_len(fields.drop_last());
    }
}

impl Clone for Value {
    fn clone(&self) -> (copy: Self)
        ensures
            copy@ == self@,
        decreases self,
    {
        match self {
            Value::Null => Value::Null,
            Value::Bool(b) => Value::Bool(*b),
            Value::String(s) => Value::String(s.clone()),
            Value::Number(Number::Integer(i)) => Value::Number(Number::Integer(*i)),
            Value::Number(Number::Float(f)) => Value::Number(Number::Float(f.clone())),
            Value::Date(d) => Value::Date(*d),
            Value::List(items) => {
                let mut out: Vec<Value> = Vec::new();
                let mut i: usize = 0;
                while i < items.len()
                    invariant
                        i <= items.len(),
                        *self == Value::List(*items),
                        list_model(out@) == list_model(items@.subrange(0, i as int)),
                    decreases items.len() - i,
                {
                    proof {
                        vstd::std_specs::vec::axiom_vec_index_decreases(*items, i as int);
                        assert(self is List);
                        assert(decreases_to!(*self => self->List_0));
                        assert(self->List_0 == *items);
                    }
                    let c = items[i].clone();
                    let ghost before = out@;
                    out.push(c);
                    assert(out@.drop_last() =~= before);
                    assert(items@.subrange(0, i + 1).drop_last() =~= items@.subrange(0, i as int));
                    i += 1;
                }
                assert(items@.subrange(0, items@.len() as int) =~= items@);
                Value::List(out)
            },
            Value::Object(fields) => {
                let mut out: Vec<(String, Value)> = Vec::new();
                let mut i: usize = 0;
                while i < fields.len()
                    invariant
                        i <= fields.len(),
                        *self == Value::Object(*fields),
                        fields_model(out@) == fields_model(fields@.subrange(0, i as int)),
                    decreases fields.len() - i,
                {
                    proof {
                        vstd::std_specs::vec::axiom_vec_index_decreases(*fields, i as int);
                        assert(self is Object);
                        assert(decreases_to!(*self => self->Object_0));
                        assert(self->Object_0 == *fields);
                        assert(decreases_to!(fields[i as int] => fields[i as int].1));
                    }
                    let name = fields[i].0.clone();
                    let value = fields[i].1.clone();
                    let ghost before = out@;
                    out.push((name, value));
                    assert(out@.drop_last() =~= before);
                    assert(fields@.subrange(0, i + 1).drop_last() =~= fields@.subrange(0, i as int));
                    i += 1;
                }
                assert(fields@.subrange(0, fields@.len() as int) =~= fields@);
                Value::Object(out)
            },
        }
    }
}

/// The first field of an object model with the given name.
pub open spec fn field_of(fields: Seq<(Seq<char>, ValueModel)>, name: Seq<char>) -> Option<ValueModel>
    decreases fields.len(),
{
    if fields.len() == 0 {
        None
    } else if fields[0].0 == name {
        Some(fields[0].1)
    } else {
        field_of(fields.drop_first(), name)
    }
}

impl Value {
    pub fn text(value: &str) -> (v: Value)
        ensures
            v@ == ValueModel::Text(value@),
    {
        Value::String(value.to_owned())
    }

    pub fn as_bool(&self) -> (b: Option<bool>)
        ensures
            b == (match self@ {
                ValueModel::Bool(b) => Some(b),
                _ => None,
            }),
    {
        match self {
            Value::Bool(b) => Some(*b),
            _ => None,
        }
    }

    pub fn as_str(&self) -> (s: Option<&str>)
        ensures
            s matches Some(t) ==> self@ == ValueModel::Text(t@),
            s is None ==> !(self@ is Text),
    {
        match self {
            Value::String(s) => Some(s.as_str()),
            _ => None,
        }
    }

    pub fn as_number(&self) -> (n: Option<Number>)
        ensures
            n is Some <==> self is Number,
            n matches Some(x) ==> self@ == number_model(x),
    {
        match self {
            Value::Number(n) => Some(n.clone()),
            _ => None,
        }
    }

    pub fn as_date(&self) -> (d: Option<Date>)
        ensures
            d == (match self@ {
                ValueModel::Date(d) => Some(d),
                _ => None,
            }),
    {
        match self {
            Value::Date(d) => Some(*d),
            _ => None,
        }
    }

    pub fn as_list(&self) -> (items: Option<&[Value]>)
        ensures
            items matches Some(xs) ==> self is List && xs@ == self->List_0@,
            items is None ==> !(self is List),
    {
        match self {
            Value::List(items) => Some(items.as_slice()),
            _ => None,
        }
    }

    /// The fields of an object, in increasing order of their names.
    pub fn as_object(&self) -> (fields: Option<&[(String, Value)]>)
        ensures
            fields matches Some(fs) ==> self is Object && fs@ == self->Object_0@,
            fields is None ==> !(self is Object),
    {
        match self {
            Value::Object(fields) => Some(fields.as_slice()),
            _ => None,
        }
    }

    /// The value of a named field of an object.
    pub fn get(&self, name: &str) -> (field: Option<&Value>)
        ensures
            field matches Some(v) ==> self@ is Object && field_of(self@->Object_0, name@) == Some(v@),
            field is None ==> !(self@ is Object) || field_of(self@->Object_0, name@) is None,
    {
        match self {
            Value::Object(fields) => {
                proof {
                    lemma_fields_model_len(fields@);
                }
                let key = name.to_owned();
                assert(fields_model(fields@).subrange(0, fields@.len() as int) =~= fields_model(fields@));
                let mut i: usize = 0;
                while i < fields.len()
                    invariant
                        i <= fields.len(),
                        *self == Value::Object(*fields),
                        key@ == name@,
                        fields_model(fields@).len() == fields@.len(),
                        forall|k: int| 0 <= k < fields@.len() ==> #[trigger] fields_model(fields@)[k] == (
                            fields@[k].0@,
                            value_model(fields@[k].1),
                        ),
                        field_of(fields_model(fields@), name@) == field_of(
                            fields_model(fields@).subrange(i as int, fields@.len() as int),
                            name@,
                        ),
                    decreases fields.len() - i,
                {
                    let ghost rest = fields_model(fields@).subrange(i as int, fields@.len() as int);
                    assert(rest.drop_first() =~= fields_model(fields@).subrange(i + 1, fields@.len() as int));
                    if fields[i].0 == key {
                        return Some(&fields[i].1);
                    }
                    i += 1;
                }
                None
            },
            _ => None,
        }
    }
}

/// Whether two values are the same value.
fn values_equal(a: &Value, b: &Value) -> (same: bool)
    ensures
        same == (a@ == b@),
    decreases a,
{
    match (a, b) {
        (Value::Null, Value::Null) => true,
        (Value::Bool(x), Value::Bool(y)) => *x == *y,
        (Value::String(x), Value::String(y)) => *x == *y,
        (Value::Number(Number::Integer(x)), Value::Number(Number::Integer(y))) => *x == *y,
        (Value::Number(Number::Float(x)), Value::Number(Number::Float(y))) => *x == *y,
        (Value::Date(x), Value::Date(y)) => *x == *y,
        (Value::List(xs), Value::List(ys)) => {
            proof {
                lemma_list_model_len(xs@);
                lemma_list_model_len(ys@);
            }
            if xs.len() != ys.len() {
                return false;
            }
            let mut i: usize = 0;
            while i < xs.len()
                invariant
                    i <= xs@.len(),
                    xs@.len() == ys@.len(),
                    *a == Value::List(*xs),
                    *b == Value::List(*ys),
                    list_model(xs@).len() == xs@.len(),
                    list_model(ys@).len() == ys@.len(),
                    forall|k: int| 0 <= k < xs@.len() ==> #[trigger] list_model(xs@)[k] == value_model(xs@[k]),
                    forall|k: int| 0 <= k < ys@.len() ==> #[trigger] list_model(ys@)[k] == value_model(ys@[k]),
                    forall|k: int| 0 <= k < i ==> value_model(#[trigger] xs@[k]) == value_model(ys@[k]),
                decreases xs@.len() - i,
            {
                proof {
                    vstd::std_specs::vec::axiom_vec_index_decreases(*xs, i as int);
                    assert(decreases_to!(*a => a->List_0));
                }
                if !values_equal(&xs[i], &ys[i]) {
                    assert(list_model(xs@)[i as int] != list_model(ys@)[i as int]);
                    return false;
                }
                i += 1;
            }
            assert(list_model(xs@) =~= list_model(ys@));
            true
        },
        (Value::Object(xs), Value::Object(ys)) => {
            proof {
                lemma_fields_model_len(xs@);
                lemma_fields_model_len(ys@);
            }
            if xs.len() != ys.len() {
                return false;
            }
            let mut i: usize = 0;
            while i < xs.len()
                invariant
                    i <= xs@.len(),
                    xs@.len() == ys@.len(),
                    *a == Value::Object(*xs),
                    *b == Value::Object(*ys),
                    fields_model(xs@).len() == xs@.len(),
                    fields_model(ys@).len() == ys@.len(),
                    forall|k: int| 0 <= k < xs@.len() ==> #[trigger] fields_model(xs@)[k] == (xs@[k].0@, value_model(xs@[k].1)),
                    forall|k: int| 0 <= k < ys@.len() ==> #[trigger] fields_model(ys@)[k] == (ys@[k].0@, value_model(ys@[k].1)),
                    forall|k: int| 0 <= k < i ==> #[trigger] fields_model(xs@)[k] == fields_model(ys@)[k],
                decreases xs@.len() - i,
            {
                proof {
                    vstd::std_specs::vec::axiom_vec_index_decreases(*xs, i as int);
                    assert(decreases_to!(*a => a->Object_0));
                    assert(decreases_to!(xs[i as int] => xs[i as int].1));
                }
                if xs[i].0 != ys[i].0 {
                    assert(fields_model(xs@)[i as int] != fields_model(ys@)[i as int]);
                    return false;
                }
                if !values_equal(&xs[i].1, &ys[i].1) {
                    assert(fields_model(xs@)[i as int] != fields_model(ys@)[i as int]);
                    return false;
                }
                i += 1;
            }
            assert(fields_model(xs@) =~= fields_model(ys@));
            true
        },
        _ => false,
    }
}

impl PartialEq for Value {
    fn eq(&self, other: &Self) -> (same: bool) {
        values_equal(self, other)
    }
}

impl vstd::std_specs::cmp::PartialEqSpecImpl for Value {
    open spec fn obeys_eq_spec() -> bool {
        true
    }

    open spec fn eq_spec(&self, other: &Value) -> bool {
        self@ == other@
    }
}

} // verus!
