//! JSON documents and query values.

use vstd::prelude::*;

use crate::persistence::{storage_error, ErrorView, StoreError};
use crate::text::texts;

verus! {

#[verifier::external_type_specification]
#[verifier::external_body]
pub struct ExValue(serde_json::Value);

#[verifier::external_type_specification]
#[verifier::external_body]
pub struct ExNumber(serde_json::Number);

#[verifier::external_type_specification]
#[verifier::external_body]
pub struct ExError(serde_json::Error);

/// How a JSON number reads: as a signed 64-bit integer where it is one, as a floating-point
/// number, given by its bits, and as text.
pub struct NumberView {
    pub integer: Option<i64>,
    pub floating: Option<u64>,
    pub text: Seq<char>,
}

/// What a JSON value is. The entries of an object stand in the order in which the
/// value lists them.
pub enum JsonView {
    Null,
    Bool(bool),
    Number(NumberView),
    String(Seq<char>),
    Array(Seq<JsonView>),
    Object(Seq<(Seq<char>, JsonView)>),
}

/// What a `serde_json::Value` holds.
pub uninterp spec fn json_view(value: serde_json::Value) -> JsonView;

/// The readings of a `serde_json::Number`.
pub uninterp spec fn number_view(number: serde_json::Number) -> NumberView;

/// The compact text that `serde_json::to_string` gives for a value, if it gives one.
pub uninterp spec fn json_text(value: JsonView) -> Option<Seq<char>>;

/// The value that `serde_json::from_str` reads from a text, if it accepts it.
pub uninterp spec fn json_parse(text: Seq<char>) -> Option<JsonView>;

/// The compact text that `serde_json::to_string` gives for a list of strings, if it
/// gives one.
pub uninterp spec fn list_text(list: Seq<Seq<char>>) -> Option<Seq<char>>;

/// The list of strings that `serde_json::from_str` reads from a text, if it accepts it.
pub uninterp spec fn list_parse(text: Seq<char>) -> Option<Seq<Seq<char>>>;

/// How many arrays and objects may stand inside one another in a text that
/// `serde_json::from_str` accepts.
pub const MAX_NESTING: usize = 127;

/// Whether a number is an integer: its text has digits and a sign alone.
pub open spec fn is_exact(number: NumberView) -> bool {
    forall|i: int|
        0 <= i < number.text.len() ==> ('0' <= #[trigger] number.text[i] <= '9' || number.text[i]
            == '-')
}

/// Whether no number in `value` is a floating-point number and no more than `nesting`
/// arrays and objects stand inside one another.
pub open spec fn is_plain(value: JsonView, nesting: nat) -> bool
    decreases nesting,
{
    match value {
        JsonView::Null => true,
        JsonView::Bool(_) => true,
        JsonView::Number(number) => is_exact(number),
        JsonView::String(_) => true,
        JsonView::Array(items) => nesting > 0 && forall|i: int|
            0 <= i < items.len() ==> is_plain(#[trigger] items[i], (nesting - 1) as nat),
        JsonView::Object(entries) => nesting > 0 && forall|i: int|
            0 <= i < entries.len() ==> is_plain((#[trigger] entries[i]).1, (nesting - 1) as nat),
    }
}

/// The value at the top-level key `field` of a document, if it has one.
pub open spec fn field_of(doc: JsonView, field: Seq<char>) -> Option<JsonView> {
    match doc {
        JsonView::Object(entries) => if exists|i: int|
            0 <= i < entries.len() && (#[trigger] entries[i]).0 == field {
            Some(
                entries[choose|i: int|
                    0 <= i < entries.len() && (#[trigger] entries[i]).0 == field].1,
            )
        } else {
            None
        },
        _ => None,
    }
}

/// Calls `serde_json::to_string` on a JSON value. The result is named by `json_text`:
/// it depends on the value alone. A value without floating-point numbers whose nesting
/// the parser accepts is what `serde_json::from_str` reads back from its text. Of a
/// value with floating-point numbers that is not said: they may be read back off in
/// the last place.
#[verifier::external_body]
pub(crate) fn json_to_text(value: &serde_json::Value) -> (result: Result<
    String,
    serde_json::Error,
>)
    ensures
        match result {
            Ok(text) => json_text(json_view(*value)) == Some(text@),
            Err(_) => json_text(json_view(*value)) is None,
        },
        result matches Ok(text) ==> is_plain(json_view(*value), MAX_NESTING as nat) ==> json_parse(
            text@,
        ) == Some(json_view(*value)),
{
    serde_json::to_string(value)
}

/// Calls `serde_json::from_str` for a JSON value. The result is named by `json_parse`:
/// it depends on the text alone.
#[verifier::external_body]
pub(crate) fn json_from_text(text: &str) -> (result: Result<serde_json::Value, serde_json::Error>)
    ensures
        match result {
            Ok(value) => json_parse(text@) == Some(json_view(value)),
            Err(_) => json_parse(text@) is None,
        },
{
    serde_json::from_str(text)
}

/// Calls `serde_json::to_string` on a list of strings. The result is named by
/// `list_text`: it depends on the list alone, and `serde_json::from_str` reads the same
/// list back from it.
#[verifier::external_body]
pub(crate) fn list_to_text(list: &Vec<String>) -> (result: Result<String, serde_json::Error>)
    ensures
        match result {
            Ok(text) => list_text(texts(list@)) == Some(text@) && list_parse(text@) == Some(
                texts(list@),
            ),
            Err(_) => list_text(texts(list@)) is None,
        },
{
    serde_json::to_string(list)
}

/// Calls `serde_json::from_str` for a list of strings. The result is named by
/// `list_parse`: it depends on the text alone.
#[verifier::external_body]
pub(crate) fn list_from_text(text: &str) -> (result: Result<Vec<String>, serde_json::Error>)
    ensures
        match result {
            Ok(list) => list_parse(text@) == Some(texts(list@)),
            Err(_) => list_parse(text@) is None,
        },
{
    serde_json::from_str(text)
}

/// Calls `serde_json::Number::as_i64`, the number's reading as a signed integer.
#[verifier::external_body]
fn number_as_i64(number: &serde_json::Number) -> (integer: Option<i64>)
    ensures
        integer == number_view(*number).integer,
{
    number.as_i64()
}

/// Calls `serde_json::Number::as_f64`, the number's reading as a floating-point number, and
/// std's `to_bits` on the result.
#[verifier::external_body]
fn number_real_bits(number: &serde_json::Number) -> (floating: Option<u64>)
    ensures
        floating == number_view(*number).floating,
{
    match number.as_f64() {
        Some(r) => Some(r.to_bits()),
        None => None,
    }
}

/// Calls `to_string` on a `serde_json::Number`, the number's text.
#[verifier::external_body]
fn number_to_text(number: &serde_json::Number) -> (text: String)
    ensures
        text@ == number_view(*number).text,
{
    number.to_string()
}

/// A copy of a `serde_json::Number` reads as the number does.
pub assume_specification[ <serde_json::Number as Clone>::clone ](
    number: &serde_json::Number,
) -> (copy: serde_json::Number)
    ensures
        number_view(copy) == number_view(*number),
;

/// The variant of a JSON value, with what a scalar holds.
enum Shape {
    Null,
    Bool(bool),
    Number(serde_json::Number),
    Text(String),
    Array,
    Object,
}

/// Tells the variants of a `serde_json::Value` apart.
#[verifier::external_body]
fn shape_of(value: &serde_json::Value) -> (shape: Shape)
    ensures
        match json_view(*value) {
            JsonView::Null => shape is Null,
            JsonView::Bool(b) => shape == Shape::Bool(b),
            JsonView::Number(n) => shape matches Shape::Number(number) && number_view(number) == n,
            JsonView::String(s) => shape matches Shape::Text(text) && text@ == s,
            JsonView::Array(_) => shape is Array,
            JsonView::Object(_) => shape is Object,
        },
{
    match value {
        serde_json::Value::Null => Shape::Null,
        serde_json::Value::Bool(b) => Shape::Bool(*b),
        serde_json::Value::Number(n) => Shape::Number(n.clone()),
        serde_json::Value::String(s) => Shape::Text(s.clone()),
        serde_json::Value::Array(_) => Shape::Array,
        serde_json::Value::Object(_) => Shape::Object,
    }
}

/// A JSON number that reads as a floating-point number.
pub struct Real {
    pub(crate) number: serde_json::Number,
}

impl View for Real {
    type V = NumberView;

    closed spec fn view(&self) -> NumberView {
        number_view(self.number)
    }
}

impl Real {
    /// The number reads as a floating-point number.
    #[verifier::type_invariant]
    pub(crate) closed spec fn readable(self) -> bool {
        number_view(self.number).floating is Some
    }

    /// The number as a `Real`, if it reads as a floating-point number.
    pub fn new(number: &serde_json::Number) -> (floating: Option<Real>)
        ensures
            match floating {
                Some(r) => r@ == number_view(*number) && r@.floating is Some,
                None => number_view(*number).floating is None,
            },
    {
        match number_real_bits(number) {
            Some(_) => Some(Real { number: number.clone() }),
            None => None,
        }
    }

    /// A copy of the number.
    pub fn copy(&self) -> (copy: Real)
        ensures
            copy@ == self@,
    {
        proof {
            use_type_invariant(self);
        }
        Real { number: self.number.clone() }
    }
}

/// A number to look for, by its readings.
pub struct FieldNumber {
    pub integer: Option<i64>,
    pub floating: Option<Real>,
    pub text: String,
}

/// A JSON value to look for in a document field.
pub enum FieldValue {
    Null,
    Bool(bool),
    Number(FieldNumber),
    Text(String),
    Array,
    Object,
}

/// The model of a `FieldValue`.
pub enum FieldView {
    Null,
    Bool(bool),
    Number { integer: Option<i64>, floating: Option<u64>, text: Seq<char> },
    Text(Seq<char>),
    Array,
    Object,
}

impl View for FieldValue {
    type V = FieldView;

    open spec fn view(&self) -> FieldView {
        match self {
            FieldValue::Null => FieldView::Null,
            FieldValue::Bool(b) => FieldView::Bool(*b),
            FieldValue::Number(n) => FieldView::Number {
                integer: n.integer,
                floating: match n.floating {
                    Some(floating) => Some(floating@.floating->0),
                    None => None,
                },
                text: n.text@,
            },
            FieldValue::Text(text) => FieldView::Text(text@),
            FieldValue::Array => FieldView::Array,
            FieldValue::Object => FieldView::Object,
        }
    }
}

/// What of a JSON value matters to a search.
pub open spec fn field_view(value: JsonView) -> FieldView {
    match value {
        JsonView::Null => FieldView::Null,
        JsonView::Bool(b) => FieldView::Bool(b),
        JsonView::Number(n) => FieldView::Number {
            integer: n.integer,
            floating: n.floating,
            text: n.text,
        },
        JsonView::String(s) => FieldView::Text(s),
        JsonView::Array(_) => FieldView::Array,
        JsonView::Object(_) => FieldView::Object,
    }
}

impl FieldValue {
    /// The value to look for that stands for a JSON value.
    pub fn from_json(value: &serde_json::Value) -> (field_value: FieldValue)
        ensures
            field_value@ == field_view(json_view(*value)),
    {
        match shape_of(value) {
            Shape::Null => FieldValue::Null,
            Shape::Bool(b) => FieldValue::Bool(b),
            Shape::Number(n) => {
                let integer = number_as_i64(&n);
                let floating = Real::new(&n);
                let text = number_to_text(&n);
                FieldValue::Number(FieldNumber { integer, floating, text })
            },
            Shape::Text(text) => FieldValue::Text(text),
            Shape::Array => FieldValue::Array,
            Shape::Object => FieldValue::Object,
        }
    }
}

/// A value as SQLite stores and compares it.
pub enum SqlValue {
    Null,
    Integer(i64),
    Real(Real),
    Text(String),
}

/// The model of a `SqlValue`.
pub enum SqlView {
    Null,
    Integer(i64),
    Real(u64),
    Text(Seq<char>),
}

impl View for SqlValue {
    type V = SqlView;

    open spec fn view(&self) -> SqlView {
        match self {
            SqlValue::Null => SqlView::Null,
            SqlValue::Integer(i) => SqlView::Integer(*i),
            SqlValue::Real(floating) => SqlView::Real(floating@.floating->0),
            SqlValue::Text(text) => SqlView::Text(text@),
        }
    }
}

/// The models of a list of values.
pub open spec fn sql_views(values: Seq<SqlValue>) -> Seq<SqlView> {
    Seq::new(values.len(), |i: int| values[i]@)
}

/// The SQLite value that `json_extract` yields for a stored scalar. A boolean is 0 or 1.
/// A number is an integer where it fits one, else a floating-point number, else its text.
/// Arrays and objects are no scalars.
pub open spec fn sql_of(value: FieldView) -> Result<SqlView, ErrorView> {
    match value {
        FieldView::Null => Ok(SqlView::Null),
        FieldView::Bool(b) => Ok(
            SqlView::Integer(
                if b {
                    1
                } else {
                    0
                },
            ),
        ),
        FieldView::Number { integer: Some(i), .. } => Ok(SqlView::Integer(i)),
        FieldView::Number { integer: None, floating: Some(r), .. } => Ok(SqlView::Real(r)),
        FieldView::Number { integer: None, floating: None, text } => Ok(SqlView::Text(text)),
        FieldView::Text(text) => Ok(SqlView::Text(text)),
        FieldView::Array => Err(ErrorView::Storage(NOT_A_SCALAR@)),
        FieldView::Object => Err(ErrorView::Storage(NOT_A_SCALAR@)),
    }
}

/// The text of the error for a query value that is no scalar.
pub const NOT_A_SCALAR: &'static str = "ByField value must be a scalar (string/number/bool/null)";

/// Maps a JSON query value to the SQLite value that `json_extract(doc, '$.field')`
/// yields for the stored value, so that an equality compares like with like.
pub fn json_value_to_sql(value: &serde_json::Value) -> (result: Result<SqlValue, StoreError>)
    ensures
        match result {
            Ok(sql) => sql_of(field_view(json_view(*value))) == Ok::<SqlView, ErrorView>(sql@),
            Err(error) => sql_of(field_view(json_view(*value))) == Err::<SqlView, ErrorView>(
                error@,
            ),
        },
{
    field_value_to_sql(&FieldValue::from_json(value))
}

/// Maps what of a JSON query value matters to a search to its SQLite value.
pub fn field_value_to_sql(value: &FieldValue) -> (result: Result<SqlValue, StoreError>)
    ensures
        match result {
            Ok(sql) => sql_of(value@) == Ok::<SqlView, ErrorView>(sql@),
            Err(error) => sql_of(value@) == Err::<SqlView, ErrorView>(error@),
        },
{
    match value {
        FieldValue::Null => Ok(SqlValue::Null),
        FieldValue::Bool(b) => Ok(
            SqlValue::Integer(
                if *b {
                    1
                } else {
                    0
                },
            ),
        ),
        FieldValue::Number(number) => match number.integer {
            Some(i) => Ok(SqlValue::Integer(i)),
            None => match &number.floating {
                Some(floating) => Ok(SqlValue::Real(floating.copy())),
                None => Ok(SqlValue::Text(number.text.clone())),
            },
        },
        FieldValue::Text(text) => Ok(SqlValue::Text(text.clone())),
        FieldValue::Array => Err(storage_error(NOT_A_SCALAR)),
        FieldValue::Object => Err(storage_error(NOT_A_SCALAR)),
    }
}

} // verus!
