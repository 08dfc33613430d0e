//! JSON bodies of answers: an object whose members are scalars, flat objects or
//! lists of flat objects.

use serde_json::Value;
use vstd::prelude::*;

verus! {

/// A scalar JSON value; a missing number is null.
#[derive(Debug, Clone, PartialEq, Eq)]
pub enum JsonScalar {
    Bool(bool),
    Number(Option<u64>),
    Text(String),
}

/// A scalar JSON value, its text as characters.
pub enum ScalarView {
    Bool(bool),
    Number(Option<u64>),
    Text(Seq<char>),
}

impl View for JsonScalar {
    type V = ScalarView;

    open spec fn view(&self) -> ScalarView {
        match self {
            JsonScalar::Bool(flag) => ScalarView::Bool(*flag),
            JsonScalar::Number(number) => ScalarView::Number(*number),
            JsonScalar::Text(text) => ScalarView::Text(text@),
        }
    }
}

/// A JSON object whose members are scalars.
#[derive(Debug, Clone, PartialEq, Eq)]
pub struct JsonRecord {
    pub members: Vec<(String, JsonScalar)>,
}

impl View for JsonRecord {
    type V = Seq<(Seq<char>, ScalarView)>;

    open spec fn view(&self) -> Seq<(Seq<char>, ScalarView)> {
        self.members@.map_values(|member: (String, JsonScalar)| (member.0@, member.1@))
    }
}

/// A member's value in the body of an answer.
#[derive(Debug, Clone, PartialEq, Eq)]
pub enum JsonField {
    Scalar(JsonScalar),
    Record(JsonRecord),
    Records(Vec<JsonRecord>),
}

/// A member's value in the body of an answer, its texts as characters.
pub enum FieldView {
    Scalar(ScalarView),
    Record(Seq<(Seq<char>, ScalarView)>),
    Records(Seq<Seq<(Seq<char>, ScalarView)>>),
}

impl View for JsonField {
    type V = FieldView;

    open spec fn view(&self) -> FieldView {
        match self {
            JsonField::Scalar(scalar) => FieldView::Scalar(scalar@),
            JsonField::Record(record) => FieldView::Record(record@),
            JsonField::Records(records) => FieldView::Records(
                records@.map_values(|record: JsonRecord| record@),
            ),
        }
    }
}

/// The body of an answer: a JSON object.
#[derive(Debug, Clone, PartialEq, Eq)]
pub struct JsonBody {
    pub members: Vec<(String, JsonField)>,
}

impl View for JsonBody {
    type V = Seq<(Seq<char>, FieldView)>;

    open spec fn view(&self) -> Seq<(Seq<char>, FieldView)> {
        self.members@.map_values(|member: (String, JsonField)| (member.0@, member.1@))
    }
}

/// What `serde_json::Value` writes for an object with these members, each
/// inserted in turn.
pub uninterp spec fn json_text(members: Seq<(Seq<char>, FieldView)>) -> Seq<char>;

/// Builds the `serde_json::Value` with the body's members and writes it by
/// `to_string`, that is by `Display` for `serde_json::Value`.
///
/// Believed of it: the text is a function of the members. What the text is, and
/// the order in which it has the members, is not said.
#[verifier::external_body]
pub(crate) fn write_json(body: JsonBody) -> (text: String)
    ensures
        text@ == json_text(body@),
{
    let scalar = |value: JsonScalar| match value {
        JsonScalar::Bool(flag) => Value::from(flag),
        JsonScalar::Number(number) => Value::from(number),
        JsonScalar::Text(text) => Value::from(text),
    };
    let record = |value: JsonRecord| -> Value {
        value.members.into_iter().map(|(name, value)| (name, scalar(value))).collect()
    };
    let field = |value: JsonField| match value {
        JsonField::Scalar(value) => scalar(value),
        JsonField::Record(value) => record(value),
        JsonField::Records(values) => values.into_iter().map(record).collect(),
    };
    Value::from_iter(body.members.into_iter().map(|(name, value)| (name, field(value)))).to_string()
}

/// A named member of a flat object.
pub fn member(name: &str, value: JsonScalar) -> (member: (String, JsonScalar))
    ensures
        member.0@ == name@,
        member.1 == value,
{
    (name.to_owned(), value)
}

/// A named member of a body.
pub fn field(name: &str, value: JsonField) -> (field: (String, JsonField))
    ensures
        field.0@ == name@,
        field.1 == value,
{
    (name.to_owned(), value)
}

/// The text as a scalar.
pub fn text(value: &str) -> (scalar: JsonScalar)
    ensures
        scalar@ == ScalarView::Text(value@),
        scalar is Text && scalar->Text_0@ == value@,
{
    JsonScalar::Text(value.to_owned())
}

/// The view of a scalar tells its kind and all that it holds.
pub proof fn law_scalar_view_keeps_everything(scalar: JsonScalar)
    ensures
        scalar is Bool <==> scalar@ is Bool,
        scalar is Number <==> scalar@ is Number,
        scalar is Text <==> scalar@ is Text,
        scalar is Bool ==> scalar@->Bool_0 == scalar->Bool_0,
        scalar is Number ==> scalar@->Number_0 == scalar->Number_0,
        scalar is Text ==> scalar@->Text_0 == scalar->Text_0@,
{
}

/// The view of a flat object has its members, one by one and in their order.
pub proof fn law_record_view_keeps_every_member(record: JsonRecord)
    ensures
        record@.len() == record.members@.len(),
        forall|i: int|
            0 <= i < record.members@.len() ==> (#[trigger] record@[i]).0 == record.members@[i].0@
                && record@[i].1 == record.members@[i].1@,
{
}

/// The view of a member's value tells its kind and all that it holds.
pub proof fn law_field_view_keeps_everything(field: JsonField)
    ensures
        field is Scalar <==> field@ is Scalar,
        field is Record <==> field@ is Record,
        field is Records <==> field@ is Records,
        field is Scalar ==> field@->Scalar_0 == field->Scalar_0@,
        field is Record ==> field@->Record_0 == field->Record_0@,
        field is Records ==> field@->Records_0.len() == field->Records_0@.len() && forall|i: int|
            0 <= i < field->Records_0@.len() ==> #[trigger] field@->Records_0[i]
                == field->Records_0@[i]@,
{
}

/// The view of a body has its members, one by one and in their order.
pub proof fn law_body_view_keeps_every_member(body: JsonBody)
    ensures
        body@.len() == body.members@.len(),
        forall|i: int|
            0 <= i < body.members@.len() ==> (#[trigger] body@[i]).0 == body.members@[i].0@
                && body@[i].1 == body.members@[i].1@,
{
}

/// A member has the name and the value that it is made with, and a text becomes
/// the scalar with just that text.
pub proof fn law_members_are_what_they_are_made_of(
    name: &str,
    scalar: JsonScalar,
    value: JsonField,
)
    ensures
        forall|made: (String, JsonScalar)| #[trigger]
            call_ensures(member, (name, scalar), made) ==> made.0@ == name@ && made.1 == scalar,
        forall|made: (String, JsonField)| #[trigger]
            call_ensures(field, (name, value), made) ==> made.0@ == name@ && made.1 == value,
        forall|made: JsonScalar| #[trigger]
            call_ensures(text, (name,), made) ==> made is Text && made->Text_0@ == name@,
{
}

} // verus!
