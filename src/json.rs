use vstd::prelude::*;

verus! {

/// A JSON value as the library reads it.
pub enum Json {
    Null,
    Bool(bool),
    /// A number; it holds the value when that is an integer that fits `u64`.
    Number(Option<u64>),
    Str(String),
    Array(Vec<Json>),
    /// Members as the parser hands them over: serde_json sorts them by key
    /// and keeps the last of repeated keys.
    Object(Vec<(String, Json)>),
}

/// The mathematical value of a `Json`: the same tree over sequences.
pub enum JsonView {
    Null,
    Bool(bool),
    Number(Option<u64>),
    Str(Seq<char>),
    Array(Seq<JsonView>),
    Object(Seq<(Seq<char>, JsonView)>),
}

impl Json {
    pub open spec fn model(&self) -> JsonView
        decreases self,
    {
        match self {
            Json::Null => JsonView::Null,
            Json::Bool(b) => JsonView::Bool(*b),
            Json::Number(n) => JsonView::Number(*n),
            Json::Str(s) => JsonView::Str(s@),
            Json::Array(a) => JsonView::Array(
                Seq::new(
                    a@.len(),
                    |i: int|
                        if 0 <= i < a@.len() {
                            a@[i].model()
                        } else {
                            JsonView::Null
                        },
                ),
            ),
            Json::Object(m) => JsonView::Object(
                Seq::new(
                    m@.len(),
                    |i: int|
                        if 0 <= i < m@.len() {
                            (m@[i].0@, m@[i].1.model())
                        } else {
                            (Seq::empty(), JsonView::Null)
                        },
                ),
            ),
        }
    }
}

/// serde_json::Value, which the conversions below take apart and build.
#[verifier::external_type_specification]
#[verifier::external_body]
pub struct ExValue(serde_json::Value);

/// What `parse_json` yields for a text: the document, or `None` where the
/// text is not JSON.
pub uninterp spec fn json_parsed(text: Seq<char>) -> Option<Json>;

/// The pretty-printed text that `render_json` writes for a value.
pub uninterp spec fn json_rendered(value: JsonView) -> Seq<char>;

/// Relies on serde_json::from_str into serde_json::Value: the outcome
/// depends on the text alone.
#[verifier::external_body]
pub fn parse_json(text: &str) -> (r: Option<Json>)
    ensures
        r == json_parsed(text@),
{
    serde_json::from_str::<serde_json::Value>(text).ok().map(from_value)
}

/// Relies on the alternate (`{:#}`) Display of serde_json::Value, which
/// pretty-prints and cannot fail: the text depends on the value alone.
#[verifier::external_body]
pub fn render_json(value: &Json) -> (r: String)
    ensures
        r@ == json_rendered(value.model()),
{
    format!("{:#}", to_value(value))
}

/// Relies on the variants of serde_json::Value and on Number::as_u64, to
/// carry a parsed value over into the library's tree.
#[verifier::external_body]
fn from_value(v: serde_json::Value) -> Json {
    match v {
        serde_json::Value::Null => Json::Null,
        serde_json::Value::Bool(b) => Json::Bool(b),
        serde_json::Value::Number(n) => Json::Number(n.as_u64()),
        serde_json::Value::String(s) => Json::Str(s),
        serde_json::Value::Array(a) => Json::Array(a.into_iter().map(from_value).collect()),
        serde_json::Value::Object(m) => Json::Object(m.into_iter().map(|(k, x)| (k, from_value(x))).collect()),
    }
}

/// Relies on serde_json::Value's `From` impls, to carry the library's tree
/// over into a value that serde_json can print.
#[verifier::external_body]
fn to_value(j: &Json) -> serde_json::Value {
    match j {
        Json::Null => serde_json::Value::Null,
        Json::Bool(b) => serde_json::Value::Bool(*b),
        Json::Number(n) => serde_json::Value::from(*n),
        Json::Str(s) => serde_json::Value::String(s.clone()),
        Json::Array(a) => serde_json::Value::Array(a.iter().map(to_value).collect()),
        Json::Object(m) => serde_json::Value::Object(m.iter().map(|(k, x)| (k.clone(), to_value(x))).collect()),
    }
}

} // verus!
