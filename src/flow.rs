//! The values that flow between nodes, and the descriptions that nodes give
//! of themselves.
use vstd::prelude::*;
use json::JsonValue;

verus! {

/// A value produced by pulling a node.
#[derive(Debug, PartialEq)]
pub enum FlowData {
    Nothing,
    Error(String),
    String(String),
    StringArray(Vec<String>),
    Int(i64),
    IntArray(Vec<i64>),
    Json(JsonValue),
}

/// The mathematical form of a `FlowData`.
pub enum Flow {
    Nothing,
    Error(Seq<char>),
    Text(Seq<char>),
    Texts(Seq<Seq<char>>),
    Int(i64),
    Ints(Seq<i64>),
    Json(JsonValue),
}

pub open spec fn texts_view(v: Seq<String>) -> Seq<Seq<char>> {
    v.map_values(|s: String| s@)
}

impl View for FlowData {
    type V = Flow;

    open spec fn view(&self) -> Flow {
        match self {
            FlowData::Nothing => Flow::Nothing,
            FlowData::Error(m) => Flow::Error(m@),
            FlowData::String(t) => Flow::Text(t@),
            FlowData::StringArray(v) => Flow::Texts(texts_view(v@)),
            FlowData::Int(i) => Flow::Int(*i),
            FlowData::IntArray(v) => Flow::Ints(v@),
            FlowData::Json(j) => Flow::Json(*j),
        }
    }
}

/// An error value with the given message.
pub fn error_data(message: &str) -> (r: FlowData)
    ensures
        r@ == Flow::Error(message@),
{
    FlowData::Error(message.to_owned())
}

/// A named attribute of a node, kept when the graph is saved.
#[derive(Debug, PartialEq)]
pub enum SpecAttribute {
    String(String, String),
    Int(String, i64),
}

/// What a node is: its id, its type name and its settings.
#[derive(Debug, PartialEq)]
pub struct Spec {
    pub id: i64,
    pub type_: String,
    pub attributes: Vec<SpecAttribute>,
}

/// A text field that a node offers for editing.
pub struct StringFieldData {
    pub label: String,
    pub field: String,
}

/// The fields that a node offers for editing.
pub enum NodeUI {
    Nothing,
    StringField(StringFieldData),
}

/// A value read from, or written to, an editable field.
#[derive(Debug, PartialEq)]
pub enum NodeUIData {
    Nothing,
    StringData(String),
}

} // verus!

verus! {


/// A copy of a list of strings.
pub fn copy_texts(v: &Vec<String>) -> (r: Vec<String>)
    ensures
        texts_view(r@) == texts_view(v@),
{
    let mut out: Vec<String> = Vec::new();
    let mut i: usize = 0;
    while i < v.len()
        invariant
            0 <= i <= v.len(),
            out@.len() == i,
            forall|j: int| 0 <= j < i ==> #[trigger] out@[j]@ == v@[j]@,
        decreases v.len() - i,
    {
        let s = v[i].clone();
        out.push(s);
        i += 1;
    }
    proof {
        assert(texts_view(out@) =~= texts_view(v@));
    }
    out
}

} // verus!
