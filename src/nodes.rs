//! The catalog of node kinds: what each one computes from what its inputs
//! produced, how it is wired, and how it describes itself.
use vstd::prelude::*;
use crate::flow::{
    error_data, texts_view, Flow, FlowData, NodeUI, NodeUIData, Spec, SpecAttribute,
    StringFieldData,
};
use vstd::utf8::encode_utf8;
use crate::json_support::{
    has_long_digit_run, long_digit_run, json_keys, json_text, keys_of_json, object_of_strings, parse_json, parsed_json, string_object,
    stringify_json,
};
use crate::text::{contains_text, has_substring, i64_of, lines_of, parse_i64, split_lines};

verus! {

pub open spec fn no_input() -> Flow {
    Flow::Error("No input"@)
}

pub open spec fn unknown_data() -> Flow {
    Flow::Error("Unknown data"@)
}

/// The integers among `lines`, in order; lines that do not read as an
/// `i64` are left out.
pub open spec fn parsed_ints(lines: Seq<Seq<char>>) -> Seq<i64>
    decreases lines.len(),
{
    if lines.len() == 0 {
        Seq::empty()
    } else {
        let rest = parsed_ints(lines.drop_last());
        match i64_of(lines.last()) {
            Some(v) => rest.push(v),
            None => rest,
        }
    }
}

/// The sum of a sequence of integers.
pub open spec fn sum_of(s: Seq<i64>) -> int
    decreases s.len(),
{
    if s.len() == 0 {
        0
    } else {
        sum_of(s.drop_last()) + s.last()
    }
}

/// The lines of `lines` that contain `value`, in order.
pub open spec fn lines_containing(lines: Seq<Seq<char>>, value: Seq<char>) -> Seq<Seq<char>>
    decreases lines.len(),
{
    if lines.len() == 0 {
        Seq::empty()
    } else {
        let rest = lines_containing(lines.drop_last(), value);
        if has_substring(lines.last(), value) {
            rest.push(lines.last())
        } else {
            rest
        }
    }
}

/// Keys paired with values, up to the shorter of the two.
pub open spec fn zip_texts(keys: Seq<Seq<char>>, values: Seq<Seq<char>>) -> Seq<
    (Seq<char>, Seq<char>),
> {
    let n = if keys.len() <= values.len() {
        keys.len()
    } else {
        values.len()
    };
    Seq::new(n, |i: int| (keys[i], values[i]))
}

pub open spec fn lines_output(content: Flow) -> Flow {
    match content {
        Flow::Text(t) => Flow::Texts(lines_of(t)),
        Flow::Error(m) => Flow::Error(m),
        _ => unknown_data(),
    }
}

/// A text with a long run of digits is refused before parsing.
pub open spec fn json_parse_output(content: Flow) -> Flow {
    match content {
        Flow::Text(t) => if has_long_digit_run(encode_utf8(t)) {
            Flow::Error("Too many digits in a row"@)
        } else {
            match parsed_json(t) {
                Some(v) => Flow::Json(v),
                None => Flow::Error("Failed to parse json"@),
            }
        },
        Flow::Error(m) => Flow::Error(m),
        _ => unknown_data(),
    }
}

pub open spec fn json_stringify_output(content: Flow) -> Flow {
    match content {
        Flow::Json(v) => Flow::Text(json_text(v)),
        Flow::Error(m) => Flow::Error(m),
        _ => unknown_data(),
    }
}

pub open spec fn json_keys_output(content: Flow) -> Flow {
    match content {
        Flow::Json(v) => Flow::Texts(json_keys(v)),
        Flow::Error(m) => Flow::Error(m),
        _ => unknown_data(),
    }
}

pub open spec fn to_int_output(content: Flow) -> Flow {
    match content {
        Flow::Texts(lines) => Flow::Ints(parsed_ints(lines)),
        Flow::Error(m) => Flow::Error(m),
        _ => unknown_data(),
    }
}

pub open spec fn sum_output(content: Flow) -> Flow {
    match content {
        Flow::Ints(v) => if i64::MIN <= sum_of(v) <= i64::MAX {
            Flow::Int(sum_of(v) as i64)
        } else {
            Flow::Error("Sum out of range"@)
        },
        Flow::Error(m) => Flow::Error(m),
        _ => unknown_data(),
    }
}

pub open spec fn string_contains_output(content: Flow, value: Seq<char>) -> Flow {
    match content {
        Flow::Texts(lines) => Flow::Texts(lines_containing(lines, value)),
        Flow::Error(m) => Flow::Error(m),
        _ => unknown_data(),
    }
}

/// An upstream error is passed on as it is, the keys' first.
pub open spec fn json_object_output(keys: Flow, values: Flow) -> Flow {
    match (keys, values) {
        (Flow::Error(m), _) => Flow::Error(m),
        (_, Flow::Error(m)) => Flow::Error(m),
        (Flow::Texts(k), Flow::Texts(v)) => Flow::Json(string_object(zip_texts(k, v))),
        _ => Flow::Error("Incorrect inputs"@),
    }
}

/// Reads its text once, from outside the graph, and keeps it: `Ok` with the
/// text, or `Err` with the reason it could not be read.
pub struct StandardIn {
    pub id: i64,
    pub cache: Option<Result<String, String>>,
}

/// What `StandardIn` produces once it has read.
pub open spec fn read_output(read: Result<String, String>) -> Flow {
    match read {
        Ok(t) => Flow::Text(t@),
        Err(m) => Flow::Error(m@),
    }
}

/// Writes what its input produced to the console.
pub struct StandardOut {
    pub id: i64,
    pub input: Option<i64>,
}

/// Splits a text into lines.
pub struct Lines {
    pub id: i64,
    pub input: Option<i64>,
}

/// Parses a text as JSON.
pub struct JsonParse {
    pub id: i64,
    pub input: Option<i64>,
}

/// Writes a JSON value as text.
pub struct JsonStringify {
    pub id: i64,
    pub input: Option<i64>,
}

/// Lists the keys of a JSON object.
pub struct JsonKeys {
    pub id: i64,
    pub input: Option<i64>,
}

/// Builds a JSON object from a list of keys (slot 1) and a list of values
/// (slot 2).
pub struct JsonObject {
    pub id: i64,
    pub keys_input: Option<i64>,
    pub values_input: Option<i64>,
}

/// Reads each line as an integer, leaving out those that are not.
pub struct ToInt {
    pub id: i64,
    pub input: Option<i64>,
}

/// Adds up a list of integers.
pub struct Sum {
    pub id: i64,
    pub input: Option<i64>,
}

/// Keeps the lines that contain `value`.
pub struct StringContains {
    pub id: i64,
    pub input: Option<i64>,
    pub value: String,
}

/// One line of console output, or a value to show in its debug form.
#[derive(Debug, PartialEq)]
pub enum Printed {
    Line(String),
    Debug(FlowData),
}

pub enum Output {
    Line(Seq<char>),
    Debug(Flow),
}

impl View for Printed {
    type V = Output;

    open spec fn view(&self) -> Output {
        match self {
            Printed::Line(s) => Output::Line(s@),
            Printed::Debug(d) => Output::Debug(d@),
        }
    }
}

pub open spec fn outputs_view(v: Seq<Printed>) -> Seq<Output> {
    v.map_values(|p: Printed| p@)
}

/// What `StandardOut` writes for a value: a list line by line, a text as it
/// is, anything else in its debug form.
pub open spec fn printed_for(content: Flow) -> Seq<Output> {
    match content {
        Flow::Texts(lines) => lines.map_values(|l: Seq<char>| Output::Line(l)),
        Flow::Text(t) => seq![Output::Line(t)],
        _ => seq![Output::Debug(content)],
    }
}

impl StandardIn {
    /// The text read earlier, or `None` while nothing has been read yet.
    pub fn pull(&self) -> (r: Option<FlowData>)
        ensures
            r is Some <==> self.cache is Some,
            r matches Some(d) ==> d@ == read_output(self.cache->0),
    {
        match &self.cache {
            Some(Ok(t)) => Some(FlowData::String(t.clone())),
            Some(Err(m)) => Some(FlowData::Error(m.clone())),
            None => None,
        }
    }
}

impl StandardOut {
    /// What to write for the value that the input produced; the node itself
    /// produces `Nothing`.
    pub fn pull(&self, content: FlowData, out: &mut Vec<Printed>) -> (r: FlowData)
        ensures
            r@ == Flow::Nothing,
            outputs_view(final(out)@) == outputs_view(old(out)@) + printed_for(content@),
    {
        let ghost start = outputs_view(out@);
        match content {
            FlowData::StringArray(lines) => {
                let mut i: usize = 0;
                while i < lines.len()
                    invariant
                        0 <= i <= lines.len(),
                        outputs_view(out@) == start + texts_view(lines@).subrange(
                            0,
                            i as int,
                        ).map_values(|l: Seq<char>| Output::Line(l)),
                    decreases lines.len() - i,
                {
                    let ghost before = out@;
                    out.push(Printed::Line(lines[i].clone()));
                    proof {
                        assert(outputs_view(out@) =~= outputs_view(before) + seq![
                            Output::Line(lines@[i as int]@),
                        ]);
                        assert(texts_view(lines@).subrange(0, i + 1).map_values(
                            |l: Seq<char>| Output::Line(l),
                        ) =~= texts_view(lines@).subrange(0, i as int).map_values(
                            |l: Seq<char>| Output::Line(l),
                        ) + seq![Output::Line(lines@[i as int]@)]);
                    }
                    i += 1;
                }
                proof {
                    assert(texts_view(lines@).subrange(0, lines.len() as int) =~= texts_view(
                        lines@,
                    ));
                }
            },
            FlowData::String(text) => {
                let ghost before = out@;
                out.push(Printed::Line(text));
                proof {
                    assert(outputs_view(out@) =~= outputs_view(before) + printed_for(content@));
                }
            },
            other => {
                let ghost before = out@;
                let ghost seen = other@;
                out.push(Printed::Debug(other));
                proof {
                    assert(outputs_view(out@) =~= outputs_view(before) + seq![Output::Debug(seen)]);
                }
            },
        }
        FlowData::Nothing
    }
}

impl Lines {
    /// The lines of the text that the input produced.
    pub fn pull(&self, content: FlowData) -> (r: FlowData)
        ensures
            r@ == lines_output(content@),
    {
        match content {
            FlowData::String(text) => FlowData::StringArray(split_lines(text.as_str())),
            FlowData::Error(m) => FlowData::Error(m),
            _ => error_data("Unknown data"),
        }
    }
}

impl JsonParse {
    /// The JSON value that the input's text holds.
    pub fn pull(&self, content: FlowData) -> (r: FlowData)
        ensures
            r@ == json_parse_output(content@),
    {
        match content {
            FlowData::String(text) => {
                if long_digit_run(text.as_str().as_bytes()) {
                    error_data("Too many digits in a row")
                } else {
                    match parse_json(text.as_str()) {
                        Ok(data) => FlowData::Json(data),
                        Err(_) => error_data("Failed to parse json"),
                    }
                }
            },
            FlowData::Error(m) => FlowData::Error(m),
            _ => error_data("Unknown data"),
        }
    }
}

impl JsonStringify {
    /// The text of the JSON value that the input produced.
    pub fn pull(&self, content: FlowData) -> (r: FlowData)
        ensures
            r@ == json_stringify_output(content@),
    {
        match content {
            FlowData::Json(data) => FlowData::String(stringify_json(data)),
            FlowData::Error(m) => FlowData::Error(m),
            _ => error_data("Unknown data"),
        }
    }
}

impl JsonKeys {
    /// The keys of the JSON value that the input produced.
    pub fn pull(&self, content: FlowData) -> (r: FlowData)
        ensures
            r@ == json_keys_output(content@),
    {
        match content {
            FlowData::Json(data) => FlowData::StringArray(keys_of_json(&data)),
            FlowData::Error(m) => FlowData::Error(m),
            _ => error_data("Unknown data"),
        }
    }
}

impl ToInt {
    /// The integers among the lines that the input produced.
    pub fn pull(&self, content: FlowData) -> (r: FlowData)
        ensures
            r@ == to_int_output(content@),
    {
        match content {
            FlowData::StringArray(lines) => {
                let mut out: Vec<i64> = Vec::new();
                let mut i: usize = 0;
                while i < lines.len()
                    invariant
                        0 <= i <= lines.len(),
                        out@ == parsed_ints(texts_view(lines@).subrange(0, i as int)),
                    decreases lines.len() - i,
                {
                    proof {
                        assert(texts_view(lines@).subrange(0, i + 1).drop_last()
                            =~= texts_view(lines@).subrange(0, i as int));
                    }
                    match parse_i64(lines[i].as_str()) {
                        Some(v) => out.push(v),
                        None => {},
                    }
                    i += 1;
                }
                proof {
                    assert(texts_view(lines@).subrange(0, lines.len() as int) =~= texts_view(
                        lines@,
                    ));
                }
                FlowData::IntArray(out)
            },
            FlowData::Error(m) => FlowData::Error(m),
            _ => error_data("Unknown data"),
        }
    }
}

impl Sum {
    /// The sum of the integers that the input produced, or an error when it
    /// does not fit in an `i64`.
    pub fn pull(&self, content: FlowData) -> (r: FlowData)
        ensures
            r@ == sum_output(content@),
    {
        match content {
            FlowData::IntArray(ints) => {
                let mut total: i128 = 0;
                let mut i: usize = 0;
                while i < ints.len()
                    invariant
                        0 <= i <= ints.len(),
                        total == sum_of(ints@.subrange(0, i as int)),
                        -(i as int) * 0x8000_0000_0000_0000 <= total <= (i as int)
                            * 0x8000_0000_0000_0000,
                    decreases ints.len() - i,
                {
                    proof {
                        assert(ints@.subrange(0, i + 1).drop_last() =~= ints@.subrange(
                            0,
                            i as int,
                        ));
                    }
                    total = total + ints[i] as i128;
                    i += 1;
                }
                proof {
                    assert(ints@.subrange(0, ints.len() as int) =~= ints@);
                }
                if total < i64::MIN as i128 || total > i64::MAX as i128 {
                    error_data("Sum out of range")
                } else {
                    FlowData::Int(total as i64)
                }
            },
            FlowData::Error(m) => FlowData::Error(m),
            _ => error_data("Unknown data"),
        }
    }
}

impl StringContains {
    /// The lines, among those that the input produced, that contain `value`.
    pub fn pull(&self, content: FlowData) -> (r: FlowData)
        ensures
            r@ == string_contains_output(content@, self.value@),
    {
        match content {
            FlowData::StringArray(lines) => {
                let mut out: Vec<String> = Vec::new();
                let mut i: usize = 0;
                while i < lines.len()
                    invariant
                        0 <= i <= lines.len(),
                        texts_view(out@) == lines_containing(
                            texts_view(lines@).subrange(0, i as int),
                            self.value@,
                        ),
                    decreases lines.len() - i,
                {
                    proof {
                        assert(texts_view(lines@).subrange(0, i + 1).drop_last()
                            =~= texts_view(lines@).subrange(0, i as int));
                    }
                    if contains_text(lines[i].as_str(), self.value.as_str()) {
                        let ghost before = out@;
                        out.push(lines[i].clone());
                        proof {
                            assert(texts_view(out@) =~= texts_view(before).push(lines@[i as int]@));
                        }
                    }
                    i += 1;
                }
                proof {
                    assert(texts_view(lines@).subrange(0, lines.len() as int) =~= texts_view(
                        lines@,
                    ));
                }
                FlowData::StringArray(out)
            },
            FlowData::Error(m) => FlowData::Error(m),
            _ => error_data("Unknown data"),
        }
    }
}

impl JsonObject {
    /// An object that maps each key to the value at the same place, as
    /// strings, up to the shorter list.
    pub fn pull(&self, keys_content: FlowData, values_content: FlowData) -> (r: FlowData)
        ensures
            r@ == json_object_output(keys_content@, values_content@),
    {
        match (keys_content, values_content) {
            (FlowData::Error(m), _) => FlowData::Error(m),
            (_, FlowData::Error(m)) => FlowData::Error(m),
            (FlowData::StringArray(keys), FlowData::StringArray(values)) => {
                let n: usize = if keys.len() <= values.len() {
                    keys.len()
                } else {
                    values.len()
                };
                let mut pairs: Vec<(String, String)> = Vec::new();
                let mut i: usize = 0;
                while i < n
                    invariant
                        0 <= i <= n,
                        n <= keys.len(),
                        n <= values.len(),
                        pairs@.len() == i,
                        forall|j: int|
                            0 <= j < i ==> (#[trigger] pairs@[j]).0@ == keys@[j]@ && pairs@[j].1@
                                == values@[j]@,
                    decreases n - i,
                {
                    pairs.push((keys[i].clone(), values[i].clone()));
                    i += 1;
                }
                proof {
                    assert(pairs@.map_values(|p: (String, String)| (p.0@, p.1@)) =~= zip_texts(
                        texts_view(keys@),
                        texts_view(values@),
                    ));
                }
                FlowData::Json(object_of_strings(pairs))
            },
            _ => error_data("Incorrect inputs"),
        }
    }
}

} // verus!

verus! {

/// Whether two texts are equal.
pub fn same_text(a: &str, b: &str) -> (r: bool)
    ensures
        r == (a@ == b@),
{
    a.to_owned() == b.to_owned()
}

/// The value of a node's attribute.
pub enum AttrValue {
    Text(Seq<char>),
    Int(i64),
}

impl View for SpecAttribute {
    type V = (Seq<char>, AttrValue);

    open spec fn view(&self) -> (Seq<char>, AttrValue) {
        match self {
            SpecAttribute::String(name, value) => (name@, AttrValue::Text(value@)),
            SpecAttribute::Int(name, value) => (name@, AttrValue::Int(*value)),
        }
    }
}

pub open spec fn attributes_view(a: Seq<SpecAttribute>) -> Seq<(Seq<char>, AttrValue)> {
    a.map_values(|x: SpecAttribute| x@)
}

/// A node of the graph: one of the kinds of the catalog.
pub enum Node {
    StandardIn(StandardIn),
    StandardOut(StandardOut),
    Lines(Lines),
    JsonParse(JsonParse),
    JsonStringify(JsonStringify),
    JsonKeys(JsonKeys),
    JsonObject(JsonObject),
    ToInt(ToInt),
    Sum(Sum),
    StringContains(StringContains),
}

/// Whether `name` names a kind of the catalog.
pub open spec fn is_catalog_name(name: Seq<char>) -> bool {
    ||| name == "standard-in"@
    ||| name == "standard-out"@
    ||| name == "lines"@
    ||| name == "json-parse"@
    ||| name == "json-stringify"@
    ||| name == "json-keys"@
    ||| name == "json-object"@
    ||| name == "to-int"@
    ||| name == "sum"@
    ||| name == "string-contains"@
}

/// A node just built: the given id and kind, no input wired, nothing read
/// and an empty filter.
pub open spec fn fresh_node(n: Node, id: i64, name: Seq<char>) -> bool {
    &&& n.node_id() == id
    &&& n.kind_name() == name
    &&& n.input_at(Some(1)) is None
    &&& n.input_at(Some(2)) is None
    &&& (n matches Node::StandardIn(s) ==> s.cache is None)
    &&& (n matches Node::StringContains(s) ==> s.value@ == Seq::<char>::empty())
}

impl Node {
    pub open spec fn node_id(self) -> i64 {
        match self {
            Node::StandardIn(n) => n.id,
            Node::StandardOut(n) => n.id,
            Node::Lines(n) => n.id,
            Node::JsonParse(n) => n.id,
            Node::JsonStringify(n) => n.id,
            Node::JsonKeys(n) => n.id,
            Node::JsonObject(n) => n.id,
            Node::ToInt(n) => n.id,
            Node::Sum(n) => n.id,
            Node::StringContains(n) => n.id,
        }
    }

    /// The catalog name of the node's kind.
    pub open spec fn kind_name(self) -> Seq<char> {
        match self {
            Node::StandardIn(_) => "standard-in"@,
            Node::StandardOut(_) => "standard-out"@,
            Node::Lines(_) => "lines"@,
            Node::JsonParse(_) => "json-parse"@,
            Node::JsonStringify(_) => "json-stringify"@,
            Node::JsonKeys(_) => "json-keys"@,
            Node::JsonObject(_) => "json-object"@,
            Node::ToInt(_) => "to-int"@,
            Node::Sum(_) => "sum"@,
            Node::StringContains(_) => "string-contains"@,
        }
    }

    /// The single input of a one-input node.
    pub open spec fn single_input(self) -> Option<i64> {
        match self {
            Node::StandardIn(_) => None,
            Node::StandardOut(n) => n.input,
            Node::Lines(n) => n.input,
            Node::JsonParse(n) => n.input,
            Node::JsonStringify(n) => n.input,
            Node::JsonKeys(n) => n.input,
            Node::JsonObject(_) => None,
            Node::ToInt(n) => n.input,
            Node::Sum(n) => n.input,
            Node::StringContains(n) => n.input,
        }
    }

    /// The node wired into `slot`: one-input nodes ignore the slot,
    /// `JsonObject` has slots 1 and 2.
    pub open spec fn input_at(self, slot: Option<i64>) -> Option<i64> {
        match self {
            Node::JsonObject(n) => match slot {
                Some(1) => n.keys_input,
                Some(2) => n.values_input,
                _ => None,
            },
            _ => self.single_input(),
        }
    }

    /// The node after `set_input(node, slot)`.
    pub open spec fn with_input(self, node: Option<i64>, slot: Option<i64>) -> Node {
        match self {
            Node::StandardIn(n) => Node::StandardIn(n),
            Node::StandardOut(n) => Node::StandardOut(StandardOut { input: node, ..n }),
            Node::Lines(n) => Node::Lines(Lines { input: node, ..n }),
            Node::JsonParse(n) => Node::JsonParse(JsonParse { input: node, ..n }),
            Node::JsonStringify(n) => Node::JsonStringify(JsonStringify { input: node, ..n }),
            Node::JsonKeys(n) => Node::JsonKeys(JsonKeys { input: node, ..n }),
            Node::JsonObject(n) => match slot {
                Some(1) => Node::JsonObject(JsonObject { keys_input: node, ..n }),
                Some(2) => Node::JsonObject(JsonObject { values_input: node, ..n }),
                _ => Node::JsonObject(n),
            },
            Node::ToInt(n) => Node::ToInt(ToInt { input: node, ..n }),
            Node::Sum(n) => Node::Sum(Sum { input: node, ..n }),
            Node::StringContains(n) => Node::StringContains(StringContains { input: node, ..n }),
        }
    }

    /// The settings that a saved graph keeps for the node.
    pub open spec fn attributes(self) -> Seq<(Seq<char>, AttrValue)> {
        match self {
            Node::StringContains(n) => seq![("value"@, AttrValue::Text(n.value@))],
            _ => Seq::empty(),
        }
    }

    pub fn id(&self) -> (r: i64)
        ensures
            r == self.node_id(),
    {
        match self {
            Node::StandardIn(n) => n.id,
            Node::StandardOut(n) => n.id,
            Node::Lines(n) => n.id,
            Node::JsonParse(n) => n.id,
            Node::JsonStringify(n) => n.id,
            Node::JsonKeys(n) => n.id,
            Node::JsonObject(n) => n.id,
            Node::ToInt(n) => n.id,
            Node::Sum(n) => n.id,
            Node::StringContains(n) => n.id,
        }
    }

    /// Wires `node` into `index` (`None` clears it). One-input nodes ignore
    /// the index; `JsonObject` takes 1 for keys and 2 for values and leaves
    /// any other index alone; `StandardIn` has no input.
    pub fn set_input(&mut self, node: Option<i64>, index: Option<i64>)
        ensures
            *final(self) == old(self).with_input(node, index),
    {
        match self {
            Node::StandardIn(_) => {},
            Node::StandardOut(n) => n.input = node,
            Node::Lines(n) => n.input = node,
            Node::JsonParse(n) => n.input = node,
            Node::JsonStringify(n) => n.input = node,
            Node::JsonKeys(n) => n.input = node,
            Node::JsonObject(n) => match index {
                Some(1) => n.keys_input = node,
                Some(2) => n.values_input = node,
                _ => {},
            },
            Node::ToInt(n) => n.input = node,
            Node::Sum(n) => n.input = node,
            Node::StringContains(n) => n.input = node,
        }
    }

    /// The node's description: id, kind and settings.
    pub fn get_spec(&self) -> (r: Spec)
        ensures
            r.id == self.node_id(),
            r.type_@ == self.kind_name(),
            attributes_view(r.attributes@) == self.attributes(),
    {
        let (type_, attributes) = match self {
            Node::StandardIn(_) => ("standard-in".to_owned(), Vec::new()),
            Node::StandardOut(_) => ("standard-out".to_owned(), Vec::new()),
            Node::Lines(_) => ("lines".to_owned(), Vec::new()),
            Node::JsonParse(_) => ("json-parse".to_owned(), Vec::new()),
            Node::JsonStringify(_) => ("json-stringify".to_owned(), Vec::new()),
            Node::JsonKeys(_) => ("json-keys".to_owned(), Vec::new()),
            Node::JsonObject(_) => ("json-object".to_owned(), Vec::new()),
            Node::ToInt(_) => ("to-int".to_owned(), Vec::new()),
            Node::Sum(_) => ("sum".to_owned(), Vec::new()),
            Node::StringContains(n) => {
                let mut attributes = Vec::new();
                attributes.push(SpecAttribute::String("value".to_owned(), n.value.clone()));
                proof {
                    assert(attributes_view(attributes@) =~= self.attributes());
                }
                ("string-contains".to_owned(), attributes)
            },
        };
        proof {
            assert(attributes_view(attributes@) =~= self.attributes());
        }
        Spec { id: self.id(), type_, attributes }
    }

    /// The fields that the node offers for editing: `StringContains` offers
    /// its `value`.
    pub fn get_ui(&self) -> (r: NodeUI)
        ensures
            r is StringField <==> self is StringContains,
            r matches NodeUI::StringField(f) ==> f.label@ == "Value"@ && f.field@ == "value"@,
    {
        match self {
            Node::StringContains(_) => NodeUI::StringField(
                StringFieldData { label: "Value".to_owned(), field: "value".to_owned() },
            ),
            _ => NodeUI::Nothing,
        }
    }

    /// The value of an editable field; `Nothing` for a field the node does
    /// not have.
    pub fn get_value(&self, field: &String) -> (r: NodeUIData)
        ensures
            self is StringContains && field@ == "value"@ ==> r is StringData && r->0@
                == self->StringContains_0.value@,
            !(self is StringContains && field@ == "value"@) ==> r is Nothing,
    {
        match self {
            Node::StringContains(n) => if same_text(field.as_str(), "value") {
                NodeUIData::StringData(n.value.clone())
            } else {
                NodeUIData::Nothing
            },
            _ => NodeUIData::Nothing,
        }
    }

    /// Sets an editable field; anything else is left as it is.
    pub fn set_value(&mut self, field: &String, data: NodeUIData)
        ensures
            (*old(self)) is StringContains && field@ == "value"@ && data is StringData ==> {
                &&& (*final(self)) is StringContains
                &&& (*final(self))->StringContains_0.id == (*old(self))->StringContains_0.id
                &&& (*final(self))->StringContains_0.input == (*old(self))->StringContains_0.input
                &&& (*final(self))->StringContains_0.value@ == data->0@
            },
            !((*old(self)) is StringContains && field@ == "value"@ && data is StringData) ==> (*final(self)
                == *old(self)),
    {
        match self {
            Node::StringContains(n) => {
                if same_text(field.as_str(), "value") {
                    match data {
                        NodeUIData::StringData(v) => n.value = v,
                        NodeUIData::Nothing => {},
                    }
                }
            },
            _ => {},
        }
    }
}

} // verus!

verus! {

/// The output of a one-input node given what its input produced.
pub open spec fn step_output(n: Node, content: Flow) -> Flow {
    match n {
        Node::StandardOut(_) => Flow::Nothing,
        Node::Lines(_) => lines_output(content),
        Node::JsonParse(_) => json_parse_output(content),
        Node::JsonStringify(_) => json_stringify_output(content),
        Node::JsonKeys(_) => json_keys_output(content),
        Node::ToInt(_) => to_int_output(content),
        Node::Sum(_) => sum_output(content),
        Node::StringContains(s) => string_contains_output(content, s.value@),
        _ => unknown_data(),
    }
}

/// What a one-input node writes to the console given what its input produced.
pub open spec fn step_printed(n: Node, content: Flow) -> Seq<Output> {
    match n {
        Node::StandardOut(_) => printed_for(content),
        _ => Seq::empty(),
    }
}

impl Node {
    /// A copy of the node.
    pub fn duplicate(&self) -> (r: Node)
        ensures
            r == *self,
    {
        match self {
            Node::StandardIn(n) => Node::StandardIn(
                StandardIn {
                    id: n.id,
                    cache: match &n.cache {
                        Some(Ok(t)) => Some(Ok(t.clone())),
                        Some(Err(m)) => Some(Err(m.clone())),
                        None => None,
                    },
                },
            ),
            Node::StandardOut(n) => Node::StandardOut(StandardOut { id: n.id, input: n.input }),
            Node::Lines(n) => Node::Lines(Lines { id: n.id, input: n.input }),
            Node::JsonParse(n) => Node::JsonParse(JsonParse { id: n.id, input: n.input }),
            Node::JsonStringify(n) => Node::JsonStringify(
                JsonStringify { id: n.id, input: n.input },
            ),
            Node::JsonKeys(n) => Node::JsonKeys(JsonKeys { id: n.id, input: n.input }),
            Node::JsonObject(n) => Node::JsonObject(
                JsonObject { id: n.id, keys_input: n.keys_input, values_input: n.values_input },
            ),
            Node::ToInt(n) => Node::ToInt(ToInt { id: n.id, input: n.input }),
            Node::Sum(n) => Node::Sum(Sum { id: n.id, input: n.input }),
            Node::StringContains(n) => Node::StringContains(
                StringContains { id: n.id, input: n.input, value: n.value.clone() },
            ),
        }
    }

    /// Applies a one-input node to what its input produced.
    pub fn pull_step(&self, content: FlowData, out: &mut Vec<Printed>) -> (r: FlowData)
        ensures
            r@ == step_output(*self, content@),
            outputs_view(final(out)@) == outputs_view(old(out)@) + step_printed(*self, content@),
    {
        let r = match self {
            Node::StandardOut(n) => {
                return n.pull(content, out);
            },
            Node::Lines(n) => n.pull(content),
            Node::JsonParse(n) => n.pull(content),
            Node::JsonStringify(n) => n.pull(content),
            Node::JsonKeys(n) => n.pull(content),
            Node::ToInt(n) => n.pull(content),
            Node::Sum(n) => n.pull(content),
            Node::StringContains(n) => n.pull(content),
            _ => error_data("Unknown data"),
        };
        proof {
            assert(outputs_view(out@) =~= outputs_view(out@) + Seq::<Output>::empty());
        }
        r
    }
}

/// Builds a `StandardIn` node.
pub struct StandardInBuilder {}

/// Builds a `StandardOut` node.
pub struct StandardOutBuilder {}

/// Builds a `Lines` node.
pub struct LinesBuilder {}

/// Builds a `JsonParse` node.
pub struct JsonParseBuilder {}

/// Builds a `JsonStringify` node.
pub struct JsonStringifyBuilder {}

/// Builds a `JsonKeys` node.
pub struct JsonKeysBuilder {}

/// Builds a `JsonObject` node.
pub struct JsonObjectBuilder {}

/// Builds a `ToInt` node.
pub struct ToIntBuilder {}

/// Builds a `Sum` node.
pub struct SumBuilder {}

/// Builds a `StringContains` node.
pub struct StringContainsBuilder {}

impl StandardInBuilder {
    pub fn build(&self, id: i64, name: &str) -> (r: Option<Node>)
        ensures
            r is Some <==> name@ == "standard-in"@,
            r matches Some(n) ==> fresh_node(n, id, name@),
    {
        if same_text(name, "standard-in") {
            Some(Node::StandardIn(StandardIn { id, cache: None }))
        } else {
            None
        }
    }
}

impl StandardOutBuilder {
    pub fn build(&self, id: i64, name: &str) -> (r: Option<Node>)
        ensures
            r is Some <==> name@ == "standard-out"@,
            r matches Some(n) ==> fresh_node(n, id, name@),
    {
        if same_text(name, "standard-out") {
            Some(Node::StandardOut(StandardOut { id, input: None }))
        } else {
            None
        }
    }
}

impl LinesBuilder {
    pub fn build(&self, id: i64, name: &str) -> (r: Option<Node>)
        ensures
            r is Some <==> name@ == "lines"@,
            r matches Some(n) ==> fresh_node(n, id, name@),
    {
        if same_text(name, "lines") {
            Some(Node::Lines(Lines { id, input: None }))
        } else {
            None
        }
    }
}

impl JsonParseBuilder {
    pub fn build(&self, id: i64, name: &str) -> (r: Option<Node>)
        ensures
            r is Some <==> name@ == "json-parse"@,
            r matches Some(n) ==> fresh_node(n, id, name@),
    {
        if same_text(name, "json-parse") {
            Some(Node::JsonParse(JsonParse { id, input: None }))
        } else {
            None
        }
    }
}

impl JsonStringifyBuilder {
    pub fn build(&self, id: i64, name: &str) -> (r: Option<Node>)
        ensures
            r is Some <==> name@ == "json-stringify"@,
            r matches Some(n) ==> fresh_node(n, id, name@),
    {
        if same_text(name, "json-stringify") {
            Some(Node::JsonStringify(JsonStringify { id, input: None }))
        } else {
            None
        }
    }
}

impl JsonKeysBuilder {
    pub fn build(&self, id: i64, name: &str) -> (r: Option<Node>)
        ensures
            r is Some <==> name@ == "json-keys"@,
            r matches Some(n) ==> fresh_node(n, id, name@),
    {
        if same_text(name, "json-keys") {
            Some(Node::JsonKeys(JsonKeys { id, input: None }))
        } else {
            None
        }
    }
}

impl JsonObjectBuilder {
    pub fn build(&self, id: i64, name: &str) -> (r: Option<Node>)
        ensures
            r is Some <==> name@ == "json-object"@,
            r matches Some(n) ==> fresh_node(n, id, name@),
    {
        if same_text(name, "json-object") {
            Some(Node::JsonObject(JsonObject { id, keys_input: None, values_input: None }))
        } else {
            None
        }
    }
}

impl ToIntBuilder {
    pub fn build(&self, id: i64, name: &str) -> (r: Option<Node>)
        ensures
            r is Some <==> name@ == "to-int"@,
            r matches Some(n) ==> fresh_node(n, id, name@),
    {
        if same_text(name, "to-int") {
            Some(Node::ToInt(ToInt { id, input: None }))
        } else {
            None
        }
    }
}

impl SumBuilder {
    pub fn build(&self, id: i64, name: &str) -> (r: Option<Node>)
        ensures
            r is Some <==> name@ == "sum"@,
            r matches Some(n) ==> fresh_node(n, id, name@),
    {
        if same_text(name, "sum") {
            Some(Node::Sum(Sum { id, input: None }))
        } else {
            None
        }
    }
}

impl StringContainsBuilder {
    pub fn build(&self, id: i64, name: &str) -> (r: Option<Node>)
        ensures
            r is Some <==> name@ == "string-contains"@,
            r matches Some(n) ==> fresh_node(n, id, name@),
    {
        if same_text(name, "string-contains") {
            Some(Node::StringContains(StringContains { id, input: None, value: String::new() }))
        } else {
            None
        }
    }
}

} // verus!

verus! {

/// A node that `build` or a builder returns for a catalog name has the id it
/// was asked for, and describes itself with that name.
pub proof fn lemma_built_node(n: Node, id: i64, name: Seq<char>)
    requires
        fresh_node(n, id, name),
    ensures
        n.node_id() == id,
        n.kind_name() == name,
        is_catalog_name(name),
{
}

} // verus!
