use mango::flow::{FlowData, NodeUI, NodeUIData, SpecAttribute};
use mango::nodes::{
    JsonKeys, JsonObject, JsonParse, JsonStringify, Lines, LinesBuilder, Node, Printed,
    StandardIn, StandardOut, StringContains, Sum, SumBuilder, ToInt,
};
use mango::registry::build;

fn texts(v: &[&str]) -> Vec<String> {
    v.iter().map(|s| s.to_string()).collect()
}

fn text(s: &str) -> FlowData {
    FlowData::String(s.to_string())
}

fn error(s: &str) -> FlowData {
    FlowData::Error(s.to_string())
}

const CATALOG: [&str; 10] = [
    "standard-in",
    "standard-out",
    "lines",
    "json-parse",
    "json-stringify",
    "json-keys",
    "json-object",
    "to-int",
    "sum",
    "string-contains",
];

#[test]
fn build_catalog_names_keep_id_and_type() {
    for (i, name) in CATALOG.iter().enumerate() {
        let id = 10 + i as i64;
        let node = build(id, name.to_string()).expect("catalog name");
        assert_eq!(node.id(), id);
        let spec = node.get_spec();
        assert_eq!(spec.id, id);
        assert_eq!(spec.type_, name.to_string());
    }
}

#[test]
fn build_unknown_name_gives_nothing() {
    assert!(build(1, "nope".to_string()).is_none());
    assert!(build(1, "".to_string()).is_none());
    assert!(build(1, "Lines".to_string()).is_none());
    assert!(build(1, "lines ".to_string()).is_none());
}

#[test]
fn builders_answer_only_their_name() {
    assert!(LinesBuilder {}.build(3, "lines").is_some());
    assert!(LinesBuilder {}.build(3, "sum").is_none());
    let sum = SumBuilder {}.build(4, "sum").unwrap();
    assert_eq!(sum.id(), 4);
    assert_eq!(sum.get_spec().type_, "sum");
}

#[test]
fn lines_splits_text() {
    let n = Lines { id: 1, input: None };
    assert_eq!(n.pull(text("a\nb\nc")), FlowData::StringArray(texts(&["a", "b", "c"])));
    assert_eq!(n.pull(text("")), FlowData::StringArray(vec![]));
    assert_eq!(n.pull(text("a\r\nb\n")), FlowData::StringArray(texts(&["a", "b"])));
    assert_eq!(n.pull(text("\n\nx")), FlowData::StringArray(texts(&["", "", "x"])));
}

#[test]
fn lines_passes_errors_and_rejects_other_data() {
    let n = Lines { id: 1, input: None };
    assert_eq!(n.pull(error("x")), error("x"));
    assert_eq!(n.pull(FlowData::Int(3)), error("Unknown data"));
}

#[test]
fn to_int_drops_what_is_not_a_number() {
    let n = ToInt { id: 1, input: None };
    let input = FlowData::StringArray(texts(&["1", "2", "foo", "3", "+4", "-5", " 6", "", "99999999999999999999"]));
    assert_eq!(n.pull(input), FlowData::IntArray(vec![1, 2, 3, 4, -5]));
    assert_eq!(n.pull(text("1")), error("Unknown data"));
}

#[test]
fn sum_adds_and_reports_overflow() {
    let n = Sum { id: 1, input: None };
    assert_eq!(n.pull(FlowData::IntArray(vec![1, 2, 3])), FlowData::Int(6));
    assert_eq!(n.pull(FlowData::IntArray(vec![])), FlowData::Int(0));
    assert_eq!(n.pull(FlowData::IntArray(vec![i64::MAX, 1, -1])), FlowData::Int(i64::MAX));
    assert_eq!(n.pull(FlowData::IntArray(vec![i64::MAX, 1])), error("Sum out of range"));
    assert_eq!(n.pull(FlowData::IntArray(vec![i64::MIN, -1])), error("Sum out of range"));
    assert_eq!(n.pull(error("e")), error("e"));
}

#[test]
fn string_contains_keeps_matching_lines() {
    let n = StringContains { id: 1, input: None, value: "bc".to_string() };
    let input = FlowData::StringArray(texts(&["abc", "xyz", "bcd"]));
    assert_eq!(n.pull(input), FlowData::StringArray(texts(&["abc", "bcd"])));
    let cased = FlowData::StringArray(texts(&["ABC", "b c"]));
    assert_eq!(n.pull(cased), FlowData::StringArray(vec![]));
    assert_eq!(n.pull(text("abc")), error("Unknown data"));
}

#[test]
fn json_parse_and_stringify() {
    let parse = JsonParse { id: 1, input: None };
    let parsed = parse.pull(text("{ \"k\" : [1, 2] }"));
    assert!(matches!(parsed, FlowData::Json(_)));
    let stringify = JsonStringify { id: 2, input: None };
    assert_eq!(stringify.pull(parsed), text("{\"k\":[1,2]}"));
    assert_eq!(parse.pull(text("{oops")), error("Failed to parse json"));
    assert_eq!(parse.pull(FlowData::Int(1)), error("Unknown data"));
    assert_eq!(stringify.pull(text("{}")), error("Unknown data"));
}

#[test]
fn json_keys_lists_object_keys() {
    let parse = JsonParse { id: 1, input: None };
    let keys = JsonKeys { id: 2, input: None };
    let v = parse.pull(text("{\"b\": 1, \"a\": 2}"));
    assert_eq!(keys.pull(v), FlowData::StringArray(texts(&["b", "a"])));
    let arr = parse.pull(text("[1, 2]"));
    assert_eq!(keys.pull(arr), FlowData::StringArray(vec![]));
    assert_eq!(keys.pull(error("x")), error("x"));
}

#[test]
fn json_object_zips_keys_and_values() {
    let n = JsonObject { id: 1, keys_input: None, values_input: None };
    let stringify = JsonStringify { id: 2, input: None };
    let obj = n.pull(
        FlowData::StringArray(texts(&["a", "b"])),
        FlowData::StringArray(texts(&["1", "2"])),
    );
    assert_eq!(stringify.pull(obj), text("{\"a\":\"1\",\"b\":\"2\"}"));
    let short = n.pull(
        FlowData::StringArray(texts(&["a", "b", "c"])),
        FlowData::StringArray(texts(&["1"])),
    );
    assert_eq!(stringify.pull(short), text("{\"a\":\"1\"}"));
    let repeated = n.pull(
        FlowData::StringArray(texts(&["a", "b", "a"])),
        FlowData::StringArray(texts(&["1", "2", "3"])),
    );
    assert_eq!(stringify.pull(repeated), text("{\"a\":\"3\",\"b\":\"2\"}"));
}

#[test]
fn json_object_errors() {
    let n = JsonObject { id: 1, keys_input: None, values_input: None };
    assert_eq!(n.pull(error("x"), FlowData::StringArray(texts(&["1"]))), error("x"));
    assert_eq!(n.pull(FlowData::StringArray(vec![]), error("y")), error("y"));
    assert_eq!(n.pull(text("a"), FlowData::StringArray(vec![])), error("Incorrect inputs"));
}

#[test]
fn standard_out_writes_lines_text_or_debug() {
    let n = StandardOut { id: 1, input: None };
    let mut out = vec![];
    assert_eq!(n.pull(FlowData::StringArray(texts(&["a", "b"])), &mut out), FlowData::Nothing);
    assert_eq!(n.pull(text("t"), &mut out), FlowData::Nothing);
    assert_eq!(n.pull(FlowData::Int(7), &mut out), FlowData::Nothing);
    assert_eq!(
        out,
        vec![
            Printed::Line("a".to_string()),
            Printed::Line("b".to_string()),
            Printed::Line("t".to_string()),
            Printed::Debug(FlowData::Int(7)),
        ]
    );
}

#[test]
fn standard_in_gives_what_it_read() {
    let waiting = StandardIn { id: 1, cache: None };
    assert_eq!(waiting.pull(), None);
    let read = StandardIn { id: 1, cache: Some(Ok("hi".to_string())) };
    assert_eq!(read.pull(), Some(text("hi")));
    let failed = StandardIn { id: 1, cache: Some(Err("Failed to read from stdin".to_string())) };
    assert_eq!(failed.pull(), Some(error("Failed to read from stdin")));
}

#[test]
fn set_input_follows_slots() {
    let mut lines = build(1, "lines".to_string()).unwrap();
    lines.set_input(Some(5), None);
    assert!(matches!(lines, Node::Lines(Lines { input: Some(5), .. })));
    let mut obj = build(2, "json-object".to_string()).unwrap();
    obj.set_input(Some(7), Some(1));
    obj.set_input(Some(8), Some(2));
    obj.set_input(Some(9), Some(3));
    obj.set_input(Some(9), None);
    assert!(matches!(
        obj,
        Node::JsonObject(JsonObject { keys_input: Some(7), values_input: Some(8), .. })
    ));
    let mut stdin = build(3, "standard-in".to_string()).unwrap();
    stdin.set_input(Some(1), Some(1));
    assert!(matches!(stdin, Node::StandardIn(StandardIn { cache: None, .. })));
}

#[test]
fn string_contains_offers_and_keeps_its_value() {
    let mut n = build(1, "string-contains".to_string()).unwrap();
    match n.get_ui() {
        NodeUI::StringField(f) => {
            assert_eq!(f.label, "Value");
            assert_eq!(f.field, "value");
        }
        NodeUI::Nothing => panic!("string-contains offers a field"),
    }
    assert_eq!(n.get_value(&"value".to_string()), NodeUIData::StringData(String::new()));
    n.set_value(&"value".to_string(), NodeUIData::StringData("bc".to_string()));
    assert_eq!(n.get_value(&"value".to_string()), NodeUIData::StringData("bc".to_string()));
    assert_eq!(n.get_value(&"other".to_string()), NodeUIData::Nothing);
    assert_eq!(
        n.get_spec().attributes,
        vec![SpecAttribute::String("value".to_string(), "bc".to_string())]
    );
    let lines = build(2, "lines".to_string()).unwrap();
    assert!(matches!(lines.get_ui(), NodeUI::Nothing));
    assert_eq!(lines.get_value(&"value".to_string()), NodeUIData::Nothing);
    assert!(lines.get_spec().attributes.is_empty());
}

#[test]
fn json_parse_refuses_long_digit_runs() {
    let parse = JsonParse { id: 1, input: None };
    let long = format!("0.{}", "0".repeat(32768));
    assert_eq!(parse.pull(text(&long)), error("Too many digits in a row"));
    let in_string = format!("\"{}\"", "1".repeat(40000));
    assert_eq!(parse.pull(text(&in_string)), error("Too many digits in a row"));
    let just_under = format!("0.{}", "0".repeat(32766));
    assert!(matches!(parse.pull(text(&just_under)), FlowData::Json(_)));
}
