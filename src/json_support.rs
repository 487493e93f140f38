//! The JSON values that flow through the graph, held as `json::JsonValue`,
//! and the calls into the `json` crate that the nodes make.
use vstd::prelude::*;
use json::JsonValue;
use vstd::string::StringSliceAdditionalSpecFns;

verus! {

#[verifier::external_type_specification]
#[verifier::external_body]
pub struct ExJsonValue(json::JsonValue);

#[verifier::external_type_specification]
#[verifier::external_body]
pub struct ExJsonError(json::Error);

/// What `json::parse` makes of a text: `None` when it rejects it.
pub uninterp spec fn parsed_json(text: Seq<char>) -> Option<JsonValue>;

/// The compact text that `json::stringify` writes for a value.
pub uninterp spec fn json_text(value: JsonValue) -> Seq<char>;

/// The keys that `JsonValue::entries` visits, in order (none for a value
/// that is not an object).
pub uninterp spec fn json_keys(value: JsonValue) -> Seq<Seq<char>>;

/// The object that inserting each `(key, string)` pair in turn builds.
pub uninterp spec fn string_object(pairs: Seq<(Seq<char>, Seq<char>)>) -> JsonValue;

/// The longest run of ASCII digits that `json::parse` is given: each digit
/// of a fraction lowers its `i16` exponent by one, which overflows after
/// 32,768 of them.
pub const DIGIT_RUN_LIMIT: usize = 32768;

/// An ASCII digit, `'0'` to `'9'`.
pub open spec fn is_digit_byte(x: u8) -> bool {
    48 <= x <= 57
}

/// Whether the bytes hold `DIGIT_RUN_LIMIT` ASCII digits in a row, starting
/// at `i`.
pub open spec fn digit_run_at(b: Seq<u8>, i: int) -> bool {
    forall|j: int| i <= j < i + DIGIT_RUN_LIMIT ==> is_digit_byte(#[trigger] b[j])
}

/// Whether the bytes hold a run of `DIGIT_RUN_LIMIT` or more ASCII digits.
pub open spec fn has_long_digit_run(b: Seq<u8>) -> bool {
    exists|i: int| 0 <= i && i + DIGIT_RUN_LIMIT <= b.len() && #[trigger] digit_run_at(b, i)
}

/// Whether `b` holds a run of `DIGIT_RUN_LIMIT` or more ASCII digits.
pub fn long_digit_run(b: &[u8]) -> (r: bool)
    ensures
        r == has_long_digit_run(b@),
{
    let mut run: usize = 0;
    let mut i: usize = 0;
    while i < b.len()
        invariant
            0 <= i <= b@.len(),
            run <= i,
            run < DIGIT_RUN_LIMIT,
            forall|j: int| i - run <= j < i ==> is_digit_byte(#[trigger] b@[j]),
            i - run > 0 ==> !is_digit_byte(b@[i - run - 1]),
            forall|k: int| 0 <= k && k + DIGIT_RUN_LIMIT <= i ==> !#[trigger] digit_run_at(b@, k),
        decreases b@.len() - i,
    {
        if 48 <= b[i] && b[i] <= 57 {
            if run + 1 == DIGIT_RUN_LIMIT {
                proof {
                    let k = i + 1 - DIGIT_RUN_LIMIT;
                    assert(digit_run_at(b@, k));
                }
                return true;
            }
            run = run + 1;
        } else {
            run = 0;
        }
        proof {
            assert forall|k: int| 0 <= k && k + DIGIT_RUN_LIMIT <= i + 1 implies !#[trigger] digit_run_at(
                b@,
                k,
            ) by {
                if k + DIGIT_RUN_LIMIT == i + 1 {
                    if run == 0 {
                        assert(!is_digit_byte(b@[i as int]));
                    } else {
                        assert(!is_digit_byte(b@[i + 1 - run - 1]));
                    }
                }
            }
        }
        i += 1;
    }
    false
}

/// Relies on `json::parse`: the result depends on the text alone. Texts
/// with a long run of digits are left out, as the parser can overflow on
/// them.
#[verifier::external_body]
pub(crate) fn parse_json(text: &str) -> (r: Result<JsonValue, json::Error>)
    requires
        !has_long_digit_run(text.spec_bytes()),
    ensures
        r is Ok <==> parsed_json(text@) is Some,
        r matches Ok(v) ==> parsed_json(text@) == Some(v),
{
    json::parse(text)
}

/// Relies on `json::stringify`: the text depends on the value alone.
#[verifier::external_body]
pub(crate) fn stringify_json(value: JsonValue) -> (r: String)
    ensures
        r@ == json_text(value),
{
    json::stringify(value)
}

/// Relies on `JsonValue::entries`: the keys of an object in insertion order,
/// nothing for any other value.
#[verifier::external_body]
pub(crate) fn keys_of_json(value: &JsonValue) -> (r: Vec<String>)
    ensures
        r@.map_values(|k: String| k@) == json_keys(*value),
{
    value.entries().map(|(k, _)| k.to_string()).collect()
}

/// Relies on `json::object::Object`'s `FromIterator`, which inserts each pair
/// in turn (a repeated key keeps its first place and takes the later value).
#[verifier::external_body]
pub(crate) fn object_of_strings(pairs: Vec<(String, String)>) -> (r: JsonValue)
    ensures
        r == string_object(pairs@.map_values(|p: (String, String)| (p.0@, p.1@))),
{
    JsonValue::Object(pairs.into_iter().map(|(k, v)| (k, JsonValue::String(v))).collect())
}

} // verus!
