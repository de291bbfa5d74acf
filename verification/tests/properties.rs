use banya::builtin::{NativeFunction, dispatch_native_capability};
use banya::builtin::logical::{Compare, LogicalAnd, LogicalOr, StringOps};
use banya::instruction::{CallableRef, CallableRefDe, Invalid, interpolate_json, json_to_bytes};
use banya::json::JsonValue;
use banya::PluginHost;

fn s(text: &str) -> JsonValue {
    JsonValue::String(text.to_string())
}

fn obj(entries: Vec<(&str, JsonValue)>) -> JsonValue {
    JsonValue::Object(entries.into_iter().map(|(k, v)| (k.to_string(), v)).collect())
}

fn resolved(call: Option<&str>, function: Option<&str>, capability: Option<&str>) -> Option<(String, String)> {
    CallableRef::<Invalid>::try_from_de(CallableRefDe {
        call: call.map(str::to_string),
        function: function.map(str::to_string),
        capability: capability.map(str::to_string),
    })
    .ok()
    .map(|r| (r.function, r.capability))
}

#[test]
fn and_true_implies_or_true() {
    let args = obj(vec![("conditions", JsonValue::Array(vec![JsonValue::Bool(true), s("x")]))]);
    assert_eq!(LogicalAnd.invoke("evaluate", &args), Ok(JsonValue::Bool(true)));
    assert_eq!(LogicalOr.invoke("evaluate", &args), Ok(JsonValue::Bool(true)));
}

#[test]
fn compare_orders_strings_totally() {
    let cmp = |op: &str, l: &str, r: &str| {
        Compare.invoke("evaluate", &obj(vec![("operator", s(op)), ("left", s(l)), ("right", s(r))]))
    };
    for (a, b) in [("pear", "apple"), ("apple", "pear"), ("kiwi", "kiwi")] {
        assert_eq!(cmp("gt", a, b), cmp("lt", b, a));
        let lt = cmp("lt", a, b) == Ok(JsonValue::Bool(true));
        let eq = cmp("eq", a, b) == Ok(JsonValue::Bool(true));
        let gt = cmp("gt", a, b) == Ok(JsonValue::Bool(true));
        assert_eq!([lt, eq, gt].iter().filter(|x| **x).count(), 1);
        assert_eq!(cmp("gte", a, b), Ok(JsonValue::Bool(gt || eq)));
        assert_eq!(cmp("lte", a, b), Ok(JsonValue::Bool(lt || eq)));
        assert_eq!(cmp("ne", a, b), Ok(JsonValue::Bool(!eq)));
    }
}

#[test]
fn prefixes_and_suffixes_are_contained() {
    let e = |op: &str| {
        StringOps.invoke(
            "evaluate",
            &obj(vec![("operation", s(op)), ("value", s("banana")), ("pattern", s("ban"))]),
        )
    };
    assert_eq!(e("starts_with"), Ok(JsonValue::Bool(true)));
    assert_eq!(e("contains"), Ok(JsonValue::Bool(true)));
}

#[test]
fn shorthands_equal_explicit_fields() {
    let explicit = resolved(None, Some("math"), Some("calculate"));
    assert_eq!(explicit, Some(("math".to_string(), "calculate".to_string())));
    assert_eq!(resolved(Some("math.calculate"), None, None), explicit);
    assert_eq!(resolved(Some("math:calculate"), None, None), explicit);
    assert_eq!(resolved(Some("math/calculate"), None, None), explicit);
    assert_eq!(resolved(Some("math.calculate"), Some("math"), Some("calculate")), explicit);
    assert_eq!(resolved(Some("math.other"), Some("math"), Some("calculate")), None);
}

#[test]
fn plain_values_need_no_interpolation() {
    let host = PluginHost::new();
    let value = obj(vec![
        ("n", JsonValue::Number("3".to_string())),
        ("b", JsonValue::Bool(false)),
        ("z", JsonValue::Null),
        ("t", s("no placeholders here")),
    ]);
    assert_eq!(interpolate_json(&value, &host), Ok(obj(vec![
        ("n", JsonValue::Number("3".to_string())),
        ("b", JsonValue::Bool(false)),
        ("z", JsonValue::Null),
        ("t", s("no placeholders here")),
    ])));
}

#[test]
fn number_text_that_is_not_a_number_cannot_be_serialized() {
    let e = json_to_bytes(&JsonValue::Number("not-a-number".to_string())).err().unwrap();
    assert!(e.starts_with("Failed to serialize JSON: "));
}

#[test]
fn compare_numbers_both_ways_and_mixed_kinds() {
    let cmp = |op: &str, l: JsonValue, r: JsonValue| {
        Compare.invoke("evaluate", &obj(vec![("operator", s(op)), ("left", l), ("right", r)]))
    };
    let n = |t: &str| JsonValue::Number(t.to_string());
    assert_eq!(cmp("gt", n("2"), n("1.5")), cmp("lt", n("1.5"), n("2")));
    assert_eq!(cmp("gte", n("-3"), n("7")), cmp("lte", n("7"), n("-3")));
    for op in ["gt", "lt", "gte", "lte"] {
        assert_eq!(cmp(op, s("a"), n("1")), Ok(JsonValue::Bool(false)));
        assert_eq!(cmp(op, JsonValue::Null, JsonValue::Null), Ok(JsonValue::Bool(false)));
    }
}

#[test]
fn dispatch_picks_the_first_matching_capability() {
    let caps = StringOps.info().capabilities;
    assert_eq!(dispatch_native_capability(&caps, "evaluate"), Ok(0));
    assert_eq!(dispatch_native_capability(&caps, "transform"), Ok(1));
    assert_eq!(
        dispatch_native_capability(&caps, "shout"),
        Err("Unknown capability: shout".to_string())
    );
}

#[test]
fn interpolation_keeps_keys_and_lengths() {
    let mut host = PluginHost::new();
    host.store_put("k".to_string(), b"\"v\"".to_vec());
    let value = obj(vec![("${k}", JsonValue::Array(vec![s("${k}"), s("x")]))]);
    assert_eq!(
        interpolate_json(&value, &host),
        Ok(obj(vec![("${k}", JsonValue::Array(vec![s("v"), s("x")]))]))
    );
}

#[test]
fn has_capability_agrees_with_capability_names() {
    let mut host = PluginHost::new();
    host.register_native(&StringOps);
    let target = host.resolve_callable("string-ops").unwrap();
    for c in ["evaluate", "transform", "other"] {
        assert_eq!(target.has_capability(c), target.capability_names().iter().any(|n| n == c));
    }
}

#[test]
fn number_texts_read_back_to_the_same_value() {
    // Floats across many magnitudes, and long fractions whose shortest text has many digits.
    let mut state: u64 = 0x9e37_79b9_7f4a_7c15;
    let mut values: Vec<f64> = vec![0.1, 0.30000000000000004, 1e300, 5e-324, 2.5e-308, -7.123456789012345e-250];
    for _ in 0..5000 {
        state = state.wrapping_mul(6364136223846793005).wrapping_add(1442695040888963407);
        let x = f64::from_bits(state);
        if x.is_finite() {
            values.push(x);
        }
    }
    for x in values {
        let number = serde_json::Number::from_f64(x).unwrap();
        let text = number.to_string();
        let expected = serde_json::to_vec(&serde_json::Value::Number(number)).unwrap();
        assert_eq!(json_to_bytes(&JsonValue::Number(text.clone())), Ok(expected), "{text}");
        assert!(banya::json::json_eq(&JsonValue::Number(text.clone()), &JsonValue::Number(text)));
    }
}
