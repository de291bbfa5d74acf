use banya::builtin::NativeFunction;
use banya::builtin::logical::{
    Compare, LogicalAnd, LogicalNot, LogicalOr, Math, MathOp, StringOps,
};
use banya::json::JsonValue;

fn s(text: &str) -> JsonValue {
    JsonValue::String(text.to_string())
}

fn n(text: &str) -> JsonValue {
    JsonValue::Number(text.to_string())
}

fn obj(entries: Vec<(&str, JsonValue)>) -> JsonValue {
    JsonValue::Object(entries.into_iter().map(|(k, v)| (k.to_string(), v)).collect())
}

fn err(text: &str) -> Result<JsonValue, String> {
    Err(text.to_string())
}

#[test]
fn logical_and_requires_every_condition() {
    let f = LogicalAnd;
    let args = obj(vec![(
        "conditions",
        JsonValue::Array(vec![JsonValue::Bool(true), JsonValue::Bool(true), JsonValue::Bool(false)]),
    )]);
    assert_eq!(f.invoke("evaluate", &args), Ok(JsonValue::Bool(false)));
    let args = obj(vec![("conditions", JsonValue::Array(vec![JsonValue::Bool(true), n("1"), s("x")]))]);
    assert_eq!(f.invoke("evaluate", &args), Ok(JsonValue::Bool(true)));
    let args = obj(vec![("conditions", JsonValue::Array(vec![JsonValue::Null]))]);
    assert_eq!(f.invoke("evaluate", &args), Ok(JsonValue::Bool(false)));
    let args = obj(vec![("conditions", JsonValue::Array(vec![]))]);
    assert_eq!(f.invoke("evaluate", &args), Ok(JsonValue::Bool(true)));
}

#[test]
fn logical_and_rejects_missing_conditions() {
    let f = LogicalAnd;
    let args = obj(vec![("conditions", JsonValue::Bool(true))]);
    assert_eq!(
        f.invoke("evaluate", &args),
        err("Missing or invalid 'conditions' argument (expected array)")
    );
    assert_eq!(f.invoke("other", &args), err("Unknown capability: other"));
}

#[test]
fn logical_or_requires_some_condition() {
    let f = LogicalOr;
    let args = obj(vec![(
        "conditions",
        JsonValue::Array(vec![JsonValue::Bool(false), JsonValue::Bool(true), JsonValue::Bool(false)]),
    )]);
    assert_eq!(f.invoke("evaluate", &args), Ok(JsonValue::Bool(true)));
    let args = obj(vec![("conditions", JsonValue::Array(vec![]))]);
    assert_eq!(f.invoke("evaluate", &args), Ok(JsonValue::Bool(false)));
    assert_eq!(
        f.invoke("evaluate", &JsonValue::Null),
        err("Missing or invalid 'conditions' argument (expected array)")
    );
}

#[test]
fn logical_not_inverts() {
    let f = LogicalNot;
    let args = obj(vec![("value", JsonValue::Bool(true))]);
    assert_eq!(f.invoke("evaluate", &args), Ok(JsonValue::Bool(false)));
    let args = obj(vec![("value", n("1"))]);
    assert_eq!(
        f.invoke("evaluate", &args),
        err("Missing or invalid 'value' argument (expected bool)")
    );
}

#[test]
fn compare_numbers_strings_and_booleans() {
    let f = Compare;
    let cmp = |op: &str, l: JsonValue, r: JsonValue| {
        f.invoke("evaluate", &obj(vec![("operator", s(op)), ("left", l), ("right", r)]))
    };
    assert_eq!(cmp("gt", n("42"), n("10")), Ok(JsonValue::Bool(true)));
    assert_eq!(cmp("lt", n("42"), n("10")), Ok(JsonValue::Bool(false)));
    assert_eq!(cmp("gte", n("10"), n("10")), Ok(JsonValue::Bool(true)));
    assert_eq!(cmp("lte", n("2.5"), n("3")), Ok(JsonValue::Bool(true)));
    assert_eq!(cmp("eq", n("1"), n("1")), Ok(JsonValue::Bool(true)));
    assert_eq!(cmp("ne", n("1"), n("2")), Ok(JsonValue::Bool(true)));
    assert_eq!(cmp("lt", s("apple"), s("banana")), Ok(JsonValue::Bool(true)));
    assert_eq!(cmp("gt", JsonValue::Bool(true), JsonValue::Bool(false)), Ok(JsonValue::Bool(true)));
    assert_eq!(cmp("gt", s("1"), n("0")), Ok(JsonValue::Bool(false)));
    assert_eq!(cmp("eq", s("a"), s("a")), Ok(JsonValue::Bool(true)));
    assert_eq!(cmp("between", n("1"), n("2")), err("Unknown operator: between"));
}

#[test]
fn compare_checks_arguments_in_order() {
    let f = Compare;
    assert_eq!(
        f.invoke("evaluate", &obj(vec![("left", n("1")), ("right", n("2"))])),
        err("Missing or invalid 'operator' argument")
    );
    assert_eq!(
        f.invoke("evaluate", &obj(vec![("operator", s("eq")), ("right", n("2"))])),
        err("Missing 'left' argument")
    );
    assert_eq!(
        f.invoke("evaluate", &obj(vec![("operator", s("eq")), ("left", n("2"))])),
        err("Missing 'right' argument")
    );
}

#[test]
fn string_ops_transform() {
    let f = StringOps;
    let t = |args: Vec<(&str, JsonValue)>| f.invoke("transform", &obj(args));
    assert_eq!(
        t(vec![
            ("operation", s("concat")),
            ("strings", JsonValue::Array(vec![s("Hello"), s(" "), n("7"), s("World")])),
        ]),
        Ok(s("Hello World"))
    );
    assert_eq!(t(vec![("operation", s("upper")), ("value", s("abc"))]), Ok(s("ABC")));
    assert_eq!(t(vec![("operation", s("lower")), ("value", s("AbC"))]), Ok(s("abc")));
    assert_eq!(t(vec![("operation", s("trim")), ("value", s("  x y  "))]), Ok(s("x y")));
    assert_eq!(
        t(vec![("operation", s("split")), ("value", s("a,b,,c"))]),
        Ok(JsonValue::Array(vec![s("a"), s("b"), s(""), s("c")]))
    );
    assert_eq!(
        t(vec![("operation", s("split")), ("value", s("a b")), ("delimiter", s(" "))]),
        Ok(JsonValue::Array(vec![s("a"), s("b")]))
    );
    assert_eq!(
        t(vec![("operation", s("replace")), ("value", s("aXbX")), ("pattern", s("X"))]),
        Ok(s("ab"))
    );
    assert_eq!(
        t(vec![
            ("operation", s("replace")),
            ("value", s("aXbX")),
            ("pattern", s("X")),
            ("replacement", s("-")),
        ]),
        Ok(s("a-b-"))
    );
}

#[test]
fn string_ops_transform_errors() {
    let f = StringOps;
    let t = |args: Vec<(&str, JsonValue)>| f.invoke("transform", &obj(args));
    assert_eq!(t(vec![("value", s("x"))]), err("Missing or invalid 'operation' argument"));
    assert_eq!(t(vec![("operation", s("concat"))]), err("Missing or invalid 'strings' argument"));
    assert_eq!(t(vec![("operation", s("upper"))]), err("Missing or invalid 'value' argument"));
    assert_eq!(
        t(vec![("operation", s("replace")), ("value", s("x"))]),
        err("Missing or invalid 'pattern' argument")
    );
    assert_eq!(t(vec![("operation", s("reverse"))]), err("Unknown transform operation: reverse"));
}

#[test]
fn string_ops_evaluate() {
    let f = StringOps;
    let e = |op: &str, value: &str, pattern: &str| {
        f.invoke(
            "evaluate",
            &obj(vec![("operation", s(op)), ("value", s(value)), ("pattern", s(pattern))]),
        )
    };
    assert_eq!(e("contains", "hello world", "o w"), Ok(JsonValue::Bool(true)));
    assert_eq!(e("contains", "hello", "xyz"), Ok(JsonValue::Bool(false)));
    assert_eq!(e("contains", "hello", ""), Ok(JsonValue::Bool(true)));
    assert_eq!(e("starts_with", "hello", "he"), Ok(JsonValue::Bool(true)));
    assert_eq!(e("starts_with", "hello", "lo"), Ok(JsonValue::Bool(false)));
    assert_eq!(e("ends_with", "hello", "lo"), Ok(JsonValue::Bool(true)));
    assert_eq!(e("ends_with", "lo", "hello"), Ok(JsonValue::Bool(false)));
    assert_eq!(e("is_empty", "", ""), Ok(JsonValue::Bool(true)));
    assert_eq!(e("is_empty", "a", ""), Ok(JsonValue::Bool(false)));
    assert_eq!(e("matches", "a", ""), err("Unknown evaluate operation: matches"));
    // The value is read before the operation is looked at.
    assert_eq!(
        f.invoke("evaluate", &obj(vec![("operation", s("matches"))])),
        err("Missing or invalid 'value' argument")
    );
    assert_eq!(
        f.invoke("evaluate", &obj(vec![("operation", s("contains")), ("value", s("a"))])),
        err("Missing or invalid 'pattern' argument")
    );
    assert_eq!(f.invoke("shout", &JsonValue::Null), err("Unknown capability: shout"));
}

#[test]
fn math_plans_calculations() {
    let m = Math;
    let plan = |op: &str, values: Vec<JsonValue>| {
        m.prepare("calculate", &obj(vec![("operation", s(op)), ("values", JsonValue::Array(values))]))
    };
    let c = plan("add", vec![n("1"), s("skip"), n("2.5"), JsonValue::Null]).unwrap();
    assert_eq!(c.operation, MathOp::Add);
    assert_eq!(c.numbers, vec!["1".to_string(), "2.5".to_string()]);
    let c = plan("clamp", vec![n("5"), n("1"), n("3")]).unwrap();
    assert_eq!(c.operation, MathOp::Clamp);
    assert_eq!(plan("div", vec![n("1")]).err(), Some("Division requires at least 2 values".to_string()));
    assert_eq!(plan("mod", vec![n("1")]).err(), Some("Modulo requires exactly 2 values".to_string()));
    assert_eq!(plan("pow", vec![n("1")]).err(), Some("Power requires exactly 2 values".to_string()));
    assert_eq!(plan("abs", vec![n("1"), n("2")]).err(), Some("Abs requires exactly 1 value".to_string()));
    assert_eq!(
        plan("clamp", vec![n("1")]).err(),
        Some("Clamp requires exactly 3 values (value, min, max)".to_string())
    );
    assert_eq!(plan("sqrt", vec![n("4")]).err(), Some("Unknown math operation: sqrt".to_string()));
    assert_eq!(
        plan("sqrt", vec![s("4")]).err(),
        Some("No valid numeric values provided".to_string())
    );
    assert_eq!(
        m.prepare("calculate", &obj(vec![("values", JsonValue::Array(vec![]))])).err(),
        Some("Missing or invalid 'operation' argument".to_string())
    );
    assert_eq!(
        m.prepare("calculate", &obj(vec![("operation", s("add"))])).err(),
        Some("Missing or invalid 'values' argument (expected array)".to_string())
    );
    assert_eq!(
        m.prepare("integrate", &JsonValue::Null).err(),
        Some("Unknown capability: integrate".to_string())
    );
}

#[test]
fn builtin_metadata() {
    let info = LogicalAnd.info();
    assert_eq!(info.name, "logical-and");
    assert_eq!(info.version, "1.0.0");
    assert_eq!(info.author.as_deref(), Some("banya"));
    assert_eq!(info.capabilities.len(), 1);
    assert_eq!(info.capabilities[0].name, "evaluate");
    assert_eq!(
        info.capabilities[0].inputs,
        vec![("conditions".to_string(), "array<bool>".to_string())]
    );
    let info = StringOps.info();
    assert_eq!(info.capabilities.len(), 2);
    assert_eq!(info.capabilities[1].name, "transform");
    assert_eq!(Compare.info().capabilities[0].inputs.len(), 3);
    assert_eq!(Math.info().capabilities[0].name, "calculate");
    assert!(LogicalOr.has_capability("evaluate"));
    assert!(!LogicalOr.has_capability("transform"));
    assert_eq!(LogicalNot.name(), "logical-not");
}

fn transform(args: Vec<(&str, JsonValue)>) -> Result<JsonValue, String> {
    StringOps.invoke("transform", &obj(args))
}

fn strings(items: Vec<&str>) -> JsonValue {
    JsonValue::Array(items.into_iter().map(s).collect())
}

#[test]
fn split_matches_str_split() {
    let cases = [
        ("a,b,,c", ","),
        ("ab", ""),
        ("", ""),
        ("", ","),
        ("aaa", "aa"),
        ("x--y--", "--"),
        ("no delimiter", "|"),
        ("héllo wörld", "ö"),
    ];
    for (value, delimiter) in cases {
        let expected = strings(value.split(delimiter).collect());
        assert_eq!(
            transform(vec![("operation", s("split")), ("value", s(value)), ("delimiter", s(delimiter))]),
            Ok(expected)
        );
    }
}

#[test]
fn replace_matches_str_replace() {
    let cases = [("aXbX", "X", "-"), ("ab", "", "-"), ("aaaa", "aa", "b"), ("abc", "z", "y"), ("", "", "!")];
    for (value, pattern, replacement) in cases {
        assert_eq!(
            transform(vec![
                ("operation", s("replace")),
                ("value", s(value)),
                ("pattern", s(pattern)),
                ("replacement", s(replacement)),
            ]),
            Ok(s(&value.replace(pattern, replacement)))
        );
    }
}

#[test]
fn trim_matches_str_trim() {
    let cases = ["  x y  ", "\u{3000}\t x\n\u{85}", "\u{a0}\u{2009}", "", "plain", "\u{200b}z"];
    for value in cases {
        assert_eq!(
            transform(vec![("operation", s("trim")), ("value", s(value))]),
            Ok(s(value.trim()))
        );
    }
}

#[test]
fn split_pieces_rejoin_to_the_value() {
    let value = "a,b,,c";
    match transform(vec![("operation", s("split")), ("value", s(value))]) {
        Ok(JsonValue::Array(items)) => {
            let parts: Vec<String> = items
                .into_iter()
                .map(|v| match v {
                    JsonValue::String(t) => t,
                    _ => panic!("every piece is a string"),
                })
                .collect();
            assert_eq!(parts.join(","), value);
        }
        other => panic!("unexpected {other:?}"),
    }
}
