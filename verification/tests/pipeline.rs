use banya::args::Args;
use banya::bindings::{CapabilitySchema, Plugin, PluginInfo};
use banya::builtin::NativeFunction;
use banya::builtin::logical::{LogicalAnd, LogicalNot};
use banya::instruction::{
    Action, CallableRef, CallableRefDe, Condition, Instruction, Invalid, Invocation, Step,
    interpolate_json, interpolate_string, parse_call_shorthand, validate_variable_name,
};
use banya::json::{JsonValue, json_eq};
use banya::{CallableTarget, PluginHost, controller_reply, decode_plugin_reply};

fn s(text: &str) -> JsonValue {
    JsonValue::String(text.to_string())
}

fn n(text: &str) -> JsonValue {
    JsonValue::Number(text.to_string())
}

fn args(entries: Vec<(&str, JsonValue)>) -> Vec<(String, JsonValue)> {
    entries.into_iter().map(|(k, v)| (k.to_string(), v)).collect()
}

fn plugin(name: &str, caps: &[&str]) -> Plugin {
    Plugin::from_info(PluginInfo {
        name: name.to_string(),
        version: "0.1.0".to_string(),
        description: None,
        author: None,
        capabilities: caps
            .iter()
            .map(|c| CapabilitySchema {
                name: c.to_string(),
                description: None,
                inputs: vec![],
                output: None,
            })
            .collect(),
    })
}

fn host_with_natives() -> PluginHost {
    let mut host = PluginHost::new();
    host.register_native(&LogicalNot);
    host.register_native(&LogicalAnd);
    host
}

fn de(call: Option<&str>, function: Option<&str>, capability: Option<&str>) -> CallableRefDe {
    CallableRefDe {
        call: call.map(str::to_string),
        function: function.map(str::to_string),
        capability: capability.map(str::to_string),
    }
}

#[test]
fn call_shorthand_forms() {
    assert_eq!(
        parse_call_shorthand("math.calculate"),
        Ok(("math".to_string(), "calculate".to_string()))
    );
    assert_eq!(parse_call_shorthand("math:calculate"), Ok(("math".to_string(), "calculate".to_string())));
    assert_eq!(parse_call_shorthand("math/calculate"), Ok(("math".to_string(), "calculate".to_string())));
    assert_eq!(parse_call_shorthand("a.b.c"), Ok(("a.b".to_string(), "c".to_string())));
    assert_eq!(parse_call_shorthand("a:b.c"), Ok(("a:b".to_string(), "c".to_string())));
    assert_eq!(parse_call_shorthand("a.:b"), Ok(("a".to_string(), ":b".to_string())));
    assert_eq!(parse_call_shorthand("a.:"), Ok(("a".to_string(), ":".to_string())));
    assert_eq!(parse_call_shorthand("a:."), Ok(("a".to_string(), ".".to_string())));
    assert_eq!(
        parse_call_shorthand("math"),
        Err("Invalid call shorthand 'math'. Use 'function.capability', 'function:capability', or 'function/capability'.".to_string())
    );
    assert!(parse_call_shorthand(".x").is_err());
}

#[test]
fn callable_fields_resolve() {
    let r = CallableRef::<Invalid>::try_from_de(de(Some("math.calculate"), None, None)).unwrap();
    assert_eq!((r.function.as_str(), r.capability.as_str()), ("math", "calculate"));
    let r = CallableRef::<Invalid>::try_from_de(de(None, Some("math"), Some("calculate"))).unwrap();
    assert_eq!((r.function.as_str(), r.capability.as_str()), ("math", "calculate"));
    let r = CallableRef::<Invalid>::try_from_de(de(Some("math.x"), None, Some("calculate")));
    assert_eq!(
        r.err(),
        Some("Conflicting invocation fields: 'call' must match explicit 'function' and 'capability'.".to_string())
    );
    assert_eq!(
        CallableRef::<Invalid>::try_from_de(de(None, None, Some("c"))).err(),
        Some("Missing function reference. Use 'function'/'plugin' or shorthand 'call'.".to_string())
    );
    assert_eq!(
        CallableRef::<Invalid>::try_from_de(de(None, Some("f"), None)).err(),
        Some("Missing capability. Use 'capability' or shorthand 'call'.".to_string())
    );
}

#[test]
fn variable_names() {
    assert_eq!(validate_variable_name("ok_1-X"), Ok(()));
    assert_eq!(
        validate_variable_name(""),
        Err("Interpolation variable name cannot be empty".to_string())
    );
    assert_eq!(
        validate_variable_name("a b"),
        Err("Interpolation variable 'a b' contains invalid characters (allowed: ASCII letters, digits, '_' or '-')".to_string())
    );
}

#[test]
fn interpolation_reads_the_store() {
    let mut host = PluginHost::new();
    host.store_put("x".to_string(), b"42".to_vec());
    host.store_put("name".to_string(), b"\"Ada\"".to_vec());
    assert_eq!(interpolate_string("${x}".to_string(), &host), Ok(n("42")));
    assert_eq!(interpolate_string("v=${x}!".to_string(), &host), Ok(s("v=42!")));
    assert_eq!(interpolate_string("hi ${name}, ${x}".to_string(), &host), Ok(s("hi Ada, 42")));
    assert_eq!(interpolate_string("plain $ {x}".to_string(), &host), Ok(s("plain $ {x}")));
    assert_eq!(
        interpolate_string("${y}".to_string(), &host),
        Err("Interpolation variable 'y' not found. Available variables: name, x".to_string())
    );
    assert_eq!(
        interpolate_string("${x".to_string(), &host),
        Err("Unclosed interpolation in '${x'".to_string())
    );
    let value = JsonValue::Object(args(vec![
        ("a", s("${x}")),
        ("b", JsonValue::Array(vec![s("${name}"), JsonValue::Bool(true)])),
    ]));
    assert_eq!(
        interpolate_json(&value, &host),
        Ok(JsonValue::Object(args(vec![
            ("a", n("42")),
            ("b", JsonValue::Array(vec![s("Ada"), JsonValue::Bool(true)])),
        ])))
    );
    let empty = PluginHost::new();
    assert_eq!(
        interpolate_string("${z}".to_string(), &empty),
        Err("Interpolation variable 'z' not found. Available variables: none".to_string())
    );
}

#[test]
fn validation_reports_unknown_targets() {
    let host = host_with_natives();
    let inst = Instruction::<Invalid>::single(Invocation::new("nope".to_string(), "x".to_string(), vec![]));
    assert_eq!(
        inst.validate(&host).err(),
        Some("No loaded or native function found for invocation target: nope".to_string())
    );
    let ok = Instruction::<Invalid>::single(Invocation::new(
        "logical-not".to_string(),
        "evaluate".to_string(),
        vec![],
    ));
    assert!(ok.validate(&host).is_ok());
}

#[test]
fn run_stores_results_and_ends_with_the_last() {
    let mut host = host_with_natives();
    let mut step = Step::unconditional(Invocation::new(
        "logical-not".to_string(),
        "evaluate".to_string(),
        args(vec![("value", JsonValue::Bool(true))]),
    ));
    step.store_as = Some("flipped".to_string());
    let second = Step::unconditional(Invocation::new(
        "logical-not".to_string(),
        "evaluate".to_string(),
        args(vec![("value", s("${flipped}"))]),
    ));
    let inst = Instruction::new(Some("demo".to_string()), vec![step, second]).validate(&host).unwrap();
    assert!(inst.targets_resolve(&host));
    let (mut exec, mut action) = inst.start(&host);
    let mut calls = 0;
    let result = loop {
        match action {
            Action::Invoke(req) => {
                calls += 1;
                assert_eq!(req.function, "logical-not");
                assert!(matches!(req.target, CallableTarget::Native(_)));
                let outcome = LogicalNot.invoke(&req.capability, &req.args);
                action = exec.resume(&mut host, outcome);
            }
            Action::Done(r) => break r,
        }
    };
    assert_eq!(calls, 2);
    assert_eq!(result, Ok("true".to_string()));
    assert!(exec.is_finished());
    assert_eq!(host.store_get("flipped"), Some(b"false".to_vec()));
    assert_eq!(host.store_get("last"), Some(b"true".to_vec()));
}

#[test]
fn false_condition_skips_the_step() {
    let mut host = host_with_natives();
    let step = Step {
        condition: Some(Condition {
            call: Invocation::new(
                "logical-and".to_string(),
                "evaluate".to_string(),
                args(vec![("conditions", JsonValue::Array(vec![JsonValue::Bool(false)]))]),
            ),
            negate: false,
        }),
        next: None,
        call: Invocation::new("logical-not".to_string(), "evaluate".to_string(), vec![]),
        store_as: Some("never".to_string()),
    };
    let inst = Instruction::new(None, vec![step]).validate(&host).unwrap();
    let (mut exec, action) = inst.start(&host);
    let req = match action {
        Action::Invoke(req) => req,
        Action::Done(_) => panic!("the condition is invoked first"),
    };
    assert_eq!(req.function, "logical-and");
    let outcome = LogicalAnd.invoke(&req.capability, &req.args);
    assert_eq!(outcome, Ok(JsonValue::Bool(false)));
    match exec.resume(&mut host, outcome) {
        Action::Done(r) => assert_eq!(r, Ok("null".to_string())),
        Action::Invoke(_) => panic!("the step is skipped"),
    }
    assert_eq!(host.store_get("never"), None);
    assert_eq!(host.store_get("last"), None);
}

#[test]
fn negated_condition_and_call_errors() {
    let mut host = host_with_natives();
    let step = Step {
        condition: Some(Condition {
            call: Invocation::new("logical-and".to_string(), "evaluate".to_string(), vec![]),
            negate: true,
        }),
        next: None,
        call: Invocation::new("logical-not".to_string(), "evaluate".to_string(), vec![]),
        store_as: None,
    };
    let inst = Instruction::new(None, vec![step]).validate(&host).unwrap();
    let (mut exec, _) = inst.start(&host);
    // A false condition result, negated, lets the call run.
    match exec.resume(&mut host, Ok(JsonValue::Bool(false))) {
        Action::Invoke(req) => assert_eq!(req.function, "logical-not"),
        Action::Done(_) => panic!("the negated condition holds"),
    }
    match exec.resume(&mut host, Err("boom".to_string())) {
        Action::Done(r) => assert_eq!(r, Err("boom".to_string())),
        Action::Invoke(_) => panic!("an error ends the run"),
    }
}

#[test]
fn empty_instruction_ends_with_null() {
    let host = PluginHost::new();
    let inst = Instruction::<Invalid>::new(None, vec![]).validate(&host).unwrap();
    let (exec, action) = inst.start(&host);
    assert!(exec.is_finished());
    match action {
        Action::Done(r) => assert_eq!(r, Ok("null".to_string())),
        Action::Invoke(_) => panic!("nothing to invoke"),
    }
}

#[test]
fn unresolved_interpolation_ends_the_run() {
    let host = host_with_natives();
    let inst = Instruction::<Invalid>::single(Invocation::new(
        "logical-not".to_string(),
        "evaluate".to_string(),
        args(vec![("value", s("${missing}"))]),
    ))
    .validate(&host)
    .unwrap();
    let (_, action) = inst.start(&host);
    match action {
        Action::Done(r) => assert_eq!(
            r,
            Err("Interpolation variable 'missing' not found. Available variables: none".to_string())
        ),
        Action::Invoke(_) => panic!("interpolation fails first"),
    }
}

#[test]
fn host_resolution_prefers_plugins() {
    let mut host = host_with_natives();
    assert_eq!(host.len_native(), 2);
    assert!(host.is_empty());
    host.push(plugin("logical-not", &["evaluate", "extra"]));
    host.push(plugin("echo", &["sensor", "action"]));
    assert_eq!(host.len(), 2);
    match host.resolve_callable("logical-not") {
        Some(CallableTarget::Plugin(p)) => assert_eq!(p.version(), "0.1.0"),
        _ => panic!("the plugin shadows the native function"),
    }
    match host.resolve_callable("logical-and") {
        Some(t @ CallableTarget::Native(_)) => {
            assert!(t.has_capability("evaluate"));
            assert_eq!(t.capability_names(), vec!["evaluate".to_string()]);
        }
        _ => panic!("a native function"),
    }
    assert!(host.resolve_callable("missing").is_none());
    let found: Vec<&str> = host.find_by_capability("sensor").iter().map(|p| p.name()).collect();
    assert_eq!(found, vec!["echo"]);
    assert!(host.find_plugin_with_capability("echo", "action").is_some());
    assert!(host.find_plugin_with_capability("echo", "evaluate").is_none());
    assert_eq!(host.plugin_names(), vec!["logical-not".to_string(), "echo".to_string()]);
    let removed = host.shutdown_all();
    assert_eq!(removed.len(), 2);
    assert!(host.is_empty());
}

#[test]
fn host_store_round_trip() {
    let mut host = PluginHost::new();
    assert_eq!(host.store_put("k".to_string(), vec![1, 2]), None);
    assert_eq!(host.store_put("k".to_string(), vec![3]), Some(vec![1, 2]));
    assert_eq!(host.store_get("k"), Some(vec![3]));
    assert_eq!(host.store_remove("k"), Some(vec![3]));
    assert_eq!(host.store_get("k"), None);
    assert_eq!(host.store_remove("k"), None);
}

#[test]
fn controller_calls() {
    let host = host_with_natives();
    let (target, payload) = host.prepare_controller_call("logical-not", b"").unwrap();
    assert!(matches!(target, CallableTarget::Native(_)));
    assert_eq!(payload, JsonValue::Null);
    let (_, payload) = host.prepare_controller_call("logical-not", b"{\"value\":true}").unwrap();
    assert_eq!(payload, JsonValue::Object(args(vec![("value", JsonValue::Bool(true))])));
    assert_eq!(
        host.prepare_controller_call("ghost", b"").err(),
        Some("No plugin or native function found for action: ghost".to_string())
    );
    let bad = host.prepare_controller_call("ghost", b"{").err().unwrap();
    assert!(bad.starts_with("Failed to parse controller.execute JSON payload: "));
    assert_eq!(controller_reply(&JsonValue::Null), Ok(None));
    assert_eq!(controller_reply(&JsonValue::Bool(true)), Ok(Some(b"true".to_vec())));
}

#[test]
fn plugin_replies() {
    assert_eq!(decode_plugin_reply(None), Ok(JsonValue::Null));
    assert_eq!(decode_plugin_reply(Some(vec![])), Ok(JsonValue::Null));
    assert_eq!(
        decode_plugin_reply(Some(b"[1,\"a\"]".to_vec())),
        Ok(JsonValue::Array(vec![n("1"), s("a")]))
    );
    let e = decode_plugin_reply(Some(b"{".to_vec())).err().unwrap();
    assert!(e.starts_with("Failed to parse JSON bytes: "));
}

#[test]
fn json_equality_follows_serde_json() {
    assert!(json_eq(&n("1"), &n("1")));
    assert!(!json_eq(&n("1"), &n("1.0")));
    assert!(!json_eq(&n("1"), &s("1")));
    assert!(json_eq(
        &JsonValue::Array(vec![s("a"), JsonValue::Null]),
        &JsonValue::Array(vec![s("a"), JsonValue::Null])
    ));
    let object = JsonValue::Object(args(vec![("k", n("2"))]));
    assert_eq!(object.get("k"), Some(&n("2")));
    assert_eq!(object.get("z"), None);
}

#[test]
fn plugin_sources_are_directories_then_files() {
    let a = Args {
        json_file: "i.json".to_string(),
        wasm_dir: vec!["d1".to_string(), "d2".to_string()],
        wasm_file: vec!["f.wasm".to_string()],
    };
    assert_eq!(
        a.plugin_sources(),
        vec!["d1".to_string(), "d2".to_string(), "f.wasm".to_string()]
    );
}

fn not_call(value: JsonValue) -> Invocation<Invalid> {
    Invocation::new("logical-not".to_string(), "evaluate".to_string(), args(vec![("value", value)]))
}

fn run_all(inst: &Instruction<banya::instruction::Valid>, host: &mut PluginHost) -> (Vec<String>, Result<String, String>) {
    let (mut exec, mut action) = inst.start(host);
    let mut seen = Vec::new();
    loop {
        match action {
            Action::Invoke(req) => {
                seen.push(format!("{:?}", req.args));
                let outcome = match req.target {
                    CallableTarget::Native(ref info) if info.name == "logical-and" => {
                        LogicalAnd.invoke(&req.capability, &req.args)
                    }
                    _ => LogicalNot.invoke(&req.capability, &req.args),
                };
                action = exec.resume(host, outcome);
            }
            Action::Done(r) => return (seen, r),
        }
    }
}

#[test]
fn follow_up_steps_run_after_their_step_and_before_its_siblings() {
    let mut host = host_with_natives();
    let mut child = Step::unconditional(not_call(s("${p}")));
    child.store_as = Some("child".to_string());
    let mut parent = Step::unconditional(not_call(JsonValue::Bool(true)));
    parent.store_as = Some("p".to_string());
    parent.next = Some(vec![child]);
    let sibling = Step::unconditional(not_call(s("${last}")));
    let inst = Instruction::new(None, vec![parent, sibling]).validate(&host).unwrap();
    let (seen, result) = run_all(&inst, &mut host);
    assert_eq!(seen.len(), 3);
    assert_eq!(host.store_get("p"), Some(b"false".to_vec()));
    assert_eq!(host.store_get("child"), Some(b"true".to_vec()));
    assert_eq!(result, Ok("false".to_string()));
}

#[test]
fn skipped_step_skips_its_follow_up_steps() {
    let mut host = host_with_natives();
    let mut child = Step::unconditional(not_call(JsonValue::Bool(false)));
    child.store_as = Some("child".to_string());
    let parent = Step {
        condition: Some(Condition {
            call: Invocation::new(
                "logical-and".to_string(),
                "evaluate".to_string(),
                args(vec![("conditions", JsonValue::Array(vec![JsonValue::Bool(false)]))]),
            ),
            negate: false,
        }),
        next: Some(vec![child]),
        call: not_call(JsonValue::Bool(true)),
        store_as: None,
    };
    let inst = Instruction::new(None, vec![parent]).validate(&host).unwrap();
    let (seen, result) = run_all(&inst, &mut host);
    assert_eq!(seen.len(), 1);
    assert_eq!(host.store_get("child"), None);
    assert_eq!(result, Ok("null".to_string()));
}

#[test]
fn unknown_follow_up_target_fails_validation() {
    let host = host_with_natives();
    let mut parent = Step::unconditional(not_call(JsonValue::Bool(true)));
    parent.next = Some(vec![Step::unconditional(Invocation::new(
        "ghost".to_string(),
        "x".to_string(),
        vec![],
    ))]);
    assert_eq!(
        Instruction::new(None, vec![parent]).validate(&host).err(),
        Some("No loaded or native function found for invocation target: ghost".to_string())
    );
}

#[test]
fn listings_keep_each_name_once_in_loading_order() {
    let mut host = host_with_natives();
    host.push(plugin("a", &["x"]));
    host.push(plugin("b", &["y"]));
    host.push(plugin("a", &["z"]));
    assert_eq!(host.plugin_names(), vec!["a".to_string(), "b".to_string()]);
    let listed: Vec<(String, bool)> =
        host.iter().iter().map(|(n, p)| (n.to_string(), p.has_capability("z"))).collect();
    assert_eq!(listed, vec![("a".to_string(), true), ("b".to_string(), false)]);
    host.register_native(&LogicalNot);
    assert_eq!(
        host.native_function_names(),
        vec!["logical-not".to_string(), "logical-and".to_string()]
    );
    host.store_put("one".to_string(), vec![1]);
    host.store_put("two".to_string(), vec![2]);
    host.store_put("one".to_string(), vec![3]);
    host.store_remove("two");
    assert_eq!(host.store_keys(), vec!["one".to_string()]);
    let back = host.shutdown_all();
    assert_eq!(back.len(), 2);
    assert_eq!(back[0].name(), "a");
    assert_eq!(back[1].name(), "b");
    assert_eq!(host.len(), 0);
    assert_eq!(host.len_native(), 2);
    assert_eq!(host.store_get("one"), Some(vec![3]));
}
