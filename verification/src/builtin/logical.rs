//! Native functions for boolean logic, comparison, string operations and arithmetic.
use vstd::prelude::*;
use vstd::string::StringExecFns;

use crate::bindings::{CapabilitySchemaView, PluginInfoView, schemas_have};
use crate::builtin::registry::{
    NativeCapabilitySchema, NativeFunction, NativeFunctionInfo, NativeFunctionInfoBuilder,
    NativeInvokeResult, native_capability, native_function_info,
};
use crate::instruction::model::invocation::outcome_view;
use crate::json::{
    Json, JsonValue, Order, json_eq, json_equal, json_get, json_views, lemma_json_views,
    numbers_order, order_flip, serde_number_eq, serde_number_order, truthy,
};
use crate::text::{
    join, lemma_join_split, lemma_seq_lt_irreflexive, occurs_at, replaced, seq_contains, seq_lt,
    split_pieces,
    std_to_lowercase, std_to_uppercase, trimmed,
};

verus! {

// ---------------------------------------------------------------------------
// Arguments
// ---------------------------------------------------------------------------

/// The array stored under `key` in the arguments.
pub open spec fn arg_array(args: Json, key: Seq<char>) -> Option<Seq<Json>> {
    match json_get(args, key) {
        Some(Json::Array(items)) => Some(items),
        _ => None,
    }
}

/// The string stored under `key` in the arguments.
pub open spec fn arg_str(args: Json, key: Seq<char>) -> Option<Seq<char>> {
    match json_get(args, key) {
        Some(Json::Str(s)) => Some(s),
        _ => None,
    }
}

/// The boolean stored under `key` in the arguments.
pub open spec fn arg_bool(args: Json, key: Seq<char>) -> Option<bool> {
    match json_get(args, key) {
        Some(Json::Bool(b)) => Some(b),
        _ => None,
    }
}

fn get_array<'a>(args: &'a JsonValue, key: &str) -> (r: Option<&'a Vec<JsonValue>>)
    ensures
        match r {
            Some(items) => arg_array(args@, key@) == Some(json_views(items@)),
            None => arg_array(args@, key@) is None,
        },
{
    match args.get(key) {
        Some(v) => v.as_array(),
        None => None,
    }
}

fn get_str<'a>(args: &'a JsonValue, key: &str) -> (r: Option<&'a String>)
    ensures
        match r {
            Some(s) => arg_str(args@, key@) == Some(s@),
            None => arg_str(args@, key@) is None,
        },
{
    match args.get(key) {
        Some(v) => v.as_str(),
        None => None,
    }
}

fn get_bool(args: &JsonValue, key: &str) -> (r: Option<bool>)
    ensures
        r == arg_bool(args@, key@),
{
    match args.get(key) {
        Some(v) => v.as_bool(),
        None => None,
    }
}

/// An error result carrying the message.
fn fail(message: &str) -> (r: NativeInvokeResult)
    ensures
        outcome_view(r) == Err::<Json, Seq<char>>(message@),
{
    Err(String::from_str(message))
}

/// The error for a capability that a function does not have.
pub open spec fn unknown_capability(capability: Seq<char>) -> Result<Json, Seq<char>> {
    Err("Unknown capability: "@ + capability)
}

fn unknown_capability_error(capability: &str) -> (r: NativeInvokeResult)
    ensures
        outcome_view(r) == unknown_capability(capability@),
{
    Err(crate::text::concat2("Unknown capability: ", capability))
}

/// The schema that names a single capability, with its description, inputs and output.
pub open spec fn schema(
    name: Seq<char>,
    description: Seq<char>,
    inputs: Seq<(Seq<char>, Seq<char>)>,
    output: Seq<char>,
) -> CapabilitySchemaView {
    CapabilitySchemaView {
        name,
        description: Some(description),
        inputs,
        output: Some(output),
    }
}

/// The metadata of a built-in function: version `1.0.0`, author `banya`.
pub open spec fn builtin_info(
    name: Seq<char>,
    description: Seq<char>,
    capabilities: Seq<CapabilitySchemaView>,
) -> PluginInfoView {
    PluginInfoView {
        name,
        version: "1.0.0"@,
        description: Some(description),
        author: Some("banya"@),
        capabilities,
    }
}

fn builtin_info_builder(name: &str, description: &str) -> (r: NativeFunctionInfoBuilder)
    ensures
        r@ == builtin_info(name@, description@, Seq::empty()),
{
    native_function_info(name, "1.0.0").description(description).author("banya")
}

// ---------------------------------------------------------------------------
// logical-and, logical-or
// ---------------------------------------------------------------------------

/// Whether every condition counts as true (see [`truthy`]).
pub open spec fn all_truthy(conditions: Seq<Json>) -> bool {
    forall|i: int| 0 <= i < conditions.len() ==> truthy(#[trigger] conditions[i])
}

/// Whether some condition counts as true (see [`truthy`]).
pub open spec fn any_truthy(conditions: Seq<Json>) -> bool {
    exists|i: int| 0 <= i < conditions.len() && truthy(#[trigger] conditions[i])
}

/// The message for a missing or malformed `conditions` argument.
pub open spec fn conditions_message() -> Seq<char> {
    "Missing or invalid 'conditions' argument (expected array)"@
}

/// What `logical-and` answers: whether all `conditions` are true.
/// What `logical-and` answers for a capability: its one capability is `evaluate`.
pub open spec fn and_answer(capability: Seq<char>, args: Json) -> Result<Json, Seq<char>> {
    if capability == "evaluate"@ {
        and_result(args)
    } else {
        unknown_capability(capability)
    }
}

pub open spec fn and_result(args: Json) -> Result<Json, Seq<char>> {
    match arg_array(args, "conditions"@) {
        Some(c) => Ok(Json::Bool(all_truthy(c))),
        None => Err(conditions_message()),
    }
}

/// What `logical-or` answers: whether any of the `conditions` is true.
/// What `logical-or` answers for a capability: its one capability is `evaluate`.
pub open spec fn or_answer(capability: Seq<char>, args: Json) -> Result<Json, Seq<char>> {
    if capability == "evaluate"@ {
        or_result(args)
    } else {
        unknown_capability(capability)
    }
}

pub open spec fn or_result(args: Json) -> Result<Json, Seq<char>> {
    match arg_array(args, "conditions"@) {
        Some(c) => Ok(Json::Bool(any_truthy(c))),
        None => Err(conditions_message()),
    }
}

fn all_conditions(items: &Vec<JsonValue>) -> (r: bool)
    ensures
        r == all_truthy(json_views(items@)),
{
    proof {
        lemma_json_views(items@);
    }
    let mut i: usize = 0;
    while i < items.len()
        invariant
            i <= items@.len(),
            json_views(items@).len() == items@.len(),
            forall|j: int| 0 <= j < items@.len() ==> #[trigger] json_views(items@)[j] == items@[j]@,
            forall|j: int| 0 <= j < i ==> truthy(#[trigger] json_views(items@)[j]),
        decreases items@.len() - i,
    {
        if !items[i].is_truthy() {
            assert(!truthy(json_views(items@)[i as int]));
            return false;
        }
        i = i + 1;
    }
    true
}

fn any_condition(items: &Vec<JsonValue>) -> (r: bool)
    ensures
        r == any_truthy(json_views(items@)),
{
    proof {
        lemma_json_views(items@);
    }
    let mut i: usize = 0;
    while i < items.len()
        invariant
            i <= items@.len(),
            json_views(items@).len() == items@.len(),
            forall|j: int| 0 <= j < items@.len() ==> #[trigger] json_views(items@)[j] == items@[j]@,
            forall|j: int| 0 <= j < i ==> !truthy(#[trigger] json_views(items@)[j]),
        decreases items@.len() - i,
    {
        if items[i].is_truthy() {
            assert(truthy(json_views(items@)[i as int]));
            return true;
        }
        i = i + 1;
    }
    false
}

/// The metadata of `logical-and`.
pub open spec fn and_info() -> PluginInfoView {
    builtin_info(
        "logical-and"@,
        "Evaluates multiple conditions and returns true if ALL are true"@,
        seq![schema("evaluate"@, "Evaluate boolean AND logic"@, seq![("conditions"@, "array<bool>"@)], "bool"@)],
    )
}

/// The metadata of `logical-or`.
pub open spec fn or_info() -> PluginInfoView {
    builtin_info(
        "logical-or"@,
        "Evaluates multiple conditions and returns true if ANY are true"@,
        seq![schema("evaluate"@, "Evaluate boolean OR logic"@, seq![("conditions"@, "array<bool>"@)], "bool"@)],
    )
}

/// Evaluates boolean AND over the `conditions` argument.
pub struct LogicalAnd;

impl LogicalAnd {
    /// The metadata without its capabilities.
    pub fn info_builder(&self) -> (r: NativeFunctionInfoBuilder)
        ensures
            r@ == builtin_info(and_info().name, and_info().description.unwrap(), Seq::empty()),
    {
        builtin_info_builder("logical-and", "Evaluates multiple conditions and returns true if ALL are true")
    }

    /// The capabilities, in order.
    pub fn capability_schemas(&self) -> (r: Vec<NativeCapabilitySchema>)
        ensures
            crate::bindings::schemas_view(r@) == and_info().capabilities,
    {
        let c = native_capability("evaluate")
            .description("Evaluate boolean AND logic")
            .input("conditions", "array<bool>")
            .output("bool")
            .build();
        let mut v: Vec<NativeCapabilitySchema> = Vec::new();
        v.push(c);
        assert(crate::bindings::schemas_view(v@) =~= and_info().capabilities);
        v
    }

    /// `true` if every condition is true (a boolean is itself, `null` is false, any
    /// other value is true).
    pub fn evaluate(&self, args: &JsonValue) -> (r: NativeInvokeResult)
        ensures
            outcome_view(r) == and_result(args@),
    {
        match get_array(args, "conditions") {
            Some(items) => Ok(JsonValue::Bool(all_conditions(items))),
            None => fail("Missing or invalid 'conditions' argument (expected array)"),
        }
    }
}

impl NativeFunction for LogicalAnd {
    open spec fn metadata(&self) -> PluginInfoView {
        and_info()
    }

    fn info(&self) -> (r: NativeFunctionInfo)
        ensures
            r@ == and_info(),
    {
        let r = self.info_builder().capabilities(self.capability_schemas()).build();
        assert(r@ =~= and_info());
        r
    }

    fn invoke(&self, capability: &str, args: &JsonValue) -> (r: NativeInvokeResult)
        ensures
            outcome_view(r) == and_answer(capability@, args@),
    {
        if crate::text::str_eq(capability, "evaluate") {
            self.evaluate(args)
        } else {
            unknown_capability_error(capability)
        }
    }
}

/// Evaluates boolean OR over the `conditions` argument.
pub struct LogicalOr;

impl LogicalOr {
    /// The metadata without its capabilities.
    pub fn info_builder(&self) -> (r: NativeFunctionInfoBuilder)
        ensures
            r@ == builtin_info(or_info().name, or_info().description.unwrap(), Seq::empty()),
    {
        builtin_info_builder("logical-or", "Evaluates multiple conditions and returns true if ANY are true")
    }

    /// The capabilities, in order.
    pub fn capability_schemas(&self) -> (r: Vec<NativeCapabilitySchema>)
        ensures
            crate::bindings::schemas_view(r@) == or_info().capabilities,
    {
        let c = native_capability("evaluate")
            .description("Evaluate boolean OR logic")
            .input("conditions", "array<bool>")
            .output("bool")
            .build();
        let mut v: Vec<NativeCapabilitySchema> = Vec::new();
        v.push(c);
        assert(crate::bindings::schemas_view(v@) =~= or_info().capabilities);
        v
    }

    /// `true` if some condition is true (a boolean is itself, `null` is false, any other
    /// value is true).
    pub fn evaluate(&self, args: &JsonValue) -> (r: NativeInvokeResult)
        ensures
            outcome_view(r) == or_result(args@),
    {
        match get_array(args, "conditions") {
            Some(items) => Ok(JsonValue::Bool(any_condition(items))),
            None => fail("Missing or invalid 'conditions' argument (expected array)"),
        }
    }
}

impl NativeFunction for LogicalOr {
    open spec fn metadata(&self) -> PluginInfoView {
        or_info()
    }

    fn info(&self) -> (r: NativeFunctionInfo)
        ensures
            r@ == or_info(),
    {
        let r = self.info_builder().capabilities(self.capability_schemas()).build();
        assert(r@ =~= or_info());
        r
    }

    fn invoke(&self, capability: &str, args: &JsonValue) -> (r: NativeInvokeResult)
        ensures
            outcome_view(r) == or_answer(capability@, args@),
    {
        if crate::text::str_eq(capability, "evaluate") {
            self.evaluate(args)
        } else {
            unknown_capability_error(capability)
        }
    }
}

// ---------------------------------------------------------------------------
// logical-not
// ---------------------------------------------------------------------------

/// What `logical-not` answers: the negation of the boolean `value`.
/// What `logical-not` answers for a capability: its one capability is `evaluate`.
pub open spec fn not_answer(capability: Seq<char>, args: Json) -> Result<Json, Seq<char>> {
    if capability == "evaluate"@ {
        not_result(args)
    } else {
        unknown_capability(capability)
    }
}

pub open spec fn not_result(args: Json) -> Result<Json, Seq<char>> {
    match arg_bool(args, "value"@) {
        Some(b) => Ok(Json::Bool(!b)),
        None => Err("Missing or invalid 'value' argument (expected bool)"@),
    }
}

/// The metadata of `logical-not`.
pub open spec fn not_info() -> PluginInfoView {
    builtin_info(
        "logical-not"@,
        "Inverts a boolean condition"@,
        seq![schema("evaluate"@, "Evaluate boolean NOT logic"@, seq![("value"@, "bool"@)], "bool"@)],
    )
}

/// Inverts the boolean `value` argument.
pub struct LogicalNot;

impl LogicalNot {
    /// The metadata without its capabilities.
    pub fn info_builder(&self) -> (r: NativeFunctionInfoBuilder)
        ensures
            r@ == builtin_info(not_info().name, not_info().description.unwrap(), Seq::empty()),
    {
        builtin_info_builder("logical-not", "Inverts a boolean condition")
    }

    /// The capabilities, in order.
    pub fn capability_schemas(&self) -> (r: Vec<NativeCapabilitySchema>)
        ensures
            crate::bindings::schemas_view(r@) == not_info().capabilities,
    {
        let c = native_capability("evaluate")
            .description("Evaluate boolean NOT logic")
            .input("value", "bool")
            .output("bool")
            .build();
        let mut v: Vec<NativeCapabilitySchema> = Vec::new();
        v.push(c);
        assert(crate::bindings::schemas_view(v@) =~= not_info().capabilities);
        v
    }

    /// The negation of the boolean `value`.
    pub fn evaluate(&self, args: &JsonValue) -> (r: NativeInvokeResult)
        ensures
            outcome_view(r) == not_result(args@),
    {
        match get_bool(args, "value") {
            Some(b) => Ok(JsonValue::Bool(!b)),
            None => fail("Missing or invalid 'value' argument (expected bool)"),
        }
    }
}

impl NativeFunction for LogicalNot {
    open spec fn metadata(&self) -> PluginInfoView {
        not_info()
    }

    fn info(&self) -> (r: NativeFunctionInfo)
        ensures
            r@ == not_info(),
    {
        let r = self.info_builder().capabilities(self.capability_schemas()).build();
        assert(r@ =~= not_info());
        r
    }

    fn invoke(&self, capability: &str, args: &JsonValue) -> (r: NativeInvokeResult)
        ensures
            outcome_view(r) == not_answer(capability@, args@),
    {
        if crate::text::str_eq(capability, "evaluate") {
            self.evaluate(args)
        } else {
            unknown_capability_error(capability)
        }
    }
}

// ---------------------------------------------------------------------------
// compare
// ---------------------------------------------------------------------------

/// The order of two values of the same kind: numbers as `f64`s (see
/// [`serde_number_order`]), strings by their characters, `false` before `true`; `None`
/// for values of different kinds or of another kind.
pub open spec fn values_order(left: Json, right: Json) -> Option<Order> {
    match (left, right) {
        (Json::Number(a), Json::Number(b)) => serde_number_order(a, b),
        (Json::Str(a), Json::Str(b)) => Some(
            if seq_lt(a, b) {
                Order::Less
            } else if a == b {
                Order::Equal
            } else {
                Order::Greater
            },
        ),
        (Json::Bool(a), Json::Bool(b)) => Some(
            if a == b {
                Order::Equal
            } else if !a {
                Order::Less
            } else {
                Order::Greater
            },
        ),
        _ => None,
    }
}

/// What an operator of `compare` says of two values; `None` for an unknown operator.
pub open spec fn compare_with(operator: Seq<char>, left: Json, right: Json) -> Option<bool> {
    if operator == "eq"@ {
        Some(json_equal(left, right))
    } else if operator == "ne"@ {
        Some(!json_equal(left, right))
    } else if operator == "gt"@ {
        Some(values_order(left, right) == Some(Order::Greater))
    } else if operator == "lt"@ {
        Some(values_order(left, right) == Some(Order::Less))
    } else if operator == "gte"@ {
        Some(values_order(left, right) == Some(Order::Greater) || values_order(left, right) == Some(
            Order::Equal,
        ))
    } else if operator == "lte"@ {
        Some(values_order(left, right) == Some(Order::Less) || values_order(left, right) == Some(
            Order::Equal,
        ))
    } else {
        None
    }
}

/// What `compare` answers: `operator` applied to `left` and `right`, each argument
/// checked in that order.
/// What `compare` answers for a capability: its one capability is `evaluate`.
pub open spec fn compare_answer(capability: Seq<char>, args: Json) -> Result<Json, Seq<char>> {
    if capability == "evaluate"@ {
        compare_result(args)
    } else {
        unknown_capability(capability)
    }
}

pub open spec fn compare_result(args: Json) -> Result<Json, Seq<char>> {
    match arg_str(args, "operator"@) {
        None => Err("Missing or invalid 'operator' argument"@),
        Some(op) => match json_get(args, "left"@) {
            None => Err("Missing 'left' argument"@),
            Some(l) => match json_get(args, "right"@) {
                None => Err("Missing 'right' argument"@),
                Some(r) => match compare_with(op, l, r) {
                    Some(b) => Ok(Json::Bool(b)),
                    None => Err("Unknown operator: "@ + op),
                },
            },
        },
    }
}

/// The order of two values (see [`values_order`]).
pub fn compare_values(left: &JsonValue, right: &JsonValue) -> (r: Option<Order>)
    ensures
        r == values_order(left@, right@),
{
    match (left, right) {
        (JsonValue::Number(a), JsonValue::Number(b)) => numbers_order(a.as_str(), b.as_str()),
        (JsonValue::String(a), JsonValue::String(b)) => {
            let c = crate::text::compare_str(a.as_str(), b.as_str());
            if c < 0 {
                Some(Order::Less)
            } else if c == 0 {
                proof {
                    lemma_seq_lt_irreflexive(a@);
                }
                Some(Order::Equal)
            } else {
                Some(Order::Greater)
            }
        },
        (JsonValue::Bool(a), JsonValue::Bool(b)) => {
            if *a == *b {
                Some(Order::Equal)
            } else if !*a {
                Some(Order::Less)
            } else {
                Some(Order::Greater)
            }
        },
        _ => None,
    }
}

fn is_order(o: &Option<Order>, which: &Order) -> (r: bool)
    ensures
        r == (*o == Some(*which)),
{
    match (o, which) {
        (Some(Order::Less), Order::Less) => true,
        (Some(Order::Equal), Order::Equal) => true,
        (Some(Order::Greater), Order::Greater) => true,
        _ => false,
    }
}

/// The metadata of `compare`.
pub open spec fn compare_info() -> PluginInfoView {
    builtin_info(
        "compare"@,
        "Compares two values using the specified operator"@,
        seq![
            schema(
                "evaluate"@,
                "Compare two values"@,
                seq![("operator"@, "string"@), ("left"@, "any"@), ("right"@, "any"@)],
                "bool"@,
            ),
        ],
    )
}

/// Compares two values with one of the operators `eq`, `ne`, `gt`, `lt`, `gte`, `lte`.
pub struct Compare;

impl Compare {
    /// The metadata without its capabilities.
    pub fn info_builder(&self) -> (r: NativeFunctionInfoBuilder)
        ensures
            r@ == builtin_info(compare_info().name, compare_info().description.unwrap(), Seq::empty()),
    {
        builtin_info_builder("compare", "Compares two values using the specified operator")
    }

    /// The capabilities, in order.
    pub fn capability_schemas(&self) -> (r: Vec<NativeCapabilitySchema>)
        ensures
            crate::bindings::schemas_view(r@) == compare_info().capabilities,
    {
        let c = native_capability("evaluate")
            .description("Compare two values")
            .input("operator", "string")
            .input("left", "any")
            .input("right", "any")
            .output("bool")
            .build();
        assert(c@.inputs =~= seq![("operator"@, "string"@), ("left"@, "any"@), ("right"@, "any"@)]);
        let mut v: Vec<NativeCapabilitySchema> = Vec::new();
        v.push(c);
        assert(crate::bindings::schemas_view(v@) =~= compare_info().capabilities);
        v
    }

    /// `operator` applied to `left` and `right`: `eq`/`ne` by JSON equality, the others
    /// by [`values_order`], false where the values cannot be ordered.
    pub fn evaluate(&self, args: &JsonValue) -> (r: NativeInvokeResult)
        ensures
            outcome_view(r) == compare_result(args@),
    {
        let op = match get_str(args, "operator") {
            Some(op) => op,
            None => {
                return fail("Missing or invalid 'operator' argument");
            },
        };
        let left = match args.get("left") {
            Some(l) => l,
            None => {
                return fail("Missing 'left' argument");
            },
        };
        let right = match args.get("right") {
            Some(r) => r,
            None => {
                return fail("Missing 'right' argument");
            },
        };
        let op = op.as_str();
        let result = if crate::text::str_eq(op, "eq") {
            json_eq(left, right)
        } else if crate::text::str_eq(op, "ne") {
            !json_eq(left, right)
        } else if crate::text::str_eq(op, "gt") {
            is_order(&compare_values(left, right), &Order::Greater)
        } else if crate::text::str_eq(op, "lt") {
            is_order(&compare_values(left, right), &Order::Less)
        } else if crate::text::str_eq(op, "gte") {
            let o = compare_values(left, right);
            is_order(&o, &Order::Greater) || is_order(&o, &Order::Equal)
        } else if crate::text::str_eq(op, "lte") {
            let o = compare_values(left, right);
            is_order(&o, &Order::Less) || is_order(&o, &Order::Equal)
        } else {
            return Err(crate::text::concat2("Unknown operator: ", op));
        };
        Ok(JsonValue::Bool(result))
    }
}

impl NativeFunction for Compare {
    open spec fn metadata(&self) -> PluginInfoView {
        compare_info()
    }

    fn info(&self) -> (r: NativeFunctionInfo)
        ensures
            r@ == compare_info(),
    {
        let r = self.info_builder().capabilities(self.capability_schemas()).build();
        assert(r@ =~= compare_info());
        r
    }

    fn invoke(&self, capability: &str, args: &JsonValue) -> (r: NativeInvokeResult)
        ensures
            outcome_view(r) == compare_answer(capability@, args@),
    {
        if crate::text::str_eq(capability, "evaluate") {
            self.evaluate(args)
        } else {
            unknown_capability_error(capability)
        }
    }
}

// ---------------------------------------------------------------------------
// string-ops
// ---------------------------------------------------------------------------

/// The message for a missing or non-string `value` argument.
pub open spec fn value_message() -> Seq<char> {
    "Missing or invalid 'value' argument"@
}

/// The message for a missing or non-string `pattern` argument.
pub open spec fn pattern_message() -> Seq<char> {
    "Missing or invalid 'pattern' argument"@
}

/// The message for a missing or non-string `operation` argument.
pub open spec fn operation_message() -> Seq<char> {
    "Missing or invalid 'operation' argument"@
}

/// The strings among the items, joined in order; other items are skipped.
pub open spec fn concat_strings(items: Seq<Json>) -> Seq<char>
    decreases items.len(),
{
    if items.len() == 0 {
        Seq::empty()
    } else {
        concat_strings(items.drop_last()) + match items.last() {
            Json::Str(s) => s,
            _ => Seq::<char>::empty(),
        }
    }
}

/// Each piece as a JSON string.
pub open spec fn string_items(pieces: Seq<Seq<char>>) -> Seq<Json> {
    pieces.map_values(|p: Seq<char>| Json::Str(p))
}

/// The string under `key`, or `default` where there is none.
pub open spec fn arg_str_or(args: Json, key: Seq<char>, default: Seq<char>) -> Seq<char> {
    match arg_str(args, key) {
        Some(s) => s,
        None => default,
    }
}

/// What the `transform` capability of `string-ops` answers for an operation.
pub open spec fn transform_result(op: Seq<char>, args: Json) -> Result<Json, Seq<char>> {
    if op == "concat"@ {
        match arg_array(args, "strings"@) {
            Some(items) => Ok(Json::Str(concat_strings(items))),
            None => Err("Missing or invalid 'strings' argument"@),
        }
    } else if op == "upper"@ || op == "lower"@ || op == "trim"@ || op == "split"@ || op
        == "replace"@ {
        match arg_str(args, "value"@) {
            None => Err(value_message()),
            Some(v) => if op == "upper"@ {
                Ok(Json::Str(std_to_uppercase(v)))
            } else if op == "lower"@ {
                Ok(Json::Str(std_to_lowercase(v)))
            } else if op == "trim"@ {
                Ok(Json::Str(trimmed(v)))
            } else if op == "split"@ {
                Ok(Json::Array(string_items(split_pieces(v, arg_str_or(args, "delimiter"@, ","@)))))
            } else {
                match arg_str(args, "pattern"@) {
                    None => Err(pattern_message()),
                    Some(p) => Ok(
                        Json::Str(replaced(v, p, arg_str_or(args, "replacement"@, ""@))),
                    ),
                }
            },
        }
    } else {
        Err("Unknown transform operation: "@ + op)
    }
}

/// What the `evaluate` capability of `string-ops` answers for an operation; the `value`
/// argument is checked before the operation.
pub open spec fn string_test_result(op: Seq<char>, args: Json) -> Result<Json, Seq<char>> {
    match arg_str(args, "value"@) {
        None => Err(value_message()),
        Some(v) => if op == "contains"@ || op == "starts_with"@ || op == "ends_with"@ {
            match arg_str(args, "pattern"@) {
                None => Err(pattern_message()),
                Some(p) => Ok(
                    Json::Bool(
                        if op == "contains"@ {
                            seq_contains(v, p)
                        } else if op == "starts_with"@ {
                            occurs_at(v, p, 0)
                        } else {
                            occurs_at(v, p, v.len() - p.len())
                        },
                    ),
                ),
            }
        } else if op == "is_empty"@ {
            Ok(Json::Bool(v.len() == 0))
        } else {
            Err("Unknown evaluate operation: "@ + op)
        },
    }
}

/// What `string-ops` answers for a capability: the `operation` argument first, then
/// the operation.
pub open spec fn string_ops_result(capability: Seq<char>, args: Json) -> Result<Json, Seq<char>> {
    if capability == "evaluate"@ || capability == "transform"@ {
        match arg_str(args, "operation"@) {
            None => Err(operation_message()),
            Some(op) => if capability == "evaluate"@ {
                string_test_result(op, args)
            } else {
                transform_result(op, args)
            },
        }
    } else {
        unknown_capability(capability)
    }
}

/// The metadata of `string-ops`.
pub open spec fn string_ops_info() -> PluginInfoView {
    builtin_info(
        "string-ops"@,
        "String manipulation operations"@,
        seq![
            schema(
                "evaluate"@,
                "Evaluate string conditions"@,
                seq![("operation"@, "string"@), ("value"@, "string"@), ("pattern"@, "string"@)],
                "bool"@,
            ),
            schema(
                "transform"@,
                "Transform strings"@,
                seq![("operation"@, "string"@), ("value"@, "string"@)],
                "string"@,
            ),
        ],
    )
}

fn concat_items(items: &Vec<JsonValue>) -> (r: String)
    ensures
        r@ == concat_strings(json_views(items@)),
{
    proof {
        lemma_json_views(items@);
    }
    let mut out = String::new();
    let mut i: usize = 0;
    while i < items.len()
        invariant
            i <= items@.len(),
            json_views(items@).len() == items@.len(),
            forall|j: int| 0 <= j < items@.len() ==> #[trigger] json_views(items@)[j] == items@[j]@,
            out@ == concat_strings(json_views(items@).subrange(0, i as int)),
        decreases items@.len() - i,
    {
        let ghost before = json_views(items@).subrange(0, i as int);
        let ghost now = json_views(items@).subrange(0, i + 1);
        assert(now.drop_last() =~= before);
        assert(now.last() == items@[i as int]@);
        match items[i].as_str() {
            Some(t) => {
                out = crate::text::concat2(out.as_str(), t.as_str());
            },
            None => {
                assert(out@ =~= out@ + Seq::<char>::empty());
            },
        }
        i = i + 1;
    }
    assert(json_views(items@).subrange(0, items@.len() as int) =~= json_views(items@));
    out
}

fn string_array(pieces: Vec<String>) -> (r: JsonValue)
    ensures
        r@ == Json::Array(string_items(crate::text::strings_view(pieces@))),
{
    let mut out: Vec<JsonValue> = Vec::new();
    let mut i: usize = 0;
    while i < pieces.len()
        invariant
            i <= pieces@.len(),
            json_views(out@) == string_items(crate::text::strings_view(pieces@)).subrange(0, i as int),
        decreases pieces@.len() - i,
    {
        let ghost prev = out@;
        let item = JsonValue::String(pieces[i].clone());
        out.push(item);
        proof {
            crate::json::lemma_json_views_push(prev, item);
        }
        assert(string_items(crate::text::strings_view(pieces@)).subrange(0, i + 1) =~= string_items(
            crate::text::strings_view(pieces@),
        ).subrange(0, i as int).push(Json::Str(pieces@[i as int]@)));
        i = i + 1;
    }
    assert(string_items(crate::text::strings_view(pieces@)).subrange(0, pieces@.len() as int)
        =~= string_items(crate::text::strings_view(pieces@)));
    JsonValue::Array(out)
}

proof fn lemma_capability_names_differ()
    ensures
        "evaluate"@ != "transform"@,
{
    reveal_strlit("evaluate");
    reveal_strlit("transform");
    assert("evaluate"@[0] != "transform"@[0]);
}

/// String conditions and transformations.
pub struct StringOps;

impl StringOps {
    /// The metadata without its capabilities.
    pub fn info_builder(&self) -> (r: NativeFunctionInfoBuilder)
        ensures
            r@ == builtin_info(
                string_ops_info().name,
                string_ops_info().description.unwrap(),
                Seq::empty(),
            ),
    {
        builtin_info_builder("string-ops", "String manipulation operations")
    }

    /// The capabilities, in order.
    pub fn capability_schemas(&self) -> (r: Vec<NativeCapabilitySchema>)
        ensures
            crate::bindings::schemas_view(r@) == string_ops_info().capabilities,
    {
        let e = native_capability("evaluate")
            .description("Evaluate string conditions")
            .input("operation", "string")
            .input("value", "string")
            .input("pattern", "string")
            .output("bool")
            .build();
        assert(e@.inputs =~= seq![
            ("operation"@, "string"@),
            ("value"@, "string"@),
            ("pattern"@, "string"@),
        ]);
        let t = native_capability("transform")
            .description("Transform strings")
            .input("operation", "string")
            .input("value", "string")
            .output("string")
            .build();
        assert(t@.inputs =~= seq![("operation"@, "string"@), ("value"@, "string"@)]);
        let mut v: Vec<NativeCapabilitySchema> = Vec::new();
        v.push(e);
        v.push(t);
        assert(crate::bindings::schemas_view(v@) =~= string_ops_info().capabilities);
        v
    }

    /// Runs the `transform` capability: reads `operation`, then transforms.
    pub fn handle_transform(&self, args: &JsonValue) -> (r: NativeInvokeResult)
        ensures
            outcome_view(r) == string_ops_result("transform"@, args@),
    {
        proof {
            lemma_capability_names_differ();
        }
        match get_str(args, "operation") {
            Some(op) => self.transform(op.as_str(), args),
            None => fail("Missing or invalid 'operation' argument"),
        }
    }

    /// Runs the `evaluate` capability: reads `operation`, then evaluates.
    pub fn handle_evaluate(&self, args: &JsonValue) -> (r: NativeInvokeResult)
        ensures
            outcome_view(r) == string_ops_result("evaluate"@, args@),
    {
        match get_str(args, "operation") {
            Some(op) => self.evaluate(op.as_str(), args),
            None => fail("Missing or invalid 'operation' argument"),
        }
    }

    /// Applies the transformation `operation` (`concat`, `upper`, `lower`, `trim`,
    /// `split`, `replace`) to the arguments.
    pub fn transform(&self, operation: &str, args: &JsonValue) -> (r: NativeInvokeResult)
        ensures
            outcome_view(r) == transform_result(operation@, args@),
    {
        if crate::text::str_eq(operation, "concat") {
            return match get_array(args, "strings") {
                Some(items) => Ok(JsonValue::String(concat_items(items))),
                None => fail("Missing or invalid 'strings' argument"),
            };
        }
        let upper = crate::text::str_eq(operation, "upper");
        let lower = crate::text::str_eq(operation, "lower");
        let trim = crate::text::str_eq(operation, "trim");
        let split = crate::text::str_eq(operation, "split");
        let replace = crate::text::str_eq(operation, "replace");
        if !(upper || lower || trim || split || replace) {
            return Err(crate::text::concat2("Unknown transform operation: ", operation));
        }
        let value = match get_str(args, "value") {
            Some(v) => v.as_str(),
            None => {
                return fail("Missing or invalid 'value' argument");
            },
        };
        if upper {
            Ok(JsonValue::String(crate::text::to_uppercase(value)))
        } else if lower {
            Ok(JsonValue::String(crate::text::to_lowercase(value)))
        } else if trim {
            Ok(JsonValue::String(crate::text::trim(value)))
        } else if split {
            let delimiter = match get_str(args, "delimiter") {
                Some(d) => d.as_str(),
                None => ",",
            };
            Ok(string_array(crate::text::split(value, delimiter)))
        } else {
            let pattern = match get_str(args, "pattern") {
                Some(p) => p.as_str(),
                None => {
                    return fail("Missing or invalid 'pattern' argument");
                },
            };
            let replacement = match get_str(args, "replacement") {
                Some(t) => t.as_str(),
                None => "",
            };
            Ok(JsonValue::String(crate::text::replace(value, pattern, replacement)))
        }
    }

    /// Tests the `value` argument with `operation` (`contains`, `starts_with`,
    /// `ends_with`, `is_empty`).
    pub fn evaluate(&self, operation: &str, args: &JsonValue) -> (r: NativeInvokeResult)
        ensures
            outcome_view(r) == string_test_result(operation@, args@),
    {
        let value = match get_str(args, "value") {
            Some(v) => v.as_str(),
            None => {
                return fail("Missing or invalid 'value' argument");
            },
        };
        let contains = crate::text::str_eq(operation, "contains");
        let starts = crate::text::str_eq(operation, "starts_with");
        let ends = crate::text::str_eq(operation, "ends_with");
        if contains || starts || ends {
            let pattern = match get_str(args, "pattern") {
                Some(p) => p.as_str(),
                None => {
                    return fail("Missing or invalid 'pattern' argument");
                },
            };
            let b = if contains {
                crate::text::str_contains(value, pattern)
            } else if starts {
                crate::text::str_starts_with(value, pattern)
            } else {
                crate::text::str_ends_with(value, pattern)
            };
            Ok(JsonValue::Bool(b))
        } else if crate::text::str_eq(operation, "is_empty") {
            Ok(JsonValue::Bool(value.unicode_len() == 0))
        } else {
            Err(crate::text::concat2("Unknown evaluate operation: ", operation))
        }
    }
}

impl NativeFunction for StringOps {
    open spec fn metadata(&self) -> PluginInfoView {
        string_ops_info()
    }

    fn info(&self) -> (r: NativeFunctionInfo)
        ensures
            r@ == string_ops_info(),
    {
        let r = self.info_builder().capabilities(self.capability_schemas()).build();
        assert(r@ =~= string_ops_info());
        r
    }

    fn invoke(&self, capability: &str, args: &JsonValue) -> (r: NativeInvokeResult)
        ensures
            outcome_view(r) == string_ops_result(capability@, args@),
    {
        proof {
            lemma_capability_names_differ();
        }
        if crate::text::str_eq(capability, "evaluate") {
            self.handle_evaluate(args)
        } else if crate::text::str_eq(capability, "transform") {
            self.handle_transform(args)
        } else {
            unknown_capability_error(capability)
        }
    }
}

// ---------------------------------------------------------------------------
// math
// ---------------------------------------------------------------------------

/// An operation of `math`.
#[derive(Clone, Copy, Debug, PartialEq, Eq)]
pub enum MathOp {
    Add,
    Sub,
    Mul,
    Div,
    Mod,
    Pow,
    Abs,
    Min,
    Max,
    Clamp,
}

/// A calculation that `math` has checked and that only the arithmetic itself is left
/// of: the operation and the texts of its numbers, in order.
pub struct Calculation {
    pub operation: MathOp,
    pub numbers: Vec<String>,
}

/// The operation that an `operation` argument names.
pub open spec fn math_op(op: Seq<char>) -> Option<MathOp> {
    if op == "add"@ {
        Some(MathOp::Add)
    } else if op == "sub"@ {
        Some(MathOp::Sub)
    } else if op == "mul"@ {
        Some(MathOp::Mul)
    } else if op == "div"@ {
        Some(MathOp::Div)
    } else if op == "mod"@ {
        Some(MathOp::Mod)
    } else if op == "pow"@ {
        Some(MathOp::Pow)
    } else if op == "abs"@ {
        Some(MathOp::Abs)
    } else if op == "min"@ {
        Some(MathOp::Min)
    } else if op == "max"@ {
        Some(MathOp::Max)
    } else if op == "clamp"@ {
        Some(MathOp::Clamp)
    } else {
        None
    }
}

/// The error for an operation given the wrong number of values, if it is.
pub open spec fn arity_error(op: MathOp, count: nat) -> Option<Seq<char>> {
    match op {
        MathOp::Div => if count < 2 {
            Some("Division requires at least 2 values"@)
        } else {
            None
        },
        MathOp::Mod => if count != 2 {
            Some("Modulo requires exactly 2 values"@)
        } else {
            None
        },
        MathOp::Pow => if count != 2 {
            Some("Power requires exactly 2 values"@)
        } else {
            None
        },
        MathOp::Abs => if count != 1 {
            Some("Abs requires exactly 1 value"@)
        } else {
            None
        },
        MathOp::Clamp => if count != 3 {
            Some("Clamp requires exactly 3 values (value, min, max)"@)
        } else {
            None
        },
        _ => None,
    }
}

/// The texts of the numbers among the items, in order; other items are skipped.
pub open spec fn number_texts(items: Seq<Json>) -> Seq<Seq<char>>
    decreases items.len(),
{
    if items.len() == 0 {
        Seq::empty()
    } else {
        let rest = number_texts(items.drop_last());
        match items.last() {
            Json::Number(t) => rest.push(t),
            _ => rest,
        }
    }
}

/// What `math` makes of its arguments before any arithmetic: the `operation` argument,
/// then the `values` array, then at least one number among the values, then a known
/// operation, then the number of values that the operation takes.
pub open spec fn calculation_plan(args: Json) -> Result<(MathOp, Seq<Seq<char>>), Seq<char>> {
    match arg_str(args, "operation"@) {
        None => Err(operation_message()),
        Some(op) => match arg_array(args, "values"@) {
            None => Err("Missing or invalid 'values' argument (expected array)"@),
            Some(items) => {
                let nums = number_texts(items);
                if nums.len() == 0 {
                    Err("No valid numeric values provided"@)
                } else {
                    match math_op(op) {
                        None => Err("Unknown math operation: "@ + op),
                        Some(m) => match arity_error(m, nums.len()) {
                            Some(e) => Err(e),
                            None => Ok((m, nums)),
                        },
                    }
                }
            },
        },
    }
}

/// What `math` makes of a capability and its arguments before any arithmetic.
pub open spec fn math_plan(capability: Seq<char>, args: Json) -> Result<
    (MathOp, Seq<Seq<char>>),
    Seq<char>,
> {
    if capability == "calculate"@ {
        calculation_plan(args)
    } else {
        Err("Unknown capability: "@ + capability)
    }
}

/// The model of a planned calculation.
pub open spec fn calculation_view(r: Result<Calculation, String>) -> Result<
    (MathOp, Seq<Seq<char>>),
    Seq<char>,
> {
    match r {
        Ok(c) => Ok((c.operation, crate::text::strings_view(c.numbers@))),
        Err(e) => Err(e@),
    }
}

/// The metadata of `math`.
pub open spec fn math_info() -> PluginInfoView {
    builtin_info(
        "math"@,
        "Mathematical operations"@,
        seq![
            schema(
                "calculate"@,
                "Perform mathematical calculations"@,
                seq![("operation"@, "string"@), ("values"@, "array<number>"@)],
                "number"@,
            ),
        ],
    )
}

fn numbers_of(items: &Vec<JsonValue>) -> (r: Vec<String>)
    ensures
        crate::text::strings_view(r@) == number_texts(json_views(items@)),
{
    proof {
        lemma_json_views(items@);
    }
    let mut out: Vec<String> = Vec::new();
    let mut i: usize = 0;
    while i < items.len()
        invariant
            i <= items@.len(),
            json_views(items@).len() == items@.len(),
            forall|j: int| 0 <= j < items@.len() ==> #[trigger] json_views(items@)[j] == items@[j]@,
            crate::text::strings_view(out@) == number_texts(json_views(items@).subrange(0, i as int)),
        decreases items@.len() - i,
    {
        let ghost now = json_views(items@).subrange(0, i + 1);
        assert(now.drop_last() =~= json_views(items@).subrange(0, i as int));
        assert(now.last() == items@[i as int]@);
        match &items[i] {
            JsonValue::Number(t) => {
                let ghost prev = out@;
                out.push(t.clone());
                assert(crate::text::strings_view(out@) =~= crate::text::strings_view(prev).push(t@));
            },
            _ => {},
        }
        i = i + 1;
    }
    assert(json_views(items@).subrange(0, items@.len() as int) =~= json_views(items@));
    out
}

fn parse_math_op(op: &str) -> (r: Option<MathOp>)
    ensures
        r == math_op(op@),
{
    if crate::text::str_eq(op, "add") {
        Some(MathOp::Add)
    } else if crate::text::str_eq(op, "sub") {
        Some(MathOp::Sub)
    } else if crate::text::str_eq(op, "mul") {
        Some(MathOp::Mul)
    } else if crate::text::str_eq(op, "div") {
        Some(MathOp::Div)
    } else if crate::text::str_eq(op, "mod") {
        Some(MathOp::Mod)
    } else if crate::text::str_eq(op, "pow") {
        Some(MathOp::Pow)
    } else if crate::text::str_eq(op, "abs") {
        Some(MathOp::Abs)
    } else if crate::text::str_eq(op, "min") {
        Some(MathOp::Min)
    } else if crate::text::str_eq(op, "max") {
        Some(MathOp::Max)
    } else if crate::text::str_eq(op, "clamp") {
        Some(MathOp::Clamp)
    } else {
        None
    }
}

fn check_arity(op: &MathOp, count: usize) -> (r: Option<String>)
    ensures
        match r {
            Some(e) => arity_error(*op, count as nat) == Some(e@),
            None => arity_error(*op, count as nat) is None,
        },
{
    match op {
        MathOp::Div => if count < 2 {
            Some(String::from_str("Division requires at least 2 values"))
        } else {
            None
        },
        MathOp::Mod => if count != 2 {
            Some(String::from_str("Modulo requires exactly 2 values"))
        } else {
            None
        },
        MathOp::Pow => if count != 2 {
            Some(String::from_str("Power requires exactly 2 values"))
        } else {
            None
        },
        MathOp::Abs => if count != 1 {
            Some(String::from_str("Abs requires exactly 1 value"))
        } else {
            None
        },
        MathOp::Clamp => if count != 3 {
            Some(String::from_str("Clamp requires exactly 3 values (value, min, max)"))
        } else {
            None
        },
        _ => None,
    }
}

/// Arithmetic over the numbers among the `values` argument. The library checks the
/// request (see [`calculation_plan`]); the arithmetic itself, on `f64`s, is left to the
/// caller of [`Math::prepare`].
pub struct Math;

impl Math {
    /// The metadata without its capabilities.
    pub fn info_builder(&self) -> (r: NativeFunctionInfoBuilder)
        ensures
            r@ == builtin_info(math_info().name, math_info().description.unwrap(), Seq::empty()),
    {
        builtin_info_builder("math", "Mathematical operations")
    }

    /// The capabilities, in order.
    pub fn capability_schemas(&self) -> (r: Vec<NativeCapabilitySchema>)
        ensures
            crate::bindings::schemas_view(r@) == math_info().capabilities,
    {
        let c = native_capability("calculate")
            .description("Perform mathematical calculations")
            .input("operation", "string")
            .input("values", "array<number>")
            .output("number")
            .build();
        assert(c@.inputs =~= seq![("operation"@, "string"@), ("values"@, "array<number>"@)]);
        let mut v: Vec<NativeCapabilitySchema> = Vec::new();
        v.push(c);
        assert(crate::bindings::schemas_view(v@) =~= math_info().capabilities);
        v
    }

    /// The metadata, capabilities included.
    pub fn info(&self) -> (r: NativeFunctionInfo)
        ensures
            r@ == math_info(),
    {
        let r = self.info_builder().capabilities(self.capability_schemas()).build();
        assert(r@ =~= math_info());
        r
    }

    /// Checks the arguments of `calculate` and returns the calculation to perform.
    pub fn plan(&self, args: &JsonValue) -> (r: Result<Calculation, String>)
        ensures
            calculation_view(r) == calculation_plan(args@),
    {
        let op = match get_str(args, "operation") {
            Some(op) => op.as_str(),
            None => {
                return Err(String::from_str("Missing or invalid 'operation' argument"));
            },
        };
        let items = match get_array(args, "values") {
            Some(items) => items,
            None => {
                return Err(String::from_str("Missing or invalid 'values' argument (expected array)"));
            },
        };
        let numbers = numbers_of(items);
        if numbers.len() == 0 {
            return Err(String::from_str("No valid numeric values provided"));
        }
        let operation = match parse_math_op(op) {
            Some(m) => m,
            None => {
                return Err(crate::text::concat2("Unknown math operation: ", op));
            },
        };
        match check_arity(&operation, numbers.len()) {
            Some(e) => Err(e),
            None => Ok(Calculation { operation, numbers }),
        }
    }

    /// Routes a capability: `calculate` is planned (see [`Math::plan`]), any other
    /// capability is unknown.
    pub fn prepare(&self, capability: &str, args: &JsonValue) -> (r: Result<Calculation, String>)
        ensures
            calculation_view(r) == math_plan(capability@, args@),
    {
        if crate::text::str_eq(capability, "calculate") {
            self.plan(args)
        } else {
            Err(crate::text::concat2("Unknown capability: ", capability))
        }
    }
}

// ---------------------------------------------------------------------------
// Laws
// ---------------------------------------------------------------------------

proof fn lemma_operator_names_differ()
    ensures
        "eq"@ != "ne"@,
        "eq"@ != "gt"@,
        "eq"@ != "lt"@,
        "eq"@ != "gte"@,
        "eq"@ != "lte"@,
        "ne"@ != "gt"@,
        "ne"@ != "lt"@,
        "ne"@ != "gte"@,
        "ne"@ != "lte"@,
        "gt"@ != "lt"@,
        "gt"@ != "gte"@,
        "gt"@ != "lte"@,
        "lt"@ != "gte"@,
        "lt"@ != "lte"@,
        "gte"@ != "lte"@,
{
    reveal_strlit("eq");
    reveal_strlit("ne");
    reveal_strlit("gt");
    reveal_strlit("lt");
    reveal_strlit("gte");
    reveal_strlit("lte");
    assert("eq"@[0] != "ne"@[0]);
    assert("eq"@[0] != "gt"@[0]);
    assert("eq"@[0] != "lt"@[0]);
    assert("eq"@[0] != "gte"@[0]);
    assert("eq"@[0] != "lte"@[0]);
    assert("ne"@[0] != "gt"@[0]);
    assert("ne"@[0] != "lt"@[0]);
    assert("ne"@[0] != "gte"@[0]);
    assert("ne"@[0] != "lte"@[0]);
    assert("gt"@[0] != "lt"@[0]);
    assert("gt"@.len() != "gte"@.len());
    assert("gt"@[0] != "lte"@[0]);
    assert("lt"@[0] != "gte"@[0]);
    assert("lt"@.len() != "lte"@.len());
    assert("gte"@[0] != "lte"@[0]);
}

/// Every built-in function answers a capability that its metadata lists with that
/// capability's handler, and any capability that its metadata does not list with
/// "Unknown capability".
pub proof fn law_unlisted_capability_is_unknown(capability: Seq<char>, args: Json)
    ensures
        schemas_have(and_info().capabilities, capability) ==> and_answer(capability, args)
            == and_result(args),
        !schemas_have(and_info().capabilities, capability) ==> and_answer(capability, args)
            == unknown_capability(capability),
        schemas_have(or_info().capabilities, capability) ==> or_answer(capability, args)
            == or_result(args),
        !schemas_have(or_info().capabilities, capability) ==> or_answer(capability, args)
            == unknown_capability(capability),
        schemas_have(not_info().capabilities, capability) ==> not_answer(capability, args)
            == not_result(args),
        !schemas_have(not_info().capabilities, capability) ==> not_answer(capability, args)
            == unknown_capability(capability),
        schemas_have(compare_info().capabilities, capability) ==> compare_answer(
            capability,
            args,
        ) == compare_result(args),
        !schemas_have(compare_info().capabilities, capability) ==> compare_answer(
            capability,
            args,
        ) == unknown_capability(capability),
        !schemas_have(string_ops_info().capabilities, capability) ==> string_ops_result(
            capability,
            args,
        ) == unknown_capability(capability),
        schemas_have(string_ops_info().capabilities, capability) ==> string_ops_result(
            capability,
            args,
        ) != unknown_capability(capability),
        schemas_have(math_info().capabilities, capability) ==> math_plan(capability, args)
            == calculation_plan(args),
        !schemas_have(math_info().capabilities, capability) ==> math_plan(capability, args)
            == Err::<(MathOp, Seq<Seq<char>>), Seq<char>>("Unknown capability: "@ + capability),
{
    let caps = string_ops_info().capabilities;
    if capability == "evaluate"@ {
        assert(and_info().capabilities[0].name == capability);
        assert(or_info().capabilities[0].name == capability);
        assert(not_info().capabilities[0].name == capability);
        assert(compare_info().capabilities[0].name == capability);
        assert(caps[0].name == capability);
    }
    if capability == "transform"@ {
        assert(caps[1].name == capability);
    }
    if capability == "calculate"@ {
        assert(math_info().capabilities[0].name == capability);
    }
    if schemas_have(caps, capability) {
        let i = choose|i: int| 0 <= i < caps.len() && caps[i].name == capability;
        assert(i == 0 || i == 1);
        lemma_capability_names_differ();
        reveal_strlit("evaluate");
        reveal_strlit("transform");
        reveal_strlit("Unknown capability: ");
        reveal_strlit("Missing or invalid 'operation' argument");
        let r = string_ops_result(capability, args);
        match arg_str(args, "operation"@) {
            None => {
                assert(operation_message()[0] != ("Unknown capability: "@ + capability)[0]);
            },
            Some(op) => {
                lemma_string_ops_results_not_unknown(op, args, capability);
            },
        }
    }
}

proof fn lemma_string_ops_results_not_unknown(op: Seq<char>, args: Json, capability: Seq<char>)
    ensures
        string_test_result(op, args) != unknown_capability(capability),
        transform_result(op, args) != unknown_capability(capability),
{
    reveal_strlit("Unknown capability: ");
    reveal_strlit("Missing or invalid 'value' argument");
    reveal_strlit("Missing or invalid 'pattern' argument");
    reveal_strlit("Missing or invalid 'strings' argument");
    reveal_strlit("Unknown evaluate operation: ");
    reveal_strlit("Unknown transform operation: ");
    let u = "Unknown capability: "@ + capability;
    assert(u[8] == 'c');
    assert(value_message()[0] != u[0]);
    assert(pattern_message()[0] != u[0]);
    assert("Missing or invalid 'strings' argument"@[0] != u[0]);
    assert(("Unknown evaluate operation: "@ + op)[8] != u[8]);
    assert(("Unknown transform operation: "@ + op)[8] != u[8]);
}

/// `logical-and` over a list with at least one condition implies `logical-or` over it;
/// over an empty list `logical-and` is true and `logical-or` is false.
pub proof fn law_and_implies_or(args: Json)
    ensures
        and_result(args) == Ok::<Json, Seq<char>>(Json::Bool(true)) && arg_array(
            args,
            "conditions"@,
        ).unwrap().len() > 0 ==> or_result(args) == Ok::<Json, Seq<char>>(Json::Bool(true)),
        arg_array(args, "conditions"@) == Some(Seq::<Json>::empty()) ==> and_result(args) == Ok::<
            Json,
            Seq<char>,
        >(Json::Bool(true)) && or_result(args) == Ok::<Json, Seq<char>>(Json::Bool(false)),
        arg_array(args, "conditions"@) is None ==> and_result(args) == or_result(args),
{
    if let Some(c) = arg_array(args, "conditions"@) {
        if all_truthy(c) && c.len() > 0 {
            assert(truthy(c[0]));
        }
    }
}

/// For two strings, or two booleans, `compare` orders them totally: exactly one of
/// `lt`, `eq`, `gt` holds; `gt` of `(l, r)` is `lt` of `(r, l)`; `gte` is `gt` or `eq`,
/// `lte` is `lt` or `eq`. For any two values `ne` is the negation of `eq`.
pub proof fn law_compare_total_order(left: Json, right: Json)
    ensures
        compare_with("ne"@, left, right) == Some(!compare_with("eq"@, left, right).unwrap()),
        (left is Str && right is Str) || (left is Bool && right is Bool) ==> {
            let lt = compare_with("lt"@, left, right).unwrap();
            let eq = compare_with("eq"@, left, right).unwrap();
            let gt = compare_with("gt"@, left, right).unwrap();
            &&& (lt as int) + (eq as int) + (gt as int) == 1
            &&& compare_with("gt"@, left, right) == compare_with("lt"@, right, left)
            &&& compare_with("gte"@, left, right) == Some(gt || eq)
            &&& compare_with("lte"@, left, right) == Some(lt || eq)
        },
{
    lemma_operator_names_differ();
    match (left, right) {
        (Json::Str(a), Json::Str(b)) => {
            lemma_seq_lt_irreflexive(a);
            crate::text::lemma_seq_lt_asymmetric(a, b);
            crate::text::lemma_seq_lt_total(a, b);
        },
        _ => {},
    }
}

/// A value that starts or ends with a pattern contains it; every value contains the
/// empty pattern.
pub proof fn law_prefix_and_suffix_are_contained(args: Json)
    ensures
        string_test_result("starts_with"@, args) == Ok::<Json, Seq<char>>(Json::Bool(true))
            ==> string_test_result("contains"@, args) == Ok::<Json, Seq<char>>(Json::Bool(true)),
        string_test_result("ends_with"@, args) == Ok::<Json, Seq<char>>(Json::Bool(true))
            ==> string_test_result("contains"@, args) == Ok::<Json, Seq<char>>(Json::Bool(true)),
        arg_str(args, "value"@) is Some && arg_str(args, "pattern"@) == Some(Seq::<char>::empty())
            ==> string_test_result("contains"@, args) == Ok::<Json, Seq<char>>(Json::Bool(true)),
{
    reveal_strlit("contains");
    reveal_strlit("starts_with");
    reveal_strlit("ends_with");
    assert("contains"@[0] != "starts_with"@[0]);
    assert("contains"@[0] != "ends_with"@[0]);
    assert("starts_with"@[0] != "ends_with"@[0]);
    if let (Some(v), Some(p)) = (arg_str(args, "value"@), arg_str(args, "pattern"@)) {
        if occurs_at(v, p, 0) {
            assert(seq_contains(v, p));
        }
        if occurs_at(v, p, v.len() - p.len()) {
            assert(seq_contains(v, p));
        }
        if p.len() == 0 {
            assert(v.subrange(0, 0) =~= p);
            assert(occurs_at(v, p, 0));
        }
    }
}

/// A calculation that `math` accepts has at least one number, and as many as its
/// operation takes.
pub proof fn law_planned_calculation_is_well_formed(args: Json)
    ensures
        calculation_plan(args) matches Ok((op, nums)) ==> nums.len() >= 1 && arity_error(
            op,
            nums.len(),
        ) is None,
{
}

/// `split` cuts the value at the delimiter (`,` where none is given): each piece is a
/// string, and joining the pieces with the delimiter gives back the value. Replacing a
/// pattern by itself leaves the value as it was.
pub proof fn law_split_pieces_rejoin(args: Json)
    ensures
        arg_str(args, "value"@) matches Some(v) ==> {
            let d = arg_str_or(args, "delimiter"@, ","@);
            &&& transform_result("split"@, args) == Ok::<Json, Seq<char>>(
                Json::Array(string_items(split_pieces(v, d))),
            )
            &&& join(split_pieces(v, d), d) == v
        },
        arg_str(args, "value"@) matches Some(v) ==> (arg_str(args, "pattern"@) matches Some(p)
            ==> (arg_str(args, "replacement"@) == Some(p) ==> transform_result("replace"@, args)
            == Ok::<Json, Seq<char>>(Json::Str(v)))),
{
    reveal_strlit("split");
    reveal_strlit("concat");
    reveal_strlit("upper");
    reveal_strlit("lower");
    reveal_strlit("trim");
    reveal_strlit("replace");
    assert("split"@[0] != "concat"@[0]);
    assert("split"@[0] != "upper"@[0]);
    assert("split"@[0] != "lower"@[0]);
    assert("split"@[0] != "trim"@[0]);
    assert("replace"@[0] != "concat"@[0]);
    assert("replace"@[0] != "upper"@[0]);
    assert("replace"@[0] != "lower"@[0]);
    assert("replace"@[0] != "trim"@[0]);
    assert("replace"@[0] != "split"@[0]);
    if let Some(v) = arg_str(args, "value"@) {
        lemma_join_split(v, arg_str_or(args, "delimiter"@, ","@));
        if let Some(p) = arg_str(args, "pattern"@) {
            lemma_join_split(v, p);
        }
    }
}

/// `compare` reads numbers the same way round in both directions: `gt` of `(l, r)` is
/// `lt` of `(r, l)`, and `gte` of `(l, r)` is `lte` of `(r, l)`. Values of different kinds
/// (or of a kind without an order) are in no order: `gt`, `lt`, `gte` and `lte` are false.
pub proof fn law_compare_number_and_mixed_order(left: Json, right: Json)
    ensures
        left is Number && right is Number && serde_number_order(right->Number_0, left->Number_0)
            == order_flip(serde_number_order(left->Number_0, right->Number_0)) ==> {
            &&& compare_with("gt"@, left, right) == compare_with("lt"@, right, left)
            &&& compare_with("gte"@, left, right) == compare_with("lte"@, right, left)
        },
        values_order(left, right) is None ==> {
            &&& compare_with("gt"@, left, right) == Some(false)
            &&& compare_with("lt"@, left, right) == Some(false)
            &&& compare_with("gte"@, left, right) == Some(false)
            &&& compare_with("lte"@, left, right) == Some(false)
        },
        !((left is Number && right is Number) || (left is Str && right is Str) || (left is Bool
            && right is Bool)) ==> values_order(left, right) is None,
{
    lemma_operator_names_differ();
}

/// Each operation name plans its own operation: `add` adds, `min` takes the minimum,
/// `max` the maximum, and so on; no other text names an operation, and a planned
/// calculation carries the operation that its `operation` argument names, with the
/// numbers of its `values` argument.
pub proof fn law_each_operation_has_its_own_name(op: Seq<char>, args: Json)
    ensures
        math_op("add"@) == Some(MathOp::Add),
        math_op("sub"@) == Some(MathOp::Sub),
        math_op("mul"@) == Some(MathOp::Mul),
        math_op("div"@) == Some(MathOp::Div),
        math_op("mod"@) == Some(MathOp::Mod),
        math_op("pow"@) == Some(MathOp::Pow),
        math_op("abs"@) == Some(MathOp::Abs),
        math_op("min"@) == Some(MathOp::Min),
        math_op("max"@) == Some(MathOp::Max),
        math_op("clamp"@) == Some(MathOp::Clamp),
        math_op(op) is Some ==> (op == "add"@ || op == "sub"@ || op == "mul"@ || op == "div"@ || op == "mod"@ || op == "pow"@ || op == "abs"@ || op == "min"@ || op == "max"@ || op == "clamp"@),
        calculation_plan(args) matches Ok((m, nums)) ==> arg_str(args, "operation"@) == Some(
            op,
        ) ==> math_op(op) == Some(m),
        calculation_plan(args) matches Ok((m, nums)) ==> arg_array(args, "values"@) matches Some(
            items,
        ) && nums == number_texts(items),
{
    reveal_strlit("add");
    reveal_strlit("sub");
    reveal_strlit("mul");
    reveal_strlit("div");
    reveal_strlit("mod");
    reveal_strlit("pow");
    reveal_strlit("abs");
    reveal_strlit("min");
    reveal_strlit("max");
    reveal_strlit("clamp");
    assert("sub"@[0] != "add"@[0]);
    assert("mul"@[0] != "add"@[0]);
    assert("mul"@[0] != "sub"@[0]);
    assert("div"@[0] != "add"@[0]);
    assert("div"@[0] != "sub"@[0]);
    assert("div"@[0] != "mul"@[0]);
    assert("mod"@[0] != "add"@[0]);
    assert("mod"@[0] != "sub"@[0]);
    assert("mod"@[1] != "mul"@[1]);
    assert("mod"@[0] != "div"@[0]);
    assert("pow"@[0] != "add"@[0]);
    assert("pow"@[0] != "sub"@[0]);
    assert("pow"@[0] != "mul"@[0]);
    assert("pow"@[0] != "div"@[0]);
    assert("pow"@[0] != "mod"@[0]);
    assert("abs"@[1] != "add"@[1]);
    assert("abs"@[0] != "sub"@[0]);
    assert("abs"@[0] != "mul"@[0]);
    assert("abs"@[0] != "div"@[0]);
    assert("abs"@[0] != "mod"@[0]);
    assert("abs"@[0] != "pow"@[0]);
    assert("min"@[0] != "add"@[0]);
    assert("min"@[0] != "sub"@[0]);
    assert("min"@[1] != "mul"@[1]);
    assert("min"@[0] != "div"@[0]);
    assert("min"@[1] != "mod"@[1]);
    assert("min"@[0] != "pow"@[0]);
    assert("min"@[0] != "abs"@[0]);
    assert("max"@[0] != "add"@[0]);
    assert("max"@[0] != "sub"@[0]);
    assert("max"@[1] != "mul"@[1]);
    assert("max"@[0] != "div"@[0]);
    assert("max"@[1] != "mod"@[1]);
    assert("max"@[0] != "pow"@[0]);
    assert("max"@[0] != "abs"@[0]);
    assert("max"@[1] != "min"@[1]);
    assert("clamp"@.len() != "add"@.len());
    assert("clamp"@.len() != "sub"@.len());
    assert("clamp"@.len() != "mul"@.len());
    assert("clamp"@.len() != "div"@.len());
    assert("clamp"@.len() != "mod"@.len());
    assert("clamp"@.len() != "pow"@.len());
    assert("clamp"@.len() != "abs"@.len());
    assert("clamp"@.len() != "min"@.len());
    assert("clamp"@.len() != "max"@.len());
}

/// Two numbers compare by their values (as `f64`s, see [`serde_number_order`]) and
/// equal by serde_json's number equality, not by their text: `9` is less than `10`.
pub proof fn law_numbers_compare_by_value(a: Seq<char>, b: Seq<char>)
    ensures
        compare_with("gt"@, Json::Number(a), Json::Number(b)) == Some(
            serde_number_order(a, b) == Some(Order::Greater),
        ),
        compare_with("lt"@, Json::Number(a), Json::Number(b)) == Some(
            serde_number_order(a, b) == Some(Order::Less),
        ),
        compare_with("gte"@, Json::Number(a), Json::Number(b)) == Some(
            serde_number_order(a, b) == Some(Order::Greater) || serde_number_order(a, b) == Some(
                Order::Equal,
            ),
        ),
        compare_with("lte"@, Json::Number(a), Json::Number(b)) == Some(
            serde_number_order(a, b) == Some(Order::Less) || serde_number_order(a, b) == Some(
                Order::Equal,
            ),
        ),
        compare_with("eq"@, Json::Number(a), Json::Number(b)) == Some(serde_number_eq(a, b)),
        compare_with("ne"@, Json::Number(a), Json::Number(b)) == Some(!serde_number_eq(a, b)),
{
    lemma_operator_names_differ();
}

} // verus!
