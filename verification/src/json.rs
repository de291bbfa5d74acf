//! JSON values as the library reads and builds them, and the calls into serde_json.
use vstd::prelude::*;
use vstd::string::StringExecFns;

verus! {

/// A JSON value. Numbers keep the text that serde_json prints for them; objects keep
/// their entries in order.
#[derive(Debug, PartialEq)]
pub enum JsonValue {
    Null,
    Bool(bool),
    Number(String),
    String(String),
    Array(Vec<JsonValue>),
    Object(Vec<(String, JsonValue)>),
}

/// The mathematical model of a JSON value.
pub enum Json {
    Null,
    Bool(bool),
    Number(Seq<char>),
    Str(Seq<char>),
    Array(Seq<Json>),
    Object(Seq<(Seq<char>, Json)>),
}

pub open spec fn json_view(v: JsonValue) -> Json
    decreases v,
{
    match v {
        JsonValue::Null => Json::Null,
        JsonValue::Bool(b) => Json::Bool(b),
        JsonValue::Number(n) => Json::Number(n@),
        JsonValue::String(s) => Json::Str(s@),
        JsonValue::Array(items) => Json::Array(json_views(items@)),
        JsonValue::Object(entries) => Json::Object(entry_views(entries@)),
    }
}

pub open spec fn json_views(s: Seq<JsonValue>) -> Seq<Json>
    decreases s,
{
    if s.len() == 0 {
        Seq::empty()
    } else {
        seq![json_view(s[0])] + json_views(s.subrange(1, s.len() as int))
    }
}

pub open spec fn entry_views(s: Seq<(String, JsonValue)>) -> Seq<(Seq<char>, Json)>
    decreases s,
{
    if s.len() == 0 {
        Seq::empty()
    } else {
        seq![(s[0].0@, json_view(s[0].1))] + entry_views(s.subrange(1, s.len() as int))
    }
}

impl View for JsonValue {
    type V = Json;

    open spec fn view(&self) -> Json {
        json_view(*self)
    }
}

pub proof fn lemma_json_views(s: Seq<JsonValue>)
    ensures
        json_views(s).len() == s.len(),
        forall|i: int| 0 <= i < s.len() ==> #[trigger] json_views(s)[i] == json_view(s[i]),
    decreases s.len(),
{
    if s.len() > 0 {
        lemma_json_views(s.subrange(1, s.len() as int));
    }
}

pub proof fn lemma_entry_views(s: Seq<(String, JsonValue)>)
    ensures
        entry_views(s).len() == s.len(),
        forall|i: int|
            0 <= i < s.len() ==> #[trigger] entry_views(s)[i] == (s[i].0@, json_view(s[i].1)),
    decreases s.len(),
{
    if s.len() > 0 {
        lemma_entry_views(s.subrange(1, s.len() as int));
    }
}

/// The views of a sequence of values, extended by one more value.
pub proof fn lemma_json_views_push(s: Seq<JsonValue>, v: JsonValue)
    ensures
        json_views(s.push(v)) == json_views(s).push(json_view(v)),
{
    lemma_json_views(s);
    lemma_json_views(s.push(v));
    assert(json_views(s.push(v)) =~= json_views(s).push(json_view(v)));
}

pub proof fn lemma_entry_views_push(s: Seq<(String, JsonValue)>, e: (String, JsonValue))
    ensures
        entry_views(s.push(e)) == entry_views(s).push((e.0@, json_view(e.1))),
{
    lemma_entry_views(s);
    lemma_entry_views(s.push(e));
    assert(entry_views(s.push(e)) =~= entry_views(s).push((e.0@, json_view(e.1))));
}

/// Whether a JSON value counts as true where a condition is tested: a boolean is itself,
/// null is false, anything else is true.
pub open spec fn truthy(v: Json) -> bool {
    match v {
        Json::Bool(b) => b,
        Json::Null => false,
        _ => true,
    }
}

/// The value stored under `key` in a list of object entries (the first such entry).
pub open spec fn entries_lookup(entries: Seq<(Seq<char>, Json)>, key: Seq<char>) -> Option<Json>
    decreases entries.len(),
{
    if entries.len() == 0 {
        None
    } else if entries[0].0 == key {
        Some(entries[0].1)
    } else {
        entries_lookup(entries.subrange(1, entries.len() as int), key)
    }
}

/// `value[key]` as serde_json's `Value::get` reads it: only objects have fields.
pub open spec fn json_get(v: Json, key: Seq<char>) -> Option<Json> {
    match v {
        Json::Object(entries) => entries_lookup(entries, key),
        _ => None,
    }
}

impl Clone for JsonValue {
    #[verifier::loop_isolation(false)]
    fn clone(&self) -> (r: Self)
        ensures
            r@ == self@,
        decreases self,
    {
        match self {
            JsonValue::Null => JsonValue::Null,
            JsonValue::Bool(b) => JsonValue::Bool(*b),
            JsonValue::Number(n) => JsonValue::Number(n.clone()),
            JsonValue::String(s) => JsonValue::String(s.clone()),
            JsonValue::Array(items) => {
                let mut out: Vec<JsonValue> = Vec::new();
                let mut i: usize = 0;
                while i < items.len()
                    invariant
                        i <= items@.len(),
                        json_views(out@) == json_views(items@.subrange(0, i as int)),
                    decreases items@.len() - i,
                {
                    proof {
                        assert(decreases_to!(*self => *items));
                        assert(decreases_to!(*items => items@));
                        assert(decreases_to!(items@ => items@[i as int]));
                    }
                    let c = items[i].clone();
                    proof {
                        lemma_json_views_push(out@, c);
                        lemma_json_views_push(items@.subrange(0, i as int), items@[i as int]);
                        assert(items@.subrange(0, i + 1) =~= items@.subrange(0, i as int).push(
                            items@[i as int],
                        ));
                    }
                    out.push(c);
                    i = i + 1;
                }
                assert(items@.subrange(0, items@.len() as int) =~= items@);
                JsonValue::Array(out)
            },
            JsonValue::Object(entries) => {
                let mut out: Vec<(String, JsonValue)> = Vec::new();
                let mut i: usize = 0;
                while i < entries.len()
                    invariant
                        i <= entries@.len(),
                        entry_views(out@) == entry_views(entries@.subrange(0, i as int)),
                    decreases entries@.len() - i,
                {
                    proof {
                        assert(decreases_to!(*self => *entries));
                        assert(decreases_to!(*entries => entries@));
                        assert(decreases_to!(entries@ => entries@[i as int]));
                        assert(decreases_to!(entries@[i as int] => entries@[i as int].1));
                    }
                    let k = entries[i].0.clone();
                    let c = entries[i].1.clone();
                    proof {
                        lemma_entry_views_push(out@, (k, c));
                        lemma_entry_views_push(entries@.subrange(0, i as int), entries@[i as int]);
                        assert(entries@.subrange(0, i + 1) =~= entries@.subrange(
                            0,
                            i as int,
                        ).push(entries@[i as int]));
                    }
                    out.push((k, c));
                    i = i + 1;
                }
                assert(entries@.subrange(0, entries@.len() as int) =~= entries@);
                JsonValue::Object(out)
            },
        }
    }
}

/// A copy of a list of object entries.
pub fn clone_entries(v: &Vec<(String, JsonValue)>) -> (r: Vec<(String, JsonValue)>)
    ensures
        entry_views(r@) == entry_views(v@),
{
    let mut out: Vec<(String, JsonValue)> = Vec::new();
    let mut i: usize = 0;
    while i < v.len()
        invariant
            i <= v@.len(),
            entry_views(out@) == entry_views(v@.subrange(0, i as int)),
        decreases v@.len() - i,
    {
        let k = v[i].0.clone();
        let c = v[i].1.clone();
        proof {
            lemma_entry_views_push(out@, (k, c));
            lemma_entry_views_push(v@.subrange(0, i as int), v@[i as int]);
            assert(v@.subrange(0, i + 1) =~= v@.subrange(0, i as int).push(v@[i as int]));
        }
        out.push((k, c));
        i = i + 1;
    }
    assert(v@.subrange(0, v@.len() as int) =~= v@);
    out
}

impl JsonValue {
    /// The field `key` of an object; `None` for anything else or a missing field.
    #[verifier::loop_isolation(false)]
    pub fn get(&self, key: &str) -> (r: Option<&JsonValue>)
        ensures
            match r {
                Some(v) => json_get(self@, key@) == Some(v@),
                None => json_get(self@, key@) is None,
            },
    {
        match self {
            JsonValue::Object(entries) => {
                let mut i: usize = 0;
                proof {
                    lemma_entry_views(entries@);
                    assert(entry_views(entries@).subrange(0, entries@.len() as int) =~= entry_views(entries@));
                }
                while i < entries.len()
                    invariant
                        i <= entries@.len(),
                        entry_views(entries@).len() == entries@.len(),
                        forall|j: int|
                            0 <= j < entries@.len() ==> #[trigger] entry_views(entries@)[j] == (
                                entries@[j].0@,
                                json_view(entries@[j].1),
                            ),
                        entries_lookup(entry_views(entries@), key@) == entries_lookup(
                            entry_views(entries@).subrange(i as int, entries@.len() as int),
                            key@,
                        ),
                    decreases entries@.len() - i,
                {
                    let ghost rest = entry_views(entries@).subrange(i as int, entries@.len() as int);
                    assert(rest[0] == entry_views(entries@)[i as int]);
                    if crate::text::str_eq(entries[i].0.as_str(), key) {
                        assert(self@ == Json::Object(entry_views(entries@)));
                        assert(rest.len() > 0 && rest[0].0 == key@);
                        assert(entries_lookup(rest, key@) == Some(rest[0].1));
                        return Some(&entries[i].1);
                    }
                    assert(rest.subrange(1, rest.len() as int) =~= entry_views(entries@).subrange(
                        i + 1,
                        entries@.len() as int,
                    ));
                    i = i + 1;
                }
                None
            },
            _ => None,
        }
    }

    /// The elements of an array.
    pub fn as_array(&self) -> (r: Option<&Vec<JsonValue>>)
        ensures
            match r {
                Some(items) => self@ == Json::Array(json_views(items@)),
                None => !(self@ is Array),
            },
    {
        match self {
            JsonValue::Array(items) => Some(items),
            _ => None,
        }
    }

    /// The text of a string.
    pub fn as_str(&self) -> (r: Option<&String>)
        ensures
            match r {
                Some(s) => self@ == Json::Str(s@),
                None => !(self@ is Str),
            },
    {
        match self {
            JsonValue::String(s) => Some(s),
            _ => None,
        }
    }

    /// The value of a boolean.
    pub fn as_bool(&self) -> (r: Option<bool>)
        ensures
            match r {
                Some(b) => self@ == Json::Bool(b),
                None => !(self@ is Bool),
            },
    {
        match self {
            JsonValue::Bool(b) => Some(*b),
            _ => None,
        }
    }

    /// Whether this is `null`.
    pub fn is_null(&self) -> (r: bool)
        ensures
            r == (self@ is Null),
    {
        match self {
            JsonValue::Null => true,
            _ => false,
        }
    }

    /// Whether the value counts as true in a condition (see [`truthy`]).
    pub fn is_truthy(&self) -> (r: bool)
        ensures
            r == truthy(self@),
    {
        match self {
            JsonValue::Bool(b) => *b,
            JsonValue::Null => false,
            _ => true,
        }
    }
}

// ---------------------------------------------------------------------------
// serde_json
// ---------------------------------------------------------------------------

#[verifier::external_type_specification]
#[verifier::external_body]
pub struct ExSerdeJsonValue(serde_json::Value);

/// What `serde_json::from_slice::<serde_json::Value>` makes of the bytes: the value,
/// or the text of its error.
pub uninterp spec fn serde_json_from_slice(bytes: Seq<u8>) -> Result<Json, Seq<char>>;

/// What `serde_json::to_vec` writes for the value (its numbers read back with
/// `read_number`), or the text of the error.
pub uninterp spec fn serde_json_to_vec(value: Json) -> Result<Seq<u8>, Seq<char>>;

/// What `serde_json::to_string` writes for the value (its numbers read back with
/// `read_number`), or the text of the error.
pub uninterp spec fn serde_json_to_string(value: Json) -> Result<Seq<char>, Seq<char>>;

/// Rebuilds a `serde_json::Value` as a `JsonValue`, variant for variant.
#[verifier::external_body]
fn from_serde(value: serde_json::Value) -> JsonValue {
    match value {
        serde_json::Value::Null => JsonValue::Null,
        serde_json::Value::Bool(b) => JsonValue::Bool(b),
        serde_json::Value::Number(n) => JsonValue::Number(n.to_string()),
        serde_json::Value::String(s) => JsonValue::String(s),
        serde_json::Value::Array(a) => JsonValue::Array(a.into_iter().map(from_serde).collect()),
        serde_json::Value::Object(m) => JsonValue::Object(
            m.into_iter().map(|(k, v)| (k, from_serde(v))).collect(),
        ),
    }
}

#[verifier::external_type_specification]
#[verifier::external_body]
pub struct ExSerdeJsonNumber(serde_json::Number);

/// Reads a number's text back as the `serde_json::Number` it was written from.
/// serde_json writes a float as the shortest text that reads back to the same value
/// under exact rounding; such a text is read with `str::parse`, which rounds exactly,
/// rather than with serde_json's own reader, which can land one unit in the last place
/// off. Integers are read by `Number::from_str`. A text that is not a number is an error.
#[verifier::external_body]
fn read_number(text: &str) -> Result<serde_json::Number, String> {
    let n: serde_json::Number = text.parse().map_err(|e: serde_json::Error| e.to_string())?;
    if !n.is_f64() {
        return Ok(n);
    }
    let exact = match text.parse() {
        Ok(x) => serde_json::Number::from_f64(x),
        Err(_) => None,
    };
    exact.ok_or_else(|| format!("invalid number: {text}"))
}

/// Rebuilds a `JsonValue` as a `serde_json::Value`, variant for variant; a number is
/// read back with `read_number`, and a text that is not a number is an error.
#[verifier::external_body]
fn to_serde(value: &JsonValue) -> Result<serde_json::Value, String> {
    Ok(match value {
        JsonValue::Null => serde_json::Value::Null,
        JsonValue::Bool(b) => serde_json::Value::Bool(*b),
        JsonValue::Number(n) => serde_json::Value::Number(read_number(n)?),
        JsonValue::String(s) => serde_json::Value::String(s.clone()),
        JsonValue::Array(a) => serde_json::Value::Array(a.iter().map(to_serde).collect::<Result<_, _>>()?),
        JsonValue::Object(m) => serde_json::Value::Object(
            m.iter().map(|(k, v)| Ok((k.clone(), to_serde(v)?))).collect::<Result<_, String>>()?,
        ),
    })
}

/// Calls `serde_json::from_slice` for a `serde_json::Value`. The contract names the
/// outcome `serde_json_from_slice(bytes)`; it says nothing of which bytes parse.
#[verifier::external_body]
pub(crate) fn serde_from_slice(bytes: &[u8]) -> (r: Result<JsonValue, String>)
    ensures
        match r {
            Ok(v) => serde_json_from_slice(bytes@) == Ok::<Json, Seq<char>>(v@),
            Err(e) => serde_json_from_slice(bytes@) == Err::<Json, Seq<char>>(e@),
        },
{
    serde_json::from_slice::<serde_json::Value>(bytes).map(from_serde).map_err(|e| e.to_string())
}

/// Calls `serde_json::to_vec`. The contract names the outcome `serde_json_to_vec(value)`.
#[verifier::external_body]
pub(crate) fn serde_to_vec(value: &JsonValue) -> (r: Result<Vec<u8>, String>)
    ensures
        match r {
            Ok(b) => serde_json_to_vec(value@) == Ok::<Seq<u8>, Seq<char>>(b@),
            Err(e) => serde_json_to_vec(value@) == Err::<Seq<u8>, Seq<char>>(e@),
        },
{
    serde_json::to_vec(&to_serde(value)?).map_err(|e| e.to_string())
}

/// Calls `serde_json::to_string`. The contract names the outcome
/// `serde_json_to_string(value)`.
#[verifier::external_body]
pub(crate) fn serde_to_string(value: &JsonValue) -> (r: Result<String, String>)
    ensures
        match r {
            Ok(s) => serde_json_to_string(value@) == Ok::<Seq<char>, Seq<char>>(s@),
            Err(e) => serde_json_to_string(value@) == Err::<Seq<char>, Seq<char>>(e@),
        },
{
    serde_json::to_string(&to_serde(value)?).map_err(|e| e.to_string())
}

/// The order of two numbers, or of two strings or booleans.
#[derive(Clone, Copy, Debug, PartialEq, Eq)]
pub enum Order {
    Less,
    Equal,
    Greater,
}

/// Whether the two number texts, each read back as the `serde_json::Number` it was
/// written from, are equal numbers to serde_json.
pub uninterp spec fn serde_number_eq(a: Seq<char>, b: Seq<char>) -> bool;

/// How the two number texts, each read back as a `serde_json::Number` and taken as an
/// `f64`, are ordered.
pub uninterp spec fn serde_number_order(a: Seq<char>, b: Seq<char>) -> Option<Order>;

/// Reads both texts back as `serde_json::Number`s (`read_number`) and compares them with
/// `==`; a text that is not a number makes the two unequal. The contract names the result
/// `serde_number_eq(a, b)`.
#[verifier::external_body]
fn numbers_equal(a: &str, b: &str) -> (r: bool)
    ensures
        r == serde_number_eq(a@, b@),
{
    match (read_number(a), read_number(b)) {
        (Ok(x), Ok(y)) => x == y,
        _ => false,
    }
}

/// An order read the other way round.
pub open spec fn order_flip(o: Option<Order>) -> Option<Order> {
    match o {
        Some(Order::Less) => Some(Order::Greater),
        Some(Order::Greater) => Some(Order::Less),
        other => other,
    }
}

/// Reads both texts back as `serde_json::Number`s (`read_number`), takes `Number::as_f64` of each and calls
/// `f64::partial_cmp`. The contract names the result `serde_number_order(a, b)`, and
/// states that comparing the other way round gives the flipped order: reading a text is
/// the same each time, and `partial_cmp` on `f64` is consistent (`a < b` exactly when
/// `b > a`, as `PartialOrd` documents).
#[verifier::external_body]
pub(crate) fn numbers_order(a: &str, b: &str) -> (r: Option<Order>)
    ensures
        r == serde_number_order(a@, b@),
        order_flip(r) == serde_number_order(b@, a@),
{
    let x = read_number(a).ok()?.as_f64()?;
    let y = read_number(b).ok()?.as_f64()?;
    match x.partial_cmp(&y)? {
        std::cmp::Ordering::Less => Some(Order::Less),
        std::cmp::Ordering::Equal => Some(Order::Equal),
        std::cmp::Ordering::Greater => Some(Order::Greater),
    }
}

/// Equality of JSON values as serde_json's `Value` has it: the same kind, and equal
/// contents; numbers compare as numbers, arrays element by element, objects entry by
/// entry.
pub open spec fn json_equal(a: Json, b: Json) -> bool
    decreases a,
{
    match a {
        Json::Null => b is Null,
        Json::Bool(x) => b matches Json::Bool(y) && x == y,
        Json::Number(x) => b matches Json::Number(y) && serde_number_eq(x, y),
        Json::Str(x) => b matches Json::Str(y) && x == y,
        Json::Array(x) => b matches Json::Array(y) && items_equal(x, y),
        Json::Object(x) => b matches Json::Object(y) && entries_equal(x, y),
    }
}

pub open spec fn items_equal(x: Seq<Json>, y: Seq<Json>) -> bool
    decreases x,
{
    x.len() == y.len() && (x.len() == 0 || (items_equal(x.drop_last(), y.drop_last()) && json_equal(
        x.last(),
        y.last(),
    )))
}

pub open spec fn entries_equal(x: Seq<(Seq<char>, Json)>, y: Seq<(Seq<char>, Json)>) -> bool
    decreases x,
{
    x.len() == y.len() && (x.len() == 0 || (entries_equal(x.drop_last(), y.drop_last()) && x.last().0
        == y.last().0 && json_equal(x.last().1, y.last().1)))
}

pub proof fn lemma_items_equal_prefix(x: Seq<Json>, y: Seq<Json>, k: int)
    requires
        x.len() == y.len(),
        0 <= k <= x.len(),
        !items_equal(x.subrange(0, k), y.subrange(0, k)),
    ensures
        !items_equal(x, y),
    decreases x.len() - k,
{
    if k < x.len() {
        assert(x.subrange(0, k + 1).drop_last() =~= x.subrange(0, k));
        assert(y.subrange(0, k + 1).drop_last() =~= y.subrange(0, k));
        lemma_items_equal_prefix(x, y, k + 1);
    } else {
        assert(x.subrange(0, k) =~= x);
        assert(y.subrange(0, k) =~= y);
    }
}

pub proof fn lemma_entries_equal_prefix(x: Seq<(Seq<char>, Json)>, y: Seq<(Seq<char>, Json)>, k: int)
    requires
        x.len() == y.len(),
        0 <= k <= x.len(),
        !entries_equal(x.subrange(0, k), y.subrange(0, k)),
    ensures
        !entries_equal(x, y),
    decreases x.len() - k,
{
    if k < x.len() {
        assert(x.subrange(0, k + 1).drop_last() =~= x.subrange(0, k));
        assert(y.subrange(0, k + 1).drop_last() =~= y.subrange(0, k));
        lemma_entries_equal_prefix(x, y, k + 1);
    } else {
        assert(x.subrange(0, k) =~= x);
        assert(y.subrange(0, k) =~= y);
    }
}

/// Whether two values are equal (see [`json_equal`]).
#[verifier::loop_isolation(false)]
pub fn json_eq(a: &JsonValue, b: &JsonValue) -> (r: bool)
    ensures
        r == json_equal(a@, b@),
    decreases a,
{
    match (a, b) {
        (JsonValue::Null, JsonValue::Null) => true,
        (JsonValue::Bool(x), JsonValue::Bool(y)) => *x == *y,
        (JsonValue::Number(x), JsonValue::Number(y)) => numbers_equal(x.as_str(), y.as_str()),
        (JsonValue::String(x), JsonValue::String(y)) => crate::text::str_eq(x.as_str(), y.as_str()),
        (JsonValue::Array(x), JsonValue::Array(y)) => {
            proof {
                lemma_json_views(x@);
                lemma_json_views(y@);
            }
            if x.len() != y.len() {
                return false;
            }
            let mut i: usize = 0;
            assert(json_views(x@).subrange(0, 0).len() == 0);
            while i < x.len()
                invariant
                    i <= x@.len(),
                    x@.len() == y@.len(),
                    items_equal(json_views(x@).subrange(0, i as int), json_views(y@).subrange(0, i as int)),
                decreases x@.len() - i,
            {
                proof {
                    assert(decreases_to!(*a => *x));
                    assert(decreases_to!(*x => x@));
                    assert(decreases_to!(x@ => x@[i as int]));
                }
                let ghost px = json_views(x@).subrange(0, i + 1);
                let ghost py = json_views(y@).subrange(0, i + 1);
                assert(px.drop_last() =~= json_views(x@).subrange(0, i as int));
                assert(py.drop_last() =~= json_views(y@).subrange(0, i as int));
                if !json_eq(&x[i], &y[i]) {
                    proof {
                        lemma_items_equal_prefix(json_views(x@), json_views(y@), i + 1);
                    }
                    return false;
                }
                i = i + 1;
            }
            assert(json_views(x@).subrange(0, x@.len() as int) =~= json_views(x@));
            assert(json_views(y@).subrange(0, y@.len() as int) =~= json_views(y@));
            true
        },
        (JsonValue::Object(x), JsonValue::Object(y)) => {
            proof {
                lemma_entry_views(x@);
                lemma_entry_views(y@);
            }
            if x.len() != y.len() {
                return false;
            }
            let mut i: usize = 0;
            assert(entry_views(x@).subrange(0, 0).len() == 0);
            while i < x.len()
                invariant
                    i <= x@.len(),
                    x@.len() == y@.len(),
                    entries_equal(entry_views(x@).subrange(0, i as int), entry_views(y@).subrange(0, i as int)),
                decreases x@.len() - i,
            {
                proof {
                    assert(decreases_to!(*a => *x));
                    assert(decreases_to!(*x => x@));
                    assert(decreases_to!(x@ => x@[i as int]));
                    assert(decreases_to!(x@[i as int] => x@[i as int].1));
                }
                let ghost px = entry_views(x@).subrange(0, i + 1);
                let ghost py = entry_views(y@).subrange(0, i + 1);
                assert(px.drop_last() =~= entry_views(x@).subrange(0, i as int));
                assert(py.drop_last() =~= entry_views(y@).subrange(0, i as int));
                if !crate::text::str_eq(x[i].0.as_str(), y[i].0.as_str()) || !json_eq(&x[i].1, &y[i].1) {
                    proof {
                        lemma_entries_equal_prefix(entry_views(x@), entry_views(y@), i + 1);
                    }
                    return false;
                }
                i = i + 1;
            }
            assert(entry_views(x@).subrange(0, x@.len() as int) =~= entry_views(x@));
            assert(entry_views(y@).subrange(0, y@.len() as int) =~= entry_views(y@));
            true
        },
        _ => false,
    }
}

/// `"null"`, the bytes of a JSON null.
pub open spec fn null_bytes() -> Seq<u8> {
    seq![110u8, 117u8, 108u8, 108u8]
}

/// The bytes `null`.
pub fn json_null_bytes() -> (r: Vec<u8>)
    ensures
        r@ == null_bytes(),
{
    let mut v: Vec<u8> = Vec::new();
    v.push(110u8);
    v.push(117u8);
    v.push(108u8);
    v.push(108u8);
    assert(v@ =~= null_bytes());
    v
}

} // verus!
