//! `${name}` interpolation of stored step results into invocation arguments.
use vstd::prelude::*;
use vstd::string::StrSliceExecFns;
use vstd::string::StringExecFns;

use crate::PluginHost;
use crate::json::{
    Json, JsonValue, entry_views, json_view, json_views, lemma_entry_views, lemma_entry_views_push,
    lemma_json_views, lemma_json_views_push, serde_from_slice, serde_json_from_slice,
    serde_json_to_string, serde_json_to_vec, serde_to_string, serde_to_vec,
};
use crate::text::{
    concat2, concat3, find_char_from, find_pair_from, first_index_from, first_pair_from, join,
    join_strings, lemma_first_index_from_bounds, lemma_first_pair_from_bounds,
    lemma_strictly_sorted_unique, sort_strings, sorted_names, strictly_sorted, strings_view,
    substring,
};

verus! {

// --- JSON bytes --------------------------------------------------------------

/// What a stored result reads as: no bytes are null, other bytes are parsed as JSON.
pub open spec fn bytes_to_json(bytes: Seq<u8>) -> Result<Json, Seq<char>> {
    if bytes.len() == 0 {
        Ok(Json::Null)
    } else {
        match serde_json_from_slice(bytes) {
            Ok(v) => Ok(v),
            Err(e) => Err("Failed to parse JSON bytes: "@ + e),
        }
    }
}

/// The bytes a result is stored as.
pub open spec fn json_to_bytes_spec(value: Json) -> Result<Seq<u8>, Seq<char>> {
    match serde_json_to_vec(value) {
        Ok(b) => Ok(b),
        Err(e) => Err("Failed to serialize JSON: "@ + e),
    }
}

/// Serializes a value to JSON bytes.
pub fn json_to_bytes(value: &JsonValue) -> (r: Result<Vec<u8>, String>)
    ensures
        match r {
            Ok(b) => json_to_bytes_spec(value@) == Ok::<Seq<u8>, Seq<char>>(b@),
            Err(e) => json_to_bytes_spec(value@) == Err::<Seq<u8>, Seq<char>>(e@),
        },
{
    match serde_to_vec(value) {
        Ok(b) => Ok(b),
        Err(e) => Err(concat2("Failed to serialize JSON: ", e.as_str())),
    }
}

/// Reads JSON bytes; no bytes read as null.
pub fn json_from_bytes(bytes: &[u8]) -> (r: Result<JsonValue, String>)
    ensures
        match r {
            Ok(v) => bytes_to_json(bytes@) == Ok::<Json, Seq<char>>(v@),
            Err(e) => bytes_to_json(bytes@) == Err::<Json, Seq<char>>(e@),
        },
{
    if bytes.len() == 0 {
        return Ok(JsonValue::Null);
    }
    match serde_from_slice(bytes) {
        Ok(v) => Ok(v),
        Err(e) => Err(concat2("Failed to parse JSON bytes: ", e.as_str())),
    }
}

// --- Variable names ----------------------------------------------------------

/// The characters a variable name may hold: ASCII letters and digits, `_` and `-`.
pub open spec fn is_name_char(c: char) -> bool {
    ('0' <= c && c <= '9') || ('a' <= c && c <= 'z') || ('A' <= c && c <= 'Z') || c == '_' || c
        == '-'
}

pub open spec fn empty_name_message() -> Seq<char> {
    "Interpolation variable name cannot be empty"@
}

pub open spec fn invalid_name_message(name: Seq<char>) -> Seq<char> {
    "Interpolation variable '"@ + name
        + "' contains invalid characters (allowed: ASCII letters, digits, '_' or '-')"@
}

/// Whether `name` may name a variable, and if not, why.
pub open spec fn check_name(name: Seq<char>) -> Result<(), Seq<char>> {
    if name.len() == 0 {
        Err(empty_name_message())
    } else if forall|i: int| 0 <= i < name.len() ==> is_name_char(#[trigger] name[i]) {
        Ok(())
    } else {
        Err(invalid_name_message(name))
    }
}

/// Checks that `name` is non-empty and made of ASCII letters, digits, `_` and `-`.
pub fn validate_variable_name(name: &str) -> (r: Result<(), String>)
    ensures
        match r {
            Ok(_) => check_name(name@) == Ok::<(), Seq<char>>(()),
            Err(e) => check_name(name@) == Err::<(), Seq<char>>(e@),
        },
{
    let n = name.unicode_len();
    if n == 0 {
        return Err(String::from_str("Interpolation variable name cannot be empty"));
    }
    let mut i: usize = 0;
    while i < n
        invariant
            n == name@.len(),
            i <= n,
            forall|j: int| 0 <= j < i ==> is_name_char(#[trigger] name@[j]),
        decreases n - i,
    {
        let c = name.get_char(i);
        if !(('0' <= c && c <= '9') || ('a' <= c && c <= 'z') || ('A' <= c && c <= 'Z') || c == '_'
            || c == '-') {
            assert(!is_name_char(name@[i as int]));
            return Err(concat3(
                "Interpolation variable '",
                name,
                "' contains invalid characters (allowed: ASCII letters, digits, '_' or '-')",
            ));
        }
        i = i + 1;
    }
    Ok(())
}

// --- Lookup ------------------------------------------------------------------

/// The stored names listed in an error: sorted and joined with `, `, or `none`.
pub open spec fn available_names(names: Set<Seq<char>>) -> Seq<char> {
    let sorted = sorted_names(names);
    if sorted.len() == 0 {
        "none"@
    } else {
        join(sorted, ", "@)
    }
}

pub open spec fn not_found_message(name: Seq<char>, names: Set<Seq<char>>) -> Seq<char> {
    "Interpolation variable '"@ + name + "' not found. Available variables: "@ + available_names(
        names,
    )
}

/// What `name` stands for in a store: its stored result read as JSON.
pub open spec fn lookup(name: Seq<char>, store: Map<Seq<char>, Seq<u8>>) -> Result<Json, Seq<char>> {
    if store.contains_key(name) {
        bytes_to_json(store[name])
    } else {
        Err(not_found_message(name, store.dom()))
    }
}

/// The stored result named `name`, read as JSON.
pub fn lookup_variable(name: &str, host: &PluginHost) -> (r: Result<JsonValue, String>)
    ensures
        match r {
            Ok(v) => lookup(name@, host.store()) == Ok::<Json, Seq<char>>(v@),
            Err(e) => lookup(name@, host.store()) == Err::<Json, Seq<char>>(e@),
        },
{
    match host.store_get(name) {
        Some(bytes) => json_from_bytes(bytes.as_slice()),
        None => {
            let keys = host.store_keys();
            let sorted = sort_strings(&keys);
            proof {
                lemma_strictly_sorted_unique(strings_view(sorted@), sorted_names(host.store().dom()));
            }
            let available = if sorted.len() == 0 {
                String::from_str("none")
            } else {
                join_strings(&sorted, ", ")
            };
            let mut msg = concat3("Interpolation variable '", name, "' not found. Available variables: ");
            msg.append(available.as_str());
            Err(msg)
        },
    }
}

// --- Rendering a value as text -----------------------------------------------

/// How a value reads inside a longer string: strings bare, null as `null`, anything
/// else as serde_json writes it.
pub open spec fn value_text(value: Json) -> Result<Seq<char>, Seq<char>> {
    match value {
        Json::Str(s) => Ok(s),
        Json::Null => Ok("null"@),
        _ => match serde_json_to_string(value) {
            Ok(t) => Ok(t),
            Err(e) => Err("Failed to serialize interpolation value: "@ + e),
        },
    }
}

/// The text that a value stands for inside a longer string.
pub fn json_value_to_string(value: &JsonValue) -> (r: Result<String, String>)
    ensures
        match r {
            Ok(t) => value_text(value@) == Ok::<Seq<char>, Seq<char>>(t@),
            Err(e) => value_text(value@) == Err::<Seq<char>, Seq<char>>(e@),
        },
{
    match value {
        JsonValue::String(s) => Ok(s.clone()),
        JsonValue::Null => Ok(String::from_str("null")),
        _ => match serde_to_string(value) {
            Ok(t) => Ok(t),
            Err(e) => Err(concat2("Failed to serialize interpolation value: ", e.as_str())),
        },
    }
}

// --- Strings -----------------------------------------------------------------

pub open spec fn unclosed_message(value: Seq<char>) -> Seq<char> {
    "Unclosed interpolation in '"@ + value + "'"@
}

/// Interpolation of the string `s` from position `cursor` on.
///
/// The first `${` at or after the cursor opens a placeholder, closed by the next `}`.
/// The name between is checked and looked up. A placeholder that is the whole string
/// stands for the looked-up value itself; otherwise the value's text replaces the
/// placeholder and the scan resumes after the inserted text.
pub open spec fn interp_str(s: Seq<char>, cursor: int, store: Map<Seq<char>, Seq<u8>>) -> Result<
    Json,
    Seq<char>,
>
    decreases s.len() - cursor,
{
    if cursor < 0 {
        Ok(Json::Str(s))
    } else {
        match first_pair_from(s, '$', '{', cursor) {
            None => Ok(Json::Str(s)),
            Some(start) => match first_index_from(s, '}', start + 2) {
                None => Err(unclosed_message(s)),
                Some(end) => {
                    let name = s.subrange(start + 2, end);
                    match check_name(name) {
                        Err(e) => Err(e),
                        Ok(_) => match lookup(name, store) {
                            Err(e) => Err(e),
                            Ok(resolved) => if start == 0 && end + 1 == s.len() {
                                Ok(resolved)
                            } else {
                                match value_text(resolved) {
                                    Err(e) => Err(e),
                                    Ok(t) => {
                                        proof {
                                            lemma_first_pair_from_bounds(s, '$', '{', cursor);
                                            lemma_first_index_from_bounds(s, '}', start + 2);
                                        }
                                        interp_str(
                                            s.subrange(0, start) + t + s.subrange(end + 1, s.len() as int),
                                            start + t.len(),
                                            store,
                                        )
                                    },
                                }
                            },
                        },
                    }
                },
            },
        }
    }
}

/// Interpolates the `${name}` placeholders of a string with stored step results.
pub fn interpolate_string(input: String, host: &PluginHost) -> (r: Result<JsonValue, String>)
    ensures
        match r {
            Ok(v) => interp_str(input@, 0, host.store()) == Ok::<Json, Seq<char>>(v@),
            Err(e) => interp_str(input@, 0, host.store()) == Err::<Json, Seq<char>>(e@),
        },
{
    let ghost whole = input@;
    let mut value = input;
    let mut cursor: usize = 0;
    loop
        invariant_except_break
            cursor <= value@.len(),
        invariant
            whole == input@,
            interp_str(whole, 0, host.store()) == interp_str(value@, cursor as int, host.store()),
        ensures
            interp_str(whole, 0, host.store()) == Ok::<Json, Seq<char>>(Json::Str(value@)),
        decreases value@.len() - cursor,
    {
        let n0 = value.as_str().unicode_len();
        let start = match find_pair_from(value.as_str(), '$', '{', cursor) {
            Some(s) => s,
            None => return Ok(JsonValue::String(value)),
        };
        proof {
            lemma_first_pair_from_bounds(value@, '$', '{', cursor as int);
        }
        let name_start = start + 2;
        let name_end = match find_char_from(value.as_str(), '}', name_start) {
            Some(e) => e,
            None => {
                return Err(concat3("Unclosed interpolation in '", value.as_str(), "'"));
            },
        };
        proof {
            lemma_first_index_from_bounds(value@, '}', name_start as int);
        }
        let name = substring(value.as_str(), name_start, name_end);
        match validate_variable_name(name.as_str()) {
            Ok(_) => {},
            Err(e) => return Err(e),
        }
        let resolved = match lookup_variable(name.as_str(), host) {
            Ok(v) => v,
            Err(e) => return Err(e),
        };
        let n = value.as_str().unicode_len();
        if start == 0 && name_end + 1 == n {
            return Ok(resolved);
        }
        let resolved_str = match json_value_to_string(&resolved) {
            Ok(t) => t,
            Err(e) => return Err(e),
        };
        let before = substring(value.as_str(), 0, start);
        let after = substring(value.as_str(), name_end + 1, n);
        let inserted = resolved_str.as_str().unicode_len();
        let ghost old_value = value@;
        value = concat3(before.as_str(), resolved_str.as_str(), after.as_str());
        assert(value@ == old_value.subrange(0, start as int) + resolved_str@ + old_value.subrange(
            name_end + 1,
            old_value.len() as int,
        ));
        let m = value.as_str().unicode_len();
        cursor = start + inserted;
        if cursor > m {
            break;
        }
    }
    Ok(JsonValue::String(value))
}

// --- Placeholders in turn ----------------------------------------------------

/// The characters of the placeholder `${name}`.
pub open spec fn placeholder(name: Seq<char>) -> Seq<char> {
    seq!['$', '{'] + name + seq!['}']
}

/// Whether `s` opens no placeholder at or after position `from`.
pub open spec fn opens_none_from(s: Seq<char>, from: int) -> bool {
    forall|i: int| from <= i && i + 1 < s.len() ==> !(#[trigger] s[i] == '$' && s[i + 1] == '{')
}

proof fn lemma_pair_found(s: Seq<char>, from: int, at: int)
    requires
        0 <= from <= at,
        at + 1 < s.len(),
        s[at] == '$' && s[at + 1] == '{',
        forall|i: int| from <= i < at ==> !(#[trigger] s[i] == '$' && s[i + 1] == '{'),
    ensures
        first_pair_from(s, '$', '{', from) == Some(at),
    decreases at - from,
{
    if from < at {
        lemma_pair_found(s, from + 1, at);
    }
}

proof fn lemma_pair_none(s: Seq<char>, from: int)
    requires
        0 <= from,
        opens_none_from(s, from),
    ensures
        first_pair_from(s, '$', '{', from) is None,
    decreases s.len() - from,
{
    if from + 1 < s.len() {
        assert(!(s[from] == '$' && s[from + 1] == '{'));
        lemma_pair_none(s, from + 1);
    }
}

proof fn lemma_no_pair_means_none_opens(s: Seq<char>, from: int)
    requires
        0 <= from,
        first_pair_from(s, '$', '{', from) is None,
    ensures
        opens_none_from(s, from),
    decreases s.len() - from,
{
    if from + 1 < s.len() {
        lemma_no_pair_means_none_opens(s, from + 1);
    }
}

proof fn lemma_close_found(s: Seq<char>, from: int, at: int)
    requires
        0 <= from <= at < s.len(),
        s[at] == '}',
        forall|i: int| from <= i < at ==> #[trigger] s[i] != '}',
    ensures
        first_index_from(s, '}', from) == Some(at),
    decreases at - from,
{
    if from < at {
        lemma_close_found(s, from + 1, at);
    }
}

/// One placeholder in turn: where `p` opens no placeholder from the cursor on, the
/// placeholder `${name}` right after `p` is the next one replaced, its value's text is
/// put in its place, and the scan goes on exactly at the end of the inserted text.
proof fn lemma_placeholder_step(
    p: Seq<char>,
    name: Seq<char>,
    rest: Seq<char>,
    cursor: int,
    store: Map<Seq<char>, Seq<u8>>,
    t: Seq<char>,
)
    requires
        0 <= cursor <= p.len(),
        opens_none_from(p, cursor),
        check_name(name) is Ok,
        lookup(name, store) matches Ok(v) && value_text(v) == Ok::<Seq<char>, Seq<char>>(t),
        p.len() > 0 || rest.len() > 0,
    ensures
        interp_str(p + placeholder(name) + rest, cursor, store) == interp_str(
            p + t + rest,
            (p.len() + t.len()) as int,
            store,
        ),
{
    let s = p + placeholder(name) + rest;
    let start = p.len() as int;
    let end = start + 2 + name.len();
    assert(s[start] == '$' && s[start + 1] == '{');
    assert forall|i: int| cursor <= i < start implies !(#[trigger] s[i] == '$' && s[i + 1] == '{') by {
        assert(s[i] == p[i]);
        if i + 1 < p.len() {
            assert(s[i + 1] == p[i + 1]);
        } else {
            assert(s[i + 1] == '$');
        }
    }
    lemma_pair_found(s, cursor, start);
    assert(s[end] == '}');
    assert forall|i: int| start + 2 <= i < end implies #[trigger] s[i] != '}' by {
        assert(s[i] == name[i - start - 2]);
        assert(is_name_char(name[i - start - 2]));
    }
    lemma_close_found(s, start + 2, end);
    assert(s.subrange(start + 2, end) =~= name);
    assert(s.subrange(0, start) + t + s.subrange(end + 1, s.len() as int) =~= p + t + rest);
}

/// A string that is a single placeholder stands for the stored value itself, of
/// whatever kind, and for the lookup's error where the name is not stored.
pub proof fn law_single_placeholder_is_the_value(a: Seq<char>, store: Map<Seq<char>, Seq<u8>>)
    requires
        check_name(a) is Ok,
    ensures
        interp_str(placeholder(a), 0, store) == lookup(a, store),
{
    let s = placeholder(a);
    let end = (2 + a.len()) as int;
    assert(s[0] == '$' && s[1] == '{');
    lemma_pair_found(s, 0, 0);
    assert(s[end] == '}');
    assert forall|i: int| 2 <= i < end implies #[trigger] s[i] != '}' by {
        assert(s[i] == a[i - 2]);
        assert(is_name_char(a[i - 2]));
    }
    lemma_close_found(s, 2, end);
    assert(s.subrange(2, end) =~= a);
}

/// Placeholders are replaced in turn, left to right, each by its value's text, and
/// the text around them is kept: `p ${a} q` reads `p`, then `a`'s text, then `q`, and
/// `p ${a}${b} q` reads `p`, `a`'s text, `b`'s text, then `q`, where `p` and `q` open
/// no placeholder and the whole string is not a single placeholder.
pub proof fn law_placeholders_replaced_in_turn(
    p: Seq<char>,
    a: Seq<char>,
    b: Seq<char>,
    q: Seq<char>,
    store: Map<Seq<char>, Seq<u8>>,
    ta: Seq<char>,
    tb: Seq<char>,
)
    requires
        first_pair_from(p, '$', '{', 0) is None,
        first_pair_from(q, '$', '{', 0) is None,
        check_name(a) is Ok,
        check_name(b) is Ok,
        lookup(a, store) matches Ok(v) && value_text(v) == Ok::<Seq<char>, Seq<char>>(ta),
        lookup(b, store) matches Ok(v) && value_text(v) == Ok::<Seq<char>, Seq<char>>(tb),
    ensures
        p.len() > 0 || q.len() > 0 ==> interp_str(p + placeholder(a) + q, 0, store) == Ok::<
            Json,
            Seq<char>,
        >(Json::Str(p + ta + q)),
        p.len() > 0 || ta.len() > 0 || q.len() > 0 ==> interp_str(
            p + placeholder(a) + placeholder(b) + q,
            0,
            store,
        ) == Ok::<Json, Seq<char>>(Json::Str(p + ta + tb + q)),
{
    lemma_no_pair_means_none_opens(p, 0);
    lemma_no_pair_means_none_opens(q, 0);
    // A single placeholder.
    if p.len() > 0 || q.len() > 0 {
        assert(p + placeholder(a) + q =~= p + placeholder(a) + q);
        lemma_placeholder_step(p, a, q, 0, store, ta);
        let s = p + ta + q;
        let c = (p.len() + ta.len()) as int;
        assert forall|i: int| c <= i && i + 1 < s.len() implies !(#[trigger] s[i] == '$' && s[i + 1]
            == '{') by {
            assert(s[i] == q[i - c]);
            assert(s[i + 1] == q[i + 1 - c]);
        }
        lemma_pair_none(s, c);
    }
    // Two placeholders side by side.
    if p.len() > 0 || ta.len() > 0 || q.len() > 0 {
        let rest = placeholder(b) + q;
        assert(p + placeholder(a) + placeholder(b) + q =~= p + placeholder(a) + rest);
        lemma_placeholder_step(p, a, rest, 0, store, ta);
        let p2 = p + ta;
        assert(p + ta + rest =~= p2 + placeholder(b) + q);
        lemma_placeholder_step(p2, b, q, p2.len() as int, store, tb);
        let s = p2 + tb + q;
        let c = (p2.len() + tb.len()) as int;
        assert forall|i: int| c <= i && i + 1 < s.len() implies !(#[trigger] s[i] == '$' && s[i + 1]
            == '{') by {
            assert(s[i] == q[i - c]);
            assert(s[i + 1] == q[i + 1 - c]);
        }
        lemma_pair_none(s, c);
        assert(p2 + tb + q =~= p + ta + tb + q);
    }
}

// --- Values ------------------------------------------------------------------

/// Interpolation of every string inside a value: strings as [`interp_str`] says, arrays
/// and objects element by element (the first error wins), anything else unchanged.
pub open spec fn interp_json(value: Json, store: Map<Seq<char>, Seq<u8>>) -> Result<Json, Seq<char>>
    decreases value,
{
    match value {
        Json::Str(s) => interp_str(s, 0, store),
        Json::Array(items) => match interp_items(items, store) {
            Ok(out) => Ok(Json::Array(out)),
            Err(e) => Err(e),
        },
        Json::Object(entries) => match interp_entries(entries, store) {
            Ok(out) => Ok(Json::Object(out)),
            Err(e) => Err(e),
        },
        _ => Ok(value),
    }
}

pub open spec fn interp_items(items: Seq<Json>, store: Map<Seq<char>, Seq<u8>>) -> Result<
    Seq<Json>,
    Seq<char>,
>
    decreases items,
{
    if items.len() == 0 {
        Ok(Seq::empty())
    } else {
        match interp_items(items.drop_last(), store) {
            Err(e) => Err(e),
            Ok(out) => match interp_json(items.last(), store) {
                Err(e) => Err(e),
                Ok(v) => Ok(out.push(v)),
            },
        }
    }
}

pub open spec fn interp_entries(entries: Seq<(Seq<char>, Json)>, store: Map<Seq<char>, Seq<u8>>) -> Result<
    Seq<(Seq<char>, Json)>,
    Seq<char>,
>
    decreases entries,
{
    if entries.len() == 0 {
        Ok(Seq::empty())
    } else {
        match interp_entries(entries.drop_last(), store) {
            Err(e) => Err(e),
            Ok(out) => match interp_json(entries.last().1, store) {
                Err(e) => Err(e),
                Ok(v) => Ok(out.push((entries.last().0, v))),
            },
        }
    }
}

pub proof fn lemma_interp_items_prefix_err(items: Seq<Json>, k: int, store: Map<Seq<char>, Seq<u8>>)
    requires
        0 <= k <= items.len(),
        interp_items(items.subrange(0, k), store) is Err,
    ensures
        interp_items(items, store) == interp_items(items.subrange(0, k), store),
    decreases items.len() - k,
{
    if k < items.len() {
        let next = items.subrange(0, k + 1);
        assert(next.drop_last() =~= items.subrange(0, k));
        lemma_interp_items_prefix_err(items, k + 1, store);
    } else {
        assert(items.subrange(0, k) =~= items);
    }
}

pub proof fn lemma_interp_entries_prefix_err(
    entries: Seq<(Seq<char>, Json)>,
    k: int,
    store: Map<Seq<char>, Seq<u8>>,
)
    requires
        0 <= k <= entries.len(),
        interp_entries(entries.subrange(0, k), store) is Err,
    ensures
        interp_entries(entries, store) == interp_entries(entries.subrange(0, k), store),
    decreases entries.len() - k,
{
    if k < entries.len() {
        let next = entries.subrange(0, k + 1);
        assert(next.drop_last() =~= entries.subrange(0, k));
        lemma_interp_entries_prefix_err(entries, k + 1, store);
    } else {
        assert(entries.subrange(0, k) =~= entries);
    }
}

/// Whether no string in the value holds `${`.
pub open spec fn without_placeholders(value: Json) -> bool
    decreases value,
{
    match value {
        Json::Str(s) => first_pair_from(s, '$', '{', 0) is None,
        Json::Array(items) => items_without_placeholders(items),
        Json::Object(entries) => entries_without_placeholders(entries),
        _ => true,
    }
}

pub open spec fn items_without_placeholders(items: Seq<Json>) -> bool
    decreases items,
{
    items.len() == 0 || (items_without_placeholders(items.drop_last()) && without_placeholders(
        items.last(),
    ))
}

pub open spec fn entries_without_placeholders(entries: Seq<(Seq<char>, Json)>) -> bool
    decreases entries,
{
    entries.len() == 0 || (entries_without_placeholders(entries.drop_last()) && without_placeholders(
        entries.last().1,
    ))
}

proof fn lemma_plain_value(value: Json, store: Map<Seq<char>, Seq<u8>>)
    requires
        without_placeholders(value),
    ensures
        interp_json(value, store) == Ok::<Json, Seq<char>>(value),
    decreases value,
{
    match value {
        Json::Array(items) => lemma_plain_items(items, store),
        Json::Object(entries) => lemma_plain_entries(entries, store),
        _ => {},
    }
}

proof fn lemma_plain_items(items: Seq<Json>, store: Map<Seq<char>, Seq<u8>>)
    requires
        items_without_placeholders(items),
    ensures
        interp_items(items, store) == Ok::<Seq<Json>, Seq<char>>(items),
    decreases items,
{
    if items.len() > 0 {
        lemma_plain_items(items.drop_last(), store);
        lemma_plain_value(items.last(), store);
        assert(items.drop_last().push(items.last()) =~= items);
    } else {
        assert(items =~= Seq::<Json>::empty());
    }
}

proof fn lemma_plain_entries(entries: Seq<(Seq<char>, Json)>, store: Map<Seq<char>, Seq<u8>>)
    requires
        entries_without_placeholders(entries),
    ensures
        interp_entries(entries, store) == Ok::<Seq<(Seq<char>, Json)>, Seq<char>>(entries),
    decreases entries,
{
    if entries.len() > 0 {
        lemma_plain_entries(entries.drop_last(), store);
        lemma_plain_value(entries.last().1, store);
        assert(entries.drop_last().push((entries.last().0, entries.last().1)) =~= entries);
    } else {
        assert(entries =~= Seq::<(Seq<char>, Json)>::empty());
    }
}

proof fn lemma_items_shape(items: Seq<Json>, store: Map<Seq<char>, Seq<u8>>)
    ensures
        match interp_items(items, store) {
            Ok(out) => out.len() == items.len() && forall|i: int|
                0 <= i < items.len() ==> interp_json(#[trigger] items[i], store) == Ok::<
                    Json,
                    Seq<char>,
                >(out[i]),
            Err(_) => true,
        },
    decreases items.len(),
{
    if items.len() > 0 {
        lemma_items_shape(items.drop_last(), store);
        if let Ok(out) = interp_items(items, store) {
            let front = items.drop_last();
            assert forall|i: int| 0 <= i < items.len() implies interp_json(#[trigger] items[i], store)
                == Ok::<Json, Seq<char>>(out[i]) by {
                if i < items.len() - 1 {
                    assert(front[i] == items[i]);
                }
            }
        }
    }
}

proof fn lemma_entries_shape(entries: Seq<(Seq<char>, Json)>, store: Map<Seq<char>, Seq<u8>>)
    ensures
        match interp_entries(entries, store) {
            Ok(out) => out.len() == entries.len() && forall|i: int|
                0 <= i < entries.len() ==> out[i].0 == (#[trigger] entries[i]).0 && interp_json(
                    entries[i].1,
                    store,
                ) == Ok::<Json, Seq<char>>(out[i].1),
            Err(_) => true,
        },
    decreases entries.len(),
{
    if entries.len() > 0 {
        lemma_entries_shape(entries.drop_last(), store);
        if let Ok(out) = interp_entries(entries, store) {
            let front = entries.drop_last();
            assert forall|i: int| 0 <= i < entries.len() implies out[i].0 == (
            #[trigger] entries[i]).0 && interp_json(entries[i].1, store) == Ok::<Json, Seq<char>>(
                out[i].1,
            ) by {
                if i < entries.len() - 1 {
                    assert(front[i] == entries[i]);
                }
            }
        }
    }
}

/// Interpolation keeps a value's shape: numbers, booleans and null stay as they are,
/// each string is interpolated on its own, an array keeps its length with each element
/// interpolated in place, and an object keeps its keys, in order, with each value
/// interpolated; keys are never interpolated. A value none of whose strings holds `${`
/// comes back unchanged.
pub proof fn law_interpolation_keeps_shape(value: Json, store: Map<Seq<char>, Seq<u8>>)
    ensures
        (value is Null || value is Bool || value is Number) ==> interp_json(value, store) == Ok::<
            Json,
            Seq<char>,
        >(value),
        without_placeholders(value) ==> interp_json(value, store) == Ok::<Json, Seq<char>>(value),
        match value {
            Json::Str(s) => interp_json(value, store) == interp_str(s, 0, store),
            Json::Array(items) => match interp_json(value, store) {
                Ok(Json::Array(out)) => out.len() == items.len() && forall|i: int|
                    0 <= i < items.len() ==> interp_json(#[trigger] items[i], store) == Ok::<
                        Json,
                        Seq<char>,
                    >(out[i]),
                Ok(_) => false,
                Err(_) => true,
            },
            Json::Object(entries) => match interp_json(value, store) {
                Ok(Json::Object(out)) => out.len() == entries.len() && forall|i: int|
                    0 <= i < entries.len() ==> out[i].0 == (#[trigger] entries[i]).0 && interp_json(
                        entries[i].1,
                        store,
                    ) == Ok::<Json, Seq<char>>(out[i].1),
                Ok(_) => false,
                Err(_) => true,
            },
            _ => true,
        },
{
    if without_placeholders(value) {
        lemma_plain_value(value, store);
    }
    match value {
        Json::Array(items) => lemma_items_shape(items, store),
        Json::Object(entries) => lemma_entries_shape(entries, store),
        _ => {},
    }
}

/// Interpolates the `${name}` placeholders in every string of a value.
#[verifier::loop_isolation(false)]
pub fn interpolate_json(value: &JsonValue, host: &PluginHost) -> (r: Result<JsonValue, String>)
    ensures
        match r {
            Ok(v) => interp_json(value@, host.store()) == Ok::<Json, Seq<char>>(v@),
            Err(e) => interp_json(value@, host.store()) == Err::<Json, Seq<char>>(e@),
        },
    decreases value,
{
    match value {
        JsonValue::String(s) => interpolate_string(s.clone(), host),
        JsonValue::Array(items) => {
            proof {
                lemma_json_views(items@);
            }
            let mut out: Vec<JsonValue> = Vec::new();
            let mut i: usize = 0;
            while i < items.len()
                invariant
                    i <= items@.len(),
                    interp_items(json_views(items@).subrange(0, i as int), host.store())
                        == Ok::<Seq<Json>, Seq<char>>(json_views(out@)),
                decreases items@.len() - i,
            {
                proof {
                    assert(decreases_to!(*value => *items));
                    assert(decreases_to!(*items => items@));
                    assert(decreases_to!(items@ => items@[i as int]));
                }
                let ghost prefix = json_views(items@).subrange(0, i + 1);
                assert(prefix.drop_last() =~= json_views(items@).subrange(0, i as int));
                assert(prefix.last() == json_view(items@[i as int]));
                let v = match interpolate_json(&items[i], host) {
                    Ok(v) => v,
                    Err(e) => {
                        proof {
                            lemma_interp_items_prefix_err(json_views(items@), i + 1, host.store());
                            assert(json_views(items@).subrange(0, i + 1) == prefix);
                        }
                        return Err(e);
                    },
                };
                proof {
                    lemma_json_views_push(out@, v);
                }
                out.push(v);
                i = i + 1;
            }
            assert(json_views(items@).subrange(0, items@.len() as int) =~= json_views(items@));
            Ok(JsonValue::Array(out))
        },
        JsonValue::Object(entries) => {
            proof {
                lemma_entry_views(entries@);
            }
            let mut out: Vec<(String, JsonValue)> = Vec::new();
            let mut i: usize = 0;
            while i < entries.len()
                invariant
                    i <= entries@.len(),
                    interp_entries(entry_views(entries@).subrange(0, i as int), host.store())
                        == Ok::<Seq<(Seq<char>, Json)>, Seq<char>>(entry_views(out@)),
                decreases entries@.len() - i,
            {
                proof {
                    assert(decreases_to!(*value => *entries));
                    assert(decreases_to!(*entries => entries@));
                    assert(decreases_to!(entries@ => entries@[i as int]));
                    assert(decreases_to!(entries@[i as int] => entries@[i as int].1));
                }
                let ghost prefix = entry_views(entries@).subrange(0, i + 1);
                assert(prefix.drop_last() =~= entry_views(entries@).subrange(0, i as int));
                assert(prefix.last() == (entries@[i as int].0@, json_view(entries@[i as int].1)));
                let v = match interpolate_json(&entries[i].1, host) {
                    Ok(v) => v,
                    Err(e) => {
                        proof {
                            lemma_interp_entries_prefix_err(entry_views(entries@), i + 1, host.store());
                            assert(entry_views(entries@).subrange(0, i + 1) == prefix);
                        }
                        return Err(e);
                    },
                };
                let k = entries[i].0.clone();
                proof {
                    lemma_entry_views_push(out@, (k, v));
                }
                out.push((k, v));
                i = i + 1;
            }
            assert(entry_views(entries@).subrange(0, entries@.len() as int) =~= entry_views(entries@));
            Ok(JsonValue::Object(out))
        },
        JsonValue::Null => Ok(JsonValue::Null),
        JsonValue::Bool(b) => Ok(JsonValue::Bool(*b)),
        JsonValue::Number(n) => Ok(JsonValue::Number(n.clone())),
    }
}

} // verus!
