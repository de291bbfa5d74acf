//! A reference to a callable target and one of its capabilities.
use vstd::prelude::*;
use vstd::string::StringExecFns;

use crate::bindings::opt_view;
use crate::instruction::types::Invalid;
use crate::text::{concat3, last_index_below, last_index_of, rfind_char, str_eq, substring};

verus! {

/// A callable target and capability pair.
///
/// Three written forms denote it: `{"function": "math", "capability": "calculate"}`,
/// `{"plugin": "math", "capability": "calculate"}`, and the shorthand
/// `{"call": "math.calculate"}`.
pub struct CallableRef<S> {
    pub function: String,
    pub capability: String,
    pub _marker: std::marker::PhantomData<S>,
}

/// The fields of a callable reference as they were written, before they are checked.
pub struct CallableRefDe {
    pub call: Option<String>,
    pub function: Option<String>,
    pub capability: Option<String>,
}

/// The shorthand `value` split at the last `sep`, when both sides are non-empty.
pub open spec fn split_at_last(value: Seq<char>, sep: char) -> Option<(Seq<char>, Seq<char>)> {
    match last_index_of(value, sep) {
        Some(i) => {
            let f = value.subrange(0, i);
            let c = value.subrange(i + 1, value.len() as int);
            if f.len() > 0 && c.len() > 0 {
                Some((f, c))
            } else {
                None
            }
        },
        None => None,
    }
}

pub open spec fn invalid_shorthand_message(value: Seq<char>) -> Seq<char> {
    "Invalid call shorthand '"@ + value
        + "'. Use 'function.capability', 'function:capability', or 'function/capability'."@
}

/// How a `call` shorthand reads: split at the last `.`, else the last `:`, else the last
/// `/`, taking the first separator whose split leaves both sides non-empty.
pub open spec fn parse_call(value: Seq<char>) -> Result<(Seq<char>, Seq<char>), Seq<char>> {
    if let Some(p) = split_at_last(value, '.') {
        Ok(p)
    } else if let Some(p) = split_at_last(value, ':') {
        Ok(p)
    } else if let Some(p) = split_at_last(value, '/') {
        Ok(p)
    } else {
        Err(invalid_shorthand_message(value))
    }
}

pub open spec fn missing_function_message() -> Seq<char> {
    "Missing function reference. Use 'function'/'plugin' or shorthand 'call'."@
}

pub open spec fn missing_capability_message() -> Seq<char> {
    "Missing capability. Use 'capability' or shorthand 'call'."@
}

pub open spec fn conflicting_call_message() -> Seq<char> {
    "Conflicting invocation fields: 'call' must match explicit 'function' and 'capability'."@
}

/// The function and capability that the written fields denote, or the reason they do
/// not denote one. Explicit fields win over the shorthand, which must then agree.
pub open spec fn resolve_fields(
    call: Option<Seq<char>>,
    function: Option<Seq<char>>,
    capability: Option<Seq<char>>,
) -> Result<(Seq<char>, Seq<char>), Seq<char>> {
    let parsed: Result<Option<(Seq<char>, Seq<char>)>, Seq<char>> = match call {
        Some(c) => match parse_call(c) {
            Ok(p) => Ok(Some(p)),
            Err(e) => Err(e),
        },
        None => Ok(None),
    };
    match parsed {
        Err(e) => Err(e),
        Ok(parsed) => {
            let f = match function {
                Some(f) => Some(f),
                None => match parsed {
                    Some(p) => Some(p.0),
                    None => None,
                },
            };
            let c = match capability {
                Some(c) => Some(c),
                None => match parsed {
                    Some(p) => Some(p.1),
                    None => None,
                },
            };
            match f {
                None => Err(missing_function_message()),
                Some(f) => match c {
                    None => Err(missing_capability_message()),
                    Some(c) => match parsed {
                        Some(p) => if p.0 != f || p.1 != c {
                            Err(conflicting_call_message())
                        } else {
                            Ok((f, c))
                        },
                        None => Ok((f, c)),
                    },
                },
            }
        },
    }
}

impl Clone for CallableRefDe {
    fn clone(&self) -> (r: Self)
        ensures
            opt_view(r.call) == opt_view(self.call),
            opt_view(r.function) == opt_view(self.function),
            opt_view(r.capability) == opt_view(self.capability),
    {
        CallableRefDe {
            call: crate::bindings::clone_opt_string(&self.call),
            function: crate::bindings::clone_opt_string(&self.function),
            capability: crate::bindings::clone_opt_string(&self.capability),
        }
    }
}

impl CallableRefDe {
    pub open spec fn resolved(&self) -> Result<(Seq<char>, Seq<char>), Seq<char>> {
        resolve_fields(opt_view(self.call), opt_view(self.function), opt_view(self.capability))
    }
}

/// Splits `value` at its last `sep` when both sides are non-empty.
fn split_last(value: &str, sep: char) -> (r: Option<(String, String)>)
    ensures
        match r {
            Some(p) => split_at_last(value@, sep) == Some((p.0@, p.1@)),
            None => split_at_last(value@, sep) is None,
        },
{
    match rfind_char(value, sep) {
        Some(i) => {
            proof {
                crate::text::lemma_last_index_below_bounds(value@, sep, value@.len() as int);
            }
            let n = value.unicode_len();
            if i > 0 && i + 1 < n {
                Some((substring(value, 0, i), substring(value, i + 1, n)))
            } else {
                None
            }
        },
        None => None,
    }
}

/// Reads the `call` shorthand: `function.capability`, `function:capability` or
/// `function/capability`.
pub fn parse_call_shorthand(value: &str) -> (r: Result<(String, String), String>)
    ensures
        match r {
            Ok(p) => parse_call(value@) == Ok::<(Seq<char>, Seq<char>), Seq<char>>((p.0@, p.1@)),
            Err(e) => parse_call(value@) == Err::<(Seq<char>, Seq<char>), Seq<char>>(e@),
        },
{
    if let Some(p) = split_last(value, '.') {
        return Ok(p);
    }
    if let Some(p) = split_last(value, ':') {
        return Ok(p);
    }
    if let Some(p) = split_last(value, '/') {
        return Ok(p);
    }
    Err(concat3(
        "Invalid call shorthand '",
        value,
        "'. Use 'function.capability', 'function:capability', or 'function/capability'.",
    ))
}

impl<S> CallableRef<S> {
    /// The same reference under another validation state.
    pub(crate) fn retag<T>(self) -> (r: CallableRef<T>)
        ensures
            r.function@ == self.function@,
            r.capability@ == self.capability@,
    {
        CallableRef {
            function: self.function,
            capability: self.capability,
            _marker: std::marker::PhantomData,
        }
    }

    /// A copy of the reference.
    pub fn duplicate(&self) -> (r: CallableRef<S>)
        ensures
            r.function@ == self.function@,
            r.capability@ == self.capability@,
    {
        CallableRef {
            function: self.function.clone(),
            capability: self.capability.clone(),
            _marker: std::marker::PhantomData,
        }
    }
}

impl CallableRef<Invalid> {
    /// A reference to `function`'s `capability`, not yet checked against a host.
    pub fn new(function: String, capability: String) -> (r: Self)
        ensures
            r.function@ == function@,
            r.capability@ == capability@,
    {
        CallableRef { function, capability, _marker: std::marker::PhantomData }
    }

    /// The reference that the written fields denote: explicit `function` and `capability`
    /// fields, else the parts of the `call` shorthand, which must agree with them.
    pub fn try_from_de(raw: CallableRefDe) -> (r: Result<Self, String>)
        ensures
            match r {
                Ok(c) => raw.resolved() == Ok::<(Seq<char>, Seq<char>), Seq<char>>(
                    (c.function@, c.capability@),
                ),
                Err(e) => raw.resolved() == Err::<(Seq<char>, Seq<char>), Seq<char>>(e@),
            },
    {
        let parsed: Option<(String, String)> = match &raw.call {
            Some(c) => match parse_call_shorthand(c.as_str()) {
                Ok(p) => Some(p),
                Err(e) => return Err(e),
            },
            None => None,
        };
        let function = match raw.function {
            Some(f) => f,
            None => match &parsed {
                Some(p) => p.0.clone(),
                None => {
                    return Err(String::from_str(
                        "Missing function reference. Use 'function'/'plugin' or shorthand 'call'.",
                    ))
                },
            },
        };
        let capability = match raw.capability {
            Some(c) => c,
            None => match &parsed {
                Some(p) => p.1.clone(),
                None => {
                    return Err(
                        String::from_str("Missing capability. Use 'capability' or shorthand 'call'."),
                    )
                },
            },
        };
        if let Some(p) = &parsed {
            if !str_eq(p.0.as_str(), function.as_str()) || !str_eq(p.1.as_str(), capability.as_str()) {
                return Err(String::from_str(
                    "Conflicting invocation fields: 'call' must match explicit 'function' and 'capability'.",
                ));
            }
        }
        Ok(CallableRef { function, capability, _marker: std::marker::PhantomData })
    }
}

// ---------------------------------------------------------------------------
// The written forms
// ---------------------------------------------------------------------------

proof fn lemma_last_sep(f: Seq<char>, sep: char, c: Seq<char>, n: int)
    requires
        !c.contains(sep),
        f.len() < n <= f.len() + 1 + c.len(),
    ensures
        last_index_below(f + seq![sep] + c, sep, n) == Some(f.len() as int),
    decreases n,
{
    let s = f + seq![sep] + c;
    if n > f.len() + 1 {
        assert(s[n - 1] == c[n - 2 - f.len()]);
        if s[n - 1] == sep {
            assert(c.contains(sep));
        }
        lemma_last_sep(f, sep, c, n - 1);
    } else {
        assert(s[n - 1] == sep);
    }
}

proof fn lemma_no_sep(s: Seq<char>, sep: char, n: int)
    requires
        !s.contains(sep),
        n <= s.len(),
    ensures
        last_index_below(s, sep, n) is None,
    decreases n,
{
    if n > 0 {
        if s[n - 1] == sep {
            assert(s.contains(sep));
        }
        lemma_no_sep(s, sep, n - 1);
    }
}

proof fn lemma_split_joined(f: Seq<char>, sep: char, c: Seq<char>)
    requires
        f.len() > 0,
        c.len() > 0,
        !c.contains(sep),
    ensures
        split_at_last(f + seq![sep] + c, sep) == Some((f, c)),
{
    let s = f + seq![sep] + c;
    lemma_last_sep(f, sep, c, s.len() as int);
    assert(s.subrange(0, f.len() as int) =~= f);
    assert(s.subrange(f.len() + 1int, s.len() as int) =~= c);
}

proof fn lemma_no_split(f: Seq<char>, sep: char, c: Seq<char>, other: char)
    requires
        !f.contains(sep),
        !c.contains(sep),
        other != sep,
    ensures
        split_at_last(f + seq![other] + c, sep) is None,
{
    let s = f + seq![other] + c;
    if s.contains(sep) {
        let i = choose|i: int| 0 <= i < s.len() && s[i] == sep;
        if i < f.len() {
            assert(f[i] == sep);
        } else if i > f.len() {
            assert(c[i - f.len() - 1] == sep);
        }
        assert(false);
    }
    lemma_no_sep(s, sep, s.len() as int);
}

/// The shorthand `function.capability` denotes the same reference as the explicit
/// `function` and `capability` fields, alone or beside them, whenever the capability
/// holds no `.`.
pub proof fn law_dot_shorthand_equals_explicit_fields(function: Seq<char>, capability: Seq<char>)
    requires
        function.len() > 0,
        capability.len() > 0,
        !capability.contains('.'),
    ensures
        resolve_fields(Some(function + seq!['.'] + capability), None, None) == Ok::<
            (Seq<char>, Seq<char>),
            Seq<char>,
        >((function, capability)),
        resolve_fields(None, Some(function), Some(capability)) == Ok::<
            (Seq<char>, Seq<char>),
            Seq<char>,
        >((function, capability)),
        resolve_fields(Some(function + seq!['.'] + capability), Some(function), Some(capability))
            == Ok::<(Seq<char>, Seq<char>), Seq<char>>((function, capability)),
{
    lemma_split_joined(function, '.', capability);
}

/// The shorthands `function:capability` and `function/capability` denote the same
/// reference as the explicit fields, whenever neither part holds a separator that is
/// tried before (`.` before `:` before `/`) and the capability holds none of its own.
pub proof fn law_other_shorthands_equal_explicit_fields(function: Seq<char>, capability: Seq<char>)
    requires
        function.len() > 0,
        capability.len() > 0,
        !function.contains('.'),
        !capability.contains('.'),
    ensures
        !capability.contains(':') ==> resolve_fields(
            Some(function + seq![':'] + capability),
            None,
            None,
        ) == Ok::<(Seq<char>, Seq<char>), Seq<char>>((function, capability)),
        !function.contains(':') && !capability.contains(':') && !capability.contains('/')
            ==> resolve_fields(Some(function + seq!['/'] + capability), None, None) == Ok::<
            (Seq<char>, Seq<char>),
            Seq<char>,
        >((function, capability)),
{
    lemma_no_split(function, '.', capability, ':');
    lemma_no_split(function, '.', capability, '/');
    if !capability.contains(':') {
        lemma_split_joined(function, ':', capability);
    }
    if !function.contains(':') && !capability.contains(':') && !capability.contains('/') {
        lemma_no_split(function, ':', capability, '/');
        lemma_split_joined(function, '/', capability);
    }
}

/// Where `call` stands beside explicit fields, the reference is accepted only when the
/// shorthand reads as exactly those fields.
pub proof fn law_shorthand_must_agree(call: Seq<char>, function: Seq<char>, capability: Seq<char>)
    ensures
        resolve_fields(Some(call), Some(function), Some(capability)) is Ok <==> parse_call(call)
            == Ok::<(Seq<char>, Seq<char>), Seq<char>>((function, capability)),
{
}

} // verus!
