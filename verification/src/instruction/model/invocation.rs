//! A single invocation of a capability of a loaded plugin or native function.
use vstd::prelude::*;

use crate::bindings::opt_view;
use crate::instruction::types::{Invalid, Valid};
use crate::json::{Json, JsonValue, clone_entries, entry_views};
use crate::text::concat2;
use crate::{CallableTarget, PluginHost};

use super::callable::{CallableRef, CallableRefDe, resolve_fields};
use super::interpolation::{interp_json, interpolate_json, json_to_bytes, json_to_bytes_spec};

verus! {

/// A single invocation of a capability exposed by a loaded or native function, with its
/// arguments.
pub struct Invocation<S> {
    pub callable: CallableRef<S>,
    /// Arguments passed to the capability.
    pub args: Vec<(String, JsonValue)>,
}

/// The model of an [`Invocation`].
pub struct InvocationView {
    pub function: Seq<char>,
    pub capability: Seq<char>,
    pub args: Seq<(Seq<char>, Json)>,
}

impl<S> View for Invocation<S> {
    type V = InvocationView;

    open spec fn view(&self) -> InvocationView {
        InvocationView {
            function: self.callable.function@,
            capability: self.callable.capability@,
            args: entry_views(self.args@),
        }
    }
}

/// The fields of an invocation as they were written: the callable fields and the rest,
/// which are the arguments.
pub struct InvocationDe {
    pub callable: CallableRefDe,
    pub args: Vec<(String, JsonValue)>,
}

/// The invocation that the written fields denote, or why they denote none.
pub open spec fn invocation_from_de(d: InvocationDe) -> Result<InvocationView, Seq<char>> {
    match d.callable.resolved() {
        Ok(p) => Ok(InvocationView { function: p.0, capability: p.1, args: entry_views(d.args@) }),
        Err(e) => Err(e),
    }
}

pub open spec fn no_target_message(function: Seq<char>) -> Seq<char> {
    "No loaded or native function found for invocation target: "@ + function
}

/// Whether the host can run the invocation, and if not, why.
pub open spec fn invocation_check(inv: InvocationView, host: PluginHost) -> Result<(), Seq<char>> {
    if host.resolvable(inv.function) {
        Ok(())
    } else {
        Err(no_target_message(inv.function))
    }
}

/// A capability call ready to be made: the target's name, what it resolved to, the
/// capability, and the arguments after interpolation.
pub struct Request {
    pub function: String,
    pub target: CallableTarget,
    pub capability: String,
    pub args: JsonValue,
}

/// What an invocation asks for once its arguments are interpolated against a store.
pub open spec fn request_args(inv: InvocationView, store: Map<Seq<char>, Seq<u8>>) -> Result<
    Json,
    Seq<char>,
> {
    interp_json(Json::Object(inv.args), store)
}

/// What a successful invocation's result is stored as, or why it cannot be.
pub open spec fn result_bytes(outcome: Result<Json, Seq<char>>) -> Result<Seq<u8>, Seq<char>> {
    match outcome {
        Ok(v) => json_to_bytes_spec(v),
        Err(e) => Err(e),
    }
}

/// The model of an invocation outcome.
pub open spec fn outcome_view(outcome: Result<JsonValue, String>) -> Result<Json, Seq<char>> {
    match outcome {
        Ok(v) => Ok(v@),
        Err(e) => Err(e@),
    }
}

impl<S> Invocation<S> {
    /// The name of the target.
    pub fn function(&self) -> (r: &str)
        ensures
            r@ == self@.function,
    {
        self.callable.function.as_str()
    }

    /// The capability to invoke.
    pub fn capability(&self) -> (r: &str)
        ensures
            r@ == self@.capability,
    {
        self.callable.capability.as_str()
    }

    /// A copy of the invocation.
    pub fn duplicate(&self) -> (r: Invocation<S>)
        ensures
            r@ == self@,
    {
        Invocation { callable: self.callable.duplicate(), args: clone_entries(&self.args) }
    }
}

impl Invocation<Invalid> {
    /// An invocation of `function`'s `capability` with the given arguments.
    pub fn new(function: String, capability: String, args: Vec<(String, JsonValue)>) -> (r: Self)
        ensures
            r@ == (InvocationView {
                function: function@,
                capability: capability@,
                args: entry_views(args@),
            }),
    {
        Invocation { callable: CallableRef::new(function, capability), args }
    }

    /// The invocation that the written fields denote.
    pub fn try_from_de(raw: &InvocationDe) -> (r: Result<Self, String>)
        ensures
            match r {
                Ok(inv) => invocation_from_de(*raw) == Ok::<InvocationView, Seq<char>>(inv@),
                Err(e) => invocation_from_de(*raw) == Err::<InvocationView, Seq<char>>(e@),
            },
    {
        let callable = CallableRef::try_from_de(raw.callable.clone());
        match callable {
            Ok(callable) => Ok(Invocation { callable, args: clone_entries(&raw.args) }),
            Err(e) => Err(e),
        }
    }

    /// The same invocation, checked: its target is a loaded plugin or a registered native
    /// function of the host.
    pub fn validate(self, host: &PluginHost) -> (r: Result<Invocation<Valid>, String>)
        ensures
            match r {
                Ok(v) => invocation_check(self@, *host) == Ok::<(), Seq<char>>(()) && v@ == self@,
                Err(e) => invocation_check(self@, *host) == Err::<(), Seq<char>>(e@),
            },
    {
        if host.resolve_callable(self.function()).is_none() {
            return Err(concat2(
                "No loaded or native function found for invocation target: ",
                self.function(),
            ));
        }
        Ok(Invocation { callable: self.callable.retag(), args: self.args })
    }
}

impl Invocation<Valid> {
    /// The call to make: the arguments interpolated against the host's stored results,
    /// and what the target's name resolves to.
    pub fn prepare(&self, host: &PluginHost) -> (r: Result<Request, String>)
        requires
            host.resolvable(self@.function),
        ensures
            match r {
                Ok(req) => request_args(self@, host.store()) == Ok::<Json, Seq<char>>(req.args@)
                    && req.function@ == self@.function && req.capability@ == self@.capability
                    && host.resolve_spec(self@.function) == Some(req.target@),
                Err(e) => request_args(self@, host.store()) == Err::<Json, Seq<char>>(e@),
            },
    {
        let args = JsonValue::Object(clone_entries(&self.args));
        let args = match interpolate_json(&args, host) {
            Ok(a) => a,
            Err(e) => return Err(e),
        };
        let target = match host.resolve_callable(self.function()) {
            Some(t) => t,
            None => {
                // Validation saw the target; the requirement keeps it there.
                return Err(String::new());
            },
        };
        Ok(Request {
            function: self.callable.function.clone(),
            target,
            capability: self.callable.capability.clone(),
            args,
        })
    }

    /// The bytes that an invocation result is stored as: the result serialized as JSON,
    /// or the error that the invocation ended with.
    pub fn execute(&self, outcome: Result<JsonValue, String>) -> (r: Result<Vec<u8>, String>)
        ensures
            match r {
                Ok(b) => result_bytes(outcome_view(outcome)) == Ok::<Seq<u8>, Seq<char>>(b@),
                Err(e) => result_bytes(outcome_view(outcome)) == Err::<Seq<u8>, Seq<char>>(e@),
            },
    {
        match outcome {
            Ok(v) => json_to_bytes(&v),
            Err(e) => Err(e),
        }
    }
}

} // verus!
