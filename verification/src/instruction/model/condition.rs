//! A condition that gates whether a step runs.
use vstd::prelude::*;

use crate::instruction::types::{Invalid, Valid};
use crate::json::{Json, JsonValue, truthy};
use crate::PluginHost;

use super::invocation::{
    Invocation, InvocationDe, InvocationView, invocation_check, invocation_from_de, outcome_view,
};

verus! {

/// A condition that gates whether a step executes: an invocation whose result is tested
/// for truth, optionally negated.
pub struct Condition<S> {
    pub call: Invocation<S>,
    /// If true, the condition's result is negated.
    pub negate: bool,
}

/// The model of a [`Condition`].
pub struct ConditionView {
    pub call: InvocationView,
    pub negate: bool,
}

impl<S> View for Condition<S> {
    type V = ConditionView;

    open spec fn view(&self) -> ConditionView {
        ConditionView { call: self.call@, negate: self.negate }
    }
}

/// The fields of a condition as they were written.
pub struct ConditionDe {
    pub call: InvocationDe,
    pub negate: bool,
}

/// The condition that the written fields denote, or why they denote none.
pub open spec fn condition_from_de(d: ConditionDe) -> Result<ConditionView, Seq<char>> {
    match invocation_from_de(d.call) {
        Ok(call) => Ok(ConditionView { call, negate: d.negate }),
        Err(e) => Err(e),
    }
}

/// Whether a condition holds, given what its invocation returned: the result's truth,
/// flipped when the condition is negated; an invocation error is passed on.
pub open spec fn condition_outcome(c: ConditionView, outcome: Result<Json, Seq<char>>) -> Result<
    bool,
    Seq<char>,
> {
    match outcome {
        Ok(v) => Ok(if c.negate {
            !truthy(v)
        } else {
            truthy(v)
        }),
        Err(e) => Err(e),
    }
}

/// A condition holds exactly when its call's result is neither `false` nor null (so a
/// number, a string, an array or an object makes it hold), and a negated one exactly
/// when the result is `false` or null; an error from the call is passed on.
pub proof fn law_condition_holds_unless_false_or_null(
    c: ConditionView,
    outcome: Result<Json, Seq<char>>,
)
    ensures
        match outcome {
            Ok(v) => condition_outcome(c, outcome) == Ok::<bool, Seq<char>>(
                (c.negate) == (v is Null || v == Json::Bool(false)),
            ),
            Err(e) => condition_outcome(c, outcome) == Err::<bool, Seq<char>>(e),
        },
{
}

impl<S> Condition<S> {
    /// The name of the target that the condition invokes.
    pub fn function(&self) -> (r: &str)
        ensures
            r@ == self@.call.function,
    {
        self.call.function()
    }

    /// The capability that the condition invokes.
    pub fn capability(&self) -> (r: &str)
        ensures
            r@ == self@.call.capability,
    {
        self.call.capability()
    }

    /// A copy of the condition.
    pub fn duplicate(&self) -> (r: Condition<S>)
        ensures
            r@ == self@,
    {
        Condition { call: self.call.duplicate(), negate: self.negate }
    }
}

impl Condition<Invalid> {
    /// The condition that the written fields denote.
    pub fn try_from_de(raw: &ConditionDe) -> (r: Result<Self, String>)
        ensures
            match r {
                Ok(c) => condition_from_de(*raw) == Ok::<ConditionView, Seq<char>>(c@),
                Err(e) => condition_from_de(*raw) == Err::<ConditionView, Seq<char>>(e@),
            },
    {
        match Invocation::try_from_de(&raw.call) {
            Ok(call) => Ok(Condition { call, negate: raw.negate }),
            Err(e) => Err(e),
        }
    }

    /// The same condition, checked against the host.
    pub fn validate(self, host: &PluginHost) -> (r: Result<Condition<Valid>, String>)
        ensures
            match r {
                Ok(v) => invocation_check(self@.call, *host) == Ok::<(), Seq<char>>(()) && v@
                    == self@,
                Err(e) => invocation_check(self@.call, *host) == Err::<(), Seq<char>>(e@),
            },
    {
        match self.call.validate(host) {
            Ok(call) => Ok(Condition { call, negate: self.negate }),
            Err(e) => Err(e),
        }
    }
}

impl Condition<Valid> {
    /// Whether the condition holds, given what its invocation returned.
    pub fn evaluate(&self, outcome: Result<JsonValue, String>) -> (r: Result<bool, String>)
        ensures
            match r {
                Ok(b) => condition_outcome(self@, outcome_view(outcome)) == Ok::<bool, Seq<char>>(b),
                Err(e) => condition_outcome(self@, outcome_view(outcome)) == Err::<bool, Seq<char>>(
                    e@,
                ),
            },
    {
        match outcome {
            Ok(v) => {
                let b = v.is_truthy();
                Ok(if self.negate {
                    !b
                } else {
                    b
                })
            },
            Err(e) => Err(e),
        }
    }
}

} // verus!
