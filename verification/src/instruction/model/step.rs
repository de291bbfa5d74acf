//! A single step of an instruction pipeline.
use vstd::prelude::*;

use crate::bindings::{clone_opt_string, opt_view};
use crate::instruction::types::{Invalid, Valid};
use crate::PluginHost;

use super::condition::{Condition, ConditionDe, ConditionView, condition_from_de};
use super::invocation::{
    Invocation, InvocationDe, InvocationView, invocation_check, invocation_from_de,
};

verus! {

/// A single step in an instruction pipeline: an optional condition, the invocation to
/// run, follow-up steps, and the name under which to store the result.
pub struct Step<S> {
    /// Optional condition. If present and false, this step is skipped.
    pub condition: Option<Condition<S>>,
    /// The next steps to execute, if this step is successful.
    pub next: Option<Vec<Step<S>>>,
    /// The invocation to execute.
    pub call: Invocation<S>,
    /// Optional variable name under which the result's JSON bytes are stored, for
    /// `${name}` interpolation by later steps and for plugins.
    pub store_as: Option<String>,
}

/// The model of a [`Step`].
pub struct StepView {
    pub condition: Option<ConditionView>,
    pub next: Option<Seq<StepView>>,
    pub call: InvocationView,
    pub store_as: Option<Seq<char>>,
}

pub open spec fn step_view<S>(s: Step<S>) -> StepView
    decreases s,
{
    StepView {
        condition: match s.condition {
            Some(c) => Some(c@),
            None => None,
        },
        next: match s.next {
            Some(v) => Some(steps_view(v@)),
            None => None,
        },
        call: s.call@,
        store_as: opt_view(s.store_as),
    }
}

pub open spec fn steps_view<S>(s: Seq<Step<S>>) -> Seq<StepView>
    decreases s,
{
    if s.len() == 0 {
        Seq::empty()
    } else {
        seq![step_view(s[0])] + steps_view(s.subrange(1, s.len() as int))
    }
}

impl<S> View for Step<S> {
    type V = StepView;

    open spec fn view(&self) -> StepView {
        step_view(*self)
    }
}

pub proof fn lemma_steps_view<S>(s: Seq<Step<S>>)
    ensures
        steps_view(s).len() == s.len(),
        forall|i: int| 0 <= i < s.len() ==> #[trigger] steps_view(s)[i] == step_view(s[i]),
    decreases s.len(),
{
    if s.len() > 0 {
        lemma_steps_view(s.subrange(1, s.len() as int));
    }
}

pub proof fn lemma_steps_view_push<S>(s: Seq<Step<S>>, x: Step<S>)
    ensures
        steps_view(s.push(x)) == steps_view(s).push(step_view(x)),
{
    lemma_steps_view(s);
    lemma_steps_view(s.push(x));
    assert(steps_view(s.push(x)) =~= steps_view(s).push(step_view(x)));
}

/// The fields of a step as they were written.
pub struct StepDe {
    pub call: InvocationDe,
    pub condition: Option<ConditionDe>,
    pub next: Option<Vec<StepDe>>,
    pub store_as: Option<String>,
}

/// The step that the written fields denote, or why they denote none: the invocation is
/// read first, then the condition, then the follow-up steps in order.
pub open spec fn step_from_de(d: StepDe) -> Result<StepView, Seq<char>>
    decreases d,
{
    match invocation_from_de(d.call) {
        Err(e) => Err(e),
        Ok(call) => {
            let condition: Result<Option<ConditionView>, Seq<char>> = match d.condition {
                Some(c) => match condition_from_de(c) {
                    Ok(c) => Ok(Some(c)),
                    Err(e) => Err(e),
                },
                None => Ok(None),
            };
            match condition {
                Err(e) => Err(e),
                Ok(condition) => {
                    let next: Result<Option<Seq<StepView>>, Seq<char>> = match d.next {
                        Some(v) => match steps_from_de(v@) {
                            Ok(v) => Ok(Some(v)),
                            Err(e) => Err(e),
                        },
                        None => Ok(None),
                    };
                    match next {
                        Err(e) => Err(e),
                        Ok(next) => Ok(
                            StepView { condition, next, call, store_as: opt_view(d.store_as) },
                        ),
                    }
                },
            }
        },
    }
}

pub open spec fn steps_from_de(s: Seq<StepDe>) -> Result<Seq<StepView>, Seq<char>>
    decreases s,
{
    if s.len() == 0 {
        Ok(Seq::empty())
    } else {
        match steps_from_de(s.drop_last()) {
            Err(e) => Err(e),
            Ok(out) => match step_from_de(s.last()) {
                Err(e) => Err(e),
                Ok(v) => Ok(out.push(v)),
            },
        }
    }
}

pub proof fn lemma_steps_from_de_prefix_err(s: Seq<StepDe>, k: int)
    requires
        0 <= k <= s.len(),
        steps_from_de(s.subrange(0, k)) is Err,
    ensures
        steps_from_de(s) == steps_from_de(s.subrange(0, k)),
    decreases s.len() - k,
{
    if k < s.len() {
        assert(s.subrange(0, k + 1).drop_last() =~= s.subrange(0, k));
        lemma_steps_from_de_prefix_err(s, k + 1);
    } else {
        assert(s.subrange(0, k) =~= s);
    }
}

/// Whether every target that a step names (its condition's, its own, and those of its
/// follow-up steps, in that order) is known to the host, and if not, the first that is not.
pub open spec fn step_check(s: StepView, host: PluginHost) -> Result<(), Seq<char>>
    decreases s,
{
    let cond: Result<(), Seq<char>> = match s.condition {
        Some(c) => invocation_check(c.call, host),
        None => Ok(()),
    };
    match cond {
        Err(e) => Err(e),
        Ok(_) => match invocation_check(s.call, host) {
            Err(e) => Err(e),
            Ok(_) => match s.next {
                Some(v) => steps_check(v, host),
                None => Ok(()),
            },
        },
    }
}

pub open spec fn steps_check(s: Seq<StepView>, host: PluginHost) -> Result<(), Seq<char>>
    decreases s,
{
    if s.len() == 0 {
        Ok(())
    } else {
        match steps_check(s.drop_last(), host) {
            Err(e) => Err(e),
            Ok(_) => step_check(s.last(), host),
        }
    }
}

pub proof fn lemma_steps_check_prefix_err(s: Seq<StepView>, k: int, host: PluginHost)
    requires
        0 <= k <= s.len(),
        steps_check(s.subrange(0, k), host) is Err,
    ensures
        steps_check(s, host) == steps_check(s.subrange(0, k), host),
    decreases s.len() - k,
{
    if k < s.len() {
        assert(s.subrange(0, k + 1).drop_last() =~= s.subrange(0, k));
        lemma_steps_check_prefix_err(s, k + 1, host);
    } else {
        assert(s.subrange(0, k) =~= s);
    }
}

impl Step<Invalid> {
    /// The step that the written fields denote.
    #[verifier::loop_isolation(false)]
    pub fn try_from_de(raw: &StepDe) -> (r: Result<Self, String>)
        ensures
            match r {
                Ok(s) => step_from_de(*raw) == Ok::<StepView, Seq<char>>(s@),
                Err(e) => step_from_de(*raw) == Err::<StepView, Seq<char>>(e@),
            },
        decreases raw,
    {
        let call = match Invocation::try_from_de(&raw.call) {
            Ok(c) => c,
            Err(e) => return Err(e),
        };
        let condition = match &raw.condition {
            Some(c) => match Condition::try_from_de(c) {
                Ok(c) => Some(c),
                Err(e) => return Err(e),
            },
            None => None,
        };
        let next = match &raw.next {
            Some(v) => {
                let mut out: Vec<Step<Invalid>> = Vec::new();
                let mut i: usize = 0;
                while i < v.len()
                    invariant
                        i <= v@.len(),
                        steps_from_de(v@.subrange(0, i as int)) == Ok::<Seq<StepView>, Seq<char>>(
                            steps_view(out@),
                        ),
                    decreases v@.len() - i,
                {
                    proof {
                        assert(decreases_to!(*raw => raw.next));
                        assert(decreases_to!(raw.next => *v));
                        assert(decreases_to!(*v => v@));
                        assert(decreases_to!(v@ => v@[i as int]));
                    }
                    let ghost prefix = v@.subrange(0, i + 1);
                    assert(prefix.drop_last() =~= v@.subrange(0, i as int));
                    let s = match Step::try_from_de(&v[i]) {
                        Ok(s) => s,
                        Err(e) => {
                            proof {
                                lemma_steps_from_de_prefix_err(v@, i + 1);
                            }
                            return Err(e);
                        },
                    };
                    proof {
                        lemma_steps_view_push(out@, s);
                    }
                    out.push(s);
                    i = i + 1;
                }
                assert(v@.subrange(0, v@.len() as int) =~= v@);
                Some(out)
            },
            None => None,
        };
        Ok(Step { condition, next, call, store_as: clone_opt_string(&raw.store_as) })
    }
}

/// Each step of a list whose targets are all known has all its targets known.
pub proof fn lemma_steps_check_each(steps: Seq<StepView>, host: PluginHost)
    requires
        steps_check(steps, host) is Ok,
    ensures
        forall|i: int| 0 <= i < steps.len() ==> (#[trigger] step_check(steps[i], host)) is Ok,
    decreases steps.len(),
{
    if steps.len() > 0 {
        lemma_steps_check_each(steps.drop_last(), host);
        assert forall|i: int| 0 <= i < steps.len() implies (#[trigger] step_check(steps[i], host)) is Ok by {
            if i < steps.len() - 1 {
                assert(steps.drop_last()[i] == steps[i]);
            }
        }
    }
}

impl<S> Step<S> {
    /// Whether every target that the step names (its condition's, its own, and those of
    /// its follow-up steps) is known to the host.
    #[verifier::loop_isolation(false)]
    pub fn targets_resolve(&self, host: &PluginHost) -> (r: bool)
        ensures
            r == (step_check(self@, *host) is Ok),
        decreases self,
    {
        if let Some(c) = &self.condition {
            if host.resolve_callable(c.function()).is_none() {
                return false;
            }
        }
        if host.resolve_callable(self.call.function()).is_none() {
            return false;
        }
        match &self.next {
            Some(v) => {
                let mut i: usize = 0;
                proof {
                    lemma_steps_view(v@);
                }
                while i < v.len()
                    invariant
                        i <= v@.len(),
                        steps_check(steps_view(v@).subrange(0, i as int), *host) is Ok,
                    decreases v@.len() - i,
                {
                    proof {
                        assert(decreases_to!(*self => self.next));
                        assert(decreases_to!(self.next => *v));
                        assert(decreases_to!(*v => v@));
                        assert(decreases_to!(v@ => v@[i as int]));
                    }
                    let ghost prefix = steps_view(v@).subrange(0, i + 1);
                    assert(prefix.drop_last() =~= steps_view(v@).subrange(0, i as int));
                    assert(prefix.last() == step_view(v@[i as int]));
                    if !v[i].targets_resolve(host) {
                        proof {
                            lemma_steps_check_prefix_err(steps_view(v@), i + 1, *host);
                        }
                        return false;
                    }
                    i = i + 1;
                }
                assert(steps_view(v@).subrange(0, v@.len() as int) =~= steps_view(v@));
                true
            },
            None => true,
        }
    }

    /// A step that runs `call` unconditionally, with no follow-up steps and no stored result.
    pub fn unconditional(call: Invocation<S>) -> (r: Step<S>)
        ensures
            r@ == (StepView { condition: None, next: None, call: call@, store_as: None }),
    {
        Step { condition: None, next: None, call, store_as: None }
    }
}

impl Step<Invalid> {
    /// A checked copy of the step.
    #[verifier::loop_isolation(false)]
    fn validate_ref(&self, host: &PluginHost) -> (r: Result<Step<Valid>, String>)
        ensures
            match r {
                Ok(v) => step_check(self@, *host) == Ok::<(), Seq<char>>(()) && v@ == self@,
                Err(e) => step_check(self@, *host) == Err::<(), Seq<char>>(e@),
            },
        decreases self,
    {
        let condition = match &self.condition {
            Some(c) => match c.duplicate().validate(host) {
                Ok(c) => Some(c),
                Err(e) => return Err(e),
            },
            None => None,
        };
        let call = match self.call.duplicate().validate(host) {
            Ok(c) => c,
            Err(e) => return Err(e),
        };
        let next = match &self.next {
            Some(v) => {
                let mut out: Vec<Step<Valid>> = Vec::new();
                let mut i: usize = 0;
                proof {
                    lemma_steps_view(v@);
                }
                while i < v.len()
                    invariant
                        i <= v@.len(),
                        steps_check(steps_view(v@).subrange(0, i as int), *host) == Ok::<
                            (),
                            Seq<char>,
                        >(()),
                        steps_view(out@) == steps_view(v@).subrange(0, i as int),
                    decreases v@.len() - i,
                {
                    proof {
                        assert(decreases_to!(*self => self.next));
                        assert(decreases_to!(self.next => *v));
                        assert(decreases_to!(*v => v@));
                        assert(decreases_to!(v@ => v@[i as int]));
                    }
                    let ghost prefix = steps_view(v@).subrange(0, i + 1);
                    assert(prefix.drop_last() =~= steps_view(v@).subrange(0, i as int));
                    assert(prefix.last() == step_view(v@[i as int]));
                    let s = match v[i].validate_ref(host) {
                        Ok(s) => s,
                        Err(e) => {
                            proof {
                                lemma_steps_check_prefix_err(steps_view(v@), i + 1, *host);
                            }
                            return Err(e);
                        },
                    };
                    proof {
                        lemma_steps_view_push(out@, s);
                    }
                    out.push(s);
                    i = i + 1;
                }
                assert(steps_view(v@).subrange(0, v@.len() as int) =~= steps_view(v@));
                Some(out)
            },
            None => None,
        };
        Ok(Step { condition, next, call, store_as: clone_opt_string(&self.store_as) })
    }

    /// The same step, checked: every target it names, in its condition, its invocation
    /// and its follow-up steps, is known to the host.
    pub fn validate(self, host: &PluginHost) -> (r: Result<Step<Valid>, String>)
        ensures
            match r {
                Ok(v) => step_check(self@, *host) == Ok::<(), Seq<char>>(()) && v@ == self@,
                Err(e) => step_check(self@, *host) == Err::<(), Seq<char>>(e@),
            },
    {
        self.validate_ref(host)
    }
}

} // verus!
