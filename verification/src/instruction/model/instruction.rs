//! A complete instruction: an ordered list of steps.
use vstd::prelude::*;

use crate::bindings::{clone_opt_string, opt_view};
use crate::instruction::types::{Invalid, Valid};
use crate::PluginHost;

use super::invocation::Invocation;
use super::step::{
    Step, StepDe, StepView, lemma_steps_check_prefix_err, lemma_steps_from_de_prefix_err,
    lemma_steps_view, lemma_steps_view_push, steps_check, steps_from_de, steps_view,
};

verus! {

/// A complete instruction: an optional name and an ordered list of steps.
pub struct Instruction<S> {
    /// Optional name for identification and logging.
    pub name: Option<String>,
    /// Ordered list of steps.
    pub steps: Vec<Step<S>>,
}

/// The model of an [`Instruction`].
pub struct InstructionView {
    pub name: Option<Seq<char>>,
    pub steps: Seq<StepView>,
}

impl<S> View for Instruction<S> {
    type V = InstructionView;

    open spec fn view(&self) -> InstructionView {
        InstructionView { name: opt_view(self.name), steps: steps_view(self.steps@) }
    }
}

/// The fields of an instruction as they were written.
pub struct InstructionDe {
    pub name: Option<String>,
    pub steps: Vec<StepDe>,
}

/// The instruction that the written fields denote, or why they denote none.
pub open spec fn instruction_from_de(d: InstructionDe) -> Result<InstructionView, Seq<char>> {
    match steps_from_de(d.steps@) {
        Ok(steps) => Ok(InstructionView { name: opt_view(d.name), steps }),
        Err(e) => Err(e),
    }
}

impl<S> Instruction<S> {
    /// An instruction with the given name and steps.
    pub fn new(name: Option<String>, steps: Vec<Step<S>>) -> (r: Self)
        ensures
            r@ == (InstructionView { name: opt_view(name), steps: steps_view(steps@) }),
    {
        Instruction { name, steps }
    }

    /// An unnamed instruction with a single unconditional step.
    pub fn single(call: Invocation<S>) -> (r: Self)
        ensures
            r@.name is None,
            r@.steps == seq![
                StepView { condition: None, next: None, call: call@, store_as: None },
            ],
    {
        let mut steps: Vec<Step<S>> = Vec::new();
        let step = Step::unconditional(call);
        proof {
            lemma_steps_view_push(steps@, step);
            assert(steps_view(steps@) =~= Seq::<StepView>::empty()) by {
                lemma_steps_view(steps@);
            }
        }
        steps.push(step);
        Instruction { name: None, steps }
    }
}

impl Instruction<Invalid> {
    /// The instruction that the written fields denote: its steps are read in order and
    /// the first one that cannot be read is reported.
    pub fn try_from_de(raw: &InstructionDe) -> (r: Result<Self, String>)
        ensures
            match r {
                Ok(i) => instruction_from_de(*raw) == Ok::<InstructionView, Seq<char>>(i@),
                Err(e) => instruction_from_de(*raw) == Err::<InstructionView, Seq<char>>(e@),
            },
    {
        let v = &raw.steps;
        let mut out: Vec<Step<Invalid>> = Vec::new();
        let mut i: usize = 0;
        while i < v.len()
            invariant
                *v == raw.steps,
                i <= v@.len(),
                steps_from_de(v@.subrange(0, i as int)) == Ok::<Seq<StepView>, Seq<char>>(
                    steps_view(out@),
                ),
            decreases v@.len() - i,
        {
            let ghost prefix = v@.subrange(0, i + 1);
            assert(prefix.drop_last() =~= v@.subrange(0, i as int));
            let s = match Step::try_from_de(&v[i]) {
                Ok(s) => s,
                Err(e) => {
                    proof {
                        lemma_steps_from_de_prefix_err(v@, i + 1);
                    }
                    return Err(e);
                },
            };
            proof {
                lemma_steps_view_push(out@, s);
            }
            out.push(s);
            i = i + 1;
        }
        assert(v@.subrange(0, v@.len() as int) =~= v@);
        Ok(Instruction { name: clone_opt_string(&raw.name), steps: out })
    }

    /// The same instruction, checked: every target that its steps name is known to the
    /// host; otherwise the first unknown target, in step order, is reported.
    pub fn validate(self, host: &PluginHost) -> (r: Result<Instruction<Valid>, String>)
        ensures
            match r {
                Ok(v) => steps_check(self@.steps, *host) == Ok::<(), Seq<char>>(()) && v@ == self@,
                Err(e) => steps_check(self@.steps, *host) == Err::<(), Seq<char>>(e@),
            },
    {
        let ghost all = steps_view(self.steps@);
        let mut rest = self.steps;
        let mut out: Vec<Step<Valid>> = Vec::new();
        let ghost mut k: int = 0;
        proof {
            lemma_steps_view(rest@);
        }
        while rest.len() > 0
            invariant
                all == steps_view(self.steps@),
                0 <= k <= all.len(),
                all.len() == k + rest@.len(),
                forall|j: int| 0 <= j < rest@.len() ==> #[trigger] step_view_at(rest@, j) == all[k + j],
                steps_view(out@) == all.subrange(0, k),
                steps_check(all.subrange(0, k), *host) == Ok::<(), Seq<char>>(()),
            decreases rest@.len(),
        {
            let ghost before = rest@;
            let s = rest.remove(0);
            assert(step_view_at(before, 0) == all[k]);
            let ghost prefix = all.subrange(0, k + 1);
            assert(prefix.drop_last() =~= all.subrange(0, k));
            assert(prefix.last() == s@);
            let v = match s.validate(host) {
                Ok(v) => v,
                Err(e) => {
                    proof {
                        lemma_steps_check_prefix_err(all, k + 1, *host);
                    }
                    return Err(e);
                },
            };
            proof {
                lemma_steps_view_push(out@, v);
                assert forall|j: int| 0 <= j < rest@.len() implies #[trigger] step_view_at(rest@, j)
                    == all[k + 1 + j] by {
                    assert(rest@[j] == before[j + 1]);
                    assert(step_view_at(before, j + 1) == all[k + j + 1]);
                }
                k = k + 1;
            }
            out.push(v);
        }
        assert(all.subrange(0, k) =~= all);
        Ok(Instruction { name: self.name, steps: out })
    }
}

/// The model of the `j`-th step of a list.
pub open spec fn step_view_at<S>(s: Seq<Step<S>>, j: int) -> StepView {
    s[j]@
}

} // verus!
