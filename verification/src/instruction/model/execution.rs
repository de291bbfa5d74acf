//! Running a checked instruction, one capability call at a time.
//!
//! The caller makes the calls: [`Instruction::start`] and [`Execution::resume`] say
//! which call comes next, and the caller hands back what that call returned.
use vstd::prelude::*;
use vstd::string::StringExecFns;
use vstd::utf8::{decode_first_scalar, decode_utf8, pop_first_scalar, valid_utf8};

use crate::instruction::types::Valid;
use crate::json::{Json, JsonValue, json_null_bytes, null_bytes};
use crate::text::concat2;
use crate::{CallableTargetView, PluginHost};

use super::condition::{ConditionView, condition_outcome};
use super::interpolation::{bytes_to_json, check_name, interp_str, is_name_char};
use super::instruction::Instruction;
use super::invocation::{InvocationView, Request, outcome_view, request_args, result_bytes};
use super::step::{Step, StepView, lemma_steps_check_each, lemma_steps_check_prefix_err, lemma_steps_view, step_check, steps_check, steps_view};
use super::invocation::invocation_check;
use crate::text::{first_index_from, first_pair_from};

verus! {

/// The text of the error that `String::from_utf8` reports for bytes that are not UTF-8.
pub uninterp spec fn utf8_error_text(bytes: Seq<u8>) -> Seq<char>;

/// Calls `String::from_utf8`: the string that the bytes encode, or the text of the error
/// when they are not UTF-8.
#[verifier::external_body]
fn string_from_utf8(bytes: Vec<u8>) -> (r: Result<String, String>)
    ensures
        match r {
            Ok(s) => valid_utf8(bytes@) && s@ == decode_utf8(bytes@),
            Err(e) => !valid_utf8(bytes@) && e@ == utf8_error_text(bytes@),
        },
{
    String::from_utf8(bytes).map_err(|e| e.to_string())
}

/// The final result of an instruction, given the bytes of the last result.
pub open spec fn finish_result(last: Seq<u8>) -> Result<Seq<char>, Seq<char>> {
    if valid_utf8(last) {
        Ok(decode_utf8(last))
    } else {
        Err("Result is not valid UTF-8 JSON: "@ + utf8_error_text(last))
    }
}

/// What an execution waits for.
pub enum Phase {
    /// The result of the current step's condition.
    Condition,
    /// The result of the current step's invocation.
    Call,
    /// Nothing: the execution is over.
    Finished,
}

/// What the caller is to do next.
pub enum Action {
    /// Make this call and hand its result to [`Execution::resume`].
    Invoke(Request),
    /// The instruction is over, with this result.
    Done(Result<String, String>),
}

/// The model of an [`Action`].
pub enum ActionView {
    Invoke {
        function: Seq<char>,
        capability: Seq<char>,
        target: CallableTargetView,
        args: Json,
    },
    Done(Result<Seq<char>, Seq<char>>),
}

impl View for Action {
    type V = ActionView;

    open spec fn view(&self) -> ActionView {
        match self {
            Action::Invoke(req) => ActionView::Invoke {
                function: req.function@,
                capability: req.capability@,
                target: req.target@,
                args: req.args@,
            },
            Action::Done(Ok(s)) => ActionView::Done(Ok(s@)),
            Action::Done(Err(e)) => ActionView::Done(Err(e@)),
        }
    }
}

/// A list of steps being run, with the position of the step at hand.
pub type FrameView = (Seq<StepView>, int);

/// Where an execution stands, and the action that goes with it.
pub struct Stage {
    pub frames: Seq<FrameView>,
    pub phase: Phase,
    pub action: ActionView,
}

/// The request for an invocation, or the error that ends the execution.
pub open spec fn invoke_stage(
    inv: InvocationView,
    host: PluginHost,
    frames: Seq<FrameView>,
    phase: Phase,
) -> Stage {
    match request_args(inv, host.store()) {
        Ok(args) => Stage {
            frames,
            phase,
            action: ActionView::Invoke {
                function: inv.function,
                capability: inv.capability,
                target: host.resolve_spec(inv.function).unwrap(),
                args,
            },
        },
        Err(e) => Stage { frames, phase: Phase::Finished, action: ActionView::Done(Err(e)) },
    }
}

/// Entering the step at hand. A list whose steps are all done hands back to the list it
/// was entered from; once no list is left, the run ends with the last result. A step
/// with a condition first invokes the condition; any other step invokes its call.
pub open spec fn enter_stage(frames: Seq<FrameView>, host: PluginHost, last: Seq<u8>) -> Stage
    decreases frames.len(),
{
    if frames.len() == 0 {
        Stage { frames, phase: Phase::Finished, action: ActionView::Done(finish_result(last)) }
    } else if frames.last().1 >= frames.last().0.len() {
        enter_stage(frames.drop_last(), host, last)
    } else {
        let step = frames.last().0[frames.last().1];
        match step.condition {
            Some(c) => invoke_stage(c.call, host, frames, Phase::Condition),
            None => invoke_stage(step.call, host, frames, Phase::Call),
        }
    }
}

/// The frames with the step at hand passed over.
pub open spec fn advance(frames: Seq<FrameView>) -> Seq<FrameView> {
    frames.drop_last().push((frames.last().0, frames.last().1 + 1))
}

/// The frames after the step at hand has run its call: past it in its list, and, where
/// it has follow-up steps, into the first of them; its siblings come after those.
pub open spec fn descend(frames: Seq<FrameView>, step: StepView) -> Seq<FrameView> {
    match step.next {
        Some(v) => advance(frames).push((v, 0)),
        None => advance(frames),
    }
}

/// The store after a step's result is kept: always under `last`, and under the step's
/// `store_as` name when it has one.
pub open spec fn keep_result(
    store: Map<Seq<char>, Seq<u8>>,
    store_as: Option<Seq<char>>,
    bytes: Seq<u8>,
) -> Map<Seq<char>, Seq<u8>> {
    let with_last = store.insert("last"@, bytes);
    match store_as {
        Some(name) => with_last.insert(name, bytes),
        None => with_last,
    }
}

/// Every target that the steps run (conditions, calls and follow-up steps, at any depth)
/// is known to the host.
pub open spec fn steps_resolvable(steps: Seq<StepView>, host: PluginHost) -> bool {
    steps_check(steps, host) is Ok
}

/// Every list that a run has entered can run on the host.
pub open spec fn frames_resolvable(frames: Seq<FrameView>, host: PluginHost) -> bool {
    forall|i: int| 0 <= i < frames.len() ==> steps_resolvable(#[trigger] frames[i].0, host)
}

/// The model of a run's lists of steps.
pub open spec fn frames_view(v: Seq<(&Vec<Step<Valid>>, usize)>) -> Seq<FrameView> {
    v.map_values(|f: (&Vec<Step<Valid>>, usize)| (steps_view(f.0@), f.1 as int))
}

/// A run of a checked instruction in progress.
pub struct Execution<'a> {
    frames: Vec<(&'a Vec<Step<Valid>>, usize)>,
    phase: Phase,
    last_result: Vec<u8>,
}

/// The model of an [`Execution`]: the lists of steps entered, innermost last, each with
/// the position of its step at hand; what the run waits for; and the last result.
pub struct ExecutionView {
    pub frames: Seq<FrameView>,
    pub phase: Phase,
    pub last: Seq<u8>,
}

/// Whether the frames are positioned within their lists, and the phase matches the
/// step at hand.
pub open spec fn frames_wf(frames: Seq<FrameView>, phase: Phase) -> bool {
    &&& forall|i: int| 0 <= i < frames.len() ==> 0 <= #[trigger] frames[i].1 <= frames[i].0.len()
    &&& !(phase is Finished) ==> frames.len() > 0 && frames.last().1 < frames.last().0.len()
    &&& phase is Condition ==> frames.last().0[frames.last().1].condition is Some
}


impl<'a> View for Execution<'a> {
    type V = ExecutionView;

    closed spec fn view(&self) -> ExecutionView {
        ExecutionView {
            frames: frames_view(self.frames@),
            phase: self.phase,
            last: self.last_result@,
        }
    }
}

impl Instruction<Valid> {
    /// Whether every target that the steps run, at any depth, is known to the host.
    #[verifier::loop_isolation(false)]
    pub fn targets_resolve(&self, host: &PluginHost) -> (r: bool)
        ensures
            r == steps_resolvable(self@.steps, *host),
    {
        proof {
            lemma_steps_view(self.steps@);
        }
        let mut i: usize = 0;
        while i < self.steps.len()
            invariant
                i <= self.steps@.len(),
                steps_check(self@.steps.subrange(0, i as int), *host) is Ok,
            decreases self.steps@.len() - i,
        {
            let ghost prefix = self@.steps.subrange(0, i + 1);
            assert(prefix.drop_last() =~= self@.steps.subrange(0, i as int));
            assert(prefix.last() == self.steps@[i as int]@);
            if !self.steps[i].targets_resolve(host) {
                proof {
                    lemma_steps_check_prefix_err(self@.steps, i + 1, *host);
                }
                return false;
            }
            i = i + 1;
        }
        assert(self@.steps.subrange(0, self@.steps.len() as int) =~= self@.steps);
        true
    }

    /// Starts running the instruction: the first action, and the execution that the
    /// caller resumes with each call's result.
    pub fn start<'a>(&'a self, host: &PluginHost) -> (r: (Execution<'a>, Action))
        requires
            steps_resolvable(self@.steps, *host),
        ensures
            r.0.wf(),
            r.0@.last == null_bytes(),
            frames_resolvable(r.0@.frames, *host),
            ({
                let stage = enter_stage(seq![(self@.steps, 0int)], *host, null_bytes());
                &&& r.0@.frames == stage.frames
                &&& r.0@.phase == stage.phase
                &&& r.1@ == stage.action
            }),
    {
        let mut frames: Vec<(&'a Vec<Step<Valid>>, usize)> = Vec::new();
        frames.push((&self.steps, 0));
        assert(frames_view(frames@) =~= seq![(self@.steps, 0int)]);
        let mut exec = Execution { frames, phase: Phase::Finished, last_result: json_null_bytes() };
        let action = exec.enter(host);
        (exec, action)
    }
}

impl<'a> Execution<'a> {
    /// Whether the lists entered are positioned within their steps and the phase matches
    /// the step at hand.
    pub open spec fn wf(&self) -> bool {
        frames_wf(self@.frames, self@.phase)
    }

    /// Whether the execution waits for a result.
    pub open spec fn awaiting(&self) -> bool {
        !(self@.phase is Finished)
    }

    /// Whether the execution is over.
    pub fn is_finished(&self) -> (r: bool)
        ensures
            r == !self.awaiting(),
    {
        match self.phase {
            Phase::Finished => true,
            _ => false,
        }
    }

    /// Prepares an invocation of the step at hand; an error ends the execution.
    fn invoke(&mut self, inv: &super::invocation::Invocation<Valid>, host: &PluginHost, phase: Phase) -> (r: Action)
        requires
            host.resolvable(inv@.function),
            frames_wf(old(self)@.frames, phase),
        ensures
            final(self).wf(),
            final(self)@.frames == old(self)@.frames,
            final(self)@.last == old(self)@.last,
            ({
                let stage = invoke_stage(inv@, *host, old(self)@.frames, phase);
                &&& final(self)@.phase == stage.phase
                &&& r@ == stage.action
            }),
    {
        match inv.prepare(host) {
            Ok(req) => {
                self.phase = phase;
                Action::Invoke(req)
            },
            Err(e) => {
                self.phase = Phase::Finished;
                Action::Done(Err(e))
            },
        }
    }

    /// Enters the step at hand, leaving lists whose steps are all done.
    fn enter(&mut self, host: &PluginHost) -> (r: Action)
        requires
            old(self).wf(),
            frames_resolvable(old(self)@.frames, *host),
            old(self)@.phase is Finished,
        ensures
            final(self).wf(),
            final(self)@.last == old(self)@.last,
            frames_resolvable(final(self)@.frames, *host),
            ({
                let stage = enter_stage(old(self)@.frames, *host, old(self)@.last);
                &&& final(self)@.frames == stage.frames
                &&& final(self)@.phase == stage.phase
                &&& r@ == stage.action
            }),
    {
        loop
            invariant
                self.wf(),
                frames_resolvable(self@.frames, *host),
                self@.phase is Finished,
                self@.last == old(self)@.last,
                enter_stage(self@.frames, *host, self@.last) == enter_stage(
                    old(self)@.frames,
                    *host,
                    old(self)@.last,
                ),
            decreases self.frames@.len(),
        {
            let n = self.frames.len();
            if n == 0 {
                let bytes = self.last_result.clone();
                assert(bytes@ == self.last_result@);
                return match string_from_utf8(bytes) {
                    Ok(s) => Action::Done(Ok(s)),
                    Err(e) => Action::Done(Err(concat2("Result is not valid UTF-8 JSON: ", e.as_str()))),
                };
            }
            let (steps, index) = self.frames[n - 1];
            let ghost fv = self@.frames;
            assert(fv.last() == (steps_view(steps@), index as int));
            proof {
                lemma_steps_view(steps@);
            }
            if index >= steps.len() {
                let _ = self.frames.pop();
                assert(self@.frames =~= fv.drop_last());
            } else {
                let step = &steps[index];
                assert(fv.last().0[index as int] == step@);
                assert(steps_resolvable(fv.last().0, *host));
                proof {
                    lemma_steps_check_each(fv.last().0, *host);
                    assert(step_check(step@, *host) is Ok);
                }
                return match &step.condition {
                    Some(c) => {
                        assert(invocation_check(c@.call, *host) is Ok);
                        self.invoke(&c.call, host, Phase::Condition)
                    },
                    None => {
                        assert(invocation_check(step@.call, *host) is Ok);
                        self.invoke(&step.call, host, Phase::Call)
                    },
                };
            }
        }
    }

    /// Takes the result of the call that the last action asked for and returns the next
    /// action.
    ///
    /// After a condition: an error ends the execution; a condition that does not hold
    /// skips the step, follow-up steps included; one that holds invokes the step's call.
    /// After a call: an error ends the execution; a result is serialized and kept in the
    /// host's store under `last` and under the step's `store_as` name, becomes the last
    /// result, and the step's follow-up steps are entered, then its next sibling.
    pub fn resume(&mut self, host: &mut PluginHost, outcome: Result<JsonValue, String>) -> (r: Action)
        requires
            old(self).wf(),
            old(self).awaiting(),
            frames_resolvable(old(self)@.frames, *old(host)),
        ensures
            final(self).wf(),
            final(host).plugin_map() == old(host).plugin_map(),
            final(host).native_map() == old(host).native_map(),
            frames_resolvable(final(self)@.frames, *final(host)),
            ({
                let frames = old(self)@.frames;
                let step = frames.last().0[frames.last().1];
                match old(self)@.phase {
                    Phase::Condition => {
                        &&& final(host).store() == old(host).store()
                        &&& final(self)@.last == old(self)@.last
                        &&& match condition_outcome(step.condition->Some_0, outcome_view(outcome)) {
                            Err(e) => final(self)@.phase is Finished && r@ == ActionView::Done(Err(e)),
                            Ok(false) => {
                                let stage = enter_stage(advance(frames), *old(host), old(self)@.last);
                                &&& final(self)@.frames == stage.frames
                                &&& final(self)@.phase == stage.phase
                                &&& r@ == stage.action
                            },
                            Ok(true) => {
                                let stage = invoke_stage(step.call, *old(host), frames, Phase::Call);
                                &&& final(self)@.frames == stage.frames
                                &&& final(self)@.phase == stage.phase
                                &&& r@ == stage.action
                            },
                        }
                    },
                    _ => match result_bytes(outcome_view(outcome)) {
                        Err(e) => {
                            &&& final(host).store() == old(host).store()
                            &&& final(self)@.last == old(self)@.last
                            &&& final(self)@.phase is Finished
                            &&& r@ == ActionView::Done(Err(e))
                        },
                        Ok(bytes) => {
                            let stage = enter_stage(descend(frames, step), *final(host), bytes);
                            &&& final(host).store() == keep_result(old(host).store(), step.store_as, bytes)
                            &&& final(self)@.last == bytes
                            &&& final(self)@.frames == stage.frames
                            &&& final(self)@.phase == stage.phase
                            &&& r@ == stage.action
                        },
                    },
                }
            }),
    {
        let ghost fv = self@.frames;
        let n = self.frames.len();
        let (steps, index) = self.frames[n - 1];
        assert(fv.last() == (steps_view(steps@), index as int));
        proof {
            lemma_steps_view(steps@);
            lemma_steps_check_each(fv.last().0, *host);
        }
        assert(fv.last().1 < fv.last().0.len());
        assert(index < steps.len());
        let step = &steps[index];
        assert(fv.last().0[index as int] == step@);
        assert(step_check(step@, *host) is Ok);
        match self.phase {
            Phase::Condition => {
                let c = match &step.condition {
                    Some(c) => c,
                    None => vstd::pervasive::unreached(),
                };
                match c.evaluate(outcome) {
                    Err(e) => {
                        self.phase = Phase::Finished;
                        Action::Done(Err(e))
                    },
                    Ok(false) => {
                        self.phase = Phase::Finished;
                        self.frames.set(n - 1, (steps, index + 1));
                        assert(self@.frames =~= advance(fv));
                        self.enter(host)
                    },
                    Ok(true) => {
                        assert(invocation_check(step@.call, *host) is Ok);
                        self.invoke(&step.call, host, Phase::Call)
                    },
                }
            },
            _ => {
                match step.call.execute(outcome) {
                    Err(e) => {
                        self.phase = Phase::Finished;
                        Action::Done(Err(e))
                    },
                    Ok(bytes) => {
                        self.last_result = bytes.clone();
                        assert(self.last_result@ == bytes@);
                        let ghost before = *host;
                        let _ = host.store_put(String::from_str("last"), bytes.clone());
                        if let Some(name) = &step.store_as {
                            let _ = host.store_put(name.clone(), bytes);
                        }
                        proof {
                            crate::lemma_same_targets(&before, &*host);
                            lemma_same_checks(fv, before, *host);
                        }
                        self.phase = Phase::Finished;
                        self.frames.set(n - 1, (steps, index + 1));
                        assert(self@.frames =~= advance(fv));
                        match &step.next {
                            Some(v) => {
                                self.frames.push((v, 0));
                                assert(self@.frames =~= descend(fv, step@));
                            },
                            None => {},
                        }
                        proof {
                            assert forall|i: int| 0 <= i < self@.frames.len() implies steps_resolvable(
                                #[trigger] self@.frames[i].0,
                                *host,
                            ) by {
                                if i < fv.len() {
                                    assert(self@.frames[i].0 == fv[i].0);
                                    assert(steps_resolvable(fv[i].0, before));
                                    assert(steps_check(fv[i].0, before) == steps_check(fv[i].0, *host));
                                } else {
                                    let v = step@.next->Some_0;
                                    assert(self@.frames[i].0 == v);
                                    assert(steps_check(v, before) is Ok);
                                    assert(steps_check(v, before) == steps_check(v, *host));
                                }
                            }
                        }
                        self.enter(host)
                    },
                }
            },
        }
    }
}

/// Whether a list of steps can run depends only on the host's plugins and native
/// functions, not on its store.
proof fn lemma_same_checks(frames: Seq<FrameView>, a: PluginHost, b: PluginHost)
    requires
        a.plugin_map() == b.plugin_map(),
        a.native_map() == b.native_map(),
    ensures
        forall|s: Seq<StepView>| #[trigger] steps_check(s, a) == steps_check(s, b),
{
    crate::lemma_same_targets(&a, &b);
    assert forall|s: Seq<StepView>| #[trigger] steps_check(s, a) == steps_check(s, b) by {
        lemma_steps_check_same(s, a, b);
    }
}

proof fn lemma_steps_check_same(s: Seq<StepView>, a: PluginHost, b: PluginHost)
    requires
        forall|n: Seq<char>| #[trigger] a.resolve_spec(n) == b.resolve_spec(n),
    ensures
        steps_check(s, a) == steps_check(s, b),
    decreases s,
{
    if s.len() > 0 {
        lemma_steps_check_same(s.drop_last(), a, b);
        lemma_step_check_same(s.last(), a, b);
    }
}

proof fn lemma_step_check_same(s: StepView, a: PluginHost, b: PluginHost)
    requires
        forall|n: Seq<char>| #[trigger] a.resolve_spec(n) == b.resolve_spec(n),
    ensures
        step_check(s, a) == step_check(s, b),
    decreases s,
{
    if let Some(v) = s.next {
        lemma_steps_check_same(v, a, b);
    }
}

// ---------------------------------------------------------------------------
// Properties of a run
// ---------------------------------------------------------------------------

/// In a checked list of steps every step can run: the targets of its condition and of
/// its call are known to the host, and so, checked in turn, are its follow-up steps.
pub proof fn law_checked_steps_resolve(steps: Seq<StepView>, host: PluginHost)
    requires
        steps_check(steps, host) is Ok,
    ensures
        steps_resolvable(steps, host),
        forall|i: int|
            0 <= i < steps.len() ==> host.resolvable(#[trigger] steps[i].call.function) && (
            steps[i].condition matches Some(c) ==> host.resolvable(c.call.function)) && (
            steps[i].next matches Some(v) ==> steps_resolvable(v, host)),
{
    lemma_steps_check_each(steps, host);
    assert forall|i: int| 0 <= i < steps.len() implies host.resolvable(
        #[trigger] steps[i].call.function,
    ) && (steps[i].condition matches Some(c) ==> host.resolvable(c.call.function)) && (
    steps[i].next matches Some(v) ==> steps_resolvable(v, host)) by {
        assert(step_check(steps[i], host) is Ok);
        assert(invocation_check(steps[i].call, host) is Ok);
        if let Some(c) = steps[i].condition {
            assert(invocation_check(c.call, host) is Ok);
        }
    }
}

/// After a step's call succeeds, its first follow-up step is the one entered next; the
/// step's next sibling is entered only once all its follow-up steps are done.
pub proof fn law_follow_up_steps_run_next(
    frames: Seq<FrameView>,
    step: StepView,
    host: PluginHost,
    last: Seq<u8>,
)
    requires
        frames.len() > 0,
        0 <= frames.last().1 < frames.last().0.len(),
        frames.last().0[frames.last().1] == step,
    ensures
        match step.next {
            Some(v) => v.len() > 0 ==> enter_stage(descend(frames, step), host, last) == match v[0].condition {
                Some(c) => invoke_stage(c.call, host, advance(frames).push((v, 0int)), Phase::Condition),
                None => invoke_stage(v[0].call, host, advance(frames).push((v, 0int)), Phase::Call),
            },
            None => true,
        },
        step.next matches Some(v) ==> descend(frames, step).drop_last() == advance(frames),
        step.next is None ==> descend(frames, step) == advance(frames),
        advance(frames).last() == (frames.last().0, frames.last().1 + 1),
{
    if let Some(v) = step.next {
        let d = descend(frames, step);
        assert(d.last() == (v, 0int));
        assert(d.drop_last() =~= advance(frames));
    }
}

/// Keeping a result stores it under `last` and under the step's `store_as` name, and
/// leaves every other name as it was.
pub proof fn law_kept_result(
    store: Map<Seq<char>, Seq<u8>>,
    store_as: Option<Seq<char>>,
    bytes: Seq<u8>,
)
    ensures
        keep_result(store, store_as, bytes).contains_key("last"@),
        keep_result(store, store_as, bytes)["last"@] == bytes,
        store_as matches Some(n) ==> keep_result(store, store_as, bytes).contains_key(n)
            && keep_result(store, store_as, bytes)[n] == bytes,
        forall|k: Seq<char>|
            k != "last"@ && store_as != Some(k) ==> (#[trigger] keep_result(
                store,
                store_as,
                bytes,
            ).contains_key(k) == store.contains_key(k) && keep_result(store, store_as, bytes)[k]
                == store[k]),
{
}

proof fn lemma_close_after_name(s: Seq<char>, name: Seq<char>, from: int)
    requires
        s == seq!['$', '{'] + name + seq!['}'],
        forall|i: int| 0 <= i < name.len() ==> is_name_char(#[trigger] name[i]),
        2 <= from <= 2 + name.len(),
    ensures
        first_index_from(s, '}', from) == Some(2 + name.len() as int),
    decreases 2 + name.len() - from,
{
    if from < 2 + name.len() {
        assert(s[from] == name[from - 2]);
        assert(is_name_char(name[from - 2]));
        lemma_close_after_name(s, name, from + 1);
    }
}

/// A stored result is what its placeholder reads: after a step's result is kept, the
/// string `${name}`, for `last` or for the step's `store_as` name, interpolates to that
/// result read as JSON.
pub proof fn law_kept_result_interpolates(
    store: Map<Seq<char>, Seq<u8>>,
    store_as: Option<Seq<char>>,
    bytes: Seq<u8>,
    name: Seq<char>,
)
    requires
        check_name(name) == Ok::<(), Seq<char>>(()),
        name == "last"@ || store_as == Some(name),
    ensures
        interp_str(seq!['$', '{'] + name + seq!['}'], 0, keep_result(store, store_as, bytes))
            == bytes_to_json(bytes),
{
    let s = seq!['$', '{'] + name + seq!['}'];
    let kept = keep_result(store, store_as, bytes);
    law_kept_result(store, store_as, bytes);
    assert(kept.contains_key(name) && kept[name] == bytes);
    assert(s[0] == '$' && s[1] == '{');
    assert(first_pair_from(s, '$', '{', 0) == Some(0int));
    lemma_close_after_name(s, name, 2);
    assert(s.subrange(2, 2 + name.len() as int) =~= name);
}

/// A condition that is negated holds exactly when the same condition without negation
/// does not; an error from the condition's call is passed on either way.
pub proof fn law_negation_flips_condition(c: ConditionView, outcome: Result<Json, Seq<char>>)
    ensures
        condition_outcome(ConditionView { negate: true, ..c }, outcome) == match condition_outcome(
            ConditionView { negate: false, ..c },
            outcome,
        ) {
            Ok(b) => Ok::<bool, Seq<char>>(!b),
            Err(e) => Err(e),
        },
{
}

/// With no list of steps left, a run ends with the last result as text; a run that kept
/// no result ends with `null`.
pub proof fn law_run_ends_with_last_result(host: PluginHost, last: Seq<u8>)
    ensures
        enter_stage(Seq::<FrameView>::empty(), host, last).action == ActionView::Done(
            finish_result(last),
        ),
        enter_stage(Seq::<FrameView>::empty(), host, last).phase is Finished,
        finish_result(null_bytes()) == Ok::<Seq<char>, Seq<char>>("null"@),
{
    lemma_null_bytes_decode();
}

proof fn lemma_ascii_byte_decodes(b: Seq<u8>, c: char)
    requires
        b.len() >= 1,
        b[0] < 0x80,
        b[0] as u32 == c as u32,
        valid_utf8(b.subrange(1, b.len() as int)),
    ensures
        valid_utf8(b),
        decode_utf8(b) == seq![c] + decode_utf8(b.subrange(1, b.len() as int)),
{
    let x = b[0];
    assert(x & 0x7f == x) by (bit_vector)
        requires
            x < 0x80,
    ;
    assert(decode_first_scalar(b) == x as u32);
    assert(pop_first_scalar(b) =~= b.subrange(1, b.len() as int));
    assert((x as u32) as char == c);
}

proof fn lemma_null_bytes_decode()
    ensures
        valid_utf8(null_bytes()),
        decode_utf8(null_bytes()) == "null"@,
{
    reveal_strlit("null");
    let b = null_bytes();
    let b1 = b.subrange(1, 4);
    let b2 = b.subrange(2, 4);
    let b3 = b.subrange(3, 4);
    let b4 = b.subrange(4, 4);
    assert(b4.len() == 0);
    assert(decode_utf8(b4) =~= Seq::<char>::empty());
    assert(b3.subrange(1, 1) =~= b4);
    lemma_ascii_byte_decodes(b3, 'l');
    assert(b2.subrange(1, 2) =~= b3);
    lemma_ascii_byte_decodes(b2, 'l');
    assert(b1.subrange(1, 3) =~= b2);
    lemma_ascii_byte_decodes(b1, 'u');
    assert(b.subrange(1, 4) =~= b1);
    lemma_ascii_byte_decodes(b, 'n');
    assert(decode_utf8(b) =~= "null"@);
}

} // verus!
