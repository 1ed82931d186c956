//! Plans of shell steps and the runner that walks them in order.
use vstd::prelude::*;
use vstd::string::StringExecFns;
use crate::error::{ExecutionError, error_message};
use crate::extract::{after_output, opt_view, parse_and_store_output};
use crate::facts::{FactTable, resolve, substitute_placeholders};
use crate::sanitize::{sanitize_command, sanitized};
use crate::setup::{Platform, platform_name};
use crate::text::{decimal, occurs_at, occurs_at_exec, push_decimal, str_eq};
use crate::tokenize::views;

verus! {

/// Relies on ollama_rs's `GenerationContext` only as an opaque value: the
/// model's conversation state, carried from one generation to the next and
/// never looked into.
#[verifier::external_type_specification]
#[verifier::external_body]
pub struct ExGenerationContext(ollama_rs::generation::completion::GenerationContext);

/// One step of a plan.
pub struct CommandStep {
    /// The 1-based number of the step.
    pub step: u32,
    /// Only `command` steps are run.
    pub action_type: String,
    /// The command template, with `{name}` placeholders.
    pub command: Option<String>,
    /// What the step is for, in words.
    pub purpose: Option<String>,
    pub payload: Option<String>,
    pub lhost: Option<String>,
    pub rhost: Option<String>,
    pub lport: Option<String>,
    pub rport: Option<String>,
    pub exitfunc: Option<String>,
    pub targeturi: Option<String>,
    /// Any other named options, in the order given.
    pub options: Vec<(String, String)>,
}

/// A plan: an optional explanation and the steps in order.
pub struct MultiStepResponse {
    pub explanation: Option<String>,
    pub steps: Vec<CommandStep>,
}

/// What one query carries from step to step: the transcript of executed
/// steps, the model's conversation state, and the discovered facts.
pub struct ExecutionContext {
    pub command_history: Vec<String>,
    pub model_context: Option<ollama_rs::generation::completion::GenerationContext>,
    pub discovered_values: FactTable,
}

impl ExecutionContext {
    /// A context with no history, no conversation state and no facts.
    pub fn new() -> (r: ExecutionContext)
        ensures
            r.command_history@.len() == 0,
            r.model_context is None,
            r.discovered_values@ == Map::<Seq<char>, Seq<char>>::empty(),
    {
        ExecutionContext {
            command_history: Vec::new(),
            model_context: None,
            discovered_values: FactTable::new(),
        }
    }
}

/// Whether the step is to be run as a command.
pub open spec fn is_command(st: CommandStep) -> bool {
    st.action_type@ == "command"@
}

/// Whether the step hands a command to the executor.
pub open spec fn runs(st: CommandStep) -> bool {
    is_command(st) && st.command is Some
}

/// `Step <n>`.
pub open spec fn step_label(st: CommandStep) -> Seq<char> {
    "Step "@ + decimal(st.step as nat)
}

/// The transcript entry of a step: its command, then what it gave.
pub open spec fn history_entry(st: CommandStep, command: Seq<char>, output: Seq<char>) -> Seq<char> {
    step_label(st) + ": "@ + command + " ->\n"@ + output
}

/// The report entry of a step.
pub open spec fn output_entry(st: CommandStep, output: Seq<char>) -> Seq<char> {
    "Output from "@ + step_label(st) + ":\n"@ + output
}

/// The report entry of a step that is passed over without running.
pub open spec fn skip_entry(st: CommandStep) -> Seq<char> {
    if is_command(st) {
        output_entry(st, "Skipped (No command)"@)
    } else {
        step_label(st) + ": Skipped (Action Type: "@ + st.action_type@ + ")"@
    }
}

/// The index of the first step from `i` on that runs a command.
pub open spec fn first_runnable(steps: Seq<CommandStep>, i: int) -> int
    decreases steps.len() - i,
{
    if i < 0 || i >= steps.len() {
        steps.len() as int
    } else if runs(steps[i]) {
        i
    } else {
        first_runnable(steps, i + 1)
    }
}

/// The report entries of the passed-over steps in `[i, k)`.
pub open spec fn skip_entries(steps: Seq<CommandStep>, i: int, k: int) -> Seq<Seq<char>>
    decreases k - i,
{
    if k <= i {
        seq![]
    } else {
        skip_entries(steps, i, k - 1).push(skip_entry(steps[k - 1]))
    }
}

/// The transcript entries of the passed-over steps in `[i, k)`: only command
/// steps without a template leave one.
pub open spec fn skip_history(steps: Seq<CommandStep>, i: int, k: int) -> Seq<Seq<char>>
    decreases k - i,
{
    if k <= i {
        seq![]
    } else if is_command(steps[k - 1]) {
        skip_history(steps, i, k - 1).push(
            history_entry(steps[k - 1], seq![], "Skipped (No command)"@),
        )
    } else {
        skip_history(steps, i, k - 1)
    }
}

/// The parts joined with `sep` between neighbours.
pub open spec fn join_with(parts: Seq<Seq<char>>, sep: Seq<char>) -> Seq<char>
    decreases parts.len(),
{
    if parts.len() == 0 {
        seq![]
    } else if parts.len() == 1 {
        parts[0]
    } else {
        join_with(parts.drop_last(), sep) + sep + parts.last()
    }
}

/// The final report of a plan that ran to its end.
pub open spec fn summary(explanation: Seq<char>, outputs: Seq<Seq<char>>) -> Seq<char> {
    "Plan Execution Summary:\n"@ + explanation + "\n\n"@ + join_with(outputs, "\n---\n"@)
}

/// The explanation shown when the plan gives none.
pub open spec fn explanation_of(e: Option<String>) -> Seq<char> {
    match e {
        Some(s) => s@,
        None => "Executing plan..."@,
    }
}

/// Why a plan stopped at a placeholder without a fact.
pub open spec fn missing_fact_message(st: CommandStep, name: Seq<char>) -> Seq<char> {
    "Failed step "@ + decimal(st.step as nat)
        + ": Substituting placeholders failed: Required information '"@ + name
        + "' for command not found from previous steps."@
}

/// Why a plan stopped at a failed command.
pub open spec fn failure_message(st: CommandStep, e: ExecutionError) -> Seq<char> {
    "Execution failed at step "@ + decimal(st.step as nat) + ": "@ + error_message(e)
}

/// Whether a command's result stops the plan: every failure does, except one
/// that says the tool does not run on this platform.
pub open spec fn stops_plan(result: Result<String, ExecutionError>) -> bool {
    match result {
        Ok(_) => false,
        Err(e) => !(e is UnsupportedPlatform),
    }
}

/// A tool that does not run on this platform does not keep the later steps
/// from running; every other failure stops the plan.
pub proof fn lemma_only_unsupported_platform_continues(out: String, e: ExecutionError)
    ensures
        !stops_plan(Err(e)) <==> e is UnsupportedPlatform,
        !stops_plan(Ok(out)),
{
}

/// What the runner asks of its driver next.
pub enum PlanAction {
    /// Run this command and report its result.
    Execute(String),
    /// The plan ran to its end; this is the report.
    Finished(String),
    /// The plan stopped early; this says why.
    Aborted(String),
}

/// Joins strings with `sep` between neighbours.
pub fn join_strings(parts: &Vec<String>, sep: &str) -> (r: String)
    ensures
        r@ == join_with(views(parts@), sep@),
{
    let n = parts.len();
    if n == 0 {
        return String::new();
    }
    let mut r = String::from_str(parts[0].as_str());
    let mut i: usize = 1;
    proof {
        assert(views(parts@).subrange(0, 1) =~= seq![parts@[0]@]);
    }
    while i < n
        invariant
            n == parts@.len(),
            1 <= i <= n,
            r@ == join_with(views(parts@).subrange(0, i as int), sep@),
        decreases n - i,
    {
        r.append(sep);
        r.append(parts[i].as_str());
        proof {
            let pre = views(parts@).subrange(0, i + 1);
            assert(pre.drop_last() =~= views(parts@).subrange(0, i as int));
            assert(pre.last() == parts@[i as int]@);
        }
        i = i + 1;
    }
    assert(views(parts@).subrange(0, n as int) =~= views(parts@));
    r
}

fn label(n: u32) -> (r: String)
    ensures
        r@ == "Step "@ + decimal(n as nat),
{
    let mut s = String::from_str("Step ");
    push_decimal(&mut s, n);
    s
}

fn make_history_entry(st: &CommandStep, command: &str, output: &str) -> (r: String)
    ensures
        r@ == history_entry(*st, command@, output@),
{
    let mut s = label(st.step);
    s.append(": ");
    s.append(command);
    s.append(" ->\n");
    s.append(output);
    s
}

fn make_output_entry(st: &CommandStep, output: &str) -> (r: String)
    ensures
        r@ == output_entry(*st, output@),
{
    let mut s = String::from_str("Output from ");
    s.append(label(st.step).as_str());
    s.append(":\n");
    s.append(output);
    s
}

/// Walks a plan's steps in order. Steps that are not commands, and command
/// steps without a template, are passed over and noted; each other step has
/// its placeholders resolved (a missing fact stops the plan), is sanitized and
/// handed out to be run. A result that says the tool does not run here passes
/// the step over; any other failure stops the plan.
pub struct PlanRunner {
    explanation: String,
    steps: Vec<CommandStep>,
    next: usize,
    outputs: Vec<String>,
    awaiting: bool,
    command: String,
    stopped: bool,
}

impl PlanRunner {
    pub closed spec fn spec_explanation(&self) -> Seq<char> {
        self.explanation@
    }

    pub closed spec fn spec_steps(&self) -> Seq<CommandStep> {
        self.steps@
    }

    /// The index of the step that is due, or that awaits its result.
    pub closed spec fn spec_next(&self) -> int {
        self.next as int
    }

    /// The report entries so far.
    pub closed spec fn spec_outputs(&self) -> Seq<Seq<char>> {
        views(self.outputs@)
    }

    /// Whether a command was handed out and its result is due.
    pub closed spec fn spec_awaiting(&self) -> bool {
        self.awaiting
    }

    /// The command handed out last.
    pub closed spec fn spec_command(&self) -> Seq<char> {
        self.command@
    }

    /// Whether the plan was stopped or has ended.
    pub closed spec fn spec_stopped(&self) -> bool {
        self.stopped
    }

    pub closed spec fn wf(&self) -> bool {
        &&& self.next <= self.steps@.len()
        &&& self.awaiting ==> self.next < self.steps@.len() && runs(self.steps@[self.next as int])
        &&& self.awaiting ==> !self.stopped
    }

    /// A runner at the start of `plan`, with the explanation the plan gives or
    /// a default one.
    pub fn new(plan: MultiStepResponse) -> (r: PlanRunner)
        ensures
            r.wf(),
            r.spec_explanation() == explanation_of(plan.explanation),
            r.spec_steps() == plan.steps@,
            r.spec_next() == 0,
            r.spec_outputs().len() == 0,
            !r.spec_awaiting(),
            !r.spec_stopped(),
    {
        let explanation = match plan.explanation {
            Some(e) => e,
            None => String::from_str("Executing plan..."),
        };
        let r = PlanRunner {
            explanation,
            steps: plan.steps,
            next: 0,
            outputs: Vec::new(),
            awaiting: false,
            command: String::new(),
            stopped: false,
        };
        assert(views(r.outputs@) =~= Seq::<Seq<char>>::empty());
        r
    }

    /// Whether a command was handed out and its result is due.
    pub fn is_awaiting(&self) -> (r: bool)
        ensures
            r == self.spec_awaiting(),
    {
        self.awaiting
    }

    /// Whether the plan was stopped or has ended.
    pub fn is_stopped(&self) -> (r: bool)
        ensures
            r == self.spec_stopped(),
    {
        self.stopped
    }

    /// Passes over the steps that run nothing, noting them, up to the next
    /// step that runs a command; hands that one out with its placeholders
    /// resolved and the command sanitized. A plan without steps finishes with
    /// its explanation; one whose steps are all passed over finishes with the
    /// summary; a missing fact stops it.
    pub fn next_action(&mut self, ctx: &mut ExecutionContext) -> (r: PlanAction)
        requires
            old(self).wf(),
            !old(self).spec_awaiting(),
            !old(self).spec_stopped(),
        ensures
            final(self).wf(),
            final(self).spec_explanation() == old(self).spec_explanation(),
            final(self).spec_steps() == old(self).spec_steps(),
            ({
                let steps = old(self).spec_steps();
                let i = old(self).spec_next();
                let k = first_runnable(steps, i);
                let outs = old(self).spec_outputs() + skip_entries(steps, i, k);
                &&& final(self).spec_outputs() == outs
                &&& views(final(ctx).command_history@) == views(old(ctx).command_history@)
                    + skip_history(steps, i, k)
                &&& final(ctx).discovered_values@ == old(ctx).discovered_values@
                &&& final(ctx).model_context == old(ctx).model_context
                &&& if k >= steps.len() {
                    &&& final(self).spec_stopped()
                    &&& !final(self).spec_awaiting()
                    &&& r == PlanAction::Finished(r->Finished_0)
                    &&& r->Finished_0@ == if steps.len() == 0 {
                        old(self).spec_explanation()
                    } else {
                        summary(old(self).spec_explanation(), outs)
                    }
                } else {
                    let template = steps[k].command->0@;
                    match resolve(template, old(ctx).discovered_values@) {
                        Ok(c) => {
                            &&& !final(self).spec_stopped()
                            &&& final(self).spec_awaiting()
                            &&& final(self).spec_next() == k
                            &&& final(self).spec_command() == sanitized(c)
                            &&& r == PlanAction::Execute(r->Execute_0)
                            &&& r->Execute_0@ == sanitized(c)
                        },
                        Err(name) => {
                            &&& final(self).spec_stopped()
                            &&& !final(self).spec_awaiting()
                            &&& r == PlanAction::Aborted(r->Aborted_0)
                            &&& r->Aborted_0@ == missing_fact_message(steps[k], name)
                        },
                    }
                }
            }),
    {
        let ghost steps = self.steps@;
        let ghost i0 = self.next as int;
        let ghost outs0 = views(self.outputs@);
        let ghost hist0 = views(ctx.command_history@);
        let n = self.steps.len();
        proof {
            assert(outs0 + skip_entries(steps, i0, i0) =~= outs0);
            assert(hist0 + skip_history(steps, i0, i0) =~= hist0);
        }
        while self.next < n
            invariant
                n == self.steps@.len(),
                steps == self.steps@,
                i0 <= self.next <= n,
                !self.awaiting,
                !self.stopped,
                self.explanation == old(self).explanation,
                ctx.discovered_values == old(ctx).discovered_values,
                ctx.model_context == old(ctx).model_context,
                first_runnable(steps, i0) == first_runnable(steps, self.next as int),
                views(self.outputs@) == outs0 + skip_entries(steps, i0, self.next as int),
                views(ctx.command_history@) == hist0 + skip_history(steps, i0, self.next as int),
            ensures
                self.next >= n || runs(steps[self.next as int]),
            decreases n - self.next,
        {
            let i = self.next;
            let st = &self.steps[i];
            let command_step = str_eq(st.action_type.as_str(), "command");
            if command_step && st.command.is_some() {
                break;
            }
            let ghost prev_out = views(self.outputs@);
            let ghost prev_hist = views(ctx.command_history@);
            if !command_step {
                let mut s = label(st.step);
                s.append(": Skipped (Action Type: ");
                s.append(st.action_type.as_str());
                s.append(")");
                proof {
                    assert(views(self.outputs@.push(s)) =~= prev_out.push(s@));
                }
                self.outputs.push(s);
            } else {
                let h = make_history_entry(st, "", "Skipped (No command)");
                let o = make_output_entry(st, "Skipped (No command)");
                proof {
                    reveal_strlit("");
                    assert(""@ =~= Seq::<char>::empty());
                    assert(views(self.outputs@.push(o)) =~= prev_out.push(o@));
                    assert(views(ctx.command_history@.push(h)) =~= prev_hist.push(h@));
                }
                self.outputs.push(o);
                ctx.command_history.push(h);
            }
            proof {
                assert(outs0 + skip_entries(steps, i0, i + 1) =~= prev_out.push(skip_entry(steps[i as int])));
                if is_command(steps[i as int]) {
                    assert(hist0 + skip_history(steps, i0, i + 1) =~= prev_hist.push(
                        history_entry(steps[i as int], seq![], "Skipped (No command)"@),
                    ));
                } else {
                    assert(hist0 + skip_history(steps, i0, i + 1) =~= prev_hist);
                }
            }
            self.next = i + 1;
        }
        if self.next >= n {
            self.stopped = true;
            if n == 0 {
                return PlanAction::Finished(String::from_str(self.explanation.as_str()));
            }
            let mut report = String::from_str("Plan Execution Summary:\n");
            report.append(self.explanation.as_str());
            report.append("\n\n");
            let joined = join_strings(&self.outputs, "\n---\n");
            report.append(joined.as_str());
            return PlanAction::Finished(report);
        }
        let i = self.next;
        let st = &self.steps[i];
        let template = st.command.as_ref().unwrap();
        match substitute_placeholders(&ctx.discovered_values, template.as_str()) {
            Ok(resolved) => {
                let cmd = sanitize_command(resolved.as_str());
                self.command = String::from_str(cmd.as_str());
                self.awaiting = true;
                PlanAction::Execute(cmd)
            },
            Err(name) => {
                self.stopped = true;
                let mut s = String::from_str("Failed step ");
                push_decimal(&mut s, st.step);
                s.append(": Substituting placeholders failed: Required information '");
                s.append(name.as_str());
                s.append("' for command not found from previous steps.");
                PlanAction::Aborted(s)
            },
        }
    }
    /// Takes the result of the command handed out last. Output that comes
    /// back is read for facts and noted with the command; a tool that does not
    /// run on this platform passes the step over; any other failure stops the
    /// plan and the message that says so is returned.
    pub fn record_result(
        &mut self,
        ctx: &mut ExecutionContext,
        result: Result<String, ExecutionError>,
        windows: bool,
    ) -> (r: Option<String>)
        requires
            old(self).wf(),
            old(self).spec_awaiting(),
        ensures
            final(self).wf(),
            !final(self).spec_awaiting(),
            final(self).spec_explanation() == old(self).spec_explanation(),
            final(self).spec_steps() == old(self).spec_steps(),
            final(ctx).model_context == old(ctx).model_context,
            final(self).spec_stopped() == stops_plan(result),
            ({
                let st = old(self).spec_steps()[old(self).spec_next()];
                let cmd = old(self).spec_command();
                let hist = views(old(ctx).command_history@);
                let outs = old(self).spec_outputs();
                match result {
                    Ok(out) => {
                        &&& r is None
                        &&& !final(self).spec_stopped()
                        &&& final(self).spec_next() == old(self).spec_next() + 1
                        &&& final(ctx).discovered_values@ == after_output(
                            old(ctx).discovered_values@,
                            opt_view(st.purpose),
                            out@,
                            windows,
                        )
                        &&& views(final(ctx).command_history@) == hist.push(
                            history_entry(st, cmd, out@),
                        )
                        &&& final(self).spec_outputs() == outs.push(output_entry(st, out@))
                    },
                    Err(e) => if e is UnsupportedPlatform {
                        &&& r is None
                        &&& !final(self).spec_stopped()
                        &&& final(self).spec_next() == old(self).spec_next() + 1
                        &&& final(ctx).discovered_values@ == old(ctx).discovered_values@
                        &&& views(final(ctx).command_history@) == hist.push(
                            history_entry(st, cmd, "Skipped (Unsupported Platform)"@),
                        )
                        &&& final(self).spec_outputs() == outs.push(
                            output_entry(st, "Skipped (Unsupported Platform)"@),
                        )
                    } else {
                        &&& final(self).spec_stopped()
                        &&& r is Some
                        &&& r->0@ == failure_message(st, e)
                        &&& final(ctx).discovered_values@ == old(ctx).discovered_values@
                        &&& final(ctx).command_history@ == old(ctx).command_history@
                        &&& final(self).spec_outputs() == outs
                    },
                }
            }),
    {
        let i = self.next;
        let n = self.steps.len();
        assert(i < n);
        self.awaiting = false;
        let step_output = match result {
            Ok(out) => {
                parse_and_store_output(
                    &mut ctx.discovered_values,
                    &self.steps[i].purpose,
                    out.as_str(),
                    windows,
                );
                out
            },
            Err(e) => {
                if e.is_unsupported_platform() {
                    String::from_str("Skipped (Unsupported Platform)")
                } else {
                    self.stopped = true;
                    let mut s = String::from_str("Execution failed at step ");
                    push_decimal(&mut s, self.steps[i].step);
                    s.append(": ");
                    s.append(e.message().as_str());
                    return Some(s);
                }
            },
        };
        let h = make_history_entry(&self.steps[i], self.command.as_str(), step_output.as_str());
        let o = make_output_entry(&self.steps[i], step_output.as_str());
        proof {
            assert(views(self.outputs@.push(o)) =~= views(self.outputs@).push(o@));
            assert(views(ctx.command_history@.push(h)) =~= views(ctx.command_history@).push(h@));
        }
        self.outputs.push(o);
        ctx.command_history.push(h);
        self.next = i + 1;
        None
    }
}

/// The prompt for the model: the platform, the task, and the last five
/// transcript entries (oldest first), or `None` when there are none.
pub open spec fn prompt_text(platform: Platform, history: Seq<Seq<char>>, query: Seq<char>) -> Seq<char> {
    let recent = if history.len() > 5 {
        history.subrange(history.len() - 5, history.len() as int)
    } else {
        history
    };
    let context = join_with(recent, "\n---\n"@);
    "<|im_start|>user\nOS: "@ + platform_name(platform) + "\nTask: "@ + query
        + "\nPrevious Commands/Outputs Context:\n"@ + (if context.len() == 0 {
        "None"@
    } else {
        context
    }) + "\n<|im_end|>\n<|im_start|>assistant\n"@
}

/// Builds the prompt for the model from the platform, the task and the most
/// recent transcript entries.
pub fn build_prompt(ctx: &ExecutionContext, platform: &Platform, query: &str) -> (r: String)
    ensures
        r@ == prompt_text(*platform, views(ctx.command_history@), query@),
{
    let n = ctx.command_history.len();
    let start: usize = if n > 5 { n - 5 } else { 0 };
    let mut recent: Vec<String> = Vec::new();
    let mut i: usize = start;
    proof {
        assert(views(recent@) =~= views(ctx.command_history@).subrange(start as int, start as int));
    }
    while i < n
        invariant
            n == ctx.command_history@.len(),
            start <= i <= n,
            views(recent@) == views(ctx.command_history@).subrange(start as int, i as int),
        decreases n - i,
    {
        let e = String::from_str(ctx.command_history[i].as_str());
        proof {
            assert(views(ctx.command_history@)[i as int] == ctx.command_history@[i as int]@);
            assert(views(recent@.push(e)) =~= views(recent@).push(e@));
            assert(views(ctx.command_history@).subrange(start as int, i as int).push(e@) =~= views(
                ctx.command_history@,
            ).subrange(start as int, i + 1));
            assert(views(recent@.push(e)) =~= views(ctx.command_history@).subrange(
                start as int,
                i + 1,
            ));
        }
        recent.push(e);
        i = i + 1;
    }
    proof {
        if n <= 5 {
            assert(views(ctx.command_history@).subrange(0, n as int) =~= views(
                ctx.command_history@,
            ));
        }
    }
    let context = join_strings(&recent, "\n---\n");
    let mut p = String::from_str("<|im_start|>user\nOS: ");
    p.append(platform.name().as_str());
    p.append("\nTask: ");
    p.append(query);
    p.append("\nPrevious Commands/Outputs Context:\n");
    if context.unicode_len() == 0 {
        p.append("None");
    } else {
        p.append(context.as_str());
    }
    p.append("\n<|im_end|>\n<|im_start|>assistant\n");
    p
}

/// The report of a query whose plan could not be run: why, and the model's
/// raw response.
pub open spec fn error_report_text(reason: Seq<char>, raw: Seq<char>) -> Seq<char> {
    "Error during processing: "@ + reason + ". Raw response was:\n"@ + raw
}

/// The report of a query whose plan could not be run.
pub fn error_report(reason: &str, raw: &str) -> (r: String)
    ensures
        r@ == error_report_text(reason@, raw@),
{
    let mut s = String::from_str("Error during processing: ");
    s.append(reason);
    s.append(". Raw response was:\n");
    s.append(raw);
    s
}

/// Why a plan could not be decoded: the decoder's message and the raw text.
pub open spec fn parse_failure_text(decoder: Seq<char>, raw: Seq<char>) -> Seq<char> {
    "Failed to parse LLM JSON plan: "@ + decoder + ". Raw response: "@ + raw
}

/// The message of a plan that could not be decoded.
pub fn parse_failure_message(decoder: &str, raw: &str) -> (r: String)
    ensures
        r@ == parse_failure_text(decoder@, raw@),
{
    let mut s = String::from_str("Failed to parse LLM JSON plan: ");
    s.append(decoder);
    s.append(". Raw response: ");
    s.append(raw);
    s
}

/// The template from index `i` on, with each `{OS}` replaced by `os`,
/// scanning from the left without overlaps.
pub open spec fn fill_os_from(t: Seq<char>, os: Seq<char>, i: int) -> Seq<char>
    decreases t.len() - i,
{
    if i < 0 || i >= t.len() {
        seq![]
    } else if occurs_at(t, seq!['{', 'O', 'S', '}'], i) {
        os + fill_os_from(t, os, i + 4)
    } else {
        seq![t[i]] + fill_os_from(t, os, i + 1)
    }
}

/// The model's system prompt: the template with every `{OS}` replaced by the
/// platform's name.
pub fn system_prompt(template: &str, platform: &Platform) -> (r: String)
    ensures
        r@ == fill_os_from(template@, platform_name(*platform), 0),
{
    proof {
        reveal_strlit("{OS}");
        assert("{OS}"@ =~= seq!['{', 'O', 'S', '}']);
    }
    let os = platform.name();
    let n = template.unicode_len();
    let mut out = String::new();
    let mut i: usize = 0;
    proof {
        assert(out@ + fill_os_from(template@, os@, 0) =~= fill_os_from(template@, os@, 0));
    }
    while i < n
        invariant
            n == template@.len(),
            i <= n,
            "{OS}"@ == seq!['{', 'O', 'S', '}'],
            out@ + fill_os_from(template@, os@, i as int) == fill_os_from(template@, os@, 0),
        decreases n - i,
    {
        let ghost prev = out@;
        if occurs_at_exec(template, "{OS}", i) {
            out.append(os.as_str());
            assert(prev + (os@ + fill_os_from(template@, os@, i + 4)) =~= out@ + fill_os_from(
                template@,
                os@,
                i + 4,
            ));
            i = i + 4;
        } else {
            let c = template.get_char(i);
            out.push(c);
            assert(prev + (seq![c] + fill_os_from(template@, os@, i + 1)) =~= out@ + fill_os_from(
                template@,
                os@,
                i + 1,
            ));
            i = i + 1;
        }
    }
    assert(out@ + Seq::<char>::empty() =~= out@);
    out
}

} // verus!
