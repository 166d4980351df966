//! The filter pipeline: the order in which scripts run, what each receives,
//! how its exit and output are read, and when the pipeline ends.
use vstd::prelude::*;
use vstd::utf8::{decode_utf8, valid_utf8};

use crate::action::Message;
use crate::config::{EmailField, Script};
use crate::decimal::{decimal_digits, decimal_text};
use crate::email::Email;
use crate::text::utf8_text;

verus! {

/// Place of a sort key in the pipeline: keyed scripts by ascending key,
/// then the unkeyed ones.
pub open spec fn rank(key: Option<i32>) -> int {
    match key {
        Some(k) => k as int,
        None => i32::MAX as int + 1,
    }
}

/// Script `i` runs before script `j`: a lower rank, or the same rank and an
/// earlier place in the configuration.
pub open spec fn runs_before(scripts: Seq<Script>, i: int, j: int) -> bool {
    rank(scripts[i].sortkey) < rank(scripts[j].sortkey) || (rank(scripts[i].sortkey) == rank(
        scripts[j].sortkey,
    ) && i < j)
}

/// `order` lists every script once, in the order in which they run.
pub open spec fn is_pipeline_order(scripts: Seq<Script>, order: Seq<usize>) -> bool {
    &&& order.len() == scripts.len()
    &&& forall|k: int| 0 <= k < order.len() ==> #[trigger] order[k] < scripts.len()
    &&& forall|k1: int, k2: int|
        0 <= k1 < k2 < order.len() ==> runs_before(
            scripts,
            #[trigger] order[k1] as int,
            #[trigger] order[k2] as int,
        )
    &&& forall|i: int| 0 <= i < scripts.len() ==> #[trigger] lists(order, i)
}

/// `order` holds `i` somewhere.
pub open spec fn lists(order: Seq<usize>, i: int) -> bool {
    exists|k: int| 0 <= k < order.len() && order[k] == i
}

fn rank_lt(a: Option<i32>, b: Option<i32>) -> (r: bool)
    ensures
        r == (rank(a) < rank(b)),
{
    match (a, b) {
        (Some(x), Some(y)) => x < y,
        (Some(_), None) => true,
        _ => false,
    }
}

/// The order in which the scripts run: by ascending sort key, scripts
/// without a key after those with one, and equal keys in the order of the
/// configuration.
pub fn pipeline_order(scripts: &Vec<Script>) -> (r: Vec<usize>)
    ensures
        is_pipeline_order(scripts@, r@),
{
    let n = scripts.len();
    let ghost s = scripts@;
    let mut out: Vec<usize> = Vec::new();
    let mut i: usize = 0;
    while i < n
        invariant
            n == s.len(),
            s == scripts@,
            0 <= i <= n,
            out@.len() == i,
            forall|k: int| 0 <= k < out@.len() ==> #[trigger] out@[k] < i,
            forall|k1: int, k2: int|
                0 <= k1 < k2 < out@.len() ==> runs_before(
                    s,
                    #[trigger] out@[k1] as int,
                    #[trigger] out@[k2] as int,
                ),
            forall|j: int| 0 <= j < i ==> #[trigger] lists(out@, j),
        decreases n - i,
    {
        let key = scripts[i].sortkey;
        let mut p: usize = 0;
        while p < out.len() && !rank_lt(key, scripts[out[p]].sortkey)
            invariant
                0 <= p <= out@.len(),
                n == s.len(),
                s == scripts@,
                forall|k: int| 0 <= k < out@.len() ==> #[trigger] out@[k] < i,
                i < n,
                key == s[i as int].sortkey,
                forall|k: int| 0 <= k < p ==> rank(s[#[trigger] out@[k] as int].sortkey) <= rank(key),
            decreases out@.len() - p,
        {
            p = p + 1;
        }
        let ghost old_out = out@;
        out.insert(p, i);
        proof {
            old_out.insert_ensures(p as int, i);
            assert forall|k: int| 0 <= k < out@.len() implies out@[k] == (if k < p {
                old_out[k]
            } else if k == p {
                i
            } else {
                old_out[k - 1]
            }) by {
                if k > p {
                    assert(out@[(k - 1) + 1] == old_out[k - 1]);
                }
            }
            assert forall|k1: int, k2: int| 0 <= k1 < k2 < out@.len() implies runs_before(
                s,
                #[trigger] out@[k1] as int,
                #[trigger] out@[k2] as int,
            ) by {
                if k1 < p && k2 == p {
                    assert(rank(s[old_out[k1] as int].sortkey) <= rank(key));
                } else if k1 < p && k2 > p {
                    assert(runs_before(s, old_out[k1] as int, old_out[k2 - 1] as int));
                } else if k1 == p && k2 > p {
                    assert(rank(key) < rank(s[old_out[p as int] as int].sortkey));
                    if k2 - 1 > p {
                        assert(runs_before(s, old_out[p as int] as int, old_out[k2 - 1] as int));
                    }
                } else if k1 > p {
                    assert(runs_before(s, old_out[k1 - 1] as int, old_out[k2 - 1] as int));
                }
            }
            assert forall|j: int| 0 <= j < i + 1 implies #[trigger] lists(out@, j) by {
                if j == i {
                    assert(out@[p as int] == j);
                } else {
                    assert(lists(old_out, j));
                    let k = choose|k: int| 0 <= k < old_out.len() && old_out[k] == j;
                    if k < p {
                        assert(out@[k] == j);
                    } else {
                        assert(out@[k + 1] == j);
                    }
                }
            }
        }
        i = i + 1;
    }
    out
}

/// The argument a script receives: the whole message as JSON, or the one
/// field it asks for.
pub open spec fn payload_of(email: Email, json: Seq<char>, field: Option<EmailField>) -> Seq<char> {
    match field {
        None => json,
        Some(EmailField::SUBJECT) => email.subject@,
        Some(EmailField::BODY) => email.body@,
        Some(EmailField::UID) => decimal_digits(email.uid as nat),
    }
}

/// Builds the argument for a script; `json` is the message's JSON form.
pub fn script_payload(email: &Email, json: &str, field: Option<EmailField>) -> (r: String)
    ensures
        r@ == payload_of(*email, json@, field),
{
    match field {
        None => String::from_str(json),
        Some(EmailField::SUBJECT) => email.subject.clone(),
        Some(EmailField::BODY) => email.body.clone(),
        Some(EmailField::UID) => decimal_text(email.uid),
    }
}

/// A process to start: the program and its arguments.
#[derive(Debug)]
pub struct Invocation {
    pub program: String,
    pub args: Vec<String>,
}

#[derive(Debug, Clone, Copy, PartialEq, Eq, Structural)]
pub enum InvocationError {
    /// The script names an interpreter that could not be found.
    InterpreterNotFound,
}

/// How a script is started: its interpreter (as found on the search path,
/// `found`) with the script's location and the payload, or the script
/// itself with the payload.
pub fn invocation(script: &Script, found: Option<String>, payload: String) -> (r: Result<
    Invocation,
    InvocationError,
>)
    ensures
        r is Err <==> (script.interpreter is Some && found is None),
        r is Err ==> r == Err::<Invocation, InvocationError>(InvocationError::InterpreterNotFound),
        r matches Ok(inv) ==> match script.interpreter {
            Some(_) => found == Some(inv.program) && inv.args@.len() == 2 && inv.args@[0]
                == script.location && inv.args@[1] == payload,
            None => inv.program == script.location && inv.args@.len() == 1 && inv.args@[0]
                == payload,
        },
{
    match &script.interpreter {
        Some(_) => match found {
            Some(program) => {
                let args = vec![script.location.clone(), payload];
                Ok(Invocation { program, args })
            },
            None => Err(InvocationError::InterpreterNotFound),
        },
        None => {
            let args = vec![payload];
            Ok(Invocation { program: script.location.clone(), args })
        },
    }
}

/// How a finished script's exit and output read.
#[derive(Debug)]
pub enum ScriptOutput {
    /// Non-zero exit, with the standard error text when it is UTF-8.
    Failed(Option<String>),
    /// Zero exit and nothing on standard output: no decision.
    NoDecision,
    /// Zero exit and this answer text on standard output.
    Answer(String),
    /// Zero exit with standard output that is not UTF-8.
    NotText,
}

pub open spec fn text_of_bytes(b: Seq<u8>) -> Option<Seq<char>> {
    if valid_utf8(b) {
        Some(decode_utf8(b))
    } else {
        None
    }
}

/// Reads a script's exit status and captured output.
pub fn classify_output(success: bool, stdout: Vec<u8>, stderr: Vec<u8>) -> (r: ScriptOutput)
    ensures
        !success ==> (r matches ScriptOutput::Failed(t) && match t {
            Some(s) => text_of_bytes(stderr@) == Some(s@),
            None => text_of_bytes(stderr@) is None,
        }),
        success && stdout@.len() == 0 ==> r is NoDecision,
        success && stdout@.len() > 0 && valid_utf8(stdout@) ==> (r matches ScriptOutput::Answer(s)
            && s@ == decode_utf8(stdout@)),
        success && stdout@.len() > 0 && !valid_utf8(stdout@) ==> r is NotText,
{
    if !success {
        ScriptOutput::Failed(utf8_text(stderr))
    } else if stdout.len() == 0 {
        ScriptOutput::NoDecision
    } else {
        match utf8_text(stdout) {
            Some(s) => ScriptOutput::Answer(s),
            None => ScriptOutput::NotText,
        }
    }
}

/// What running one script came to.
#[derive(Debug)]
pub enum ScriptOutcome {
    /// Non-zero exit, with the standard error text when there was one.
    Failed(Option<String>),
    /// Zero exit, nothing decided: the message passes on unchanged.
    NoDecision,
    /// Zero exit with an answer.
    Decided(Message),
    /// Zero exit with output that is no answer, and why.
    Undecodable(String),
}

/// Why a message's pipeline was cut short.
#[derive(Debug)]
pub enum Failure {
    /// The script at this place exited non-zero.
    Exit { script: usize, stderr: Option<String> },
    /// The script at this place answered with something that is no answer.
    Undecodable { script: usize, reason: String },
}

/// The pipeline of one message: the place of the next script, whether an
/// answer stopped it or a script failed, and the answers so far.
#[derive(Debug)]
pub struct PipelineRun {
    pub total: usize,
    pub next: usize,
    pub stopped: bool,
    pub failure: Option<Failure>,
    pub answers: Vec<Message>,
}

impl PipelineRun {
    /// The place never runs past the end of the pipeline.
    pub open spec fn wf(self) -> bool {
        self.next <= self.total
    }

    /// Another script is due.
    pub open spec fn running(self) -> bool {
        !self.stopped && self.failure is None && self.next < self.total
    }

    /// A run of `total` scripts that has not begun.
    pub open spec fn fresh(self, total: usize) -> bool {
        &&& self.total == total
        &&& self.next == 0
        &&& !self.stopped
        &&& self.failure is None
        &&& self.answers@.len() == 0
    }

    /// `after` is this run once the due script came to `outcome`.
    pub open spec fn recorded(self, outcome: ScriptOutcome, after: PipelineRun) -> bool {
        &&& after.total == self.total
        &&& match outcome {
            ScriptOutcome::Failed(e) => {
                &&& after.next == self.next
                &&& after.stopped == self.stopped
                &&& after.failure == Some(Failure::Exit { script: self.next, stderr: e })
                &&& after.answers@ == self.answers@
            },
            ScriptOutcome::Undecodable(t) => {
                &&& after.next == self.next
                &&& after.stopped == self.stopped
                &&& after.failure == Some(Failure::Undecodable { script: self.next, reason: t })
                &&& after.answers@ == self.answers@
            },
            ScriptOutcome::NoDecision => {
                &&& after.next == self.next + 1
                &&& after.stopped == self.stopped
                &&& after.failure == self.failure
                &&& after.answers@ == self.answers@
            },
            ScriptOutcome::Decided(m) => {
                &&& after.next == self.next + 1
                &&& after.stopped == m.stops()
                &&& after.failure == self.failure
                &&& after.answers@ == self.answers@.push(m)
            },
        }
    }

    /// A run for one message through `total` scripts, from the first.
    pub fn new(total: usize) -> (r: PipelineRun)
        ensures
            r.fresh(total),
            r.wf(),
    {
        PipelineRun { total, next: 0, stopped: false, failure: None, answers: Vec::new() }
    }

    /// The place of the script to run next, if any is due.
    pub fn next_script(&self) -> (r: Option<usize>)
        ensures
            r == (if self.running() {
                Some(self.next)
            } else {
                None::<usize>
            }),
    {
        if !self.stopped && self.failure.is_none() && self.next < self.total {
            Some(self.next)
        } else {
            None
        }
    }

    /// Records what the due script came to. A failure ends the run; an
    /// answer is kept and ends it when it says stop; no decision passes on.
    pub fn record(&mut self, outcome: ScriptOutcome)
        requires
            old(self).running(),
        ensures
            old(self).recorded(outcome, *final(self)),
            old(self).wf() ==> final(self).wf(),
    {
        match outcome {
            ScriptOutcome::Failed(e) => {
                self.failure = Some(Failure::Exit { script: self.next, stderr: e });
            },
            ScriptOutcome::Undecodable(t) => {
                self.failure = Some(Failure::Undecodable { script: self.next, reason: t });
            },
            ScriptOutcome::NoDecision => {
                self.next = self.next + 1;
            },
            ScriptOutcome::Decided(m) => {
                self.stopped = m.is_stop();
                self.answers.push(m);
                self.next = self.next + 1;
            },
        }
    }

    /// Whether the run went through without a failure.
    pub fn succeeded(&self) -> (r: bool)
        ensures
            r == (self.failure is None),
    {
        self.failure.is_none()
    }
}

/// An answer that says stop ends the pipeline: no later script runs on
/// that message.
pub proof fn lemma_stop_ends_pipeline(before: PipelineRun, m: Message, after: PipelineRun)
    requires
        before.running(),
        m.stops(),
        before.recorded(ScriptOutcome::Decided(m), after),
    ensures
        !after.running(),
        after.failure is None,
        after.answers@ == before.answers@.push(m),
{
}

/// A script that exits zero with empty output changes nothing but the
/// place: the answers stay as they were, and the next script runs if
/// there is one.
pub proof fn lemma_pass_through(before: PipelineRun, after: PipelineRun)
    requires
        before.running(),
        before.recorded(ScriptOutcome::NoDecision, after),
    ensures
        after.answers@ == before.answers@,
        after.failure is None,
        !after.stopped,
        after.next == before.next + 1,
        after.running() <==> before.next + 1 < before.total,
{
}

/// A failing script ends its message's pipeline, naming its place; the
/// pipeline of the next message still starts from the first script.
pub proof fn lemma_failure_isolated(
    before: PipelineRun,
    stderr: Option<String>,
    after: PipelineRun,
    next_message: PipelineRun,
)
    requires
        before.running(),
        before.recorded(ScriptOutcome::Failed(stderr), after),
        next_message.fresh(before.total),
    ensures
        !after.running(),
        after.failure == Some(Failure::Exit { script: before.next, stderr }),
        next_message.running(),
        next_message.next == 0,
{
}

} // verus!
