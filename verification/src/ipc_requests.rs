//! What the control socket answers.

use vstd::prelude::*;
use vstd::string::*;

use crate::ipc::{is_one_line, json_line, line_of, EventKind, MAX_BATCH_ACTIONS};
use crate::ipc_documents::{
    countable, focused_view, focused_window_json, lists_workspaces, outputs_json, outputs_view,
    text_of, windows_json, windows_view, workspaces_json, IpcFacts, OutputFacts,
};
use crate::json::{
    bool_value, json_of, null_value, optional_text, optional_text_value, text_value,
    unsigned_value, JsonView, ObjectBuilder,
};
use crate::text::{decimal, to_decimal};
use crate::toplevels::Toplevels;

verus! {

/// What a client asks for.
pub enum Request {
    Outputs,
    Workspaces,
    Windows,
    FocusedWindow,
    ActiveSubmap,
    Action { action: String },
    Batch { actions: Vec<String> },
    Subscribe { events: Option<Vec<EventKind>> },
}

/// An answer that all is well, with what was asked for.
pub open spec fn ok_with(data: JsonView) -> JsonView {
    JsonView::Object(map!["ok"@ => JsonView::Bool(true), "data"@ => data])
}

/// An answer that something is wrong.
pub open spec fn error_with(message: Seq<char>) -> JsonView {
    JsonView::Object(map!["ok"@ => JsonView::Bool(false), "error"@ => JsonView::Text(message)])
}

fn ok_value(data: serde_json::Value) -> (r: serde_json::Value)
    ensures
        json_of(r) == ok_with(json_of(data)),
{
    let mut answer: ObjectBuilder = ObjectBuilder::new();
    answer.put("ok", bool_value(true));
    answer.put("data", data);
    answer.finish()
}

fn error_value(message: &str) -> (r: serde_json::Value)
    ensures
        json_of(r) == error_with(message@),
{
    let mut answer: ObjectBuilder = ObjectBuilder::new();
    answer.put("ok", bool_value(false));
    answer.put("error", text_value(message));
    answer.finish()
}

fn error_about(prefix: &str, what: &str) -> (r: serde_json::Value)
    ensures
        json_of(r) == error_with(prefix@ + what@),
{
    let mut message: String = prefix.to_owned();
    message.append(what);
    error_value(message.as_str())
}

/// `json` answers a question, for any request that is one.
pub open spec fn answers(
    top: Toplevels,
    facts: IpcFacts,
    outputs: Seq<OutputFacts>,
    request: Request,
    json: JsonView,
) -> bool {
    match request {
        Request::Outputs => json == ok_with(JsonView::List(outputs_view(top, outputs))),
        Request::Workspaces => exists|data: JsonView| #[trigger]
            lists_workspaces(top, facts, data) && json == ok_with(data),
        Request::Windows => json == ok_with(JsonView::List(windows_view(top, facts))),
        Request::FocusedWindow => json == ok_with(focused_view(top, facts)),
        Request::ActiveSubmap => json == ok_with(optional_text(text_of(facts.active_submap))),
        Request::Subscribe { .. } => json == error_with(
            "subscribe must be the first and only request on a fresh connection"@,
        ),
        _ => true,
    }
}

/// A batch has at least one action and not too many.
pub open spec fn batch_fits(n: nat) -> bool {
    0 < n <= MAX_BATCH_ACTIONS
}

/// What is said of a batch of the wrong size.
pub open spec fn batch_size_error() -> JsonView {
    error_with("batch must contain 1..="@ + decimal(MAX_BATCH_ACTIONS as nat) + " actions"@)
}

/// The index of the first action that is not known.
pub open spec fn first_unknown(known: Seq<bool>) -> nat
    decreases known.len(),
{
    if known.len() == 0 || !known[0] {
        0
    } else {
        1 + first_unknown(known.skip(1))
    }
}

/// What follows from a request.
pub enum RequestStep {
    /// The answer is ready.
    Reply(serde_json::Value),
    /// These actions are run first, in order; each is known.
    Run(ActionRun),
}

/// Actions that are run one by one.
pub struct ActionRun {
    /// How many there are.
    pub count: usize,
    /// How many were run.
    pub done: usize,
    /// They came as a batch, whose size is told.
    pub batch: bool,
}

impl ActionRun {
    pub open spec fn wf(&self) -> bool {
        self.done <= self.count && self.count > 0
    }

    /// What is answered when all were run. A single action gives nothing back.
    pub open spec fn success(&self) -> JsonView {
        if self.batch {
            ok_with(JsonView::Object(map!["executed"@ => JsonView::Number(self.count as int)]))
        } else {
            ok_with(JsonView::Null)
        }
    }

    /// The index of the action to run.
    pub fn next(&self) -> (r: Option<usize>)
        requires
            self.wf(),
        ensures
            r == if self.done < self.count {
                Some(self.done)
            } else {
                None
            },
    {
        if self.done < self.count {
            Some(self.done)
        } else {
            None
        }
    }

    /// An action was run, or could not be. Gives the answer once there is one: behind
    /// the first action that could not be run no other is.
    pub fn ran(&mut self, result: &Result<(), String>) -> (r: Option<serde_json::Value>)
        requires
            old(self).wf(),
            old(self).done < old(self).count,
        ensures
            final(self).wf(),
            final(self).count == old(self).count,
            final(self).batch == old(self).batch,
            match result {
                Err(message) => r is Some && json_of(r->0) == error_with(message@)
                    && final(self).done == old(self).done,
                Ok(_) => {
                    &&& final(self).done == old(self).done + 1
                    &&& r is Some == (final(self).done == final(self).count)
                    &&& r is Some ==> json_of(r->0) == old(self).success()
                },
            },
    {
        match result {
            Err(message) => Some(error_value(message.as_str())),
            Ok(_) => {
                self.done = self.done + 1;
                if self.done < self.count {
                    None
                } else if self.batch {
                    let mut data: ObjectBuilder = ObjectBuilder::new();
                    data.put("executed", unsigned_value(self.count as u64));
                    Some(ok_value(data.finish()))
                } else {
                    Some(ok_value(null_value()))
                }
            },
        }
    }
}

/// What follows from a request. `known` says of each action that it asks for whether
/// there is one of that name; unless there is for all of them, none is run.
pub fn handle_request(
    top: &Toplevels,
    facts: &IpcFacts,
    outputs: Vec<OutputFacts>,
    request: &Request,
    known: &Vec<bool>,
) -> (r: RequestStep)
    requires
        top.wf(),
        facts.wf(*top),
        countable(*top),
        request is Action ==> known@.len() == 1,
        request matches Request::Batch { actions } ==> known@.len() == actions@.len(),
    ensures
        match *request {
            Request::Action { action } => if known@[0] {
                r matches RequestStep::Run(run) && run.wf() && run.count == 1 && run.done == 0
                    && !run.batch
            } else {
                r matches RequestStep::Reply(answer) && json_of(answer) == error_with(
                    "unknown action: "@ + action@,
                )
            },
            Request::Batch { actions } => if !batch_fits(actions@.len()) {
                r matches RequestStep::Reply(answer) && json_of(answer) == batch_size_error()
            } else if first_unknown(known@) < known@.len() {
                r matches RequestStep::Reply(answer) && json_of(answer) == error_with(
                    "unknown action: "@ + actions@[first_unknown(known@) as int]@,
                )
            } else {
                r matches RequestStep::Run(run) && run.wf() && run.count == actions@.len()
                    && run.done == 0 && run.batch
            },
            _ => r matches RequestStep::Reply(answer) && answers(
                *top,
                *facts,
                outputs@,
                *request,
                json_of(answer),
            ),
        },
{
    match request {
        Request::Outputs => RequestStep::Reply(ok_value(outputs_json(top, outputs))),
        Request::Workspaces => {
            let data: serde_json::Value = workspaces_json(top, facts);
            let ghost said = json_of(data);
            assert(lists_workspaces(*top, *facts, said));
            RequestStep::Reply(ok_value(data))
        },
        Request::Windows => RequestStep::Reply(ok_value(windows_json(top, facts))),
        Request::FocusedWindow => RequestStep::Reply(ok_value(focused_window_json(top, facts))),
        Request::ActiveSubmap => RequestStep::Reply(
            ok_value(optional_text_value(&facts.active_submap)),
        ),
        Request::Subscribe { .. } => RequestStep::Reply(
            error_value("subscribe must be the first and only request on a fresh connection"),
        ),
        Request::Action { action } => if known[0] {
            RequestStep::Run(ActionRun { count: 1, done: 0, batch: false })
        } else {
            RequestStep::Reply(error_about("unknown action: ", action.as_str()))
        },
        Request::Batch { actions } => {
            if actions.len() == 0 || actions.len() > MAX_BATCH_ACTIONS {
                let mut message: String = "batch must contain 1..=".to_owned();
                let limit: String = to_decimal(MAX_BATCH_ACTIONS as u64);
                message.append(limit.as_str());
                message.append(" actions");
                return RequestStep::Reply(error_value(message.as_str()));
            }
            let mut i: usize = 0;
            assert(known@.skip(0) =~= known@);
            while i < known.len()
                invariant
                    i <= known@.len(),
                    known@.len() == actions@.len(),
                    batch_fits(actions@.len()),
                    *request == (Request::Batch { actions: *actions }),
                    first_unknown(known@) == i + first_unknown(known@.skip(i as int)),
                decreases known@.len() - i,
            {
                assert(known@.skip(i as int)[0] == known@[i as int]);
                assert(known@.skip(i as int).skip(1) =~= known@.skip(i + 1));
                if !known[i] {
                    return RequestStep::Reply(error_about("unknown action: ", actions[i].as_str()));
                }
                i += 1;
            }
            RequestStep::Run(ActionRun { count: actions.len(), done: 0, batch: true })
        },
    }
}

/// What is answered to a line that is no request, for the reason given.
pub fn invalid_request(reason: &str) -> (r: serde_json::Value)
    ensures
        json_of(r) == error_with("invalid request: "@ + reason@),
{
    error_about("invalid request: ", reason)
}

/// The line that goes back to the client.
pub fn response_payload(answer: &serde_json::Value) -> (r: Vec<u8>)
    ensures
        r@ == json_line(json_of(*answer)),
        is_one_line(r@),
{
    line_of(answer)
}

/// What an action asks to be done.
#[derive(Clone, Copy, Debug, PartialEq, Eq, Structural)]
pub enum ActionTiming {
    /// It is run at once.
    Now,
    /// It is run after so many milliseconds.
    Later(u64),
}

/// When an action that came over the socket is run. The one that ends the session
/// waits, so that the answer still gets out.
pub fn run_ipc_action(quits: bool) -> (r: ActionTiming)
    ensures
        r == if quits {
            ActionTiming::Later(25)
        } else {
            ActionTiming::Now
        },
{
    if quits {
        ActionTiming::Later(25)
    } else {
        ActionTiming::Now
    }
}

/// What is answered where the end of the session could not be arranged, for the reason
/// given.
pub fn shutdown_failure(reason: &str) -> (r: String)
    ensures
        r@ == "failed to schedule compositor shutdown: "@ + reason@,
{
    let mut message: String = "failed to schedule compositor shutdown: ".to_owned();
    message.append(reason);
    message
}

/// A batch is checked as a whole before any of it is run: as long as one of its
/// actions is not known, none is.
pub proof fn law_a_batch_is_checked_first(known: Seq<bool>, i: int)
    requires
        0 <= i < known.len(),
        !known[i],
    ensures
        first_unknown(known) < known.len(),
        !known[first_unknown(known) as int],
    decreases known.len(),
{
    if known[0] {
        assert(known.skip(1)[i - 1] == known[i]);
        law_a_batch_is_checked_first(known.skip(1), i - 1);
        assert(known.skip(1)[first_unknown(known.skip(1)) as int] == known[first_unknown(
            known,
        ) as int]);
    }
}

} // verus!
