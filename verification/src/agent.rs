//! The agent loop as a state machine: the caller performs each action (a request to
//! the model, a confirmation prompt, a tool run) and hands back what came of it.

use vstd::prelude::*;
use vstd::string::StringExecFns;
use crate::history::{
    awaiting_results, calls_view, history_view, law_trim_keeps_last, law_trim_preserves_well_formed,
    lemma_push_calls,
    lemma_push_plain, lemma_push_result, opt_view, trim_history, trimmed_history, well_formed,
    Message, MessageView, ToolCall, ToolCallView,
};
use crate::text::cat2;
use crate::tools::{is_dangerous, is_dangerous_name, ToolOutcome};

verus! {

/// The most requests to the model for one question of the user.
pub const MAX_TURNS: usize = 30;

/// After this many failed tool calls in a row the loop stops.
pub const MAX_CONSECUTIVE_FAILURES: usize = 3;

/// Where the loop stands.
#[derive(PartialEq, Eq, Structural, Clone, Copy)]
pub enum Phase {
    /// A request was sent; its reply is awaited.
    AwaitingReply,
    /// The user is asked whether the current tool call may run.
    AwaitingConfirmation,
    /// The current tool call runs.
    RunningTool,
    /// The loop has ended.
    Finished,
}

/// The message of a reply of the model.
pub struct LlmReply {
    /// The text content, when it is a string.
    pub content: Option<String>,
    /// The tool calls, when the reply holds a list of them.
    pub tool_calls: Option<Vec<ToolCall>>,
}

/// What the caller hands back after performing an action.
pub enum Event {
    /// The model replied.
    Reply(LlmReply),
    /// The request could not be sent.
    SendFailed(String),
    /// The API answered with a status other than success.
    BadStatus { status: String, body: String },
    /// The reply could not be parsed.
    Unparsable(String),
    /// The user's answer to a confirmation prompt.
    Confirmed(bool),
    /// The tool ran.
    ToolDone(ToolOutcome),
}

/// What the caller is to do next.
pub enum Action {
    /// Send the history (with the tool definitions) to the model.
    Send,
    /// Ask the user whether this call may run.
    Confirm(ToolCall),
    /// Run this call.
    Run(ToolCall),
    /// The loop is over, with the final reply or an error.
    Finish(Result<String, String>),
}

/// The view of an event.
pub enum EventView {
    Reply { content: Option<Seq<char>>, tool_calls: Option<Seq<ToolCallView>> },
    SendFailed { error: Seq<char> },
    BadStatus { status: Seq<char>, body: Seq<char> },
    Unparsable { error: Seq<char> },
    Confirmed { yes: bool },
    ToolDone { text: Seq<char>, failed: bool },
}

/// The view of an action.
pub enum ActionView {
    Send,
    Confirm { call: ToolCallView },
    Run { call: ToolCallView },
    Finish { result: Result<Seq<char>, Seq<char>> },
}

impl View for Event {
    type V = EventView;

    open spec fn view(&self) -> EventView {
        match self {
            Event::Reply(r) => EventView::Reply {
                content: opt_view(r.content),
                tool_calls: match r.tool_calls {
                    Some(calls) => Some(calls_view(calls@)),
                    None => None,
                },
            },
            Event::SendFailed(e) => EventView::SendFailed { error: e@ },
            Event::BadStatus { status, body } => EventView::BadStatus {
                status: status@,
                body: body@,
            },
            Event::Unparsable(e) => EventView::Unparsable { error: e@ },
            Event::Confirmed(b) => EventView::Confirmed { yes: *b },
            Event::ToolDone(o) => EventView::ToolDone { text: o.text@, failed: o.failed },
        }
    }
}

impl View for Action {
    type V = ActionView;

    open spec fn view(&self) -> ActionView {
        match self {
            Action::Send => ActionView::Send,
            Action::Confirm(c) => ActionView::Confirm { call: c@ },
            Action::Run(c) => ActionView::Run { call: c@ },
            Action::Finish(r) => ActionView::Finish {
                result: match r {
                    Ok(s) => Ok(s@),
                    Err(s) => Err(s@),
                },
            },
        }
    }
}

/// The state of the loop.
pub struct AgentLoop {
    history: Vec<Message>,
    turns: usize,
    calls: Vec<ToolCall>,
    next: usize,
    failures: usize,
    phase: Phase,
}

/// The view of the loop's state.
pub struct AgentState {
    /// The conversation so far.
    pub history: Seq<MessageView>,
    /// How many requests were sent.
    pub turns: nat,
    /// The tool calls of the latest reply.
    pub calls: Seq<ToolCallView>,
    /// The index of the call being handled.
    pub next: nat,
    /// How many tool calls failed in a row.
    pub failures: nat,
    /// Where the loop stands.
    pub phase: Phase,
}

impl View for AgentLoop {
    type V = AgentState;

    closed spec fn view(&self) -> AgentState {
        AgentState {
            history: history_view(self.history@),
            turns: self.turns as nat,
            calls: calls_view(self.calls@),
            next: self.next as nat,
            failures: self.failures as nat,
            phase: self.phase,
        }
    }
}

/// The error when the model never stopped asking for tools.
pub open spec fn turn_limit_message() -> Seq<char> {
    "达到最大循环次数限制"@
}

/// The error when tool calls failed too often in a row.
pub open spec fn breaker_message() -> Seq<char> {
    "连续 3 次工具调用失败，已强制停止"@
}

/// The error when the model replied with neither tool calls nor text.
pub open spec fn empty_reply_message() -> Seq<char> {
    "LLM 未返回内容"@
}

/// The tool result recorded when the user refused a call.
pub open spec fn refusal_text(name: Seq<char>) -> Seq<char> {
    "[用户拒绝了 "@ + name + " 的执行]"@
}

/// The result recorded for each call left unrun when the breaker stops the loop.
pub open spec fn skip_text() -> Seq<char> {
    "[未执行: 连续 3 次工具调用失败，已强制停止]"@
}

/// The loop ends, handing back the history trimmed.
pub open spec fn finish(s: AgentState, result: Result<Seq<char>, Seq<char>>) -> (
    AgentState,
    ActionView,
) {
    (
        AgentState { history: trimmed_history(s.history), phase: Phase::Finished, ..s },
        ActionView::Finish { result },
    )
}

/// The skipped results of the calls from `from` on.
pub open spec fn skipped_results(calls: Seq<ToolCallView>, from: int) -> Seq<MessageView> {
    Seq::new(
        (calls.len() - from) as nat,
        |k: int| MessageView::ToolResult { call_id: calls[from + k].id, content: skip_text() },
    )
}

/// The breaker stops the loop: each call not yet run gets a result saying it was
/// skipped, and the loop ends with the breaker's error.
pub open spec fn trip_breaker(s: AgentState) -> (AgentState, ActionView) {
    finish(
        AgentState {
            history: s.history + skipped_results(s.calls, s.next as int),
            next: s.calls.len(),
            ..s
        },
        Err(breaker_message()),
    )
}

/// After a tool's result: the breaker trips at `MAX_CONSECUTIVE_FAILURES` failures in a
/// row, else the loop goes on.
pub open spec fn after_result(s: AgentState) -> (AgentState, ActionView) {
    if s.failures >= MAX_CONSECUTIVE_FAILURES {
        trip_breaker(s)
    } else {
        advance(s)
    }
}

/// Another request is sent, with the history trimmed, unless the turns are used up.
pub open spec fn next_turn(s: AgentState) -> (AgentState, ActionView) {
    if s.turns < MAX_TURNS {
        (
            AgentState {
                history: trimmed_history(s.history),
                turns: s.turns + 1,
                phase: Phase::AwaitingReply,
                ..s
            },
            ActionView::Send,
        )
    } else {
        finish(s, Err(turn_limit_message()))
    }
}

/// The next tool call is handled (a dangerous one after a confirmation); when the
/// calls are done, the model is asked again.
pub open spec fn advance(s: AgentState) -> (AgentState, ActionView) {
    if s.next < s.calls.len() {
        let c = s.calls[s.next as int];
        if is_dangerous_name(c.name) {
            (AgentState { phase: Phase::AwaitingConfirmation, ..s }, ActionView::Confirm { call: c })
        } else {
            (AgentState { phase: Phase::RunningTool, ..s }, ActionView::Run { call: c })
        }
    } else {
        next_turn(s)
    }
}

/// The result of the current call is recorded, and the count of failures in a row kept.
pub open spec fn record_result(s: AgentState, text: Seq<char>, failed: bool) -> AgentState {
    AgentState {
        history: s.history.push(
            MessageView::ToolResult { call_id: s.calls[s.next as int].id, content: text },
        ),
        next: s.next + 1,
        failures: if failed {
            s.failures + 1
        } else {
            0
        },
        ..s
    }
}

/// What holds of the loop's state at all times.
pub open spec fn agent_inv(s: AgentState) -> bool {
    &&& s.turns <= MAX_TURNS
    &&& s.failures <= MAX_CONSECUTIVE_FAILURES
    &&& s.phase != Phase::Finished ==> s.failures < MAX_CONSECUTIVE_FAILURES
    &&& s.next <= s.calls.len()
    &&& (s.phase == Phase::AwaitingConfirmation || s.phase == Phase::RunningTool) ==> s.next
        < s.calls.len()
    &&& s.phase == Phase::AwaitingConfirmation ==> is_dangerous_name(s.calls[s.next as int].name)
    &&& s.phase == Phase::AwaitingReply ==> s.turns >= 1
}

/// Which events the loop takes in each phase.
pub open spec fn accepts(s: AgentState, e: EventView) -> bool {
    match s.phase {
        Phase::AwaitingReply => e is Reply || e is SendFailed || e is BadStatus || e is Unparsable,
        Phase::AwaitingConfirmation => e is Confirmed,
        Phase::RunningTool => e is ToolDone,
        Phase::Finished => false,
    }
}

/// One step of the loop.
pub open spec fn step_spec(s: AgentState, e: EventView) -> (AgentState, ActionView) {
    match e {
        EventView::Reply { content, tool_calls } => match tool_calls {
            Some(calls) => advance(
                AgentState {
                    history: s.history.push(MessageView::ToolCalls { content, calls }),
                    calls,
                    next: 0,
                    ..s
                },
            ),
            None => {
                let text = match content {
                    Some(t) => t,
                    None => Seq::empty(),
                };
                if text.len() == 0 {
                    finish(s, Err(empty_reply_message()))
                } else {
                    finish(
                        AgentState {
                            history: s.history.push(MessageView::Assistant { content: text }),
                            ..s
                        },
                        Ok(text),
                    )
                }
            },
        },
        EventView::SendFailed { error } => finish(s, Err("请求失败: "@ + error)),
        EventView::BadStatus { status, body } => finish(
            s,
            Err("API 返回 "@ + status + ": "@ + body),
        ),
        EventView::Unparsable { error } => finish(s, Err("解析响应失败: "@ + error)),
        EventView::Confirmed { yes } => if yes {
            (
                AgentState { phase: Phase::RunningTool, ..s },
                ActionView::Run { call: s.calls[s.next as int] },
            )
        } else {
            advance(record_result(s, refusal_text(s.calls[s.next as int].name), false))
        },
        EventView::ToolDone { text, failed } => after_result(record_result(s, text, failed)),
    }
}

/// The loop starts on a history that ends with the user's question.
pub open spec fn start_spec(h: Seq<MessageView>) -> (AgentState, ActionView) {
    next_turn(
        AgentState {
            history: h,
            turns: 0,
            calls: Seq::empty(),
            next: 0,
            failures: 0,
            phase: Phase::AwaitingReply,
        },
    )
}

/// The index of the tool-call message whose calls are being handled.
pub open spec fn open_block(s: AgentState) -> int {
    s.history.len() - 1 - s.next
}

/// The loop is handling tool calls.
pub open spec fn in_tool_phase(s: AgentState) -> bool {
    s.phase == Phase::AwaitingConfirmation || s.phase == Phase::RunningTool
}

/// The history has the shape that the chat API expects, but for the results still to
/// come while tool calls are handled.
pub open spec fn history_ok(s: AgentState) -> bool {
    if in_tool_phase(s) {
        &&& awaiting_results(s.history, open_block(s))
        &&& s.history[open_block(s)]->calls == s.calls
    } else {
        well_formed(s.history)
    }
}

proof fn lemma_next_turn(s: AgentState)
    requires
        well_formed(s.history),
    ensures
        well_formed(next_turn(s).0.history),
{
    law_trim_preserves_well_formed(s.history);
}

proof fn lemma_advance(s: AgentState)
    requires
        s.next <= s.calls.len(),
        s.next < s.calls.len() ==> awaiting_results(s.history, open_block(s))
            && s.history[open_block(s)]->calls == s.calls,
        s.next == s.calls.len() ==> well_formed(s.history),
    ensures
        history_ok(advance(s).0),
{
    if s.next == s.calls.len() {
        lemma_next_turn(s);
    }
}

proof fn lemma_skip_completes(h: Seq<MessageView>, b: int, calls: Seq<ToolCallView>, n: int)
    requires
        awaiting_results(h, b),
        h[b]->calls == calls,
        h.len() == b + 1 + n,
        0 <= n < calls.len(),
    ensures
        well_formed(h + skipped_results(calls, n)),
    decreases calls.len() - n,
{
    let m = MessageView::ToolResult { call_id: calls[n].id, content: skip_text() };
    lemma_push_result(h, b, m);
    if n + 1 == calls.len() {
        assert(h + skipped_results(calls, n) =~= h.push(m));
    } else {
        let g = h.push(m);
        assert(g[b] == h[b]);
        lemma_skip_completes(g, b, calls, n + 1);
        assert(g + skipped_results(calls, n + 1) =~= h + skipped_results(calls, n));
    }
}

proof fn lemma_trip(r: AgentState)
    requires
        r.next <= r.calls.len(),
        r.next < r.calls.len() ==> awaiting_results(r.history, open_block(r))
            && r.history[open_block(r)]->calls == r.calls,
        r.next == r.calls.len() ==> well_formed(r.history),
    ensures
        well_formed(trip_breaker(r).0.history),
{
    let full = r.history + skipped_results(r.calls, r.next as int);
    if r.next < r.calls.len() {
        lemma_skip_completes(r.history, open_block(r), r.calls, r.next as int);
    } else {
        assert(full =~= r.history);
    }
    law_trim_preserves_well_formed(full);
}

/// Starting on a well-formed history, the loop's state has the expected shape.
pub proof fn law_start_shape(h: Seq<MessageView>)
    requires
        well_formed(h),
    ensures
        agent_inv(start_spec(h).0),
        history_ok(start_spec(h).0),
        start_spec(h).1 is Send,
        start_spec(h).0.turns == 1,
{
    law_trim_preserves_well_formed(h);
}

/// Every step keeps the state's invariant and the history's shape: whenever a request
/// is sent, and when the loop ends, every tool call in the history has its result, in
/// order.
pub proof fn law_step_keeps_shape(s: AgentState, e: EventView)
    requires
        agent_inv(s),
        history_ok(s),
        accepts(s, e),
    ensures
        agent_inv(step_spec(s, e).0),
        history_ok(step_spec(s, e).0),
{
    match e {
        EventView::Reply { content, tool_calls } => {
            match tool_calls {
                Some(calls) => {
                    let m = MessageView::ToolCalls { content, calls };
                    lemma_push_calls(s.history, m);
                    let s1 = AgentState {
                        history: s.history.push(m),
                        calls,
                        next: 0,
                        ..s
                    };
                    lemma_advance(s1);
                },
                None => {
                    let text = match content {
                        Some(t) => t,
                        None => Seq::empty(),
                    };
                    let m = MessageView::Assistant { content: text };
                    lemma_push_plain(s.history, m);
                    law_trim_preserves_well_formed(s.history.push(m));
                    law_trim_preserves_well_formed(s.history);
                },
            }
        },
        EventView::Confirmed { yes } => {
            if !yes {
                let m = MessageView::ToolResult {
                    call_id: s.calls[s.next as int].id,
                    content: refusal_text(s.calls[s.next as int].name),
                };
                lemma_push_result(s.history, open_block(s), m);
                lemma_advance(record_result(s, refusal_text(s.calls[s.next as int].name), false));
            }
        },
        EventView::ToolDone { text, failed } => {
            let m = MessageView::ToolResult { call_id: s.calls[s.next as int].id, content: text };
            lemma_push_result(s.history, open_block(s), m);
            let r = record_result(s, text, failed);
            if r.failures >= MAX_CONSECUTIVE_FAILURES {
                lemma_trip(r);
            } else {
                lemma_advance(r);
            }
        },
        _ => {
            law_trim_preserves_well_formed(s.history);
        },
    }
}

/// A request goes out only with a history in the shape the chat API expects.
pub proof fn law_request_history_well_formed(s: AgentState, e: EventView)
    requires
        agent_inv(s),
        history_ok(s),
        accepts(s, e),
        step_spec(s, e).1 is Send,
    ensures
        well_formed(step_spec(s, e).0.history),
{
    law_step_keeps_shape(s, e);
}

/// The turn counter counts the requests sent, and no request goes out once
/// `MAX_TURNS` were sent.
pub proof fn law_turns_count_requests(s: AgentState, e: EventView)
    requires
        agent_inv(s),
        accepts(s, e),
    ensures
        step_spec(s, e).0.turns == s.turns + (if step_spec(s, e).1 is Send {
            1int
        } else {
            0int
        }),
        step_spec(s, e).1 is Send ==> s.turns < MAX_TURNS,
        step_spec(s, e).0.turns <= MAX_TURNS,
{
}

/// A dangerous tool runs only right after the user confirmed that very call.
pub proof fn law_dangerous_tool_needs_confirmation(s: AgentState, e: EventView)
    requires
        agent_inv(s),
        accepts(s, e),
        step_spec(s, e).1 is Run,
        is_dangerous_name(step_spec(s, e).1->Run_call.name),
    ensures
        s.phase == Phase::AwaitingConfirmation,
        e == (EventView::Confirmed { yes: true }),
        step_spec(s, e).1->Run_call == s.calls[s.next as int],
{
}

/// The call that is run or put to the user is the current call of the latest reply.
pub proof fn law_calls_in_order(s: AgentState, e: EventView)
    requires
        agent_inv(s),
        accepts(s, e),
    ensures
        step_spec(s, e).1 is Run ==> step_spec(s, e).1->Run_call == step_spec(
            s,
            e,
        ).0.calls[step_spec(s, e).0.next as int],
        step_spec(s, e).1 is Confirm ==> step_spec(s, e).1->Confirm_call == step_spec(
            s,
            e,
        ).0.calls[step_spec(s, e).0.next as int],
{
}

/// A tool's text is recorded whole: unless the breaker trips, the newest message of the
/// history after the step is the result of the current call, with exactly the text the
/// tool gave, whatever its length.
pub proof fn law_tool_result_recorded_in_full(s: AgentState, text: Seq<char>, failed: bool)
    requires
        agent_inv(s),
        s.phase == Phase::RunningTool,
        !(failed && s.failures + 1 >= MAX_CONSECUTIVE_FAILURES),
    ensures
        step_spec(s, EventView::ToolDone { text, failed }).0.history.len() >= 1,
        step_spec(s, EventView::ToolDone { text, failed }).0.history.last() == (
        MessageView::ToolResult { call_id: s.calls[s.next as int].id, content: text }),
{
    let r = record_result(s, text, failed);
    law_trim_keeps_last(r.history);
}

/// No tool runs, no confirmation is asked and no request goes out once
/// `MAX_CONSECUTIVE_FAILURES` tool calls failed in a row.
pub proof fn law_breaker_blocks_requests(s: AgentState, e: EventView)
    requires
        agent_inv(s),
        accepts(s, e),
        step_spec(s, e).1 is Send || step_spec(s, e).1 is Run || step_spec(s, e).1 is Confirm,
    ensures
        step_spec(s, e).0.failures < MAX_CONSECUTIVE_FAILURES,
{
}

/// A failure that makes `MAX_CONSECUTIVE_FAILURES` in a row stops the loop at once with
/// the breaker's error: the failed result is recorded, every call of the reply not yet
/// run gets a result saying it was skipped, and the loop takes no further event.
pub proof fn law_breaker_trips(s: AgentState, text: Seq<char>, e2: EventView)
    requires
        agent_inv(s),
        s.phase == Phase::RunningTool,
        s.failures + 1 >= MAX_CONSECUTIVE_FAILURES,
    ensures
        ({
            let (s2, a) = step_spec(s, EventView::ToolDone { text, failed: true });
            let recorded = s.history.push(
                MessageView::ToolResult { call_id: s.calls[s.next as int].id, content: text },
            );
            &&& a == (ActionView::Finish { result: Err(breaker_message()) })
            &&& s2.history == trimmed_history(
                recorded + skipped_results(s.calls, (s.next + 1) as int),
            )
            &&& !accepts(s2, e2)
        }),
{
}

/// The loop ends with a reply only when the model gave non-empty text, which is then
/// the last message of the history before it is trimmed.
pub proof fn law_final_reply(s: AgentState, e: EventView)
    requires
        accepts(s, e),
        step_spec(s, e).1 matches ActionView::Finish { result: Ok(t) },
    ensures
        ({
            let t = step_spec(s, e).1->Finish_result->Ok_0;
            &&& t.len() > 0
            &&& e matches EventView::Reply { content: Some(c), tool_calls: None } && c == t
            &&& step_spec(s, e).0.history == trimmed_history(
                s.history.push(MessageView::Assistant { content: t }),
            )
        }),
{
}

/// The history handed back when the loop ends is trimmed: it is what trimming makes of
/// the conversation as the loop left it, which begins with the history the step began
/// with. So the trimming laws hold of it: the system prompt kept, a cut only at a
/// message of the user, at most `MAX_HISTORY` messages where a round boundary allows.
pub proof fn law_finished_history_is_trimmed(s: AgentState, e: EventView)
    requires
        accepts(s, e),
        step_spec(s, e).1 is Finish,
    ensures
        exists|x: Seq<MessageView>|
            step_spec(s, e).0.history == trimmed_history(x) && x.len() >= s.history.len()
                && #[trigger] x.subrange(0, s.history.len() as int) == s.history,
{
    let (s2, a) = step_spec(s, e);
    match e {
        EventView::Reply { content, tool_calls } => match tool_calls {
            Some(calls) => {
                let h1 = s.history.push(MessageView::ToolCalls { content, calls });
                assert(h1.subrange(0, s.history.len() as int) =~= s.history);
            },
            None => {
                let text = match content {
                    Some(t) => t,
                    None => Seq::empty(),
                };
                if text.len() == 0 {
                    assert(s.history.subrange(0, s.history.len() as int) =~= s.history);
                } else {
                    let h1 = s.history.push(MessageView::Assistant { content: text });
                    assert(h1.subrange(0, s.history.len() as int) =~= s.history);
                }
            },
        },
        EventView::Confirmed { yes } => {
            let h1 = s.history.push(
                MessageView::ToolResult {
                    call_id: s.calls[s.next as int].id,
                    content: refusal_text(s.calls[s.next as int].name),
                },
            );
            assert(h1.subrange(0, s.history.len() as int) =~= s.history);
        },
        EventView::ToolDone { text, failed } => {
            let r = record_result(s, text, failed);
            let h1 = r.history;
            assert(h1.subrange(0, s.history.len() as int) =~= s.history);
            if r.failures >= MAX_CONSECUTIVE_FAILURES {
                let full = h1 + skipped_results(r.calls, r.next as int);
                assert(full.subrange(0, s.history.len() as int) =~= s.history);
            }
        },
        _ => {
            assert(s.history.subrange(0, s.history.len() as int) =~= s.history);
        },
    }
}

/// The loop is finished exactly when it says so, and then it takes no further event.
pub proof fn law_finish_is_final(s: AgentState, e: EventView, e2: EventView)
    requires
        accepts(s, e),
    ensures
        (step_spec(s, e).1 is Finish) == (step_spec(s, e).0.phase == Phase::Finished),
        step_spec(s, e).1 is Finish ==> !accepts(step_spec(s, e).0, e2),
{
}

/// A refused call does not run: its result is the refusal, which is no failure, and
/// the loop goes on with the next call.
pub proof fn law_refusal_is_the_result(s: AgentState)
    requires
        agent_inv(s),
        s.phase == Phase::AwaitingConfirmation,
    ensures
        ({
            let c = s.calls[s.next as int];
            let r = record_result(s, refusal_text(c.name), false);
            let (s2, a) = step_spec(s, EventView::Confirmed { yes: false });
            &&& (s2, a) == advance(r)
            &&& r.history.last() == (MessageView::ToolResult { call_id: c.id, content: refusal_text(c.name) })
            &&& r.failures == 0
            &&& (a is Run || a is Confirm) ==> s2.next == s.next + 1
        }),
{
}

fn duplicate_calls(calls: &Vec<ToolCall>) -> (r: Vec<ToolCall>)
    ensures
        calls_view(r@) == calls_view(calls@),
{
    let mut r: Vec<ToolCall> = Vec::new();
    let mut i: usize = 0;
    while i < calls.len()
        invariant
            i <= calls@.len(),
            r@.len() == i,
            forall|j: int| 0 <= j < i ==> (#[trigger] r@[j])@ == calls@[j]@,
        decreases calls@.len() - i,
    {
        r.push(calls[i].duplicate());
        i = i + 1;
    }
    assert(calls_view(r@) =~= calls_view(calls@));
    r
}

impl AgentLoop {
    /// Starts the loop on the conversation, whose last message is the user's question.
    pub fn start(history: Vec<Message>) -> (r: (AgentLoop, Action))
        ensures
            (r.0@, r.1@) == start_spec(history_view(history@)),
            agent_inv(r.0@),
    {
        let mut s = AgentLoop {
            history,
            turns: 0,
            calls: Vec::new(),
            next: 0,
            failures: 0,
            phase: Phase::AwaitingReply,
        };
        proof {
            assert(calls_view(s.calls@) =~= Seq::empty());
        }
        let a = s.next_turn();
        (s, a)
    }

    /// The conversation as it stands.
    pub fn history(&self) -> (r: &Vec<Message>)
        ensures
            history_view(r@) == self@.history,
    {
        &self.history
    }

    /// The conversation, once the loop is done with it.
    pub fn into_history(self) -> (r: Vec<Message>)
        ensures
            history_view(r@) == self@.history,
    {
        self.history
    }

    /// How many requests were sent.
    pub fn turns(&self) -> (r: usize)
        ensures
            r == self@.turns,
    {
        self.turns
    }

    /// Whether the loop has ended.
    pub fn is_finished(&self) -> (r: bool)
        ensures
            r == (self@.phase == Phase::Finished),
    {
        self.phase == Phase::Finished
    }

    /// Whether the loop takes this event now.
    pub fn accepts(&self, e: &Event) -> (r: bool)
        ensures
            r == accepts(self@, e@),
    {
        match self.phase {
            Phase::AwaitingReply => match e {
                Event::Reply(_) | Event::SendFailed(_) | Event::BadStatus { .. } | Event::Unparsable(
                    _,
                ) => true,
                _ => false,
            },
            Phase::AwaitingConfirmation => match e {
                Event::Confirmed(_) => true,
                _ => false,
            },
            Phase::RunningTool => match e {
                Event::ToolDone(_) => true,
                _ => false,
            },
            Phase::Finished => false,
        }
    }

    fn finish(&mut self, result: Result<String, String>) -> (a: Action)
        ensures
            (final(self)@, a@) == finish(
                old(self)@,
                match result {
                    Ok(s) => Ok(s@),
                    Err(s) => Err(s@),
                },
            ),
    {
        trim_history(&mut self.history);
        self.phase = Phase::Finished;
        Action::Finish(result)
    }

    fn next_turn(&mut self) -> (a: Action)
        ensures
            (final(self)@, a@) == next_turn(old(self)@),
    {
        if self.turns < MAX_TURNS {
            trim_history(&mut self.history);
            self.turns = self.turns + 1;
            self.phase = Phase::AwaitingReply;
            Action::Send
        } else {
            self.finish(Err("达到最大循环次数限制".to_owned()))
        }
    }

    fn advance(&mut self) -> (a: Action)
        ensures
            (final(self)@, a@) == advance(old(self)@),
    {
        if self.next < self.calls.len() {
            let c = self.calls[self.next].duplicate();
            if is_dangerous(c.name.as_str()) {
                self.phase = Phase::AwaitingConfirmation;
                Action::Confirm(c)
            } else {
                self.phase = Phase::RunningTool;
                Action::Run(c)
            }
        } else {
            self.next_turn()
        }
    }

    fn skip_remaining(&mut self)
        requires
            old(self).next <= old(self).calls@.len(),
        ensures
            final(self)@ == (AgentState {
                history: old(self)@.history + skipped_results(old(self)@.calls, old(self).next as int),
                next: old(self)@.calls.len(),
                ..old(self)@
            }),
    {
        let ghost h0 = self@.history;
        let ghost n0 = self.next as int;
        let ghost cv = self@.calls;
        assert(h0 + skipped_results(cv, n0).take(0) =~= h0);
        while self.next < self.calls.len()
            invariant
                n0 <= self.next <= self.calls@.len(),
                cv == calls_view(self.calls@),
                history_view(self.history@) == h0 + skipped_results(cv, n0).take(self.next - n0),
                self.turns == old(self).turns,
                self.failures == old(self).failures,
                self.phase == old(self).phase,
                cv == old(self)@.calls,
                h0 == old(self)@.history,
                n0 == old(self).next,
            decreases self.calls@.len() - self.next,
        {
            let ghost before = self.history@;
            let id = self.calls[self.next].id.clone();
            self.history.push(Message::ToolResult {
                call_id: id,
                content: "[未执行: 连续 3 次工具调用失败，已强制停止]".to_owned(),
            });
            assert(history_view(self.history@) =~= history_view(before).push(
                MessageView::ToolResult { call_id: cv[self.next as int].id, content: skip_text() },
            ));
            assert(skipped_results(cv, n0).take(self.next + 1 - n0) =~= skipped_results(
                cv,
                n0,
            ).take(self.next - n0).push(skipped_results(cv, n0)[self.next - n0]));
            self.next = self.next + 1;
        }
        assert(skipped_results(cv, n0).take(self.next - n0) =~= skipped_results(cv, n0));
    }

    fn record_result(&mut self, text: String, failed: bool)
        requires
            old(self).next < old(self).calls@.len(),
            old(self).failures < MAX_CONSECUTIVE_FAILURES,
        ensures
            final(self)@ == record_result(old(self)@, text@, failed),
    {
        let n = self.calls.len();
        assert(self.next < n);
        let id = self.calls[self.next].id.clone();
        self.history.push(Message::ToolResult { call_id: id, content: text });
        self.next = self.next + 1;
        self.failures = if failed {
            self.failures + 1
        } else {
            0
        };
        proof {
            assert(history_view(self.history@) =~= history_view(old(self).history@).push(
                MessageView::ToolResult {
                    call_id: old(self)@.calls[old(self).next as int].id,
                    content: text@,
                },
            ));
        }
    }

    /// Takes what came of the last action and says what to do next.
    pub fn step(&mut self, e: Event) -> (a: Action)
        requires
            accepts(old(self)@, e@),
            agent_inv(old(self)@),
        ensures
            (final(self)@, a@) == step_spec(old(self)@, e@),
            agent_inv(final(self)@),
    {
        match e {
            Event::Reply(r) => match r.tool_calls {
                Some(calls) => {
                    let mine = duplicate_calls(&calls);
                    let ghost before = self.history@;
                    let m = Message::ToolCalls { content: r.content, calls };
                    let ghost mv = m@;
                    self.history.push(m);
                    assert(history_view(self.history@) =~= history_view(before).push(mv));
                    self.calls = mine;
                    self.next = 0;
                    self.advance()
                },
                None => {
                    let text = match r.content {
                        Some(t) => t,
                        None => String::new(),
                    };
                    if text.as_str().is_empty() {
                        self.finish(Err("LLM 未返回内容".to_owned()))
                    } else {
                        let reply = text.clone();
                        let ghost before = self.history@;
                        self.history.push(Message::Assistant { content: text });
                        assert(history_view(self.history@) =~= history_view(before).push(
                            MessageView::Assistant { content: reply@ },
                        ));
                        self.finish(Ok(reply))
                    }
                },
            },
            Event::SendFailed(err) => self.finish(Err(cat2("请求失败: ", err.as_str()))),
            Event::BadStatus { status, body } => {
                let mut m = cat2("API 返回 ", status.as_str());
                m.append(": ");
                m.append(body.as_str());
                self.finish(Err(m))
            },
            Event::Unparsable(err) => self.finish(Err(cat2("解析响应失败: ", err.as_str()))),
            Event::Confirmed(yes) => {
                if yes {
                    self.phase = Phase::RunningTool;
                    Action::Run(self.calls[self.next].duplicate())
                } else {
                    let mut t = cat2("[用户拒绝了 ", self.calls[self.next].name.as_str());
                    t.append(" 的执行]");
                    self.record_result(t, false);
                    self.advance()
                }
            },
            Event::ToolDone(o) => {
                self.record_result(o.text, o.failed);
                if self.failures >= MAX_CONSECUTIVE_FAILURES {
                    self.skip_remaining();
                    self.finish(Err("连续 3 次工具调用失败，已强制停止".to_owned()))
                } else {
                    self.advance()
                }
            },
        }
    }
}

} // verus!
