//! The agent conversation with a local model: ask the model, run the tools it
//! calls, feed their output back, until it answers or the turns run out.

use vstd::prelude::*;
use crate::messages::{
    AIAgentInput, AgentMessage, AgentMessageView, NonStreamingMessage, NonStreamingResponse,
    ToolCallInfo, ToolCallView, agent_messages_view, build_initial_messages, duplicate_tool_calls,
    initial_messages, ov, tool_calls_view,
};
use crate::text::{is_blank, trim_is_empty};

verus! {

/// The most requests one agent answer may take.
pub const MAX_ITERATIONS: usize = 10;

/// The answer given when the model returns no text.
pub open spec fn empty_answer() -> Seq<char> {
    "The local model did not return any content."@
}

/// The answer reported for the model's final text: the text, or a notice when
/// it is blank.
pub open spec fn final_answer(t: Seq<char>) -> Seq<char> {
    if is_blank(t) {
        empty_answer()
    } else {
        t
    }
}

/// What the conversation needs next.
#[derive(Debug)]
pub enum AgentAction {
    /// Send the conversation so far to the model.
    Request,
    /// Run this tool call and report its output with `on_tool_result`.
    RunTool(ToolCallInfo),
    /// The conversation is over; this is the answer.
    Finish(String),
}

/// An agent action as plain values.
pub enum AgentActionView {
    Request,
    RunTool(ToolCallView),
    Finish(Seq<char>),
}

/// The view of an agent action.
pub open spec fn action_view(a: AgentAction) -> AgentActionView {
    match a {
        AgentAction::Request => AgentActionView::Request,
        AgentAction::RunTool(tc) => AgentActionView::RunTool(tc@),
        AgentAction::Finish(t) => AgentActionView::Finish(t@),
    }
}

/// Why a model's reply cannot continue the conversation.
#[derive(Debug, Clone, Copy, PartialEq, Eq, Structural)]
pub enum AgentError {
    /// The reply holds no choice.
    NoChoices,
}

impl AgentError {
    /// The error's message.
    pub fn message(&self) -> (r: String)
        ensures
            r@ == "LLM returned no choices"@,
    {
        String::from_str("LLM returned no choices")
    }
}

/// The state of an agent conversation.
#[derive(Debug)]
pub struct AgentLoop {
    messages: Vec<AgentMessage>,
    requests: usize,
    pending: Vec<ToolCallInfo>,
    answered: usize,
    finished: Option<String>,
}

/// The state of an agent conversation as plain values: the messages so far, the
/// number of requests made, the tool calls of the last reply and how many of
/// them have been answered, and the model's final text once it came.
pub struct AgentLoopView {
    pub messages: Seq<AgentMessageView>,
    pub requests: nat,
    pub pending: Seq<ToolCallView>,
    pub answered: nat,
    pub finished: Option<Seq<char>>,
}

impl View for AgentLoop {
    type V = AgentLoopView;

    closed spec fn view(&self) -> AgentLoopView {
        AgentLoopView {
            messages: agent_messages_view(self.messages@),
            requests: self.requests as nat,
            pending: tool_calls_view(self.pending@),
            answered: self.answered as nat,
            finished: ov(self.finished),
        }
    }
}

/// The message that records a reply calling tools.
pub open spec fn assistant_message(content: Option<Seq<char>>, calls: Seq<ToolCallView>) -> AgentMessageView {
    AgentMessageView {
        role: "assistant"@,
        content,
        tool_calls: Some(calls),
        tool_call_id: None,
        name: None,
    }
}

/// The message that reports a tool's output for a call.
pub open spec fn tool_message(call: ToolCallView, output: Seq<char>) -> AgentMessageView {
    AgentMessageView {
        role: "tool"@,
        content: Some(output),
        tool_calls: None,
        tool_call_id: Some(call.id),
        name: Some(call.name),
    }
}

/// What the conversation in state `v` needs next.
pub open spec fn spec_next_action(v: AgentLoopView) -> AgentActionView {
    match v.finished {
        Some(t) => AgentActionView::Finish(final_answer(t)),
        None => if v.answered < v.pending.len() {
            AgentActionView::RunTool(v.pending[v.answered as int])
        } else if v.requests < MAX_ITERATIONS {
            AgentActionView::Request
        } else {
            AgentActionView::Finish(final_answer(Seq::empty()))
        },
    }
}

/// The text of a reply's message, empty when it has none.
pub open spec fn reply_text(m: NonStreamingMessage) -> Seq<char> {
    match ov(m.content) {
        Some(t) => t,
        None => Seq::empty(),
    }
}

/// The tool calls of a reply's message, none when it has none.
pub open spec fn reply_calls(m: NonStreamingMessage) -> Seq<ToolCallView> {
    match m.tool_calls {
        Some(v) => tool_calls_view(v@),
        None => Seq::empty(),
    }
}

/// The state after the model's reply `m` to a request in state `v`: a reply
/// without tool calls ends the conversation with its text; one with tool calls
/// is recorded and its calls await their output.
pub open spec fn spec_after_reply(v: AgentLoopView, m: NonStreamingMessage) -> AgentLoopView {
    if reply_calls(m).len() == 0 {
        AgentLoopView { requests: v.requests + 1, finished: Some(reply_text(m)), ..v }
    } else {
        AgentLoopView {
            messages: v.messages.push(assistant_message(ov(m.content), reply_calls(m))),
            requests: v.requests + 1,
            pending: reply_calls(m),
            answered: 0,
            finished: None,
        }
    }
}

/// The state a conversation starts in: the system prompt and the user's
/// messages, no request made.
pub open spec fn start_view(inputs: Seq<AIAgentInput>, cwd: Seq<char>) -> AgentLoopView {
    AgentLoopView {
        messages: initial_messages(inputs, cwd),
        requests: 0,
        pending: Seq::empty(),
        answered: 0,
        finished: None,
    }
}

/// The state after the output `out` of the tool call that the conversation in
/// state `v` asked for: the output is recorded for that call.
pub open spec fn spec_after_output(v: AgentLoopView, out: Seq<char>) -> AgentLoopView {
    AgentLoopView {
        messages: v.messages.push(tool_message(v.pending[v.answered as int], out)),
        answered: v.answered + 1,
        ..v
    }
}

/// The state after the outputs `outs`, taken in order.
pub open spec fn spec_after_outputs(v: AgentLoopView, outs: Seq<Seq<char>>) -> AgentLoopView
    decreases outs.len(),
{
    if outs.len() == 0 {
        v
    } else {
        spec_after_output(spec_after_outputs(v, outs.drop_last()), outs.last())
    }
}

/// One round of a conversation: a reply of the model that calls tools, and
/// the outputs of those calls in order.
pub open spec fn round_fits(round: (NonStreamingMessage, Seq<Seq<char>>)) -> bool {
    reply_calls(round.0).len() > 0 && round.1.len() == reply_calls(round.0).len()
}

/// The state after a round: the reply, then the outputs of its calls.
pub open spec fn spec_after_round(v: AgentLoopView, round: (NonStreamingMessage, Seq<Seq<char>>)) -> AgentLoopView {
    spec_after_outputs(spec_after_reply(v, round.0), round.1)
}

/// The state after the rounds, taken in order.
pub open spec fn spec_after_rounds(v: AgentLoopView, rounds: Seq<(NonStreamingMessage, Seq<Seq<char>>)>) -> AgentLoopView
    decreases rounds.len(),
{
    if rounds.len() == 0 {
        v
    } else {
        spec_after_round(spec_after_rounds(v, rounds.drop_last()), rounds.last())
    }
}

/// The messages a round adds to the conversation: the record of the reply
/// with its tool calls, then for each call, in order, the message that
/// reports its output under the call's id and tool name.
pub open spec fn round_messages(round: (NonStreamingMessage, Seq<Seq<char>>)) -> Seq<AgentMessageView> {
    seq![assistant_message(ov(round.0.content), reply_calls(round.0))] + Seq::new(
        round.1.len(),
        |i: int| tool_message(reply_calls(round.0)[i], round.1[i]),
    )
}

/// The messages the rounds add, in order.
pub open spec fn rounds_messages(rounds: Seq<(NonStreamingMessage, Seq<Seq<char>>)>) -> Seq<AgentMessageView>
    decreases rounds.len(),
{
    if rounds.len() == 0 {
        Seq::empty()
    } else {
        rounds_messages(rounds.drop_last()) + round_messages(rounds.last())
    }
}

impl AgentLoop {
    /// The invariant of a conversation: at most `MAX_ITERATIONS` requests,
    /// no more answers than calls, and none pending once finished.
    pub closed spec fn wf(&self) -> bool {
        &&& self.requests <= MAX_ITERATIONS
        &&& self.answered <= self.pending@.len()
        &&& self.finished is Some ==> self.answered == self.pending@.len()
    }

    /// A conversation in working directory `cwd` about the given inputs: it
    /// starts from the system prompt and the user's messages, no request made.
    pub fn start(inputs: &[AIAgentInput], cwd: &str) -> (r: Self)
        ensures
            r.wf(),
            r@ == start_view(inputs@, cwd@),
    {
        let r = AgentLoop {
            messages: build_initial_messages(inputs, cwd),
            requests: 0,
            pending: Vec::new(),
            answered: 0,
            finished: None,
        };
        assert(tool_calls_view(r.pending@) =~= Seq::<ToolCallView>::empty());
        r
    }

    /// The messages of the conversation so far, to be sent with a request.
    pub fn messages(&self) -> (r: &Vec<AgentMessage>)
        ensures
            agent_messages_view(r@) == self@.messages,
    {
        &self.messages
    }

    /// What the conversation needs next.
    pub fn next_action(&self) -> (r: AgentAction)
        requires
            self.wf(),
        ensures
            action_view(r) == spec_next_action(self@),
    {
        match &self.finished {
            Some(t) => {
                if trim_is_empty(t.as_str()) {
                    AgentAction::Finish(String::from_str("The local model did not return any content."))
                } else {
                    AgentAction::Finish(t.clone())
                }
            },
            None => {
                if self.answered < self.pending.len() {
                    AgentAction::RunTool(self.pending[self.answered].duplicate())
                } else if self.requests < MAX_ITERATIONS {
                    AgentAction::Request
                } else {
                    assert(is_blank(Seq::<char>::empty()));
                    AgentAction::Finish(String::from_str("The local model did not return any content."))
                }
            },
        }
    }

    /// Takes the model's reply to a request. A reply without choices is an
    /// error and leaves the state as it was.
    pub fn on_response(&mut self, response: NonStreamingResponse) -> (r: Result<(), AgentError>)
        requires
            old(self).wf(),
            spec_next_action(old(self)@) is Request,
        ensures
            final(self).wf(),
            response.choices@.len() == 0 ==> r == Err::<(), AgentError>(AgentError::NoChoices)
                && final(self)@ == old(self)@,
            response.choices@.len() > 0 ==> r is Ok && final(self)@ == spec_after_reply(
                old(self)@,
                response.choices@[0].message,
            ),
    {
        let mut response = response;
        if response.choices.len() == 0 {
            return Err(AgentError::NoChoices);
        }
        let choice = response.choices.remove(0);
        let message = choice.message;
        let ghost m = message;
        let calls: Vec<ToolCallInfo> = match message.tool_calls {
            Some(v) => v,
            None => Vec::new(),
        };
        assert(tool_calls_view(calls@) == reply_calls(m)) by {
            if m.tool_calls is None {
                assert(tool_calls_view(calls@) =~= Seq::<ToolCallView>::empty());
            }
        }
        self.requests = self.requests + 1;
        if calls.len() == 0 {
            let text = match message.content {
                Some(t) => t,
                None => String::new(),
            };
            self.finished = Some(text);
            return Ok(());
        }
        let recorded = AgentMessage {
            role: String::from_str("assistant"),
            content: message.content,
            tool_calls: Some(duplicate_tool_calls(&calls)),
            tool_call_id: None,
            name: None,
        };
        let ghost old_msgs = self.messages@;
        self.messages.push(recorded);
        assert(agent_messages_view(self.messages@) =~= agent_messages_view(old_msgs).push(recorded@));
        self.pending = calls;
        self.answered = 0;
        Ok(())
    }

    /// Reports the output of the tool call that `next_action` asked for.
    pub fn on_tool_result(&mut self, output: String)
        requires
            old(self).wf(),
            spec_next_action(old(self)@) is RunTool,
        ensures
            final(self).wf(),
            final(self)@ == spec_after_output(old(self)@, output@),
    {
        assert(self.finished is None && self.answered < self.pending@.len());
        let a = self.answered;
        let n = self.pending.len();
        assert(a < n);
        let call = &self.pending[a];
        let recorded = AgentMessage {
            role: String::from_str("tool"),
            content: Some(output),
            tool_calls: None,
            tool_call_id: Some(call.id.clone()),
            name: Some(call.function.name.clone()),
        };
        let ghost old_msgs = self.messages@;
        self.messages.push(recorded);
        assert(agent_messages_view(self.messages@) =~= agent_messages_view(old_msgs).push(recorded@));
        self.answered = a + 1;
    }
}

/// The conversation asks for a request only while fewer than `MAX_ITERATIONS`
/// requests have been made, and a reply counts one more request: so no
/// conversation makes more than `MAX_ITERATIONS` requests.
pub proof fn lemma_requests_bounded(v: AgentLoopView, m: NonStreamingMessage)
    ensures
        spec_next_action(v) is Request ==> v.requests < MAX_ITERATIONS,
        spec_next_action(v) is Request ==> spec_after_reply(v, m).requests <= MAX_ITERATIONS,
{
}

/// The answer a conversation ends with is never blank.
pub proof fn lemma_answer_never_blank(t: Seq<char>)
    ensures
        !is_blank(final_answer(t)),
{
    reveal_strlit("The local model did not return any content.");
    if is_blank(t) {
        assert(!crate::text::spec_is_whitespace(empty_answer()[0]));
    }
}

/// A reply never rewrites the conversation: the messages before it stay as
/// they were, and at most the record of its tool calls is added.
pub proof fn lemma_reply_keeps_history(v: AgentLoopView, m: NonStreamingMessage)
    ensures
        spec_after_reply(v, m).messages.len() <= v.messages.len() + 1,
        spec_after_reply(v, m).messages.subrange(0, v.messages.len() as int) == v.messages,
{
    assert(v.messages.push(assistant_message(ov(m.content), reply_calls(m))).subrange(
        0,
        v.messages.len() as int,
    ) =~= v.messages);
    assert(v.messages.subrange(0, v.messages.len() as int) =~= v.messages);
}

/// Outputs recorded in order: each answers the next pending call, and the
/// messages grow by one tool message per output.
proof fn lemma_after_outputs(w: AgentLoopView, outs: Seq<Seq<char>>)
    requires
        w.finished is None,
        w.answered + outs.len() <= w.pending.len(),
    ensures
        spec_after_outputs(w, outs) == (AgentLoopView {
            messages: w.messages + Seq::new(
                outs.len(),
                |i: int| tool_message(w.pending[w.answered + i], outs[i]),
            ),
            answered: w.answered + outs.len(),
            ..w
        }),
    decreases outs.len(),
{
    if outs.len() == 0 {
        assert(w.messages + Seq::new(0, |i: int| tool_message(w.pending[w.answered + i], outs[i]))
            =~= w.messages);
    } else {
        let front = outs.drop_last();
        lemma_after_outputs(w, front);
        let n = outs.len() - 1;
        assert(w.messages + Seq::new(
            front.len(),
            |i: int| tool_message(w.pending[w.answered + i], front[i]),
        ).push(tool_message(w.pending[w.answered + n], outs.last())) =~= w.messages + Seq::new(
            outs.len(),
            |i: int| tool_message(w.pending[w.answered + i], outs[i]),
        ));
    }
}

/// One round of the conversation. After a request, the model's reply calls
/// tools; the conversation then asks for each call in turn, in the reply's
/// order, and once every output is in, the messages are those before the
/// request followed by the round's messages (the reply with its calls, then
/// one tool message per call, with its id, its tool name and its output). It
/// then asks for the next request, unless `MAX_ITERATIONS` requests have been
/// made, when it ends with the empty-answer notice.
pub proof fn lemma_round(v: AgentLoopView, round: (NonStreamingMessage, Seq<Seq<char>>))
    requires
        spec_next_action(v) is Request,
        round_fits(round),
    ensures
        forall|i: int|
            0 <= i < round.1.len() ==> spec_next_action(
                #[trigger] spec_after_outputs(spec_after_reply(v, round.0), round.1.take(i)),
            ) == AgentActionView::RunTool(reply_calls(round.0)[i]),
        spec_after_round(v, round).messages == v.messages + round_messages(round),
        spec_after_round(v, round).requests == v.requests + 1,
        spec_next_action(spec_after_round(v, round)) == if v.requests + 1 < MAX_ITERATIONS {
            AgentActionView::Request
        } else {
            AgentActionView::Finish(final_answer(Seq::empty()))
        },
{
    let w = spec_after_reply(v, round.0);
    let calls = reply_calls(round.0);
    assert forall|i: int| 0 <= i < round.1.len() implies spec_next_action(
        #[trigger] spec_after_outputs(w, round.1.take(i)),
    ) == AgentActionView::RunTool(calls[i]) by {
        lemma_after_outputs(w, round.1.take(i));
    }
    lemma_after_outputs(w, round.1);
    assert(w.messages + Seq::new(
        round.1.len(),
        |i: int| tool_message(w.pending[w.answered + i], round.1[i]),
    ) =~= v.messages + round_messages(round));
}

/// The messages of a whole conversation. It starts from the system prompt and
/// the user's messages; after any number of rounds, at most `MAX_ITERATIONS`,
/// its messages are those followed by each round's messages in order, it has
/// made one request per round, and it asks for another request while fewer
/// than `MAX_ITERATIONS` have been made, else it ends with the empty-answer
/// notice. So the messages sent with request `j + 1` are those sent with
/// request `j`, then the reply to it, then one tool message per call.
pub proof fn lemma_conversation(
    inputs: Seq<AIAgentInput>,
    cwd: Seq<char>,
    rounds: Seq<(NonStreamingMessage, Seq<Seq<char>>)>,
)
    requires
        rounds.len() <= MAX_ITERATIONS,
        forall|j: int| 0 <= j < rounds.len() ==> round_fits(#[trigger] rounds[j]),
    ensures
        spec_after_rounds(start_view(inputs, cwd), rounds).messages == initial_messages(inputs, cwd)
            + rounds_messages(rounds),
        spec_after_rounds(start_view(inputs, cwd), rounds).requests == rounds.len(),
        spec_next_action(spec_after_rounds(start_view(inputs, cwd), rounds)) == if rounds.len()
            < MAX_ITERATIONS {
            AgentActionView::Request
        } else {
            AgentActionView::Finish(final_answer(Seq::empty()))
        },
    decreases rounds.len(),
{
    if rounds.len() == 0 {
        assert(initial_messages(inputs, cwd) + Seq::<AgentMessageView>::empty() =~= initial_messages(
            inputs,
            cwd,
        ));
    } else {
        let front = rounds.drop_last();
        assert forall|j: int| 0 <= j < front.len() implies round_fits(#[trigger] front[j]) by {
            assert(front[j] == rounds[j]);
        }
        lemma_conversation(inputs, cwd, front);
        let v = spec_after_rounds(start_view(inputs, cwd), front);
        assert(round_fits(rounds[rounds.len() - 1]));
        lemma_round(v, rounds.last());
        assert(initial_messages(inputs, cwd) + rounds_messages(front) + round_messages(rounds.last())
            =~= initial_messages(inputs, cwd) + rounds_messages(rounds));
    }
}

} // verus!
