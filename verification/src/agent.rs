//! The agent loop: repeated model turns and tool batches until a narrative
//! answer or the turn budget is reached.
//!
//! The loop is a machine the driver alternates with: before each turn the
//! driver hands in the current blackboard content (steering refresh), then
//! performs the one model call and reports its result. A narrative answer
//! ends the loop; requested tool calls hand the session over to a
//! `BatchExecution` for that turn. When the turn budget runs out without a
//! narrative answer, the loop's answer is a fixed sentinel.

use vstd::prelude::*;

use crate::batch::BatchExecution;
use crate::context::{steering_post, update_history_with_steering};
use crate::messages::{is_text_message, is_text_part, Message, MessageRole, MultimodalPart,
    ToolCallRequest};
use crate::tools::ToolBatchState;

verus! {

/// What the driver of an agent loop does next.
#[derive(Clone, Copy, Debug, PartialEq, Eq, Structural)]
pub enum AgentAction {
    /// Begin a turn: refresh steering, then call the model service.
    CallModel,
    /// The loop is over; take the final answer.
    Finished,
}

/// One agent-loop run: the ordered session, a bounded turn counter, and the
/// stagnation state carried across this run's batches.
pub struct AgentLoop {
    pub messages: Vec<Message>,
    pub max_turns: usize,
    pub turn: usize,
    pub budget: usize,
    pub batch_state: ToolBatchState,
    pub outcome: Option<String>,
    /// A turn has begun and its model result is still pending.
    pub in_turn: bool,
    /// The session is currently handed over to a batch.
    pub in_batch: bool,
}

impl AgentLoop {
    pub open spec fn wf(self) -> bool {
        &&& self.budget >= 1
        &&& self.max_turns >= 1
        &&& self.turn <= self.max_turns
        &&& (self.in_batch ==> self.in_turn)
    }

    /// Starts a run; turn and read-only budgets below one are raised to one.
    pub fn new(initial_messages: Vec<Message>, max_turns: usize, read_only_budget: usize) -> (r:
        AgentLoop)
        ensures
            r.wf(),
            r.messages@ == initial_messages@,
            r.max_turns == if max_turns >= 1 {
                max_turns as int
            } else {
                1
            },
            r.budget == if read_only_budget >= 1 {
                read_only_budget as int
            } else {
                1
            },
            r.turn == 0,
            r.outcome is None,
            !r.in_turn,
            !r.in_batch,
            r.batch_state.last_call_signature is None,
            r.batch_state.last_observation_signature is None,
            r.batch_state.no_new_info_streak == 0,
            r.batch_state.repeated_error_streak == 0,
    {
        let mt = if max_turns >= 1 {
            max_turns
        } else {
            1
        };
        let bg = if read_only_budget >= 1 {
            read_only_budget
        } else {
            1
        };
        AgentLoop {
            messages: initial_messages,
            max_turns: mt,
            turn: 0,
            budget: bg,
            batch_state: Default::default(),
            outcome: None,
            in_turn: false,
            in_batch: false,
        }
    }

    /// Whether another turn runs or the loop is over.
    pub fn next_action(&self) -> (r: AgentAction)
        requires
            self.wf(),
            !self.in_turn,
        ensures
            (r == AgentAction::Finished) <==> (self.outcome is Some || self.turn
                == self.max_turns),
    {
        if self.outcome.is_some() || self.turn == self.max_turns {
            AgentAction::Finished
        } else {
            AgentAction::CallModel
        }
    }

    /// The session as the driver must send it to the model.
    pub fn session(&self) -> (r: &Vec<Message>)
        ensures
            r@ == self.messages@,
    {
        &self.messages
    }

    /// Begins one turn: counts it and refreshes steering from the current
    /// blackboard content, so an externally appended message enters the
    /// session before the model is called.
    pub fn begin_turn(&mut self, content: &str) -> (r: ())
        requires
            old(self).wf(),
            !old(self).in_turn,
            old(self).outcome is None,
            old(self).turn < old(self).max_turns,
        ensures
            final(self).wf(),
            final(self).in_turn,
            !final(self).in_batch,
            final(self).turn == old(self).turn + 1,
            final(self).outcome is None,
            final(self).max_turns == old(self).max_turns,
            final(self).budget == old(self).budget,
            final(self).batch_state == old(self).batch_state,
            steering_post(old(self).messages@, final(self).messages@, content@),
    {
        self.turn = self.turn + 1;
        update_history_with_steering(&mut self.messages, content);
        self.in_turn = true;
    }

    /// The model answered with a narrative: it is recorded as an assistant
    /// message and becomes the loop's answer.
    pub fn on_narrative(&mut self, text: String) -> (r: ())
        requires
            old(self).wf(),
            old(self).in_turn,
            !old(self).in_batch,
        ensures
            final(self).wf(),
            !final(self).in_turn,
            !final(self).in_batch,
            final(self).outcome is Some,
            final(self).outcome->0@ == text@,
            final(self).messages@.len() == old(self).messages@.len() + 1,
            final(self).messages@.drop_last() == old(self).messages@,
            is_text_message(final(self).messages@.last(), MessageRole::Assistant, text@),
    {
        let recorded = text.clone();
        let m = Message {
            role: MessageRole::Assistant,
            parts: vec![MultimodalPart::text(recorded)],
        };
        self.messages.push(m);
        self.outcome = Some(text);
        self.in_turn = false;
        proof {
            assert(final(self).messages@.drop_last() =~= old(self).messages@);
        }
    }

    /// The model requested tool calls: the raw assistant parts (or, when the
    /// model sent none, the thought as a text part) are recorded, and the
    /// session is handed to a batch over exactly those calls.
    pub fn start_batch(
        &mut self,
        thought: Option<String>,
        calls: Vec<ToolCallRequest>,
        parts: Vec<MultimodalPart>,
    ) -> (r: BatchExecution)
        requires
            old(self).wf(),
            old(self).in_turn,
            !old(self).in_batch,
        ensures
            final(self).wf(),
            final(self).in_turn,
            final(self).in_batch,
            final(self).outcome == old(self).outcome,
            final(self).turn == old(self).turn,
            final(self).max_turns == old(self).max_turns,
            final(self).budget == old(self).budget,
            r.wf(),
            r.complete() <==> calls@.len() == 0,
            r.calls@ == calls@,
            r.state == old(self).batch_state,
            r.budget == old(self).budget,
            r.stop_reason is None,
            r.base@.len() == old(self).messages@.len() + 1,
            r.base@.drop_last() == old(self).messages@,
            r.base@.last().role == MessageRole::Assistant,
            parts@.len() > 0 ==> r.base@.last().parts@ == parts@,
            parts@.len() == 0 && thought is Some ==> r.base@.last().parts@.len() == 1
                && is_text_part(r.base@.last().parts@[0], "Thought: "@ + thought->0@),
            parts@.len() == 0 && thought is None ==> r.base@.last().parts@.len() == 0,
            r.messages@ == r.base@,
    {
        let assistant_parts: Vec<MultimodalPart> = if parts.len() > 0 {
            parts
        } else {
            match thought {
                Some(v) => {
                    let mut t = String::from_str("Thought: ");
                    t.append(v.as_str());
                    vec![MultimodalPart::text(t)]
                },
                None => Vec::new(),
            }
        };
        self.messages.push(Message { role: MessageRole::Assistant, parts: assistant_parts });
        proof {
            assert(self.messages@.drop_last() =~= old(self).messages@);
        }
        let mut msgs: Vec<Message> = Vec::new();
        core::mem::swap(&mut msgs, &mut self.messages);
        let mut st: ToolBatchState = Default::default();
        core::mem::swap(&mut st, &mut self.batch_state);
        self.in_batch = true;
        BatchExecution::new(msgs, calls, self.budget, st)
    }

    /// Takes the finished batch's session and carried state back; the loop
    /// then continues with its next turn.
    pub fn end_batch(&mut self, batch: BatchExecution) -> (r: ())
        requires
            old(self).wf(),
            old(self).in_turn,
            old(self).in_batch,
            batch.wf(),
            batch.complete(),
        ensures
            final(self).wf(),
            !final(self).in_turn,
            !final(self).in_batch,
            final(self).outcome == old(self).outcome,
            final(self).turn == old(self).turn,
            final(self).max_turns == old(self).max_turns,
            final(self).budget == old(self).budget,
            final(self).messages@ == batch.messages@,
            final(self).batch_state == batch.state,
    {
        let (messages, state, _stop) = batch.into_parts();
        self.messages = messages;
        self.batch_state = state;
        self.in_batch = false;
        self.in_turn = false;
    }

    /// The loop's answer: the narrative, or the fixed sentinel when the
    /// turn budget was exhausted without one.
    pub fn final_answer(self) -> (r: (Vec<Message>, String))
        requires
            self.wf(),
            !self.in_turn,
            self.outcome is Some || self.turn == self.max_turns,
        ensures
            r.0@ == self.messages@,
            match self.outcome {
                Some(t) => r.1@ == t@,
                None => r.1@ == "Max iterations reached."@,
            },
    {
        let answer = match self.outcome {
            Some(t) => t,
            None => String::from_str("Max iterations reached."),
        };
        (self.messages, answer)
    }
}

} // verus!
