//! The tool batch policy: how many calls from one model turn may run before
//! the model must be asked again.
//!
//! One `BatchExecution` processes the ordered calls of one turn. The driver
//! alternates with it: the machine decides, the driver performs the one tool
//! invocation or blackboard read the machine asks for and hands the plain
//! result back. Every decision — repeated-call detection, the read-only
//! budget, the one-write rule, stagnation and error streaks, steering — is
//! made here, verified.
//!
//! Law: in a finished batch every call has received an observation message
//! (executed or skipped), so the observation count equals the call count;
//! and when call `i` triggered a stop, every call after `i` received an
//! error-flagged observation carrying that stop's skip reason.

use vstd::prelude::*;

use crate::context::update_history_with_steering;
use crate::messages::{is_text_message, Message, MessageRole, ToolCallRequest};
use crate::tools::{call_signature_seq, is_read_only_tool, is_write_tool,
    observation_signature_seq, opt_str_matches, push_system_note, push_tool_result_message,
    skip_remaining_tool_calls, system_note_seq, tool_call_signature, tool_observation_signature,
    is_tool_result_message, ToolBatchState, ToolExecutionResult};
use crate::text::u64_to_string;

verus! {

/// Number of tool-result messages in a message sequence.
pub open spec fn tool_result_count(s: Seq<Message>) -> int
    decreases s.len(),
{
    if s.len() == 0 {
        0
    } else {
        tool_result_count(s.drop_last()) + if s.last().role == MessageRole::ToolResult {
            1int
        } else {
            0int
        }
    }
}

proof fn lemma_count_push(s: Seq<Message>, m: Message)
    ensures
        tool_result_count(s.push(m)) == tool_result_count(s) + if m.role
            == MessageRole::ToolResult {
            1int
        } else {
            0int
        },
{
    assert(s.push(m).drop_last() =~= s);
    assert(s.push(m).last() == m);
}

proof fn lemma_prefix_pointwise(s: Seq<Message>, t: Seq<Message>)
    requires
        t.len() >= s.len(),
        t.subrange(0, s.len() as int) == s,
    ensures
        forall|p: int| 0 <= p < s.len() ==> #[trigger] t[p] == s[p],
{
    assert forall|p: int| 0 <= p < s.len() implies #[trigger] t[p] == s[p] by {
        assert(t.subrange(0, s.len() as int)[p] == t[p]);
    }
}

proof fn lemma_count_extend_tool_results(s: Seq<Message>, t: Seq<Message>)
    requires
        t.len() >= s.len(),
        t.subrange(0, s.len() as int) == s,
        forall|j: int| s.len() <= j < t.len() ==> t[j].role == MessageRole::ToolResult,
    ensures
        tool_result_count(t) == tool_result_count(s) + t.len() - s.len(),
        user_count(t) == user_count(s),
    decreases t.len() - s.len(),
{
    if t.len() > s.len() {
        let t0 = t.drop_last();
        assert(t0.subrange(0, s.len() as int) =~= s);
        lemma_count_extend_tool_results(s, t0);
        lemma_user_count_push(t0, t.last());
        assert(t0.push(t.last()) =~= t);
    } else {
        assert(t =~= s);
    }
}

/// Number of user-role messages in a message sequence.
pub open spec fn user_count(s: Seq<Message>) -> int
    decreases s.len(),
{
    if s.len() == 0 {
        0
    } else {
        user_count(s.drop_last()) + if s.last().role == MessageRole::User {
            1int
        } else {
            0int
        }
    }
}

proof fn lemma_user_count_push(s: Seq<Message>, m: Message)
    ensures
        user_count(s.push(m)) == user_count(s) + if m.role == MessageRole::User {
            1int
        } else {
            0int
        },
{
    assert(s.push(m).drop_last() =~= s);
    assert(s.push(m).last() == m);
}

/// The only roles a batch ever appends: observations and user messages
/// (skips, steering, and the one note).
pub open spec fn batch_appended_role(m: Message) -> bool {
    m.role == MessageRole::ToolResult || m.role == MessageRole::User
}

/// `true` iff `m` records some observation for `call` (executed or skipped).
pub open spec fn response_message_for(m: Message, call: ToolCallRequest) -> bool {
    &&& m.role == MessageRole::ToolResult
    &&& m.parts@.len() == 1
    &&& m.parts@[0].function_response is Some
    &&& m.parts@[0].function_response->0.name@ == call.name@
    &&& m.parts@[0].function_response->0.id is Some
    &&& m.parts@[0].function_response->0.id->0@ == call.id@
}

/// Some message at or after `from` records an observation for `call`.
pub open spec fn has_response_for(ms: Seq<Message>, from: int, call: ToolCallRequest) -> bool {
    exists|p: int| from <= p < ms.len() && response_message_for(#[trigger] ms[p], call)
}

/// Some message at or after `from` records an error-flagged skip for `call`
/// with exactly the text `reason`.
pub open spec fn has_skip_for(
    ms: Seq<Message>,
    from: int,
    call: ToolCallRequest,
    reason: Seq<char>,
) -> bool {
    exists|p: int|
        from <= p < ms.len() && is_tool_result_message(#[trigger] ms[p], call, true, reason)
}

/// A streak counter grown by one, held at the machine's ceiling.
pub open spec fn sat_inc(x: usize) -> int {
    if x == usize::MAX {
        x as int
    } else {
        x + 1
    }
}

/// Whether rereading `content` would append a new user message to a session
/// whose messages are `ms`.
pub open spec fn steering_appends(ms: Seq<Message>, content: Seq<char>) -> bool {
    match crate::context::steering_candidate(content) {
        Some(b) => crate::context::last_user_text(ms) != Some(b),
        None => false,
    }
}

/// What the driver must do next for a batch.
#[derive(Clone, Copy, Debug, PartialEq, Eq, Structural)]
pub enum BatchStep {
    /// Invoke the current call through the capability registry and hand the
    /// observation back.
    Invoke,
    /// Reread the owning thread file and hand its content back.
    CheckSteering,
    /// The batch is finished.
    Done,
}

#[derive(Clone, Copy, Debug, PartialEq, Eq, Structural)]
pub enum BatchPhase {
    Deciding,
    AwaitingObservation,
    AwaitingSteering,
    Finished,
}

/// One turn's batch of tool calls, processed in order under the batch
/// policy.
pub struct BatchExecution {
    pub messages: Vec<Message>,
    pub calls: Vec<ToolCallRequest>,
    pub budget: usize,
    pub state: ToolBatchState,
    pub index: usize,
    pub read_only_calls: usize,
    pub stop_reason: Option<String>,
    pub phase: BatchPhase,
    /// The session as it was when the batch started.
    pub base: Ghost<Seq<Message>>,
    /// Once the batch was cut at call `i`: `i` and the skip reason handed to
    /// every later call.
    pub cut: Ghost<Option<(int, Seq<char>)>>,
    /// How many steering messages this batch has injected.
    pub steered: Ghost<int>,
}

impl BatchExecution {
    /// The messages this batch has appended to the session.
    pub open spec fn appended(self) -> Seq<Message> {
        self.messages@.skip(self.base@.len() as int)
    }

    /// How many calls have received their observation message.
    pub open spec fn processed(self) -> int {
        match self.phase {
            BatchPhase::Deciding => self.index as int,
            BatchPhase::AwaitingObservation => self.index as int,
            BatchPhase::AwaitingSteering => self.index + 1,
            BatchPhase::Finished => self.calls@.len() as int,
        }
    }

    pub open spec fn wf(self) -> bool {
        &&& self.budget >= 1
        &&& self.read_only_calls <= self.processed()
        &&& self.base@.len() <= self.messages@.len()
        &&& self.messages@.subrange(0, self.base@.len() as int) == self.base@
        &&& match self.phase {
            BatchPhase::Deciding => self.index < self.calls@.len(),
            BatchPhase::AwaitingObservation => self.index < self.calls@.len(),
            BatchPhase::AwaitingSteering => self.index < self.calls@.len(),
            BatchPhase::Finished => true,
        }
        &&& tool_result_count(self.appended()) == self.processed()
        &&& forall|j: int|
            0 <= j < self.processed() ==> has_response_for(
                self.messages@,
                self.base@.len() as int,
                #[trigger] self.calls@[j],
            )
        &&& match self.cut@ {
            Some((c, reason)) => {
                &&& self.phase == BatchPhase::Finished
                &&& 0 <= c < self.calls@.len()
                &&& self.stop_reason is Some
                &&& forall|j: int|
                    c < j < self.calls@.len() ==> has_skip_for(
                        self.messages@,
                        self.base@.len() as int,
                        #[trigger] self.calls@[j],
                        reason,
                    )
            },
            None => true,
        }
        &&& match self.stop_reason {
            Some(r) => {
                &&& self.phase == BatchPhase::Finished
                &&& self.messages@.len() > self.base@.len()
                &&& is_text_message(self.messages@.last(), MessageRole::User, system_note_seq(r@))
            },
            None => true,
        }
        // The frame: a batch appends only observations and user messages,
        // and its user messages are the injected steering ones plus the one
        // note of a stopped batch — so no note appears without a stop.
        &&& self.steered@ >= 0
        &&& user_count(self.appended()) == self.steered@ + (if self.stop_reason is Some {
            1int
        } else {
            0int
        })
        &&& forall|p: int|
            self.base@.len() <= p < self.messages@.len() ==> batch_appended_role(
                #[trigger] self.messages@[p],
            )
    }

    /// Whether every call of the batch has been resolved.
    pub open spec fn complete(self) -> bool {
        self.phase == BatchPhase::Finished
    }

    /// Starts a batch over the session `messages` with the turn's `calls`,
    /// the read-only budget, and the loop's carried stagnation state.
    pub fn new(
        messages: Vec<Message>,
        calls: Vec<ToolCallRequest>,
        budget: usize,
        state: ToolBatchState,
    ) -> (r: BatchExecution)
        requires
            budget >= 1,
        ensures
            r.wf(),
            r.messages@ == messages@,
            r.base@ == messages@,
            r.calls@ == calls@,
            r.budget == budget,
            r.state == state,
            r.complete() <==> calls@.len() == 0,
            r.stop_reason is None,
            r.steered@ == 0,
    {
        let n = calls.len();
        let phase = if n == 0 {
            BatchPhase::Finished
        } else {
            BatchPhase::Deciding
        };
        let r = BatchExecution {
            base: Ghost(messages@),
            messages,
            calls,
            budget,
            state,
            index: 0,
            read_only_calls: 0,
            stop_reason: None,
            phase,
            cut: Ghost(None),
            steered: Ghost(0),
        };
        proof {
            assert(r.appended() =~= Seq::<Message>::empty());
            assert(r.messages@.subrange(0, r.base@.len() as int) =~= r.base@);
        }
        r
    }

    /// Cuts the batch after the call at `self.index`: skips every later
    /// call with `skip_reason`, appends the explanatory note `stop`, and
    /// finishes.
    fn cut_after_current(&mut self, stop: String, skip_reason: &str)
        requires
            old(self).budget >= 1,
            old(self).read_only_calls <= old(self).index + 1,
            old(self).base@.len() <= old(self).messages@.len(),
            old(self).messages@.subrange(0, old(self).base@.len() as int) == old(self).base@,
            old(self).index < old(self).calls@.len(),
            tool_result_count(old(self).appended()) == old(self).index + 1,
            forall|j: int|
                0 <= j < old(self).index + 1 ==> has_response_for(
                    old(self).messages@,
                    old(self).base@.len() as int,
                    #[trigger] old(self).calls@[j],
                ),
            old(self).stop_reason is None,
            old(self).steered@ >= 0,
            user_count(old(self).appended()) == old(self).steered@,
            forall|p: int|
                old(self).base@.len() <= p < old(self).messages@.len() ==> batch_appended_role(
                    #[trigger] old(self).messages@[p],
                ),
        ensures
            final(self).wf(),
            final(self).complete(),
            final(self).calls@ == old(self).calls@,
            final(self).base@ == old(self).base@,
            final(self).state == old(self).state,
            final(self).read_only_calls == old(self).read_only_calls,
            final(self).index == old(self).index,
            final(self).budget == old(self).budget,
            final(self).steered@ == old(self).steered@,
            final(self).stop_reason == Some(stop),
            final(self).cut@ == Some((old(self).index as int, skip_reason@)),
            final(self).messages@.len() > old(self).messages@.len(),
            final(self).messages@.subrange(0, old(self).messages@.len() as int) == old(
                self,
            ).messages@,
    {
        let ghost base_len = self.base@.len() as int;
        let ghost msgs0 = self.messages@;
        let n = self.calls.len();
        let start = self.index + 1;
        let ghost startg = start as int;
        skip_remaining_tool_calls(&mut self.messages, &self.calls, start, skip_reason);
        let ghost msgs1 = self.messages@;
        proof {
            // Earlier messages, and with them the base prefix and all
            // recorded observations, are untouched by the skips.
            lemma_prefix_pointwise(msgs0, msgs1);
            assert(msgs1.subrange(0, base_len) =~= msgs0.subrange(0, base_len));
            let app0 = msgs0.skip(base_len);
            let app1 = msgs1.skip(base_len);
            assert(app1.subrange(0, app0.len() as int) =~= app0);
            assert forall|j: int|
                app0.len() <= j < app1.len() implies (#[trigger] app1[j]).role
                == MessageRole::ToolResult by {
                let k = j + base_len - msgs0.len() + startg;
                assert(msgs0.len() + k - startg == base_len + j);
                assert(is_tool_result_message(
                    msgs1[msgs0.len() + k - startg],
                    self.calls@[k],
                    true,
                    skip_reason@,
                ));
                assert(app1[j] == msgs1[base_len + j]);
            }
            lemma_count_extend_tool_results(app0, app1);
        }
        self.stop_reason = Some(stop);
        proof {
            self.cut@ = Some((self.index as int, skip_reason@));
        }
        self.phase = BatchPhase::Finished;
        let note = match &self.stop_reason {
            Some(s) => s.clone(),
            None => String::new(),
        };
        push_system_note(&mut self.messages, note);
        proof {
            assert(self.messages@.drop_last() == msgs1);
            lemma_count_push(msgs1.skip(base_len), self.messages@.last());
            assert(self.messages@.skip(base_len) =~= msgs1.skip(base_len).push(
                self.messages@.last(),
            ));
            assert(self.messages@.subrange(0, msgs1.len() as int) =~= msgs1);
            lemma_prefix_pointwise(msgs1, self.messages@);
            assert(self.messages@.subrange(0, base_len) =~= msgs1.subrange(0, base_len));
            // The cut's skip observations, one per later call.
            assert forall|j: int|
                old(self).index < j < self.calls@.len() implies has_skip_for(
                self.messages@,
                base_len,
                #[trigger] self.calls@[j],
                skip_reason@,
            ) by {
                assert(is_tool_result_message(
                    msgs1[msgs0.len() + j - startg],
                    self.calls@[j],
                    true,
                    skip_reason@,
                ));
                let p = msgs0.len() + j - startg;
                assert(self.messages@[p] == msgs1[p]);
                assert(base_len <= p < self.messages@.len());
                assert(is_tool_result_message(self.messages@[p], self.calls@[j], true,
                    skip_reason@));
            }
            // Every processed call keeps its observation.
            assert forall|j: int| 0 <= j < self.processed() implies has_response_for(
                self.messages@,
                base_len,
                #[trigger] self.calls@[j],
            ) by {
                if j <= old(self).index {
                    assert(has_response_for(msgs0, base_len, self.calls@[j]));
                    let p = choose|p: int|
                        base_len <= p < msgs0.len() && response_message_for(
                            #[trigger] msgs0[p],
                            self.calls@[j],
                        );
                    assert(msgs1[p] == msgs0[p]);
                    assert(self.messages@[p] == msgs1[p]);
                    assert(response_message_for(self.messages@[p], self.calls@[j]));
                } else {
                    assert(is_tool_result_message(
                        msgs1[msgs0.len() + j - startg],
                        self.calls@[j],
                        true,
                        skip_reason@,
                    ));
                    let p = msgs0.len() + j - startg;
                    assert(self.messages@[p] == msgs1[p]);
                    assert(response_message_for(self.messages@[p], self.calls@[j]));
                }
            }
            assert(is_text_message(
                self.messages@.last(),
                MessageRole::User,
                system_note_seq(self.stop_reason->0@),
            ));
            // The user-message count: the skips added none, the note one.
            lemma_user_count_push(msgs1.skip(base_len), self.messages@.last());
            // Every appended message is an observation or a user message.
            assert forall|p: int|
                base_len <= p < self.messages@.len() implies batch_appended_role(
                #[trigger] self.messages@[p],
            ) by {
                if p < msgs0.len() {
                    assert(self.messages@[p] == msgs1[p]);
                    assert(msgs1[p] == msgs0[p]);
                } else if p < msgs1.len() {
                    assert(self.messages@[p] == msgs1[p]);
                    assert(msgs1.skip(base_len)[p - base_len] == msgs1[p]);
                    assert(msgs1.skip(base_len)[p - base_len].role == MessageRole::ToolResult);
                } else {
                    assert(self.messages@[p] == self.messages@.last());
                }
            }
            // Everything before the cut is untouched.
            assert(self.messages@.subrange(0, msgs0.len() as int) =~= msgs0);
        }
    }

    /// Records that the current call received its observation message, for
    /// the bookkeeping shared by the executed and the repeated-call case.
    proof fn lemma_observation_recorded(self, prev: Seq<Message>, call: ToolCallRequest)
        requires
            self.base@.len() <= prev.len(),
            prev.subrange(0, self.base@.len() as int) == self.base@,
            self.index < self.calls@.len(),
            call == self.calls@[self.index as int],
            tool_result_count(prev.skip(self.base@.len() as int)) == self.index as int,
            forall|j: int|
                0 <= j < self.index ==> has_response_for(
                    prev,
                    self.base@.len() as int,
                    #[trigger] self.calls@[j],
                ),
            self.messages@.len() == prev.len() + 1,
            self.messages@.drop_last() == prev,
            self.messages@.last().role == MessageRole::ToolResult,
            response_message_for(self.messages@.last(), call),
            forall|p: int|
                self.base@.len() <= p < prev.len() ==> batch_appended_role(#[trigger] prev[p]),
        ensures
            self.messages@.subrange(0, self.base@.len() as int) == self.base@,
            tool_result_count(self.messages@.skip(self.base@.len() as int)) == self.index + 1,
            user_count(self.messages@.skip(self.base@.len() as int)) == user_count(
                prev.skip(self.base@.len() as int),
            ),
            forall|j: int|
                0 <= j < self.index + 1 ==> has_response_for(
                    self.messages@,
                    self.base@.len() as int,
                    #[trigger] self.calls@[j],
                ),
            forall|p: int|
                self.base@.len() <= p < self.messages@.len() ==> batch_appended_role(
                    #[trigger] self.messages@[p],
                ),
    {
        let base_len = self.base@.len() as int;
        let msgs = self.messages@;
        assert(msgs.subrange(0, prev.len() as int) =~= prev);
        lemma_prefix_pointwise(prev, msgs);
        assert(msgs.subrange(0, base_len) =~= prev.subrange(0, base_len));
        assert(msgs.skip(base_len) =~= prev.skip(base_len).push(msgs.last()));
        lemma_count_push(prev.skip(base_len), msgs.last());
        lemma_user_count_push(prev.skip(base_len), msgs.last());
        assert forall|p: int|
            base_len <= p < msgs.len() implies batch_appended_role(#[trigger] msgs[p]) by {
            if p < prev.len() {
                assert(msgs[p] == prev[p]);
            } else {
                assert(msgs[p] == msgs.last());
            }
        }
        assert forall|j: int| 0 <= j < self.index + 1 implies has_response_for(
            msgs,
            base_len,
            #[trigger] self.calls@[j],
        ) by {
            if j < self.index {
                let p = choose|p: int|
                    base_len <= p < prev.len() && response_message_for(
                        #[trigger] prev[p],
                        self.calls@[j],
                    );
                assert(msgs[p] == prev[p]);
                assert(response_message_for(msgs[p], self.calls@[j]));
            } else {
                let p = msgs.len() - 1;
                assert(msgs[p] == msgs.last());
                assert(response_message_for(msgs[p], self.calls@[j]));
            }
        }
    }

    /// The next thing the driver must do; for a fresh call this applies the
    /// repeated-call rule first, which can cut the whole batch by itself.
    pub fn advance(&mut self) -> (r: BatchStep)
        requires
            old(self).wf(),
        ensures
            final(self).wf(),
            final(self).calls@ == old(self).calls@,
            final(self).base@ == old(self).base@,
            (r == BatchStep::Done) <==> final(self).complete(),
            r == BatchStep::Invoke ==> final(self).phase == BatchPhase::AwaitingObservation
                && *final(self) == old(self).with_phase(BatchPhase::AwaitingObservation),
            r == BatchStep::CheckSteering ==> final(self).phase == BatchPhase::AwaitingSteering
                && *final(self) == *old(self),
            final(self).steered@ == old(self).steered@,
            old(self).phase == BatchPhase::Deciding ==> ({
                let call = old(self).calls@[old(self).index as int];
                let repeated = old(self).state.last_call_signature is Some && old(self).state.last_call_signature->0@ == call_signature_seq(call.name@, call.args@);
                &&& ((r == BatchStep::Done) <==> repeated)
                &&& repeated ==> {
                    &&& final(self).stop_reason is Some
                    &&& final(self).stop_reason->0@ == "Repeated tool call detected."@
                    &&& final(self).cut@ == Some(
                        (
                            old(self).index as int,
                            "Skipped because the current batch was cut short and the model must reevaluate."@,
                        ),
                    )
                    // The repeated call's own observation: error-flagged,
                    // naming the repetition.
                    &&& final(self).messages@.len() > old(self).messages@.len()
                    &&& is_tool_result_message(
                        final(self).messages@[old(self).messages@.len() as int],
                        call,
                        true,
                        "Skipped repeated tool call with unchanged arguments. Change strategy."@,
                    )
                    &&& final(self).state.no_new_info_streak == sat_inc(
                        old(self).state.no_new_info_streak,
                    )
                    &&& final(self).state.repeated_error_streak == sat_inc(
                        old(self).state.repeated_error_streak,
                    )
                }
            }),
    {
        match self.phase {
            BatchPhase::Finished => BatchStep::Done,
            BatchPhase::AwaitingObservation => BatchStep::Invoke,
            BatchPhase::AwaitingSteering => BatchStep::CheckSteering,
            BatchPhase::Deciding => {
                let call_sig = tool_call_signature(&self.calls[self.index]);
                if opt_str_matches(&self.state.last_call_signature, call_sig.as_str()) {
                    let obs = ToolExecutionResult::error(
                        String::from_str(
                            "Skipped repeated tool call with unchanged arguments. Change strategy.",
                        ),
                    );
                    let ghost prev = self.messages@;
                    push_tool_result_message(&mut self.messages, &self.calls[self.index], &obs);
                    proof {
                        self.lemma_observation_recorded(prev, self.calls@[self.index as int]);
                    }
                    if self.state.no_new_info_streak < usize::MAX {
                        self.state.no_new_info_streak = self.state.no_new_info_streak + 1;
                    }
                    if self.state.repeated_error_streak < usize::MAX {
                        self.state.repeated_error_streak = self.state.repeated_error_streak + 1;
                    }
                    let ghost pushed = self.messages@;
                    self.cut_after_current(
                        String::from_str("Repeated tool call detected."),
                        "Skipped because the current batch was cut short and the model must reevaluate.",
                    );
                    proof {
                        lemma_prefix_pointwise(pushed, self.messages@);
                        assert(self.messages@[prev.len() as int] == pushed[prev.len() as int]);
                        assert(pushed[prev.len() as int] == pushed.last());
                    }
                    BatchStep::Done
                } else {
                    self.phase = BatchPhase::AwaitingObservation;
                    BatchStep::Invoke
                }
            },
        }
    }

    /// This machine with only the phase exchanged.
    pub open spec fn with_phase(self, phase: BatchPhase) -> BatchExecution {
        BatchExecution { phase, ..self }
    }

    /// The call the driver must invoke now: its name and its canonical
    /// arguments.
    pub fn current_call(&self) -> (r: (String, String))
        requires
            self.wf(),
            self.phase == BatchPhase::AwaitingObservation,
        ensures
            r.0@ == self.calls@[self.index as int].name@,
            r.1@ == self.calls@[self.index as int].args@,
    {
        (self.calls[self.index].name.clone(), self.calls[self.index].args.clone())
    }

    /// Records the observation the driver obtained for the current call,
    /// updates the stagnation state, and applies the stop rules: the
    /// read-only budget, the one-write rule, and the two streaks.
    pub fn observe(&mut self, observation: ToolExecutionResult) -> (r: ())
        requires
            old(self).wf(),
            old(self).phase == BatchPhase::AwaitingObservation,
        ensures
            final(self).wf(),
            final(self).calls@ == old(self).calls@,
            final(self).base@ == old(self).base@,
            final(self).phase == BatchPhase::AwaitingSteering || final(self).complete(),
            ({
                let call = old(self).calls@[old(self).index as int];
                let obs_sig = observation_signature_seq(observation.is_error, observation.output@);
                let same_obs = old(self).state.last_observation_signature is Some && old(self).state.last_observation_signature->0@ == obs_sig;
                let nni = if same_obs {
                    sat_inc(old(self).state.no_new_info_streak)
                } else {
                    0int
                };
                let res = if observation.is_error && same_obs {
                    sat_inc(old(self).state.repeated_error_streak)
                } else if observation.is_error {
                    1int
                } else {
                    0int
                };
                let ro = crate::tools::read_only_name(call.name@);
                let new_ro = old(self).read_only_calls + if ro {
                    1int
                } else {
                    0int
                };
                let budget_stop = ro && new_ro >= old(self).budget;
                let write_stop = crate::tools::write_name(call.name@);
                &&& final(self).state.no_new_info_streak == nni
                &&& final(self).state.repeated_error_streak == res
                &&& final(self).state.last_call_signature is Some
                &&& final(self).state.last_call_signature->0@ == call_signature_seq(
                    call.name@,
                    call.args@,
                )
                &&& final(self).state.last_observation_signature is Some
                &&& final(self).state.last_observation_signature->0@ == obs_sig
                &&& final(self).read_only_calls == new_ro
                &&& (final(self).complete() <==> (budget_stop || write_stop || res >= 2 || nni
                    >= 2))
                &&& budget_stop ==> final(self).stop_reason is Some && final(self).stop_reason->0@ == "Read-only budget reached ("@ + crate::text::dec_seq(
                    old(self).budget as int,
                ) + " calls). Reevaluate before continuing."@ && final(self).cut@ == Some(
                    (
                        old(self).index as int,
                        "Skipped because the read-only budget for this turn was reached."@,
                    ),
                )
                &&& (!budget_stop && write_stop) ==> final(self).stop_reason is Some && final(self).stop_reason->0@ == "State changed via `"@ + call.name@
                    + "`. Reevaluate before more actions."@ && final(self).cut@ == Some(
                    (
                        old(self).index as int,
                        "Skipped because workspace state changed and the model must reevaluate."@,
                    ),
                )
                &&& (!budget_stop && !write_stop && res >= 2) ==> final(self).stop_reason is Some
                    && final(self).stop_reason->0@
                    == "Repeated similar tool errors detected. Change strategy or finish."@
                    && final(self).cut@ == Some(
                    (
                        old(self).index as int,
                        "Skipped because repeated similar tool errors require a new strategy."@,
                    ),
                )
                &&& (!budget_stop && !write_stop && !(res >= 2) && nni >= 2) ==> final(self).stop_reason is Some && final(self).stop_reason->0@
                    == "Recent tool calls are not producing new information. Change strategy or finish."@
                    && final(self).cut@ == Some(
                    (
                        old(self).index as int,
                        "Skipped because recent tool calls were not producing new information."@,
                    ),
                )
                &&& !final(self).complete() ==> final(self).index == old(self).index && final(self).stop_reason is None && final(self).cut@ == old(self).cut@
                &&& final(self).steered@ == old(self).steered@
            }),
    {
        let n = self.calls.len();
        let i = self.index;
        let call_sig = tool_call_signature(&self.calls[i]);
        let ghost prev = self.messages@;
        push_tool_result_message(&mut self.messages, &self.calls[i], &observation);
        proof {
            self.lemma_observation_recorded(prev, self.calls@[i as int]);
        }
        let obs_sig = tool_observation_signature(&observation);
        let same_obs = opt_str_matches(&self.state.last_observation_signature, obs_sig.as_str());

        if same_obs {
            if self.state.no_new_info_streak < usize::MAX {
                self.state.no_new_info_streak = self.state.no_new_info_streak + 1;
            }
        } else {
            self.state.no_new_info_streak = 0;
        }

        if observation.is_error && same_obs {
            if self.state.repeated_error_streak < usize::MAX {
                self.state.repeated_error_streak = self.state.repeated_error_streak + 1;
            }
        } else if observation.is_error {
            self.state.repeated_error_streak = 1;
        } else {
            self.state.repeated_error_streak = 0;
        }

        self.state.last_call_signature = Some(call_sig);
        self.state.last_observation_signature = Some(obs_sig);

        if is_read_only_tool(self.calls[i].name.as_str()) {
            self.read_only_calls = self.read_only_calls + 1;
            if self.read_only_calls >= self.budget {
                let mut stop = String::from_str("Read-only budget reached (");
                let shown = u64_to_string(self.budget as u64);
                stop.append(shown.as_str());
                stop.append(" calls). Reevaluate before continuing.");
                self.cut_after_current(
                    stop,
                    "Skipped because the read-only budget for this turn was reached.",
                );
                return ;
            }
        }

        if is_write_tool(self.calls[i].name.as_str()) {
            let mut stop = String::from_str("State changed via `");
            stop.append(self.calls[i].name.as_str());
            stop.append("`. Reevaluate before more actions.");
            self.cut_after_current(
                stop,
                "Skipped because workspace state changed and the model must reevaluate.",
            );
            return ;
        }

        if self.state.repeated_error_streak >= 2 {
            self.cut_after_current(
                String::from_str(
                    "Repeated similar tool errors detected. Change strategy or finish.",
                ),
                "Skipped because repeated similar tool errors require a new strategy.",
            );
            return ;
        }

        if self.state.no_new_info_streak >= 2 {
            self.cut_after_current(
                String::from_str(
                    "Recent tool calls are not producing new information. Change strategy or finish.",
                ),
                "Skipped because recent tool calls were not producing new information.",
            );
            return ;
        }

        self.phase = BatchPhase::AwaitingSteering;
    }

    /// Applies the steering check: the driver rereads the owning thread
    /// file and hands its content in; a newly appended external message is
    /// injected into the session and cuts the batch.
    pub fn steer(&mut self, content: &str) -> (r: ())
        requires
            old(self).wf(),
            old(self).phase == BatchPhase::AwaitingSteering,
        ensures
            final(self).wf(),
            final(self).calls@ == old(self).calls@,
            final(self).base@ == old(self).base@,
            final(self).complete() || final(self).phase == BatchPhase::Deciding,
            final(self).state == old(self).state,
            ({
                let grew = steering_appends(old(self).messages@, content@);
                &&& grew ==> {
                    &&& final(self).complete()
                    &&& final(self).stop_reason is Some
                    &&& final(self).stop_reason->0@
                        == "A new user message arrived. Reevaluate before more actions."@
                    &&& final(self).cut@ == Some(
                        (
                            old(self).index as int,
                            "Skipped because a new user message arrived and the model must reevaluate."@,
                        ),
                    )
                }
                &&& grew ==> {
                    // The one injected message: the blackboard's candidate,
                    // as a user message, right where the batch stood.
                    &&& final(self).messages@.len() > old(self).messages@.len()
                    &&& is_text_message(
                        final(self).messages@[old(self).messages@.len() as int],
                        MessageRole::User,
                        crate::context::steering_candidate(content@)->0,
                    )
                    &&& final(self).steered@ == old(self).steered@ + 1
                }
                &&& !grew ==> {
                    &&& final(self).index == old(self).index + 1
                    &&& final(self).stop_reason is None
                    &&& final(self).cut@ == old(self).cut@
                    &&& final(self).steered@ == old(self).steered@
                    &&& (final(self).complete() <==> old(self).index + 1 == old(self).calls@.len())
                }
            }),
    {
        let n = self.calls.len();
        let before = self.messages.len();
        let ghost prev = self.messages@;
        let ghost base_len = self.base@.len() as int;
        update_history_with_steering(&mut self.messages, content);
        proof {
            if self.messages@.len() != prev.len() {
                assert(self.messages@.drop_last() == prev);
                assert(self.messages@.subrange(0, prev.len() as int) =~= prev);
                lemma_prefix_pointwise(prev, self.messages@);
                assert(self.messages@.subrange(0, base_len) =~= prev.subrange(0, base_len));
                assert(self.messages@.skip(base_len) =~= prev.skip(base_len).push(
                    self.messages@.last(),
                ));
                lemma_count_push(prev.skip(base_len), self.messages@.last());
                lemma_user_count_push(prev.skip(base_len), self.messages@.last());
                self.steered@ = self.steered@ + 1;
                assert forall|p: int|
                    base_len <= p < self.messages@.len() implies batch_appended_role(
                    #[trigger] self.messages@[p],
                ) by {
                    if p < prev.len() {
                        assert(self.messages@[p] == prev[p]);
                    } else {
                        assert(self.messages@[p] == self.messages@.last());
                    }
                }
                assert forall|j: int| 0 <= j < self.index + 1 implies has_response_for(
                    self.messages@,
                    base_len,
                    #[trigger] self.calls@[j],
                ) by {
                    let p = choose|p: int|
                        base_len <= p < prev.len() && response_message_for(
                            #[trigger] prev[p],
                            self.calls@[j],
                        );
                    assert(self.messages@[p] == prev[p]);
                    assert(response_message_for(self.messages@[p], self.calls@[j]));
                }
            }
        }
        if self.messages.len() > before {
            let ghost steered_msgs = self.messages@;
            self.cut_after_current(
                String::from_str("A new user message arrived. Reevaluate before more actions."),
                "Skipped because a new user message arrived and the model must reevaluate.",
            );
            proof {
                lemma_prefix_pointwise(steered_msgs, self.messages@);
                assert(self.messages@[prev.len() as int] == steered_msgs[prev.len() as int]);
                assert(steered_msgs[prev.len() as int] == steered_msgs.last());
            }
            return ;
        }
        self.index = self.index + 1;
        if self.index == n {
            self.phase = BatchPhase::Finished;
        } else {
            self.phase = BatchPhase::Deciding;
        }
    }

    /// Hands back the session, the carried stagnation state, and the stop
    /// reason. The batch law holds of the result: the batch appended exactly
    /// one observation message per call; a batch cut at call `i` gave every
    /// later call an error-flagged skip observation with the cut's reason;
    /// and a stopped batch carries one explanatory note.
    pub fn into_parts(self) -> (r: (Vec<Message>, ToolBatchState, Option<String>))
        requires
            self.wf(),
            self.complete(),
        ensures
            r.0@ == self.messages@,
            r.1 == self.state,
            r.2 == self.stop_reason,
            r.0@.len() >= self.base@.len(),
            r.0@.subrange(0, self.base@.len() as int) == self.base@,
            tool_result_count(r.0@.skip(self.base@.len() as int)) == self.calls@.len(),
            forall|j: int|
                0 <= j < self.calls@.len() ==> has_response_for(
                    r.0@,
                    self.base@.len() as int,
                    #[trigger] self.calls@[j],
                ),
            match self.cut@ {
                Some((c, reason)) => forall|j: int|
                    c < j < self.calls@.len() ==> has_skip_for(
                        r.0@,
                        self.base@.len() as int,
                        #[trigger] self.calls@[j],
                        reason,
                    ),
                None => true,
            },
            // A stopped batch's explanatory note is the final appended
            // message; an unstopped batch appends no note: its appended
            // user messages are exactly the injected steering ones.
            r.2 is Some ==> r.0@.len() > self.base@.len() && is_text_message(
                r.0@.last(),
                MessageRole::User,
                system_note_seq(r.2->0@),
            ),
            user_count(r.0@.skip(self.base@.len() as int)) == self.steered@ + (
            if r.2 is Some {
                1int
            } else {
                0int
            }),
            forall|p: int|
                self.base@.len() <= p < r.0@.len() ==> batch_appended_role(#[trigger] r.0@[p]),
    {
        (self.messages, self.state, self.stop_reason)
    }
}

} // verus!
