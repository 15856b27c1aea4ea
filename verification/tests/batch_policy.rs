use tellar::batch::{BatchExecution, BatchStep};
use tellar::messages::{Message, MessageRole, ToolCallRequest};
use tellar::tools::{tool_call_signature, ToolBatchState, ToolExecutionResult};

fn call(id: &str, name: &str, args: &str) -> ToolCallRequest {
    ToolCallRequest { id: id.to_string(), name: name.to_string(), args: args.to_string() }
}

/// Drives one batch to completion: `outcomes` feeds the requested tool
/// invocations in order, `content` answers every steering reread.
fn run_batch(
    calls: Vec<ToolCallRequest>,
    budget: usize,
    state: ToolBatchState,
    outcomes: Vec<ToolExecutionResult>,
    content: &str,
) -> (Vec<Message>, ToolBatchState, Option<String>) {
    let mut machine = BatchExecution::new(Vec::new(), calls, budget, state);
    let mut outcomes = outcomes.into_iter();
    loop {
        match machine.advance() {
            BatchStep::Invoke => {
                let obs = outcomes.next().expect("driver ran out of outcomes");
                machine.observe(obs);
            }
            BatchStep::CheckSteering => {
                machine.steer(content);
            }
            BatchStep::Done => break,
        }
    }
    machine.into_parts()
}

fn tool_result_count(messages: &[Message]) -> usize {
    messages.iter().filter(|m| m.role == MessageRole::ToolResult).count()
}

fn last_text(messages: &[Message]) -> String {
    messages.last().unwrap().parts[0].text.clone().unwrap()
}

#[test]
fn test_execute_tool_batch_stops_after_write() {
    let calls = vec![
        call("call-1", "write", "{\"path\":\"note.txt\",\"content\":\"hello\"}"),
        call("call-2", "read", "{\"path\":\"note.txt\"}"),
    ];
    let outcomes = vec![ToolExecutionResult::success(
        "Successfully wrote to note.txt".to_string(),
    )];
    let (messages, _, stop) = run_batch(calls, 3, ToolBatchState::default(), outcomes, "");

    assert_eq!(tool_result_count(&messages), 2);
    assert!(stop.is_some());
    let note = last_text(&messages);
    assert!(note.contains("State changed via `write`"));
}

#[test]
fn test_execute_tool_batch_skips_repeated_call() {
    let calls = vec![
        call("call-1", "find", "{\"name\":\"alpha\"}"),
        call("call-2", "ls", "{\"path\":\".\"}"),
    ];
    let mut state = ToolBatchState::default();
    state.last_call_signature = Some(tool_call_signature(&calls[0]));

    let (messages, _, _) = run_batch(calls, 3, state, Vec::new(), "");

    assert_eq!(tool_result_count(&messages), 2);
    let note = last_text(&messages);
    assert!(note.contains("Repeated tool call detected"));
}

#[test]
fn test_execute_tool_batch_enforces_read_only_budget() {
    let calls = vec![
        call("call-1", "find", "{\"name\":\"alpha\",\"path\":\"docs\"}"),
        call("call-2", "ls", "{\"path\":\"docs\"}"),
        call("call-3", "grep", "{\"pattern\":\"find me\",\"path\":\"docs\"}"),
        call("call-4", "read", "{\"path\":\"docs/alpha.txt\"}"),
        call("call-5", "find", "{\"name\":\"beta\",\"path\":\"docs\"}"),
    ];
    let outcomes = vec![
        ToolExecutionResult::success("FILE docs/alpha.txt".to_string()),
        ToolExecutionResult::success("FILE docs/alpha.txt\nFILE docs/beta.txt".to_string()),
        ToolExecutionResult::success("docs/alpha.txt:2: find me".to_string()),
    ];
    let (messages, _, _) = run_batch(calls, 3, ToolBatchState::default(), outcomes, "");

    assert_eq!(tool_result_count(&messages), 5);
    let note = last_text(&messages);
    assert!(note.contains("Read-only budget reached"));
}

#[test]
fn test_repeated_identical_calls_second_skipped() {
    // Two consecutive identical calls: the second is skipped with a
    // repeated-call reason, and both still receive an observation.
    let calls = vec![
        call("call-1", "find", "{\"name\":\"alpha\"}"),
        call("call-2", "find", "{\"name\":\"alpha\"}"),
    ];
    let outcomes = vec![ToolExecutionResult::success("FILE docs/alpha.txt".to_string())];
    let (messages, _, stop) = run_batch(calls, 3, ToolBatchState::default(), outcomes, "");

    assert_eq!(tool_result_count(&messages), 2);
    assert!(stop.unwrap().contains("Repeated"));
    // The second call's own observation names the repetition.
    let second = messages
        .iter()
        .filter(|m| m.role == MessageRole::ToolResult)
        .nth(1)
        .unwrap();
    let response = second.parts[0].function_response.clone().unwrap();
    assert!(response.is_error);
    assert!(response.output.contains("repeated"));
}

#[test]
fn test_read_only_budget_three_executes_exactly_three() {
    // Five read-only calls with budget three: exactly three execute, two
    // are skipped with a budget reason, and there are five observations.
    let calls = vec![
        call("c1", "read", "{\"path\":\"a\"}"),
        call("c2", "read", "{\"path\":\"b\"}"),
        call("c3", "read", "{\"path\":\"c\"}"),
        call("c4", "read", "{\"path\":\"d\"}"),
        call("c5", "read", "{\"path\":\"e\"}"),
    ];
    let outcomes = vec![
        ToolExecutionResult::success("a-text".to_string()),
        ToolExecutionResult::success("b-text".to_string()),
        ToolExecutionResult::success("c-text".to_string()),
    ];
    let (messages, _, stop) = run_batch(calls, 3, ToolBatchState::default(), outcomes, "");

    let results: Vec<_> = messages
        .iter()
        .filter(|m| m.role == MessageRole::ToolResult)
        .collect();
    assert_eq!(results.len(), 5);
    let executed = results
        .iter()
        .filter(|m| !m.parts[0].function_response.as_ref().unwrap().is_error)
        .count();
    let skipped = results
        .iter()
        .filter(|m| {
            let r = m.parts[0].function_response.as_ref().unwrap();
            r.is_error && r.output.contains("read-only budget")
        })
        .count();
    assert_eq!(executed, 3);
    assert_eq!(skipped, 2);
    assert!(stop.unwrap().contains("Read-only budget reached (3 calls)"));
}

#[test]
fn test_every_call_after_a_cut_carries_the_stop_reason() {
    // A stop at call 0 (a write) gives every later call a skip observation
    // carrying that stop's reason, and one observation per call in total.
    let calls = vec![
        call("c1", "write", "{\"path\":\"x\",\"content\":\"1\"}"),
        call("c2", "read", "{\"path\":\"x\"}"),
        call("c3", "ls", "{}"),
        call("c4", "grep", "{\"pattern\":\"p\"}"),
    ];
    let outcomes = vec![ToolExecutionResult::success("Successfully wrote to x".to_string())];
    let (messages, _, _) = run_batch(calls, 3, ToolBatchState::default(), outcomes, "");

    let results: Vec<_> = messages
        .iter()
        .filter(|m| m.role == MessageRole::ToolResult)
        .collect();
    assert_eq!(results.len(), 4);
    for skipped in &results[1..] {
        let r = skipped.parts[0].function_response.as_ref().unwrap();
        assert!(r.is_error);
        assert_eq!(
            r.output,
            "Skipped because workspace state changed and the model must reevaluate."
        );
    }
}

#[test]
fn test_steering_interrupt_cuts_the_batch() {
    // A user message that appears on the blackboard between two calls cuts
    // the batch with a new-input reason.
    let calls = vec![
        call("c1", "read", "{\"path\":\"a\"}"),
        call("c2", "read", "{\"path\":\"b\"}"),
    ];
    let outcomes = vec![ToolExecutionResult::success("a-text".to_string())];
    let content = "**Author**: User1 | **Time**: 12:01\n\nSTOP!\n";
    let (messages, _, stop) = run_batch(calls, 5, ToolBatchState::default(), outcomes, content);

    assert!(stop.unwrap().contains("A new user message arrived"));
    assert_eq!(tool_result_count(&messages), 2);
    // The steering message itself entered the session.
    assert!(messages
        .iter()
        .any(|m| m.role == MessageRole::User
            && m.parts.first().and_then(|p| p.text.clone()) == Some("STOP!".to_string())));
}

#[test]
fn test_repeated_error_streak_stops_the_batch() {
    // Two equal error observations in a row stop the batch.
    let calls = vec![
        call("c1", "read", "{\"path\":\"a\"}"),
        call("c2", "read", "{\"path\":\"b\"}"),
        call("c3", "read", "{\"path\":\"c\"}"),
    ];
    let outcomes = vec![
        ToolExecutionResult::error("Error: File not found: a".to_string()),
        ToolExecutionResult::error("Error: File not found: a".to_string()),
    ];
    let (messages, _, stop) = run_batch(calls, 5, ToolBatchState::default(), outcomes, "");

    assert!(stop.unwrap().contains("Repeated similar tool errors"));
    assert_eq!(tool_result_count(&messages), 3);
}

#[test]
fn test_no_new_information_streak_stops_the_batch() {
    // Two successful but identical observations in a row stop the batch.
    let calls = vec![
        call("c1", "ls", "{\"path\":\"a\"}"),
        call("c2", "ls", "{\"path\":\"b\"}"),
        call("c3", "ls", "{\"path\":\"c\"}"),
        call("c4", "ls", "{\"path\":\"d\"}"),
    ];
    let outcomes = vec![
        ToolExecutionResult::success("same listing".to_string()),
        ToolExecutionResult::success("same listing".to_string()),
        ToolExecutionResult::success("same listing".to_string()),
    ];
    let (messages, _, stop) = run_batch(calls, 5, ToolBatchState::default(), outcomes, "");

    assert!(stop.unwrap().contains("not producing new information"));
    assert_eq!(tool_result_count(&messages), 4);
}
