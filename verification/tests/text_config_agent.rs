use tellar::agent::{AgentAction, AgentLoop};
use tellar::config::{mask_secret, needs_value, Config, DiscordConfig, GeminiConfig,
    RuntimeConfig};
use tellar::messages::{Message, MessageRole, MultimodalPart, ToolCallRequest};
use tellar::text::{replace_all, to_ascii_lowercase, trim, u64_to_string};
use tellar::tools::{mask_sensitive_data, truncate_output};
use tellar::workspace::{extract_channel_id, extract_id_from_folder, extract_local_image_paths,
    image_part_from_bytes, mime_for_extension, to_folder_name};

fn test_config() -> Config {
    Config {
        gemini: GeminiConfig {
            api_key: "SECRET-REDACTED-KEY".to_string(),
            model: "fake-model".to_string(),
        },
        discord: DiscordConfig {
            token: "SECRET-REDACTED-TOKEN".to_string(),
            guild_id: None,
            channel_mappings: None,
        },
        runtime: RuntimeConfig::default(),
        guardian: None,
    }
}

#[test]
fn test_u64_to_string_renders_decimal() {
    assert_eq!(u64_to_string(0), "0");
    assert_eq!(u64_to_string(7), "7");
    assert_eq!(u64_to_string(12345), "12345");
    assert_eq!(u64_to_string(u64::MAX), "18446744073709551615");
}

#[test]
fn test_replace_all_is_leftmost_and_non_overlapping() {
    assert_eq!(replace_all("aaa", "aa", "b"), "ba");
    assert_eq!(replace_all("- [ ] x - [ ] y", "[ ]", "[x]"), "- [x] x - [x] y");
    assert_eq!(replace_all("none here", "zz", "q"), "none here");
    assert_eq!(replace_all("abc", "", "q"), "abc");
}

#[test]
fn test_trim_and_lowercase() {
    assert_eq!(trim("  spaced\t\n"), "spaced");
    assert_eq!(trim("\n\n"), "");
    assert_eq!(to_ascii_lowercase("MiXeD 123 \u{9644}"), "mixed 123 \u{9644}");
}

#[test]
fn test_needs_value_flags_blanks_and_placeholders() {
    assert!(needs_value(""));
    assert!(needs_value("   "));
    assert!(needs_value("YOUR_KEY_HERE"));
    assert!(!needs_value("real-value"));
}

#[test]
fn test_mask_secret_keeps_last_five_characters() {
    assert_eq!(mask_secret("abc"), "***");
    assert_eq!(mask_secret("abcde"), "***");
    assert_eq!(mask_secret("abcdefgh"), "***defgh");
}

#[test]
fn test_mask_sensitive_data_redacts_configured_secrets() {
    let config = test_config();
    let masked = mask_sensitive_data(
        "key=SECRET-REDACTED-KEY token=SECRET-REDACTED-TOKEN",
        &config,
    );
    assert_eq!(masked, "key=[REDACTED_GEMINI_KEY] token=[REDACTED_DISCORD_TOKEN]");

    // Secrets of ten characters or fewer are left alone, so short fakes in
    // ordinary text are not mangled.
    let mut short = test_config();
    short.gemini.api_key = "fake".to_string();
    short.discord.token = "fake".to_string();
    assert_eq!(mask_sensitive_data("fake stays", &short), "fake stays");
}

#[test]
fn test_truncate_output_keeps_head_and_tail() {
    assert_eq!(truncate_output("short".to_string(), 100), "short");
    assert_eq!(truncate_output("whatever".to_string(), 0), "whatever");
    let long = "abcdefghijklmno".to_string();
    let cut = truncate_output(long, 10);
    assert!(cut.starts_with("abcde ... [TRUNCATED 5 bytes] ... klmno"));
    assert!(cut.contains("**Hint**"));
}

#[test]
fn test_runtime_config_defaults() {
    let runtime = RuntimeConfig::default();
    assert_eq!(runtime.max_turns, 50);
    assert_eq!(runtime.read_only_budget, 3);
    assert_eq!(runtime.max_tool_output_bytes, 5000);
    assert!(!runtime.privileged);
}

#[test]
fn test_agent_loop_returns_narrative_answer() {
    let mut agent = AgentLoop::new(Vec::new(), 5, 3);
    assert_eq!(agent.next_action(), AgentAction::CallModel);
    agent.begin_turn("");
    agent.on_narrative("All done.".to_string());
    assert_eq!(agent.next_action(), AgentAction::Finished);
    let (messages, answer) = agent.final_answer();
    assert_eq!(answer, "All done.");
    assert_eq!(messages.last().unwrap().role, MessageRole::Assistant);
    assert_eq!(messages.last().unwrap().parts[0].text.as_deref(), Some("All done."));
}

#[test]
fn test_agent_loop_exhausts_turns_with_sentinel() {
    let mut agent = AgentLoop::new(Vec::new(), 1, 3);
    agent.begin_turn("");
    // The model keeps asking for tool calls; the turn budget runs out.
    let batch = agent.start_batch(Some("thinking".to_string()), Vec::new(), Vec::new());
    agent.end_batch(batch);
    assert_eq!(agent.next_action(), AgentAction::Finished);
    let (_, answer) = agent.final_answer();
    assert_eq!(answer, "Max iterations reached.");
}

#[test]
fn test_agent_loop_records_tool_calls_and_continues() {
    let initial = vec![Message {
        role: MessageRole::User,
        parts: vec![MultimodalPart::text("do the thing".to_string())],
    }];
    let mut agent = AgentLoop::new(initial, 3, 3);
    agent.begin_turn("");
    let calls = vec![ToolCallRequest {
        id: "c1".to_string(),
        name: "ls".to_string(),
        args: "{}".to_string(),
    }];
    let mut batch = agent.start_batch(Some("listing".to_string()), calls, Vec::new());
    loop {
        match batch.advance() {
            tellar::batch::BatchStep::Invoke => {
                batch.observe(tellar::tools::ToolExecutionResult::success(
                    "FILE a.txt".to_string(),
                ));
            }
            tellar::batch::BatchStep::CheckSteering => batch.steer(""),
            tellar::batch::BatchStep::Done => break,
        }
    }
    agent.end_batch(batch);
    assert_eq!(agent.next_action(), AgentAction::CallModel);
    agent.begin_turn("");
    agent.on_narrative("finished".to_string());
    let (messages, answer) = agent.final_answer();
    assert_eq!(answer, "finished");
    // The session kept: opening user message, the assistant thought, the
    // tool result, and the final assistant answer.
    assert_eq!(messages.len(), 4);
    assert_eq!(messages[1].parts[0].text.as_deref(), Some("Thought: listing"));
    assert_eq!(messages[2].role, MessageRole::ToolResult);
}

#[test]
fn test_to_folder_name_and_id_roundtrip() {
    assert_eq!(to_folder_name("general", "123456789"), "general (456789)");
    assert_eq!(to_folder_name("ops", "42"), "ops (42)");
    assert_eq!(extract_id_from_folder("general (456789)").as_deref(), Some("456789"));
    assert_eq!(extract_id_from_folder("no anchor"), None);
    assert_eq!(extract_id_from_folder("bad (12x4)"), None);
}

#[test]
fn test_extract_channel_id_prefers_header_binding() {
    let bound = "---\nstatus: open\norigin_channel: 987654\n---\nbody";
    assert_eq!(extract_channel_id(bound, "general (456789)"), "987654");
    // A null binding falls back to the folder anchor.
    let null_bound = "---\nstatus: open\norigin_channel: \"0\"\n---\nbody";
    assert_eq!(extract_channel_id(null_bound, "general (456789)"), "456789");
    assert_eq!(extract_channel_id("no header", "plain-folder"), "0");
}

#[test]
fn test_extract_local_image_paths_finds_references() {
    let text = "see (local: [file://brain/attachments/a.png]) and (local: [file://b.jpg])";
    let paths = extract_local_image_paths(text);
    assert_eq!(paths, vec!["brain/attachments/a.png".to_string(), "b.jpg".to_string()]);
    assert!(extract_local_image_paths("nothing embedded").is_empty());
}

#[test]
fn test_image_part_encodes_bytes_and_mime() {
    assert_eq!(mime_for_extension("png"), "image/png");
    assert_eq!(mime_for_extension("jpeg"), "image/jpeg");
    assert_eq!(mime_for_extension("bin"), "image/png");

    // The inline data is the real base64 rendering, not the raw bytes.
    let part = image_part_from_bytes("photo.jpg", &b"hello".to_vec());
    let inline = part.inline_data.unwrap();
    assert_eq!(inline.mime_type, "image/jpeg");
    assert_eq!(inline.data, "aGVsbG8=");
}
