use tellar::args::{require_string_arg, require_string_array_arg, ArgValue};
use tellar::ctl::{extract_json_object, format_command, render_service_template,
    resolve_tellar_binary_from_current_exe, strip_markdown_fence};
use tellar::delivery::{fenced_code_block, outbox_file_name, plan_delivery_tool,
    resolve_attachment_path, sanitize_filename, AttachmentSource, DeliveryPlan};
use tellar::session::{conversational_guidance, trigger_instruction, unsupported_request_note,
    compose_unified_prompt};
use tellar::skills::{build_relevant_skill_guidance, skill_from_installed,
    validate_installed_skill, InstalledSkill, InstalledSkillTool, SkillMetadata, SkillTool};
use tellar::tools::{is_path_safe, is_read_only_tool, is_write_tool, normalize_path,
    plan_core_tool, tool_call_signature, tool_observation_signature, ToolExecutionResult,
    ToolPlan};
use tellar::messages::ToolCallRequest;

fn object_params() -> ArgValue {
    ArgValue::Object(vec![("type".to_string(), ArgValue::Str("object".to_string()))])
}

fn args_of(entries: Vec<(&str, ArgValue)>) -> ArgValue {
    ArgValue::Object(entries.into_iter().map(|(k, v)| (k.to_string(), v)).collect())
}

#[test]
fn test_format_command_renders_args() {
    let args: Vec<String> =
        vec!["--user".to_string(), "status".to_string(), "tellar".to_string()];
    assert_eq!(format_command("systemctl", &args), "systemctl --user status tellar");
    assert_eq!(format_command("journalctl", &Vec::new()), "journalctl");
}

#[test]
fn test_render_service_template_replaces_placeholders() {
    let rendered = render_service_template(
        "ExecStart={{BINARY_PATH}} --guild {{GUILD_PATH}}\nWorkingDirectory={{GUILD_PATH}}",
        "/tmp/guild",
        "/usr/local/bin/tellar",
    );

    assert!(rendered.contains("ExecStart=/usr/local/bin/tellar --guild /tmp/guild"));
    assert!(rendered.contains("WorkingDirectory=/tmp/guild"));
    assert!(!rendered.contains("{{GUILD_PATH}}"));
    assert!(!rendered.contains("{{BINARY_PATH}}"));
}

#[test]
fn test_sanitize_filename_strips_path_and_replaces_unsafe_chars() {
    assert_eq!(sanitize_filename("../bad name?.txt"), "bad_name_.txt");
}

#[test]
fn test_sanitize_filename_falls_back_for_directory_like_names() {
    assert_eq!(sanitize_filename(""), "artifact.txt");
    assert_eq!(sanitize_filename(".."), "artifact.txt");
    assert_eq!(sanitize_filename("/"), "artifact.txt");
    assert_eq!(sanitize_filename("reports/summary-v2.md"), "summary-v2.md");
}

#[test]
fn test_resolve_tellar_binary_from_current_exe_uses_sibling_binary() {
    let resolved = resolve_tellar_binary_from_current_exe("/opt/bin/tellarctl", true).unwrap();
    assert_eq!(resolved, "/opt/bin/tellar");
}

#[test]
fn test_resolve_tellar_binary_from_current_exe_errors_when_missing() {
    let err = resolve_tellar_binary_from_current_exe("/opt/bin/tellarctl", false).unwrap_err();
    assert!(err.contains("could not find the `tellar` binary"));
}

#[test]
fn test_extract_json_object_strips_markdown_fence() {
    let json = extract_json_object("```json\n{\"name\":\"demo\"}\n```").unwrap();
    assert_eq!(json, "{\"name\":\"demo\"}");
}

#[test]
fn test_extract_json_object_accepts_bare_and_rejects_prose() {
    assert_eq!(extract_json_object("  {\"a\":1} ").unwrap(), "{\"a\":1}");
    let err = extract_json_object("no json here").unwrap_err();
    assert_eq!(err, "model output did not contain a JSON object");
}

#[test]
fn test_strip_markdown_fence_handles_plain_fences() {
    assert_eq!(strip_markdown_fence("```\n{\"a\":1}\n```"), "{\"a\":1}");
    assert_eq!(strip_markdown_fence("  plain  "), "plain");
}

#[test]
fn test_unsupported_request_note_detects_absolute_path() {
    let note =
        unsupported_request_note("\u{8bf7}\u{8bfb}\u{53d6} /root/process_intel.py", false)
            .unwrap();
    assert!(note.contains("Call `exec` first"));
}

#[test]
fn test_unsupported_request_note_detects_attachment_request() {
    let note = unsupported_request_note("\u{4ee5}\u{9644}\u{4ef6}\u{53d1}\u{7ed9}\u{6211}", false)
        .unwrap();
    assert!(note.contains("cannot send file attachments"));
}

#[test]
fn test_unsupported_request_note_none_for_normal_request() {
    assert!(unsupported_request_note("Read channels/general/KNOWLEDGE.md", false).is_none());
}

#[test]
fn test_unsupported_request_note_privileged_exec_guidance() {
    let note = unsupported_request_note("check /var/log/syslog", true).unwrap();
    assert!(note.contains("Use `exec` first instead of searching"));
}

#[test]
fn test_conversational_guidance_takes_increment_after_last_answer() {
    let context = "**Author**: U | **Time**: 1\n\nhi\n\n> [Tellar] (1): answered\n\n---\n**Author**: U | **Time**: 2\n\nnext question\n";
    let guidance = conversational_guidance(context);
    assert!(guidance.starts_with("---\n**Author**: U | **Time**: 2"));
    assert!(guidance.contains("next question"));

    // Without a recorded answer the whole blackboard is the guidance.
    assert_eq!(conversational_guidance("fresh board"), "fresh board");

    // An answer with nothing after it asks for a follow-up check.
    assert_eq!(
        conversational_guidance("hi\n\n> [Tellar] (1): answered\n"),
        "Check for follow-up or ritual steps."
    );
}

#[test]
fn test_trigger_instruction_appends_message_id() {
    let with_id = trigger_instruction("do this".to_string(), Some("555"));
    assert_eq!(with_id, "do this\nSpecifically, the trigger message has ID: 555.");
    assert_eq!(trigger_instruction("do this".to_string(), None), "do this");
}

#[test]
fn test_compose_unified_prompt_uses_stock_identity_without_base() {
    assert_eq!(compose_unified_prompt(None, None), "You are Tellar, a cyber steward.");
    let composed =
        compose_unified_prompt(Some("Base.".to_string()), Some("Channel voice.".to_string()));
    assert_eq!(composed, "Base.\n\n### Channel-Specific Identity:\nChannel voice.");
}

#[test]
fn test_tool_classification_and_signatures() {
    assert!(is_read_only_tool("ls"));
    assert!(is_read_only_tool("read"));
    assert!(!is_read_only_tool("write"));
    assert!(is_write_tool("edit"));
    assert!(!is_write_tool("exec"));

    let call = ToolCallRequest {
        id: "c1".to_string(),
        name: "find".to_string(),
        args: "{\"name\":\"alpha\"}".to_string(),
    };
    assert_eq!(tool_call_signature(&call), "find:{\"name\":\"alpha\"}");
    let obs = ToolExecutionResult::error("boom".to_string());
    assert_eq!(tool_observation_signature(&obs), "true:boom");
}

#[test]
fn test_normalize_path_and_safety() {
    assert_eq!(normalize_path("guild/notes/a.md"), "notes/a.md");
    assert_eq!(normalize_path("./notes/a.md"), "notes/a.md");
    assert_eq!(normalize_path("notes/a.md"), "notes/a.md");
    assert!(is_path_safe("notes/a.md"));
    assert!(!is_path_safe("../escape"));
    assert!(!is_path_safe("/etc/passwd"));
}

#[test]
fn test_exec_tool_rejects_when_privileged_mode_is_disabled() {
    let args = args_of(vec![("command", ArgValue::Str("pwd".to_string()))]);
    match plan_core_tool("exec", &args, false) {
        ToolPlan::Reject(e) => {
            assert!(e.is_error);
            assert!(e.output.contains("runtime.privileged=false"));
        }
        _ => panic!("expected a rejection"),
    }
}

#[test]
fn test_exec_tool_runs_when_privileged_mode_is_enabled() {
    let args = args_of(vec![("command", ArgValue::Str("printf host-ok".to_string()))]);
    match plan_core_tool("exec", &args, true) {
        ToolPlan::ExecCommand { command } => assert_eq!(command, "printf host-ok"),
        _ => panic!("expected the command to be admitted"),
    }
}

#[test]
fn test_dispatch_tool_rejects_missing_write_content() {
    let args = args_of(vec![("path", ArgValue::Str("notes.txt".to_string()))]);
    match plan_core_tool("write", &args, false) {
        ToolPlan::Reject(e) => {
            assert!(e.is_error);
            assert!(e.output.contains("Missing required argument `content`"));
        }
        _ => panic!("expected a rejection"),
    }
}

#[test]
fn test_plan_core_tool_guards_paths_and_offsets() {
    let escape = args_of(vec![("path", ArgValue::Str("../secrets".to_string()))]);
    match plan_core_tool("read", &escape, false) {
        ToolPlan::Reject(e) => assert!(e.output.contains("Access denied")),
        _ => panic!("expected a rejection"),
    }
    let zero = args_of(vec![
        ("path", ArgValue::Str("a.txt".to_string())),
        ("offset", ArgValue::Num(0)),
    ]);
    match plan_core_tool("read", &zero, false) {
        ToolPlan::Reject(e) => assert!(e.output.contains("`offset` must be >= 1")),
        _ => panic!("expected a rejection"),
    }
    let fine = args_of(vec![("path", ArgValue::Str("guild/a.txt".to_string()))]);
    match plan_core_tool("read", &fine, false) {
        ToolPlan::ReadFile { path, offset, limit } => {
            assert_eq!(path, "a.txt");
            assert_eq!(offset, 1);
            assert_eq!(limit, 800);
        }
        _ => panic!("expected a read plan"),
    }
    match plan_core_tool("summarize", &args_of(vec![]), false) {
        ToolPlan::Skill { name } => assert_eq!(name, "summarize"),
        _ => panic!("expected a skill lookup"),
    }
}

#[test]
fn test_send_message_rejects_missing_content() {
    let err = require_string_arg(&args_of(vec![]), "content").unwrap_err();
    assert!(err.is_error);
    assert!(err.output.contains("Missing required argument `content`"));
}

#[test]
fn test_send_reply_rejects_missing_message_id() {
    let args = args_of(vec![("content", ArgValue::Str("hello".to_string()))]);
    let err = require_string_arg(&args, "messageId").unwrap_err();
    assert!(err.output.contains("Missing required argument `messageId`"));
}

#[test]
fn test_send_embed_rejects_missing_description() {
    let args = args_of(vec![("title", ArgValue::Str("Notice".to_string()))]);
    let err = require_string_arg(&args, "description").unwrap_err();
    assert!(err.output.contains("Missing required argument `description`"));
}

#[test]
fn test_send_attachments_rejects_missing_paths() {
    let err = require_string_array_arg(&args_of(vec![]), "paths").unwrap_err();
    assert!(err.is_error);
    assert!(err.output.contains("Missing required argument `paths`"));
    // A list without a single usable path is its own error.
    let empties = args_of(vec![(
        "paths",
        ArgValue::List(vec![ArgValue::Str("".to_string()), ArgValue::Null]),
    )]);
    let err2 = require_string_array_arg(&empties, "paths").unwrap_err();
    assert!(err2.output.contains("must contain at least one non-empty path"));
}

#[test]
fn test_send_image_rejects_missing_path() {
    let err = require_string_arg(&args_of(vec![]), "path").unwrap_err();
    assert!(err.output.contains("Missing required argument `path`"));
}

#[test]
fn test_send_attachment_rejects_absolute_path_when_privileged_mode_is_disabled() {
    let err = resolve_attachment_path("/tmp/example.txt", false).unwrap_err();
    assert!(err.is_error);
    assert!(err.output.contains("runtime.privileged=true"));
}

#[test]
fn test_resolve_attachment_path_normalizes_workspace_paths() {
    match resolve_attachment_path("/tmp/example.txt", true).unwrap() {
        AttachmentSource::Host(p) => assert_eq!(p, "/tmp/example.txt"),
        _ => panic!("expected a host path"),
    }
    match resolve_attachment_path("guild/out/report.txt", false).unwrap() {
        AttachmentSource::Workspace(p) => assert_eq!(p, "out/report.txt"),
        _ => panic!("expected a workspace path"),
    }
    let err = resolve_attachment_path("../outside.txt", false).unwrap_err();
    assert!(err.output.contains("Access denied"));
}

#[test]
fn test_fenced_code_block_and_outbox_names() {
    assert_eq!(fenced_code_block("x = 1", ""), "```\nx = 1\n```");
    assert_eq!(fenced_code_block("x = 1", "python"), "```python\nx = 1\n```");
    assert_eq!(outbox_file_name(1700000000000, "notes.txt"), "1700000000000_notes.txt");
    assert_eq!(outbox_file_name(5, "../weird name.log"), "5_weird_name.log");
}

#[test]
fn test_plan_delivery_tool_routes_and_validates() {
    // A name that is no delivery tool is passed over.
    assert!(plan_delivery_tool("ls", &args_of(vec![]), false).is_none());

    let msg = args_of(vec![("content", ArgValue::Str("hello".to_string()))]);
    match plan_delivery_tool("send_message", &msg, false).unwrap().unwrap() {
        DeliveryPlan::Message { content } => assert_eq!(content, "hello"),
        _ => panic!("expected a message plan"),
    }

    let embed = args_of(vec![
        ("title", ArgValue::Str("Notice".to_string())),
        ("description", ArgValue::Str("Body".to_string())),
        ("color", ArgValue::Num(3447003)),
    ]);
    match plan_delivery_tool("send_embed", &embed, false).unwrap().unwrap() {
        DeliveryPlan::Embed { title, description, color } => {
            assert_eq!(title, "Notice");
            assert_eq!(description, "Body");
            assert_eq!(color, Some(3447003));
        }
        _ => panic!("expected an embed plan"),
    }

    let block = args_of(vec![
        ("content", ArgValue::Str("x = 1".to_string())),
        ("language", ArgValue::Str("python".to_string())),
    ]);
    match plan_delivery_tool("send_code_block", &block, false).unwrap().unwrap() {
        DeliveryPlan::CodeBlock { content } => assert_eq!(content, "```python\nx = 1\n```"),
        _ => panic!("expected a code block plan"),
    }

    let files = args_of(vec![(
        "paths",
        ArgValue::List(vec![
            ArgValue::Str("guild/a.txt".to_string()),
            ArgValue::Str("b.txt".to_string()),
        ]),
    )]);
    match plan_delivery_tool("send_attachments", &files, false).unwrap().unwrap() {
        DeliveryPlan::Attachments { sources } => {
            assert_eq!(sources.len(), 2);
            match &sources[0] {
                AttachmentSource::Workspace(p) => assert_eq!(p, "a.txt"),
                _ => panic!("expected a workspace path"),
            }
        }
        _ => panic!("expected an attachments plan"),
    }

    // The first unusable path fails the whole call.
    let escaping = args_of(vec![(
        "paths",
        ArgValue::List(vec![ArgValue::Str("../out.txt".to_string())]),
    )]);
    let err = plan_delivery_tool("send_attachments", &escaping, false).unwrap().unwrap_err();
    assert!(err.output.contains("Access denied"));

    let artifact = args_of(vec![("content", ArgValue::Str("big text".to_string()))]);
    match plan_delivery_tool("send_text_file", &artifact, false).unwrap().unwrap() {
        DeliveryPlan::TextFile { filename, content } => {
            assert_eq!(filename, "artifact.txt");
            assert_eq!(content, "big text");
        }
        _ => panic!("expected a text file plan"),
    }
}

#[test]
fn test_validate_installed_skill_rejects_duplicate_tool_names() {
    let skill = InstalledSkill {
        name: "demo".to_string(),
        description: "desc".to_string(),
        guidance: None,
        tools: vec![
            InstalledSkillTool {
                name: "dup".to_string(),
                description: "a".to_string(),
                parameters: object_params(),
                command: "printf a".to_string(),
            },
            InstalledSkillTool {
                name: "dup".to_string(),
                description: "b".to_string(),
                parameters: object_params(),
                command: "printf b".to_string(),
            },
        ],
    };

    let err = validate_installed_skill(&skill).unwrap_err();
    assert!(err.contains("duplicate tool name"));
}

#[test]
fn test_validate_installed_skill_accepts_a_complete_skill() {
    let skill = InstalledSkill {
        name: "sample".to_string(),
        description: "Sample skill".to_string(),
        guidance: Some("Use when asked.".to_string()),
        tools: vec![InstalledSkillTool {
            name: "demo".to_string(),
            description: "Demo tool".to_string(),
            parameters: object_params(),
            command: "printf hi".to_string(),
        }],
    };
    assert!(validate_installed_skill(&skill).is_ok());

    let bad_name = InstalledSkill {
        name: "has space".to_string(),
        description: "d".to_string(),
        guidance: None,
        tools: vec![],
    };
    let err = validate_installed_skill(&bad_name).unwrap_err();
    assert!(err.contains("must match"));
}

#[test]
fn test_skill_metadata_parses_installed_skill_json() {
    let installed = InstalledSkill {
        name: "sample".to_string(),
        description: "Sample skill".to_string(),
        guidance: Some("Use when asked for sample operations.".to_string()),
        tools: vec![InstalledSkillTool {
            name: "demo".to_string(),
            description: "Demo tool".to_string(),
            parameters: object_params(),
            command: "printf hi".to_string(),
        }],
    };
    let meta = skill_from_installed(installed);
    assert_eq!(meta.name, "sample");
    assert_eq!(meta.guidance, "Use when asked for sample operations.");
    assert_eq!(meta.tools[0].0, "demo");
    assert_eq!(meta.tools[0].1.description, "Demo tool");
    assert_eq!(meta.tools[0].1.shell, "printf hi");
}

#[test]
fn test_build_relevant_skill_guidance_matches_skill_name_and_body() {
    let skills = vec![SkillMetadata {
        name: "sample".to_string(),
        tools: vec![(
            "demo".to_string(),
            SkillTool {
                description: "Demo tool".to_string(),
                shell: "printf hi".to_string(),
                parameters: object_params(),
            },
        )],
        guidance: "Use this skill when the user asks for sample operations.".to_string(),
    }];

    let guidance = build_relevant_skill_guidance(&skills, "please use sample here").unwrap();
    assert!(guidance.contains("Skill: sample"));
    assert!(guidance.contains("sample operations"));

    assert!(build_relevant_skill_guidance(&skills, "unrelated request").is_none());
    // A tool name match is enough.
    assert!(build_relevant_skill_guidance(&skills, "run the DEMO one").is_some());
}
