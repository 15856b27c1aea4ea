//! Engine configuration and the notification that wakes a thread.

use vstd::prelude::*;

use crate::text::{contains_seq, contains_str, trim, trim_seq};

verus! {

/// Model-service settings.
#[derive(Clone, Debug)]
pub struct GeminiConfig {
    pub api_key: String,
    pub model: String,
}

/// Chat-platform settings.
#[derive(Clone, Debug)]
pub struct DiscordConfig {
    pub token: String,
    pub guild_id: Option<String>,
    /// Channel id to workspace folder name.
    pub channel_mappings: Option<Vec<(String, String)>>,
}

/// Background-observer settings.
#[derive(Clone, Debug)]
pub struct GuardianConfig {
    pub model: Option<String>,
}

/// How the privileged `exec` tool runs commands.
#[derive(Clone, Copy, Debug, PartialEq, Eq, Structural)]
pub enum ExecMode {
    Unrestricted,
}

/// Engine limits and switches.
#[derive(Clone, Debug)]
pub struct RuntimeConfig {
    /// Upper bound on agent-loop turns per run; treated as at least 1.
    pub max_turns: usize,
    /// Read-only tool calls allowed per batch; treated as at least 1.
    pub read_only_budget: usize,
    /// Observation size cap in place before truncation; 0 disables it.
    pub max_tool_output_bytes: usize,
    /// Whether host-level tools may run at all.
    pub privileged: bool,
    pub exec_mode: ExecMode,
}

impl Default for RuntimeConfig {
    /// The stock limits: fifty turns, three read-only calls per batch, a
    /// five-thousand-character observation cap, no host privileges.
    fn default() -> (r: RuntimeConfig)
        ensures
            r.max_turns == 50,
            r.read_only_budget == 3,
            r.max_tool_output_bytes == 5000,
            !r.privileged,
            r.exec_mode == ExecMode::Unrestricted,
    {
        RuntimeConfig {
            max_turns: 50,
            read_only_budget: 3,
            max_tool_output_bytes: 5000,
            privileged: false,
            exec_mode: ExecMode::Unrestricted,
        }
    }
}

/// The whole engine configuration.
#[derive(Clone, Debug)]
pub struct Config {
    pub gemini: GeminiConfig,
    pub discord: DiscordConfig,
    pub runtime: RuntimeConfig,
    pub guardian: Option<GuardianConfig>,
}

/// An externally pushed request to run a thread, with its origin.
#[derive(Clone, Debug)]
pub struct StewardNotification {
    pub blackboard_path: String,
    pub channel_id: String,
    pub guild_id: String,
    pub message_id: String,
    pub content: String,
}

/// A configuration value still needs to be filled in when it is blank or
/// holds a `YOUR_` placeholder.
pub open spec fn needs_value_spec(v: Seq<char>) -> bool {
    trim_seq(v).len() == 0 || contains_seq(v, "YOUR_"@)
}

/// Whether a configuration value is blank or a placeholder.
pub fn needs_value(value: &str) -> (r: bool)
    ensures
        r == needs_value_spec(value@),
{
    let t = trim(value);
    t.as_str().unicode_len() == 0 || contains_str(value, "YOUR_")
}

/// What masking a secret shows: three stars, plus the last five characters
/// when the secret is longer than five.
pub open spec fn mask_secret_spec(s: Seq<char>) -> Seq<char> {
    if s.len() <= 5 {
        "***"@
    } else {
        "***"@ + s.skip(s.len() - 5)
    }
}

/// Renders a secret for display without revealing it.
pub fn mask_secret(secret: &str) -> (r: String)
    ensures
        r@ == mask_secret_spec(secret@),
{
    let n = secret.unicode_len();
    if n <= 5 {
        String::from_str("***")
    } else {
        let mut res = String::from_str("***");
        let tail = crate::text::substring(secret, n - 5, n);
        res.append(tail.as_str());
        proof {
            assert(secret@.subrange(n - 5, n as int) =~= secret@.skip(secret@.len() - 5));
        }
        res
    }
}

} // verus!
