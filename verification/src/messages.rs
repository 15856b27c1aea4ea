//! Session messages: roles, multimodal parts, tool-call requests, and the
//! model's two-variant turn result.

use vstd::prelude::*;

verus! {

/// Role of one session message.
#[derive(Clone, Copy, Debug, PartialEq, Eq, Structural)]
pub enum MessageRole {
    System,
    User,
    Assistant,
    ToolResult,
}

/// Inline binary content, carried base64-encoded.
#[derive(Clone, Debug)]
pub struct InlineData {
    pub mime_type: String,
    pub data: String,
}

/// A tool invocation recorded in an assistant message.
#[derive(Clone, Debug)]
pub struct FunctionCall {
    pub name: String,
    /// Canonical serialized arguments, exactly as sent to the capability.
    pub args: String,
    pub id: Option<String>,
    pub thought_signature: Option<String>,
}

/// A tool's answer recorded in a tool-result message.
#[derive(Clone, Debug)]
pub struct FunctionResponse {
    pub name: String,
    pub id: Option<String>,
    /// Whether the output is delivered under the error key.
    pub is_error: bool,
    pub output: String,
}

/// One part of a message: plain text, inline data, a recorded call, or a
/// recorded response.
#[derive(Clone, Debug)]
pub struct MultimodalPart {
    pub text: Option<String>,
    pub inline_data: Option<InlineData>,
    pub function_call: Option<FunctionCall>,
    pub function_response: Option<FunctionResponse>,
}

/// `true` iff `p` is a plain text part holding exactly `text`.
pub open spec fn is_text_part(p: MultimodalPart, text: Seq<char>) -> bool {
    &&& p.text is Some
    &&& p.text->0@ == text
    &&& p.inline_data is None
    &&& p.function_call is None
    &&& p.function_response is None
}

/// `true` iff `p` records the response of the tool named `name` with the
/// given error flag and output.
pub open spec fn is_response_part(
    p: MultimodalPart,
    name: Seq<char>,
    id: Option<Seq<char>>,
    is_error: bool,
    output: Seq<char>,
) -> bool {
    &&& p.function_response is Some
    &&& p.function_response->0.name@ == name
    &&& match (p.function_response->0.id, id) {
        (Some(a), Some(b)) => a@ == b,
        (None, None) => true,
        _ => false,
    }
    &&& p.function_response->0.is_error == is_error
    &&& p.function_response->0.output@ == output
    &&& p.text is None
    &&& p.inline_data is None
    &&& p.function_call is None
}

impl MultimodalPart {
    /// A plain text part.
    pub fn text(text: String) -> (r: MultimodalPart)
        ensures
            is_text_part(r, text@),
    {
        MultimodalPart {
            text: Some(text),
            inline_data: None,
            function_call: None,
            function_response: None,
        }
    }

    /// An inline image part.
    pub fn image(mime_type: String, base64_data: String) -> (r: MultimodalPart)
        ensures
            r.inline_data is Some,
            r.inline_data->0.mime_type@ == mime_type@,
            r.inline_data->0.data@ == base64_data@,
            r.text is None,
            r.function_call is None,
            r.function_response is None,
    {
        MultimodalPart {
            text: None,
            inline_data: Some(InlineData { mime_type, data: base64_data }),
            function_call: None,
            function_response: None,
        }
    }

    /// A recorded tool invocation.
    pub fn function_call(
        name: String,
        args: String,
        thought_signature: Option<String>,
        id: Option<String>,
    ) -> (r: MultimodalPart)
        ensures
            r.function_call is Some,
            r.function_call->0.name@ == name@,
            r.function_call->0.args@ == args@,
            r.function_call->0.id == id,
            r.function_call->0.thought_signature == thought_signature,
            r.text is None,
            r.inline_data is None,
            r.function_response is None,
    {
        MultimodalPart {
            text: None,
            inline_data: None,
            function_call: Some(FunctionCall { name, args, id, thought_signature }),
            function_response: None,
        }
    }

    /// A recorded tool response.
    pub fn function_response(name: String, is_error: bool, output: String, id: Option<String>) -> (r:
        MultimodalPart)
        ensures
            is_response_part(
                r,
                name@,
                match id {
                    Some(s) => Some(s@),
                    None => None,
                },
                is_error,
                output@,
            ),
    {
        MultimodalPart {
            text: None,
            inline_data: None,
            function_call: None,
            function_response: Some(FunctionResponse { name, id, is_error, output }),
        }
    }
}

/// One ordered session message.
#[derive(Clone, Debug)]
pub struct Message {
    pub role: MessageRole,
    pub parts: Vec<MultimodalPart>,
}

/// `true` iff `m` is a single-text message with the given role and text.
pub open spec fn is_text_message(m: Message, role: MessageRole, text: Seq<char>) -> bool {
    &&& m.role == role
    &&& m.parts@.len() == 1
    &&& is_text_part(m.parts@[0], text)
}

/// A tool call requested by the model in one turn.
#[derive(Clone, Debug)]
pub struct ToolCallRequest {
    pub id: String,
    pub name: String,
    /// Canonical serialized arguments.
    pub args: String,
}

/// What the model returned for one turn: a final narrative answer, or a set
/// of requested tool calls.
pub enum ModelTurn {
    Narrative(String),
    ToolCalls {
        thought: Option<String>,
        calls: Vec<ToolCallRequest>,
        parts: Vec<MultimodalPart>,
    },
}

} // verus!
