//! Construction of the provider-bound message list.
//!
//! One fixed system prompt per mode is prepended to the conversation, and an
//! image block is rendered as the provider's inline-data URL. Serializing the
//! list to the provider's JSON body and sending it are the caller's I/O.

use vstd::prelude::*;
use crate::model::{AgentMode, BlockView, ContentBlock, ImageSource, Message, MessageView, Role};

verus! {

/// The system prompt offered in computer mode.
pub open spec fn computer_prompt() -> Seq<char> {
    "You are an assistant that controls the user's computer. Use the offered tools to look at the screen and to click, type and press keys. Work step by step and report what you did."@
}

/// The system prompt offered in browser mode.
pub open spec fn browser_prompt() -> Seq<char> {
    "You are an assistant that drives a dedicated browser profile. Use the offered tools to navigate and to manage the profile. Work step by step and report what you did."@
}

/// The system prompt the given mode selects.
pub open spec fn system_prompt_text(mode: AgentMode) -> Seq<char> {
    match mode {
        AgentMode::Computer => computer_prompt(),
        AgentMode::Browser => browser_prompt(),
    }
}

/// The single system message prepended to every provider call.
pub fn system_message(mode: AgentMode) -> (m: Message)
    ensures
        m@.role == Role::System,
        m@.content == seq![BlockView::Text { text: system_prompt_text(mode) }],
{
    let text = match mode {
        AgentMode::Computer => String::from_str(
            "You are an assistant that controls the user's computer. Use the offered tools to look at the screen and to click, type and press keys. Work step by step and report what you did.",
        ),
        AgentMode::Browser => String::from_str(
            "You are an assistant that drives a dedicated browser profile. Use the offered tools to navigate and to manage the profile. Work step by step and report what you did.",
        ),
    };
    let mut content: Vec<ContentBlock> = Vec::new();
    content.push(ContentBlock::Text { text });
    let m = Message { role: Role::System, content };
    proof {
        assert(m@.content =~~= seq![BlockView::Text { text: system_prompt_text(mode) }]);
    }
    m
}

/// Prepends the mode's system message to the outgoing conversation.
pub fn with_system_message(messages: Vec<Message>, mode: AgentMode) -> (out: Vec<Message>)
    ensures
        out@.map_values(|m: Message| m@) == seq![
            MessageView {
                role: Role::System,
                content: seq![BlockView::Text { text: system_prompt_text(mode) }],
            },
        ] + messages@.map_values(|m: Message| m@),
{
    let mut out = messages;
    let sys = system_message(mode);
    let ghost sysv = sys@;
    out.insert(0, sys);
    proof {
        assert(out@.map_values(|m: Message| m@) =~~= seq![sysv] + out@.drop_first().map_values(
            |m: Message| m@,
        ));
    }
    out
}

/// The provider's inline-data rendering of an image block:
/// `data:<media_type>;base64,<data>`.
pub open spec fn data_url_text(media_type: Seq<char>, data: Seq<char>) -> Seq<char> {
    "data:"@ + media_type + ";base64,"@ + data
}

/// Renders an image block as the provider's inline-data URL.
pub fn image_data_url(source: &ImageSource) -> (r: String)
    ensures
        r@ == data_url_text(source@.media_type, source@.data),
{
    let mut r = String::from_str("data:");
    r.append(source.media_type.as_str());
    r.append(";base64,");
    r.append(source.data.as_str());
    r
}

} // verus!
