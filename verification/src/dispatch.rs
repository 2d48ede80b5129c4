//! Tool dispatch decisions.
//!
//! The dispatcher maps a requested tool name to a concrete automation action
//! of the active mode, and folds an executed action's outcome into a tool
//! result block. A dispatch failure is never raised across this boundary: it
//! becomes an error-kind tool result the model sees in the next turn. The
//! side effects themselves (input injection, navigation, capture) live with
//! the automation surfaces outside the library.

use vstd::prelude::*;
use crate::model::{AgentMode, ImageSource, ToolResultContent, ToolResultView};

verus! {

/// A concrete automation action the model may request.
#[derive(Clone, Copy, PartialEq, Eq, Structural, Debug)]
pub enum ToolKind {
    Screenshot,
    Click,
    TypeText,
    KeyPress,
    Navigate,
    OpenProfile,
    ResetProfile,
    ClearCookies,
}

/// The tool a name denotes in the given mode. Each mode offers its own set;
/// an out-of-mode or unknown name denotes nothing.
pub open spec fn tool_of_name(name: Seq<char>, mode: AgentMode) -> Option<ToolKind> {
    match mode {
        AgentMode::Computer => {
            if name == "screenshot"@ {
                Some(ToolKind::Screenshot)
            } else if name == "click"@ {
                Some(ToolKind::Click)
            } else if name == "type_text"@ {
                Some(ToolKind::TypeText)
            } else if name == "key_press"@ {
                Some(ToolKind::KeyPress)
            } else {
                None
            }
        },
        AgentMode::Browser => {
            if name == "navigate"@ {
                Some(ToolKind::Navigate)
            } else if name == "open_profile"@ {
                Some(ToolKind::OpenProfile)
            } else if name == "reset_profile"@ {
                Some(ToolKind::ResetProfile)
            } else if name == "clear_cookies"@ {
                Some(ToolKind::ClearCookies)
            } else {
                None
            }
        },
    }
}

/// Resolves a requested tool name against the active mode's tool set.
pub fn resolve_tool(name: &String, mode: AgentMode) -> (r: Option<ToolKind>)
    ensures
        r == tool_of_name(name@, mode),
{
    match mode {
        AgentMode::Computer => {
            if *name == String::from_str("screenshot") {
                Some(ToolKind::Screenshot)
            } else if *name == String::from_str("click") {
                Some(ToolKind::Click)
            } else if *name == String::from_str("type_text") {
                Some(ToolKind::TypeText)
            } else if *name == String::from_str("key_press") {
                Some(ToolKind::KeyPress)
            } else {
                None
            }
        },
        AgentMode::Browser => {
            if *name == String::from_str("navigate") {
                Some(ToolKind::Navigate)
            } else if *name == String::from_str("open_profile") {
                Some(ToolKind::OpenProfile)
            } else if *name == String::from_str("reset_profile") {
                Some(ToolKind::ResetProfile)
            } else if *name == String::from_str("clear_cookies") {
                Some(ToolKind::ClearCookies)
            } else {
                None
            }
        },
    }
}

/// What to do with one requested invocation: run the named tool, or answer
/// with an error result and no side effect at all.
#[derive(Debug)]
pub enum DispatchPlan {
    Run { tool: ToolKind },
    Reject { result: ToolResultContent },
}

/// Decides one dispatch. A name the active mode knows is run; an out-of-mode
/// or unknown name yields an error-kind result with a non-empty message —
/// never a panic, never a run failure.
pub fn plan_dispatch(name: &String, mode: AgentMode) -> (r: DispatchPlan)
    ensures
        tool_of_name(name@, mode) matches Some(t) ==> r matches DispatchPlan::Run { tool } && tool
            == t,
        tool_of_name(name@, mode) is None ==> (r matches DispatchPlan::Reject { result }
            && result@ matches ToolResultView::Error { message } && message.len() > 0),
{
    match resolve_tool(name, mode) {
        Some(tool) => DispatchPlan::Run { tool },
        None => {
            let mut message = String::from_str("unknown tool for this mode: ");
            message.append(name.as_str());
            proof {
                reveal_strlit("unknown tool for this mode: ");
            }
            DispatchPlan::Reject { result: ToolResultContent::Error { message } }
        },
    }
}

/// Folds the outcome of one executed automation action into the tool result
/// the model will see: a screenshot's payload becomes an inline PNG image,
/// any other success becomes text, and a failure message becomes an
/// error-kind result — model-visible feedback, never a run failure.
pub fn tool_result_of(tool: ToolKind, outcome: Result<String, String>) -> (r: ToolResultContent)
    ensures
        outcome matches Err(m) ==> r@ == (ToolResultView::Error { message: m@ }),
        outcome matches Ok(payload) ==> if tool == ToolKind::Screenshot {
            r@ == (ToolResultView::Image {
                source: crate::model::ImageSourceView { media_type: "image/png"@, data: payload@ },
            })
        } else {
            r@ == (ToolResultView::Text { text: payload@ })
        },
{
    match outcome {
        Err(message) => ToolResultContent::Error { message },
        Ok(payload) => {
            if tool == ToolKind::Screenshot {
                ToolResultContent::Image {
                    source: ImageSource {
                        media_type: String::from_str("image/png"),
                        data: payload,
                    },
                }
            } else {
                ToolResultContent::Text { text: payload }
            }
        },
    }
}

} // verus!
