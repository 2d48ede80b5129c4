use agent_loop::control::{LoopAction, Phase, RunState, TurnEvent, TurnLoop};
use agent_loop::dispatch::{plan_dispatch, resolve_tool, tool_result_of, DispatchPlan, ToolKind};
use agent_loop::model::{
    saturating_add_u64, AgentMode, ApiError, ApiResult, ContentBlock, Message, Role, RunError,
    RunOutcome, StateError, ToolResultContent, Usage,
};
use agent_loop::request::{image_data_url, system_message, with_system_message};
use agent_loop::model::ImageSource;

fn text_turn(text: &str) -> ApiResult {
    ApiResult {
        content: vec![ContentBlock::Text { text: String::from(text) }],
        usage: Usage::zero(),
    }
}

fn tool_turn(id: &str, name: &str) -> ApiResult {
    ApiResult {
        content: vec![
            ContentBlock::Text { text: String::from("using a tool") },
            ContentBlock::ToolUse {
                id: String::from(id),
                name: String::from(name),
                input: String::from("{}"),
            },
        ],
        usage: Usage::zero(),
    }
}

#[test]
fn second_start_fails_and_leaves_the_run_alone() {
    let mut state = RunState::new();
    state.set_api_key(String::from("k"));
    assert!(state.try_start().is_ok());
    assert!(state.is_running());
    match state.try_start() {
        Err(StateError::AlreadyRunning) => {},
        other => panic!("expected an already-running refusal, got {:?}", other),
    }
    assert!(state.is_running());
    assert!(!state.cancel_requested());
}

#[test]
fn start_without_credential_fails_fast() {
    let mut state = RunState::new();
    match state.try_start() {
        Err(StateError::NoCredential) => {},
        other => panic!("expected a no-credential refusal, got {:?}", other),
    }
    assert!(!state.is_running());
}

#[test]
fn cancel_ends_the_run_and_releases_the_slot() {
    let mut state = RunState::new();
    state.set_api_key(String::from("k"));
    assert!(state.try_start().is_ok());
    state.request_cancel();
    assert!(state.cancel_requested());

    let mut run = TurnLoop::new(String::from("do a thing"), AgentMode::Computer, 8, Vec::new(), None);
    let before = run.history().len();
    let action = run.on_event(TurnEvent::CancelObserved);
    match action {
        LoopAction::Stop { outcome: RunOutcome::Cancelled } => {},
        other => panic!("expected a cancelled stop, got {:?}", other),
    }
    // the partial turn reaches neither the history nor the outcome
    assert_eq!(run.history().len(), before);

    state.finish();
    assert!(!state.is_running());
    assert!(!state.cancel_requested());
}

#[test]
fn turn_without_tool_uses_completes_with_its_text() {
    let mut run = TurnLoop::new(String::from("say hello"), AgentMode::Computer, 8, Vec::new(), None);
    let action = run.on_event(TurnEvent::TurnDone { result: text_turn("Hello there") });
    match action {
        LoopAction::Stop { outcome: RunOutcome::Completed { answer } } => {
            assert_eq!(answer, "Hello there");
        },
        other => panic!("expected a completed stop, got {:?}", other),
    }
    // the completed assistant turn is appended to history
    let history = run.into_history();
    assert_eq!(history.len(), 2);
    assert_eq!(history[1].role, Role::Assistant);
}

#[test]
fn failed_turn_fails_the_run_with_the_provider_error() {
    let mut run = TurnLoop::new(String::from("say hello"), AgentMode::Computer, 8, Vec::new(), None);
    let action = run.on_event(TurnEvent::TurnFailed {
        error: ApiError::Api { message: String::from("status 500") },
    });
    match action {
        LoopAction::Stop { outcome: RunOutcome::Failed { error: RunError::Api { error } } } => {
            match error {
                ApiError::Api { message } => assert_eq!(message, "status 500"),
                other => panic!("expected the provider error verbatim, got {:?}", other),
            }
        },
        other => panic!("expected a failed stop, got {:?}", other),
    }
}

#[test]
fn turn_limit_fails_on_the_turn_after_the_cap() {
    let cap: u64 = 3;
    let mut run = TurnLoop::new(String::from("loop forever"), AgentMode::Computer, cap, Vec::new(), None);
    for k in 0..cap {
        let action = run.on_event(TurnEvent::TurnDone { result: tool_turn("t", "screenshot") });
        match action {
            LoopAction::RunTools { tools } => {
                assert_eq!(tools.len(), 1);
                assert_eq!(tools[0].name, "screenshot");
            },
            other => panic!("tool-use turn {} should dispatch, got {:?}", k, other),
        }
        let action = run.on_event(TurnEvent::ToolResults { results: Vec::new() });
        assert!(matches!(action, LoopAction::CallProvider));
    }
    let action = run.on_event(TurnEvent::TurnDone { result: tool_turn("t", "screenshot") });
    match action {
        LoopAction::Stop {
            outcome:
                RunOutcome::Failed {
                    error: RunError::State { error: StateError::TurnLimitExceeded },
                },
        } => {},
        other => panic!("expected the turn-limit failure, got {:?}", other),
    }
}

#[test]
fn orphaned_tool_results_are_dropped() {
    let mut run = TurnLoop::new(String::from("click it"), AgentMode::Computer, 8, Vec::new(), None);
    let action = run.on_event(TurnEvent::TurnDone { result: tool_turn("use-1", "click") });
    assert!(matches!(action, LoopAction::RunTools { .. }));
    let results = vec![
        ContentBlock::ToolResult {
            tool_use_id: String::from("use-1"),
            content: ToolResultContent::Text { text: String::from("clicked") },
        },
        ContentBlock::ToolResult {
            tool_use_id: String::from("nobody-asked"),
            content: ToolResultContent::Text { text: String::from("stray") },
        },
        ContentBlock::Text { text: String::from("not a result at all") },
    ];
    let action = run.on_event(TurnEvent::ToolResults { results });
    assert!(matches!(action, LoopAction::CallProvider));
    let history = run.into_history();
    let tool_msg = &history[history.len() - 1];
    assert_eq!(tool_msg.role, Role::Tool);
    assert_eq!(tool_msg.content.len(), 1);
    match &tool_msg.content[0] {
        ContentBlock::ToolResult { tool_use_id, .. } => assert_eq!(tool_use_id, "use-1"),
        other => panic!("expected the answering result, got {:?}", other),
    }
}

#[test]
fn screenshot_context_joins_the_first_message() {
    let shot = ImageSource {
        media_type: String::from("image/png"),
        data: String::from("QUJD"),
    };
    let run = TurnLoop::new(String::from("what is on screen"), AgentMode::Computer, 8, Vec::new(), Some(shot));
    let history = run.into_history();
    assert_eq!(history.len(), 1);
    assert_eq!(history[0].role, Role::User);
    assert_eq!(history[0].content.len(), 2);
    assert!(matches!(history[0].content[1], ContentBlock::Image { .. }));
}

#[test]
fn run_usage_is_summed_over_turns() {
    let mut run = TurnLoop::new(String::from("loop"), AgentMode::Computer, 8, Vec::new(), None);
    let mut first = tool_turn("t", "screenshot");
    first.usage = Usage { input_tokens: 10, output_tokens: 2, ..Usage::zero() };
    run.on_event(TurnEvent::TurnDone { result: first });
    run.on_event(TurnEvent::ToolResults { results: Vec::new() });
    let mut second = text_turn("done");
    second.usage = Usage { input_tokens: 5, output_tokens: 1, ..Usage::zero() };
    run.on_event(TurnEvent::TurnDone { result: second });
    let usage = run.usage();
    assert_eq!(usage.input_tokens, 15);
    assert_eq!(usage.output_tokens, 3);
}

#[test]
fn unknown_tool_name_yields_an_error_result() {
    match plan_dispatch(&String::from("frobnicate"), AgentMode::Computer) {
        DispatchPlan::Reject { result: ToolResultContent::Error { message } } => {
            assert!(!message.is_empty());
        },
        other => panic!("expected an error-kind rejection, got {:?}", other),
    }
}

#[test]
fn out_of_mode_tool_name_yields_an_error_result() {
    assert!(resolve_tool(&String::from("navigate"), AgentMode::Browser).is_some());
    assert!(resolve_tool(&String::from("navigate"), AgentMode::Computer).is_none());
    match plan_dispatch(&String::from("navigate"), AgentMode::Computer) {
        DispatchPlan::Reject { result: ToolResultContent::Error { message } } => {
            assert!(!message.is_empty());
        },
        other => panic!("expected an error-kind rejection, got {:?}", other),
    }
}

#[test]
fn tool_names_resolve_in_their_mode() {
    assert_eq!(resolve_tool(&String::from("click"), AgentMode::Computer), Some(ToolKind::Click));
    assert_eq!(
        resolve_tool(&String::from("screenshot"), AgentMode::Computer),
        Some(ToolKind::Screenshot)
    );
    assert_eq!(
        resolve_tool(&String::from("clear_cookies"), AgentMode::Browser),
        Some(ToolKind::ClearCookies)
    );
    assert_eq!(resolve_tool(&String::from("click"), AgentMode::Browser), None);
}

#[test]
fn dispatch_failure_becomes_model_visible_feedback() {
    match tool_result_of(ToolKind::Click, Err(String::from("no display"))) {
        ToolResultContent::Error { message } => assert_eq!(message, "no display"),
        other => panic!("expected an error result, got {:?}", other),
    }
}

#[test]
fn screenshot_success_becomes_an_inline_image() {
    match tool_result_of(ToolKind::Screenshot, Ok(String::from("QUJD"))) {
        ToolResultContent::Image { source } => {
            assert_eq!(source.media_type, "image/png");
            assert_eq!(source.data, "QUJD");
        },
        other => panic!("expected an image result, got {:?}", other),
    }
}

#[test]
fn other_success_becomes_text() {
    match tool_result_of(ToolKind::TypeText, Ok(String::from("typed"))) {
        ToolResultContent::Text { text } => assert_eq!(text, "typed"),
        other => panic!("expected a text result, got {:?}", other),
    }
}

#[test]
fn system_message_is_prepended_by_mode() {
    let sys = system_message(AgentMode::Browser);
    assert_eq!(sys.role, Role::System);
    match &sys.content[0] {
        ContentBlock::Text { text } => assert!(text.contains("browser profile")),
        other => panic!("expected the prompt text, got {:?}", other),
    }
    let history = vec![Message {
        role: Role::User,
        content: vec![ContentBlock::Text { text: String::from("hi") }],
    }];
    let out = with_system_message(history, AgentMode::Computer);
    assert_eq!(out.len(), 2);
    assert_eq!(out[0].role, Role::System);
    assert_eq!(out[1].role, Role::User);
}

#[test]
fn image_blocks_render_as_inline_data_urls() {
    let source = ImageSource {
        media_type: String::from("image/png"),
        data: String::from("QUJDRA=="),
    };
    assert_eq!(image_data_url(&source), "data:image/png;base64,QUJDRA==");
}

#[test]
fn token_sums_saturate_instead_of_overflowing() {
    assert_eq!(saturating_add_u64(3, 4), 7);
    assert_eq!(saturating_add_u64(u64::MAX, 1), u64::MAX);
    assert_eq!(saturating_add_u64(u64::MAX - 1, 1), u64::MAX);
}

#[test]
fn phases_follow_the_protocol() {
    // Phase is public so a driver can mirror the loop's protocol.
    let _idle = Phase::AwaitTurn;
    let mut run = TurnLoop::new(String::from("go"), AgentMode::Browser, 1, Vec::new(), None);
    let action = run.on_event(TurnEvent::TurnDone { result: tool_turn("t", "navigate") });
    assert!(matches!(action, LoopAction::RunTools { .. }));
    let action = run.on_event(TurnEvent::ToolResults { results: Vec::new() });
    assert!(matches!(action, LoopAction::CallProvider));
}

#[test]
fn prior_history_is_carried_into_the_run() {
    let prior = vec![
        Message {
            role: Role::User,
            content: vec![ContentBlock::Text { text: String::from("earlier question") }],
        },
        Message {
            role: Role::Assistant,
            content: vec![ContentBlock::Text { text: String::from("earlier answer") }],
        },
    ];
    let run = TurnLoop::new(String::from("follow up"), AgentMode::Computer, 8, prior, None);
    let history = run.into_history();
    assert_eq!(history.len(), 3);
    assert_eq!(history[0].role, Role::User);
    assert_eq!(history[1].role, Role::Assistant);
    assert_eq!(history[2].role, Role::User);
    match &history[2].content[0] {
        ContentBlock::Text { text } => assert_eq!(text, "follow up"),
        other => panic!("expected the new instructions, got {:?}", other),
    }
}
