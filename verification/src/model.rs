//! Shared vocabulary: messages, content blocks, stream events, usage and the
//! error taxonomy, together with their mathematical views.

use vstd::prelude::*;

verus! {

/// Which automation surface a run drives; fixed for the lifetime of a run.
#[derive(Clone, Copy, PartialEq, Eq, Structural, Debug)]
pub enum AgentMode {
    Computer,
    Browser,
}

/// The author of one message in the conversation history.
#[derive(Clone, Copy, PartialEq, Eq, Structural, Debug)]
pub enum Role {
    System,
    User,
    Assistant,
    Tool,
}

/// Token accounting, per turn or summed over a run. A provider that reports
/// nothing yields all-zero counts, never a failure.
#[derive(Clone, Copy, PartialEq, Eq, Structural, Debug)]
pub struct Usage {
    pub input_tokens: u64,
    pub output_tokens: u64,
    pub cache_creation_input_tokens: u64,
    pub cache_read_input_tokens: u64,
}

impl Usage {
    /// The zero usage, used when the provider reports nothing.
    pub fn zero() -> (r: Usage)
        ensures
            r == (Usage {
                input_tokens: 0,
                output_tokens: 0,
                cache_creation_input_tokens: 0,
                cache_read_input_tokens: 0,
            }),
    {
        Usage {
            input_tokens: 0,
            output_tokens: 0,
            cache_creation_input_tokens: 0,
            cache_read_input_tokens: 0,
        }
    }
}

/// An inline image: a media type and base64-encoded payload.
#[derive(Clone, Debug)]
pub struct ImageSource {
    pub media_type: String,
    pub data: String,
}

/// Mathematical view of an [`ImageSource`].
#[verifier::ext_equal]
pub struct ImageSourceView {
    pub media_type: Seq<char>,
    pub data: Seq<char>,
}

impl View for ImageSource {
    type V = ImageSourceView;

    open spec fn view(&self) -> ImageSourceView {
        ImageSourceView { media_type: self.media_type@, data: self.data@ }
    }
}

/// What a tool invocation produced: a successful text or image payload, or a
/// human-readable failure the model can react to in the next turn.
#[derive(Clone, Debug)]
pub enum ToolResultContent {
    Text { text: String },
    Image { source: ImageSource },
    Error { message: String },
}

/// Mathematical view of a [`ToolResultContent`].
#[verifier::ext_equal]
pub enum ToolResultView {
    Text { text: Seq<char> },
    Image { source: ImageSourceView },
    Error { message: Seq<char> },
}

impl View for ToolResultContent {
    type V = ToolResultView;

    open spec fn view(&self) -> ToolResultView {
        match self {
            ToolResultContent::Text { text } => ToolResultView::Text { text: text@ },
            ToolResultContent::Image { source } => ToolResultView::Image { source: source@ },
            ToolResultContent::Error { message } => ToolResultView::Error { message: message@ },
        }
    }
}

/// One block of message content. `ToolUse` carries the model's raw argument
/// text, concatenated from the stream's per-id fragments.
#[derive(Clone, Debug)]
pub enum ContentBlock {
    Text { text: String },
    Image { source: ImageSource },
    ToolUse { id: String, name: String, input: String },
    ToolResult { tool_use_id: String, content: ToolResultContent },
}

/// Mathematical view of a [`ContentBlock`].
#[verifier::ext_equal]
pub enum BlockView {
    Text { text: Seq<char> },
    Image { source: ImageSourceView },
    ToolUse { id: Seq<char>, name: Seq<char>, input: Seq<char> },
    ToolResult { tool_use_id: Seq<char>, content: ToolResultView },
}

impl View for ContentBlock {
    type V = BlockView;

    open spec fn view(&self) -> BlockView {
        match self {
            ContentBlock::Text { text } => BlockView::Text { text: text@ },
            ContentBlock::Image { source } => BlockView::Image { source: source@ },
            ContentBlock::ToolUse { id, name, input } => BlockView::ToolUse {
                id: id@,
                name: name@,
                input: input@,
            },
            ContentBlock::ToolResult { tool_use_id, content } => BlockView::ToolResult {
                tool_use_id: tool_use_id@,
                content: content@,
            },
        }
    }
}

/// One message of the conversation: a role and an ordered sequence of blocks.
/// History is append-only; the run controller owns it for the span of a run.
#[derive(Clone, Debug)]
pub struct Message {
    pub role: Role,
    pub content: Vec<ContentBlock>,
}

/// Mathematical view of a [`Message`].
#[verifier::ext_equal]
pub struct MessageView {
    pub role: Role,
    pub content: Seq<BlockView>,
}

impl View for Message {
    type V = MessageView;

    open spec fn view(&self) -> MessageView {
        MessageView { role: self.role, content: self.content@.map_values(|b: ContentBlock| b@) }
    }
}

/// A transient event produced while decoding one streamed turn; never stored.
#[derive(Clone, Debug)]
pub enum StreamEvent {
    TextDelta { text: String },
    ToolUseStart { id: String, name: String },
    ToolUseDelta { id: String, partial_input: String },
    ToolUseComplete { id: String },
    Usage { input_tokens: u64, output_tokens: u64 },
    Error { message: String },
    Done,
}

/// Mathematical view of a [`StreamEvent`].
#[verifier::ext_equal]
pub enum EventView {
    TextDelta { text: Seq<char> },
    ToolUseStart { id: Seq<char>, name: Seq<char> },
    ToolUseDelta { id: Seq<char>, partial_input: Seq<char> },
    ToolUseComplete { id: Seq<char> },
    Usage { input_tokens: u64, output_tokens: u64 },
    Error { message: Seq<char> },
    Done,
}

impl View for StreamEvent {
    type V = EventView;

    open spec fn view(&self) -> EventView {
        match self {
            StreamEvent::TextDelta { text } => EventView::TextDelta { text: text@ },
            StreamEvent::ToolUseStart { id, name } => EventView::ToolUseStart {
                id: id@,
                name: name@,
            },
            StreamEvent::ToolUseDelta { id, partial_input } => EventView::ToolUseDelta {
                id: id@,
                partial_input: partial_input@,
            },
            StreamEvent::ToolUseComplete { id } => EventView::ToolUseComplete { id: id@ },
            StreamEvent::Usage { input_tokens, output_tokens } => EventView::Usage {
                input_tokens: *input_tokens,
                output_tokens: *output_tokens,
            },
            StreamEvent::Error { message } => EventView::Error { message: message@ },
            StreamEvent::Done => EventView::Done,
        }
    }
}

/// A provider-call failure: transport trouble, a malformed or incomplete
/// stream, or a non-success status carrying the provider's message verbatim.
#[derive(Clone, Debug)]
pub enum ApiError {
    Transport { message: String },
    Protocol { message: String },
    Api { message: String },
}

/// Mathematical view of an [`ApiError`].
#[verifier::ext_equal]
pub enum ApiErrorView {
    Transport { message: Seq<char> },
    Protocol { message: Seq<char> },
    Api { message: Seq<char> },
}

impl View for ApiError {
    type V = ApiErrorView;

    open spec fn view(&self) -> ApiErrorView {
        match self {
            ApiError::Transport { message } => ApiErrorView::Transport { message: message@ },
            ApiError::Protocol { message } => ApiErrorView::Protocol { message: message@ },
            ApiError::Api { message } => ApiErrorView::Api { message: message@ },
        }
    }
}

/// A run-level refusal, returned synchronously before any network activity,
/// or raised when the tool-use turn cap is exceeded.
#[derive(Clone, Copy, PartialEq, Eq, Structural, Debug)]
pub enum StateError {
    AlreadyRunning,
    NoCredential,
    TurnLimitExceeded,
}

/// Why a run ended `Failed`.
#[derive(Clone, Debug)]
pub enum RunError {
    Api { error: ApiError },
    State { error: StateError },
}

/// Mathematical view of a [`RunError`].
#[verifier::ext_equal]
pub enum RunErrorView {
    Api { error: ApiErrorView },
    State { error: StateError },
}

impl View for RunError {
    type V = RunErrorView;

    open spec fn view(&self) -> RunErrorView {
        match self {
            RunError::Api { error } => RunErrorView::Api { error: error@ },
            RunError::State { error } => RunErrorView::State { error: *error },
        }
    }
}

/// How a run ended. `Completed` carries the aggregated text of the final
/// turn; a cancelled run surfaces no partial answer.
#[derive(Clone, Debug)]
pub enum RunOutcome {
    Completed { answer: String },
    Failed { error: RunError },
    Cancelled,
}

/// Mathematical view of a [`RunOutcome`].
#[verifier::ext_equal]
pub enum RunOutcomeView {
    Completed { answer: Seq<char> },
    Failed { error: RunErrorView },
    Cancelled,
}

impl View for RunOutcome {
    type V = RunOutcomeView;

    open spec fn view(&self) -> RunOutcomeView {
        match self {
            RunOutcome::Completed { answer } => RunOutcomeView::Completed { answer: answer@ },
            RunOutcome::Failed { error } => RunOutcomeView::Failed { error: error@ },
            RunOutcome::Cancelled => RunOutcomeView::Cancelled,
        }
    }
}

/// The aggregate of one fully streamed turn: its content blocks in emission
/// order and the usage the provider reported for it.
#[derive(Clone, Debug)]
pub struct ApiResult {
    pub content: Vec<ContentBlock>,
    pub usage: Usage,
}

/// Mathematical view of an [`ApiResult`].
#[verifier::ext_equal]
pub struct ApiResultView {
    pub content: Seq<BlockView>,
    pub usage: Usage,
}

impl View for ApiResult {
    type V = ApiResultView;

    open spec fn view(&self) -> ApiResultView {
        ApiResultView {
            content: self.content@.map_values(|b: ContentBlock| b@),
            usage: self.usage,
        }
    }
}

/// Saturating addition of token counts in the model.
pub open spec fn sat_add(a: u64, b: u64) -> u64 {
    if a + b > u64::MAX {
        u64::MAX
    } else {
        (a + b) as u64
    }
}

/// Adds two token counts, capping at the largest representable count rather
/// than overflowing.
pub fn saturating_add_u64(a: u64, b: u64) -> (r: u64)
    ensures
        r == sat_add(a, b),
{
    if a <= u64::MAX - b {
        a + b
    } else {
        u64::MAX
    }
}

/// The component-wise saturating sum of two usage records.
pub open spec fn usage_sum(a: Usage, b: Usage) -> Usage {
    Usage {
        input_tokens: sat_add(a.input_tokens, b.input_tokens),
        output_tokens: sat_add(a.output_tokens, b.output_tokens),
        cache_creation_input_tokens: sat_add(
            a.cache_creation_input_tokens,
            b.cache_creation_input_tokens,
        ),
        cache_read_input_tokens: sat_add(a.cache_read_input_tokens, b.cache_read_input_tokens),
    }
}

/// Adds one turn's usage into a run's total, saturating instead of
/// overflowing.
pub fn add_usage(a: Usage, b: Usage) -> (r: Usage)
    ensures
        r == usage_sum(a, b),
{
    Usage {
        input_tokens: saturating_add_u64(a.input_tokens, b.input_tokens),
        output_tokens: saturating_add_u64(a.output_tokens, b.output_tokens),
        cache_creation_input_tokens: saturating_add_u64(
            a.cache_creation_input_tokens,
            b.cache_creation_input_tokens,
        ),
        cache_read_input_tokens: saturating_add_u64(
            a.cache_read_input_tokens,
            b.cache_read_input_tokens,
        ),
    }
}

} // verus!
