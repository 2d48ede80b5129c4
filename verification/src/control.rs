//! Run control: the single-flight run state and the turn loop.
//!
//! [`RunState`] owns the stored credential, the at-most-one-concurrent-run
//! flag and the cooperative cancellation flag; it is mutated only through its
//! operations. [`TurnLoop`] owns one run's history and drives the turn cycle
//! as a state machine over plain events: the caller streams a turn, hands the
//! aggregate in, performs the tool dispatches the loop asks for, hands the
//! results back, and stops when told to — all decisions are made and proved
//! here, all I/O stays with the caller.

use vstd::prelude::*;
use crate::model::{
    AgentMode, ApiError, ApiResult, BlockView, ContentBlock, Message, MessageView, RunError,
    RunOutcome, RunOutcomeView, RunErrorView, Role, StateError, Usage,
};

verus! {

/// Mathematical view of a [`RunState`].
#[verifier::ext_equal]
pub struct RunStateView {
    pub api_key: Option<Seq<char>>,
    pub running: bool,
    pub cancel_requested: bool,
}

/// Process-wide run state: the stored credential, the running flag enforcing
/// at most one concurrent run, and the cooperative cancellation flag. Created
/// once, mutated only through these operations.
pub struct RunState {
    api_key: Option<String>,
    running: bool,
    cancel_requested: bool,
}

impl View for RunState {
    type V = RunStateView;

    closed spec fn view(&self) -> RunStateView {
        RunStateView {
            api_key: match self.api_key {
                Some(ref k) => Some(k@),
                None => None,
            },
            running: self.running,
            cancel_requested: self.cancel_requested,
        }
    }
}

impl RunState {
    /// The initial state: idle, nothing to cancel, no credential stored.
    pub fn new() -> (r: RunState)
        ensures
            r@ == (RunStateView { api_key: None, running: false, cancel_requested: false }),
    {
        RunState { api_key: None, running: false, cancel_requested: false }
    }

    /// Stores the provider credential; the run flags are untouched.
    pub fn set_api_key(&mut self, key: String)
        ensures
            final(self)@ == (RunStateView { api_key: Some(key@), ..old(self)@ }),
    {
        self.api_key = Some(key);
    }

    /// Whether a credential is stored.
    pub fn has_api_key(&self) -> (r: bool)
        ensures
            r == (self@.api_key is Some),
    {
        self.api_key.is_some()
    }

    /// Whether a run is active.
    pub fn is_running(&self) -> (r: bool)
        ensures
            r == self@.running,
    {
        self.running
    }

    /// Whether cancellation of the active run has been requested.
    pub fn cancel_requested(&self) -> (r: bool)
        ensures
            r == self@.cancel_requested,
    {
        self.cancel_requested
    }

    /// Claims the single run slot. A request while a run is active fails with
    /// `AlreadyRunning` and changes nothing — the active run is unaffected; a
    /// request without a stored credential fails with `NoCredential` and
    /// changes nothing. Otherwise the slot is taken and any stale
    /// cancellation request is cleared.
    pub fn try_start(&mut self) -> (r: Result<(), StateError>)
        ensures
            old(self)@.running ==> r == Result::<(), StateError>::Err(StateError::AlreadyRunning)
                && *final(self) == *old(self),
            !old(self)@.running && old(self)@.api_key is None ==> r == Result::<
                (),
                StateError,
            >::Err(StateError::NoCredential) && *final(self) == *old(self),
            !old(self)@.running && old(self)@.api_key is Some ==> r == Result::<
                (),
                StateError,
            >::Ok(()) && final(self)@ == (RunStateView {
                running: true,
                cancel_requested: false,
                ..old(self)@
            }),
    {
        if self.running {
            Err(StateError::AlreadyRunning)
        } else if self.api_key.is_none() {
            Err(StateError::NoCredential)
        } else {
            self.running = true;
            self.cancel_requested = false;
            Ok(())
        }
    }

    /// Requests cooperative cancellation of the active run; fire-and-forget,
    /// observed by the loop between frames and between turns.
    pub fn request_cancel(&mut self)
        ensures
            final(self)@ == (RunStateView { cancel_requested: true, ..old(self)@ }),
    {
        self.cancel_requested = true;
    }

    /// Releases the run slot. Called on every exit path — completion, failure
    /// or cancellation — so a finished run can never block the next one.
    pub fn finish(&mut self)
        ensures
            final(self)@ == (RunStateView {
                running: false,
                cancel_requested: false,
                ..old(self)@
            }),
    {
        self.running = false;
        self.cancel_requested = false;
    }
}

/// Where the turn loop stands between events.
#[derive(Clone, Copy, PartialEq, Eq, Structural, Debug)]
pub enum Phase {
    /// A provider turn is being streamed; its aggregate or failure is next.
    AwaitTurn,
    /// The requested tool dispatches are executing; their results are next.
    AwaitTools,
    /// The run has ended; no further event is taken.
    Finished,
}

/// One tool invocation to dispatch: the requested id, name and argument text.
#[derive(Debug)]
pub struct ToolInvocation {
    pub id: String,
    pub name: String,
    pub input: String,
}

/// Mathematical view of a [`ToolInvocation`].
#[verifier::ext_equal]
pub struct InvocationView {
    pub id: Seq<char>,
    pub name: Seq<char>,
    pub input: Seq<char>,
}

impl View for ToolInvocation {
    type V = InvocationView;

    open spec fn view(&self) -> InvocationView {
        InvocationView { id: self.id@, name: self.name@, input: self.input@ }
    }
}

/// What the driver reports to the loop: a fully aggregated turn, a turn that
/// failed, an observed cancellation request, or the finished dispatches.
#[derive(Debug)]
pub enum TurnEvent {
    TurnDone { result: ApiResult },
    TurnFailed { error: ApiError },
    CancelObserved,
    ToolResults { results: Vec<ContentBlock> },
}

/// Mathematical view of a [`TurnEvent`].
#[verifier::ext_equal]
pub enum TurnEventView {
    TurnDone { content: Seq<BlockView>, usage: Usage },
    TurnFailed { error: crate::model::ApiErrorView },
    CancelObserved,
    ToolResults { results: Seq<BlockView> },
}

impl View for TurnEvent {
    type V = TurnEventView;

    open spec fn view(&self) -> TurnEventView {
        match self {
            TurnEvent::TurnDone { result } => TurnEventView::TurnDone {
                content: result@.content,
                usage: result.usage,
            },
            TurnEvent::TurnFailed { error } => TurnEventView::TurnFailed { error: error@ },
            TurnEvent::CancelObserved => TurnEventView::CancelObserved,
            TurnEvent::ToolResults { results } => TurnEventView::ToolResults {
                results: results@.map_values(|b: ContentBlock| b@),
            },
        }
    }
}

/// What the driver must do next: stream another provider turn, execute the
/// listed dispatches sequentially in emission order, or stop with an outcome.
#[derive(Debug)]
pub enum LoopAction {
    CallProvider,
    RunTools { tools: Vec<ToolInvocation> },
    Stop { outcome: RunOutcome },
}

/// Mathematical view of a [`LoopAction`].
#[verifier::ext_equal]
pub enum LoopActionView {
    CallProvider,
    RunTools { tools: Seq<InvocationView> },
    Stop { outcome: RunOutcomeView },
}

impl View for LoopAction {
    type V = LoopActionView;

    open spec fn view(&self) -> LoopActionView {
        match self {
            LoopAction::CallProvider => LoopActionView::CallProvider,
            LoopAction::RunTools { tools } => LoopActionView::RunTools {
                tools: tools@.map_values(|t: ToolInvocation| t@),
            },
            LoopAction::Stop { outcome } => LoopActionView::Stop { outcome: outcome@ },
        }
    }
}

/// Mathematical state of one run's turn loop.
#[verifier::ext_equal]
pub struct LoopView {
    /// The conversation history, append-only; only fully completed turns.
    pub history: Seq<MessageView>,
    /// The automation surface of the run; fixed for its lifetime.
    pub mode: AgentMode,
    /// The configured maximum of tool-use turns per run.
    pub cap: u64,
    /// Tool-use turns taken so far.
    pub tool_turns: u64,
    /// Where the loop stands.
    pub phase: Phase,
    /// The run's summed usage.
    pub usage: Usage,
}

/// The tool invocations a turn's content requests, in emission order.
pub open spec fn tool_uses_of(content: Seq<BlockView>) -> Seq<InvocationView>
    decreases content.len(),
{
    if content.len() == 0 {
        Seq::empty()
    } else {
        let rest = tool_uses_of(content.drop_first());
        match content.first() {
            BlockView::ToolUse { id, name, input } => seq![InvocationView { id, name, input }]
                + rest,
            _ => rest,
        }
    }
}

/// The final answer a turn carries: the text of its leading text block.
pub open spec fn turn_text(content: Seq<BlockView>) -> Seq<char> {
    if content.len() > 0 {
        match content.first() {
            BlockView::Text { text } => text,
            _ => Seq::empty(),
        }
    } else {
        Seq::empty()
    }
}

/// Whether the turn requested a tool use with this id.
pub open spec fn has_tool_use_id(turn: Seq<BlockView>, id: Seq<char>) -> bool {
    exists|k: int|
        0 <= k < turn.len() && (#[trigger] turn[k] matches BlockView::ToolUse { id: tid, .. }
            && tid == id)
}

/// The dispatch results that answer a tool use of the given turn, in order;
/// an orphaned result — one whose id the turn never requested — is dropped,
/// as is any block that is not a tool result.
pub open spec fn kept_results(results: Seq<BlockView>, turn: Seq<BlockView>) -> Seq<BlockView>
    decreases results.len(),
{
    if results.len() == 0 {
        Seq::empty()
    } else {
        let rest = kept_results(results.drop_first(), turn);
        match results.first() {
            BlockView::ToolResult { tool_use_id, content } => {
                if has_tool_use_id(turn, tool_use_id) {
                    seq![results.first()] + rest
                } else {
                    rest
                }
            },
            _ => rest,
        }
    }
}

/// Every kept dispatch result answers a tool use of the turn it follows: the
/// appended tool message never carries an orphaned result.
pub proof fn lemma_kept_results_answer_the_turn(results: Seq<BlockView>, turn: Seq<BlockView>)
    ensures
        forall|k: int|
            0 <= k < kept_results(results, turn).len() ==> (#[trigger] kept_results(
                results,
                turn,
            )[k] matches BlockView::ToolResult { tool_use_id, .. } && has_tool_use_id(
                turn,
                tool_use_id,
            )),
    decreases results.len(),
{
    if results.len() > 0 {
        lemma_kept_results_answer_the_turn(results.drop_first(), turn);
        let kept = kept_results(results, turn);
        let rest = kept_results(results.drop_first(), turn);
        match results.first() {
            BlockView::ToolResult { tool_use_id, content } => {
                if has_tool_use_id(turn, tool_use_id) {
                    assert(forall|k: int| 1 <= k < kept.len() ==> kept[k] == rest[k - 1]);
                }
            },
            _ => {},
        }
    }
}

/// History is append-only: no event of the loop ever rewrites or drops a
/// message, it can only add one.
pub proof fn lemma_history_append_only(m: LoopView, e: TurnEventView)
    ensures
        m.history.is_prefix_of(loop_step(m, e).0.history),
{
    let h2 = loop_step(m, e).0.history;
    assert(m.history.is_prefix_of(m.history)) by {
        assert(m.history.take(m.history.len() as int) =~= m.history);
    }
    if h2.len() > m.history.len() {
        assert(h2.take(m.history.len() as int) =~= m.history);
    }
}

/// Which phase may take which event: turn aggregates and turn failures answer
/// a streamed turn, dispatch results answer requested dispatches, and a
/// cancellation may be observed at any point of a live run.
pub open spec fn event_phase_ok(m: LoopView, e: TurnEventView) -> bool {
    match e {
        TurnEventView::TurnDone { .. } => m.phase == Phase::AwaitTurn,
        TurnEventView::TurnFailed { .. } => m.phase == Phase::AwaitTurn,
        TurnEventView::CancelObserved => m.phase != Phase::Finished,
        TurnEventView::ToolResults { .. } => m.phase == Phase::AwaitTools,
    }
}

/// Internal consistency of the loop: while dispatches run, the turn that
/// requested them is the last history entry.
pub open spec fn loop_wf(m: LoopView) -> bool {
    m.phase == Phase::AwaitTools ==> m.history.len() > 0 && m.history.last().role
        == Role::Assistant
}

/// How one event moves the loop, and what it tells the driver to do.
///
/// An observed cancellation ends the run `Cancelled`; the aggregate of the
/// turn it interrupted is never taken, so its partial text reaches neither
/// the history nor the outcome. A failed turn ends the run `Failed` with the
/// provider error. A finished turn without tool uses ends the run `Completed`
/// with the turn's text as the final answer; one with tool uses either stops
/// the run `Failed` with the turn-limit condition — when the cap is already
/// reached — or appends the assistant turn, counts it, and has the driver
/// dispatch the invocations sequentially in emission order. Dispatch results
/// are appended as one tool message, orphans dropped, and the provider is
/// called again.
pub open spec fn loop_step(m: LoopView, e: TurnEventView) -> (LoopView, LoopActionView) {
    match e {
        TurnEventView::CancelObserved => (
            LoopView { phase: Phase::Finished, ..m },
            LoopActionView::Stop { outcome: RunOutcomeView::Cancelled },
        ),
        TurnEventView::TurnFailed { error } => (
            LoopView { phase: Phase::Finished, ..m },
            LoopActionView::Stop {
                outcome: RunOutcomeView::Failed { error: RunErrorView::Api { error } },
            },
        ),
        TurnEventView::TurnDone { content, usage } => {
            let m1 = LoopView { usage: crate::model::usage_sum(m.usage, usage), ..m };
            let tools = tool_uses_of(content);
            if tools.len() == 0 {
                (
                    LoopView {
                        phase: Phase::Finished,
                        history: m1.history.push(
                            MessageView { role: Role::Assistant, content },
                        ),
                        ..m1
                    },
                    LoopActionView::Stop {
                        outcome: RunOutcomeView::Completed { answer: turn_text(content) },
                    },
                )
            } else if m1.tool_turns >= m1.cap {
                (
                    LoopView { phase: Phase::Finished, ..m1 },
                    LoopActionView::Stop {
                        outcome: RunOutcomeView::Failed {
                            error: RunErrorView::State { error: StateError::TurnLimitExceeded },
                        },
                    },
                )
            } else {
                (
                    LoopView {
                        phase: Phase::AwaitTools,
                        history: m1.history.push(
                            MessageView { role: Role::Assistant, content },
                        ),
                        tool_turns: (m1.tool_turns + 1) as u64,
                        ..m1
                    },
                    LoopActionView::RunTools { tools },
                )
            }
        },
        TurnEventView::ToolResults { results } => (
            LoopView {
                phase: Phase::AwaitTurn,
                history: m.history.push(
                    MessageView {
                        role: Role::Tool,
                        content: kept_results(results, m.history.last().content),
                    },
                ),
                ..m
            },
            LoopActionView::CallProvider,
        ),
    }
}

/// The loop state after a whole sequence of events, in order.
pub open spec fn loop_run(m: LoopView, evs: Seq<TurnEventView>) -> LoopView
    decreases evs.len(),
{
    if evs.len() == 0 {
        m
    } else {
        loop_run(loop_step(m, evs.first()).0, evs.drop_first())
    }
}

/// Tool-use turns answered with dispatch results move the loop back to
/// awaiting a turn and count one tool-use turn each, as long as the cap is
/// not yet reached.
pub proof fn lemma_tool_turns_count(m: LoopView, evs: Seq<TurnEventView>)
    requires
        m.phase == Phase::AwaitTurn,
        evs.len() % 2 == 0,
        m.tool_turns + evs.len() / 2 <= m.cap,
        forall|k: int|
            0 <= k < evs.len() && k % 2 == 0 ==> (#[trigger] evs[k] matches TurnEventView::TurnDone {
                content,
                ..
            } && tool_uses_of(content).len() > 0),
        forall|k: int|
            0 <= k < evs.len() && k % 2 == 1 ==> (#[trigger] evs[k] matches TurnEventView::ToolResults {
                ..
            }),
    ensures
        loop_run(m, evs).phase == Phase::AwaitTurn,
        loop_run(m, evs).tool_turns == m.tool_turns + evs.len() / 2,
        loop_run(m, evs).cap == m.cap,
    decreases evs.len(),
{
    if evs.len() > 0 {
        assert(evs[0] == evs.first());
        let m1 = loop_step(m, evs[0]).0;
        assert(m1.phase == Phase::AwaitTools);
        assert(m1.tool_turns == m.tool_turns + 1);
        assert(evs.drop_first()[0] == evs[1]);
        let m2 = loop_step(m1, evs[1]).0;
        assert(m2.phase == Phase::AwaitTurn);
        assert(m2.tool_turns == m1.tool_turns);
        let rest = evs.skip(2);
        assert(evs.drop_first().drop_first() =~= rest);
        assert(loop_run(m, evs) == loop_run(m1, evs.drop_first()));
        assert(evs.drop_first().len() > 0);
        assert(evs.drop_first().first() == evs[1]);
        assert(loop_run(m1, evs.drop_first()) == loop_run(m2, rest));
        assert(loop_run(m, evs) == loop_run(m2, rest));
        assert(forall|k: int| 0 <= k < rest.len() ==> rest[k] == evs[k + 2]);
        lemma_tool_turns_count(m2, rest);
    }
}

/// With the cap configured to some n, n consecutive tool-use turns leave the
/// loop counting n, and the next turn that again requests a tool use stops
/// the run `Failed` with the turn-limit condition.
pub proof fn lemma_turn_limit_exceeded(m: LoopView, evs: Seq<TurnEventView>, e: TurnEventView)
    requires
        m.phase == Phase::AwaitTurn,
        m.tool_turns == 0,
        evs.len() == 2 * m.cap,
        forall|k: int|
            0 <= k < evs.len() && k % 2 == 0 ==> (#[trigger] evs[k] matches TurnEventView::TurnDone {
                content,
                ..
            } && tool_uses_of(content).len() > 0),
        forall|k: int|
            0 <= k < evs.len() && k % 2 == 1 ==> (#[trigger] evs[k] matches TurnEventView::ToolResults {
                ..
            }),
        e matches TurnEventView::TurnDone { content, .. } && tool_uses_of(content).len() > 0,
    ensures
        loop_run(m, evs).tool_turns == m.cap,
        loop_step(loop_run(m, evs), e).1 == (LoopActionView::Stop {
            outcome: RunOutcomeView::Failed {
                error: RunErrorView::State { error: StateError::TurnLimitExceeded },
            },
        }),
{
    lemma_tool_turns_count(m, evs);
}

/// The turn loop of one run: owns the history, counts tool-use turns, sums
/// usage, and decides after each event what the driver does next, exactly as
/// [`loop_step`] states.
pub struct TurnLoop {
    history: Vec<Message>,
    mode: AgentMode,
    cap: u64,
    tool_turns: u64,
    phase: Phase,
    usage: Usage,
}

impl View for TurnLoop {
    type V = LoopView;

    closed spec fn view(&self) -> LoopView {
        LoopView {
            history: self.history@.map_values(|m: Message| m@),
            mode: self.mode,
            cap: self.cap,
            tool_turns: self.tool_turns,
            phase: self.phase,
            usage: self.usage,
        }
    }
}

/// Whether the turn requested a tool use with this id.
fn turn_has_tool_id(turn: &Vec<ContentBlock>, id: &String) -> (r: bool)
    ensures
        r == has_tool_use_id(turn@.map_values(|b: ContentBlock| b@), id@),
{
    let ghost tv = turn@.map_values(|b: ContentBlock| b@);
    let mut i: usize = 0;
    while i < turn.len()
        invariant
            i <= turn.len(),
            tv == turn@.map_values(|b: ContentBlock| b@),
            forall|k: int|
                0 <= k < i ==> !(#[trigger] tv[k] matches BlockView::ToolUse { id: tid, .. }
                    && tid == id@),
        decreases turn.len() - i,
    {
        match &turn[i] {
            ContentBlock::ToolUse { id: tid, .. } => {
                if *tid == *id {
                    proof {
                        assert(tv[i as int] matches BlockView::ToolUse { id: t, .. } && t == id@);
                    }
                    return true;
                }
            },
            _ => {},
        }
        i = i + 1;
    }
    false
}

/// Requesting the tool uses of a turn distributes over concatenation.
proof fn lemma_tool_uses_concat(a: Seq<BlockView>, b: Seq<BlockView>)
    ensures
        tool_uses_of(a + b) == tool_uses_of(a) + tool_uses_of(b),
    decreases a.len(),
{
    if a.len() == 0 {
        assert(a + b =~= b);
        assert(tool_uses_of(a) + tool_uses_of(b) =~= tool_uses_of(b));
    } else {
        assert((a + b).first() == a.first());
        assert((a + b).drop_first() =~= a.drop_first() + b);
        lemma_tool_uses_concat(a.drop_first(), b);
        match a.first() {
            BlockView::ToolUse { id, name, input } => {
                assert(seq![InvocationView { id, name, input }] + (tool_uses_of(a.drop_first())
                    + tool_uses_of(b)) =~= (seq![InvocationView { id, name, input }]
                    + tool_uses_of(a.drop_first())) + tool_uses_of(b));
            },
            _ => {},
        }
    }
}

/// Copies the tool invocations a turn requests, in emission order.
fn extract_tool_uses(content: &Vec<ContentBlock>) -> (out: Vec<ToolInvocation>)
    ensures
        out@.map_values(|t: ToolInvocation| t@) == tool_uses_of(
            content@.map_values(|b: ContentBlock| b@),
        ),
{
    let ghost cv = content@.map_values(|b: ContentBlock| b@);
    let mut out: Vec<ToolInvocation> = Vec::new();
    let mut i: usize = 0;
    proof {
        assert(cv.take(0) =~= Seq::<BlockView>::empty());
        assert(out@.map_values(|t: ToolInvocation| t@) =~= tool_uses_of(cv.take(0)));
    }
    while i < content.len()
        invariant
            i <= content.len(),
            cv == content@.map_values(|b: ContentBlock| b@),
            out@.map_values(|t: ToolInvocation| t@) == tool_uses_of(cv.take(i as int)),
        decreases content.len() - i,
    {
        let ghost prev_out = out@.map_values(|t: ToolInvocation| t@);
        proof {
            reveal_with_fuel(tool_uses_of, 2);
            assert(cv.take(i + 1) =~= cv.take(i as int) + seq![cv[i as int]]);
            lemma_tool_uses_concat(cv.take(i as int), seq![cv[i as int]]);
            assert(seq![cv[i as int]].first() == cv[i as int]);
            assert(seq![cv[i as int]].drop_first() =~= Seq::<BlockView>::empty());
        }
        match &content[i] {
            ContentBlock::ToolUse { id, name, input } => {
                let inv = ToolInvocation {
                    id: id.clone(),
                    name: name.clone(),
                    input: input.clone(),
                };
                let ghost invv = inv@;
                out.push(inv);
                proof {
                    assert(tool_uses_of(seq![cv[i as int]]) =~= seq![invv]);
                    assert(out@.map_values(|t: ToolInvocation| t@) =~= prev_out + seq![invv]);
                }
            },
            _ => {
                proof {
                    assert(tool_uses_of(seq![cv[i as int]]) =~= Seq::<InvocationView>::empty());
                    assert(prev_out + Seq::<InvocationView>::empty() =~= prev_out);
                }
            },
        }
        i = i + 1;
    }
    proof {
        assert(cv.take(content@.len() as int) =~= cv);
    }
    out
}

/// The turn's final answer: the text of its leading text block.
fn turn_answer(content: &Vec<ContentBlock>) -> (r: String)
    ensures
        r@ == turn_text(content@.map_values(|b: ContentBlock| b@)),
{
    if content.len() > 0 {
        match &content[0] {
            ContentBlock::Text { text } => {
                return text.clone();
            },
            _ => {},
        }
    }
    String::new()
}

/// Keeps the dispatch results that answer a tool use of the given turn, in
/// order, dropping orphans and non-result blocks.
fn filter_results(results: Vec<ContentBlock>, turn: &Vec<ContentBlock>) -> (out: Vec<
    ContentBlock,
>)
    ensures
        out@.map_values(|b: ContentBlock| b@) == kept_results(
            results@.map_values(|b: ContentBlock| b@),
            turn@.map_values(|b: ContentBlock| b@),
        ),
{
    let ghost rv = results@.map_values(|b: ContentBlock| b@);
    let ghost tv = turn@.map_values(|b: ContentBlock| b@);
    let mut rest = results;
    let mut out: Vec<ContentBlock> = Vec::new();
    while rest.len() > 0
        invariant
            tv == turn@.map_values(|b: ContentBlock| b@),
            kept_results(rv, tv) == out@.map_values(|b: ContentBlock| b@) + kept_results(
                rest@.map_values(|b: ContentBlock| b@),
                tv,
            ),
        decreases rest.len(),
    {
        let ghost restv = rest@.map_values(|b: ContentBlock| b@);
        let ghost prev_out = out@.map_values(|b: ContentBlock| b@);
        let b = rest.remove(0);
        proof {
            assert(restv.first() == b@);
            assert(rest@.map_values(|x: ContentBlock| x@) =~= restv.drop_first());
        }
        match b {
            ContentBlock::ToolResult { tool_use_id, content } => {
                if turn_has_tool_id(turn, &tool_use_id) {
                    let kept = ContentBlock::ToolResult { tool_use_id, content };
                    let ghost keptv = kept@;
                    out.push(kept);
                    proof {
                        assert(kept_results(restv, tv) =~= seq![keptv] + kept_results(
                            restv.drop_first(),
                            tv,
                        ));
                        assert(out@.map_values(|x: ContentBlock| x@) =~= prev_out + seq![keptv]);
                        assert(prev_out + (seq![keptv] + kept_results(restv.drop_first(), tv))
                            =~= (prev_out + seq![keptv]) + kept_results(restv.drop_first(), tv));
                    }
                } else {
                    proof {
                        assert(kept_results(restv, tv) =~= kept_results(restv.drop_first(), tv));
                    }
                }
            },
            _ => {
                proof {
                    assert(kept_results(restv, tv) =~= kept_results(restv.drop_first(), tv));
                }
            },
        }
    }
    proof {
        assert(rest@.map_values(|b: ContentBlock| b@) =~= Seq::<BlockView>::empty());
        assert(kept_results(Seq::<BlockView>::empty(), tv) =~= Seq::<BlockView>::empty());
        assert(out@.map_values(|b: ContentBlock| b@) + Seq::<BlockView>::empty()
            =~= out@.map_values(|b: ContentBlock| b@));
    }
    out
}

impl TurnLoop {
    /// A fresh loop for one run: the prior conversation is carried over, and
    /// the history gains one user message holding the latest instructions
    /// and, when given, the one-shot screenshot context.
    pub fn new(
        instructions: String,
        mode: AgentMode,
        cap: u64,
        prior: Vec<Message>,
        context_screenshot: Option<crate::model::ImageSource>,
    ) -> (r: TurnLoop)
        ensures
            r@.mode == mode,
            r@.cap == cap,
            r@.tool_turns == 0,
            r@.phase == Phase::AwaitTurn,
            r@.usage == (Usage {
                input_tokens: 0,
                output_tokens: 0,
                cache_creation_input_tokens: 0,
                cache_read_input_tokens: 0,
            }),
            r@.history == prior@.map_values(|m: Message| m@).push(
                MessageView {
                    role: Role::User,
                    content: match context_screenshot {
                        Some(s) => seq![
                            BlockView::Text { text: instructions@ },
                            BlockView::Image { source: s@ },
                        ],
                        None => seq![BlockView::Text { text: instructions@ }],
                    },
                },
            ),
            loop_wf(r@),
    {
        let ghost instrv = instructions@;
        let ghost priorv = prior@.map_values(|m: Message| m@);
        let mut content: Vec<ContentBlock> = Vec::new();
        content.push(ContentBlock::Text { text: instructions });
        match context_screenshot {
            Some(source) => {
                let ghost sv = source@;
                content.push(ContentBlock::Image { source });
                proof {
                    assert(content@.map_values(|b: ContentBlock| b@) =~~= seq![
                        BlockView::Text { text: instrv },
                        BlockView::Image { source: sv },
                    ]);
                }
            },
            None => {
                proof {
                    assert(content@.map_values(|b: ContentBlock| b@) =~~= seq![
                        BlockView::Text { text: instrv },
                    ]);
                }
            },
        }
        let ghost contentv = content@.map_values(|b: ContentBlock| b@);
        let mut history = prior;
        history.push(Message { role: Role::User, content });
        let r = TurnLoop {
            history,
            mode,
            cap,
            tool_turns: 0,
            phase: Phase::AwaitTurn,
            usage: Usage::zero(),
        };
        proof {
            assert(r@.history =~~= priorv.push(
                (MessageView { role: Role::User, content: contentv }),
            ));
        }
        r
    }

    /// The run's history so far; append-only, only fully completed turns.
    pub fn history(&self) -> (r: &Vec<Message>)
        ensures
            r@.map_values(|m: Message| m@) == self@.history,
    {
        &self.history
    }

    /// Hands the history over, for storage, once the run has ended.
    pub fn into_history(self) -> (r: Vec<Message>)
        ensures
            r@.map_values(|m: Message| m@) == self@.history,
    {
        self.history
    }

    /// The run's summed usage so far.
    pub fn usage(&self) -> (r: Usage)
        ensures
            r == self@.usage,
    {
        self.usage
    }

    /// Takes one event and answers with the driver's next step, exactly as
    /// [`loop_step`] states.
    pub fn on_event(&mut self, e: TurnEvent) -> (a: LoopAction)
        requires
            loop_wf(old(self)@),
            event_phase_ok(old(self)@, e@),
        ensures
            final(self)@ == loop_step(old(self)@, e@).0,
            a@ == loop_step(old(self)@, e@).1,
            loop_wf(final(self)@),
    {
        let ghost m = old(self)@;
        let ghost ev = e@;
        match e {
            TurnEvent::CancelObserved => {
                self.phase = Phase::Finished;
                let a = LoopAction::Stop { outcome: RunOutcome::Cancelled };
                proof {
                    assert(self@ =~~= loop_step(m, ev).0);
                    assert(a@ =~~= loop_step(m, ev).1);
                }
                a
            },
            TurnEvent::TurnFailed { error } => {
                self.phase = Phase::Finished;
                let a = LoopAction::Stop {
                    outcome: RunOutcome::Failed { error: RunError::Api { error } },
                };
                proof {
                    assert(self@ =~~= loop_step(m, ev).0);
                    assert(a@ =~~= loop_step(m, ev).1);
                }
                a
            },
            TurnEvent::TurnDone { result } => {
                let ApiResult { content, usage } = result;
                let ghost cv = content@.map_values(|b: ContentBlock| b@);
                self.usage = crate::model::add_usage(self.usage, usage);
                let tools = extract_tool_uses(&content);
                if tools.len() == 0 {
                    let answer = turn_answer(&content);
                    self.history.push(Message { role: Role::Assistant, content });
                    self.phase = Phase::Finished;
                    let a = LoopAction::Stop { outcome: RunOutcome::Completed { answer } };
                    proof {
                        assert(self@.history =~~= m.history.push(
                            (MessageView { role: Role::Assistant, content: cv }),
                        ));
                        assert(self@ =~~= loop_step(m, ev).0);
                        assert(a@ =~~= loop_step(m, ev).1);
                    }
                    a
                } else if self.tool_turns >= self.cap {
                    self.phase = Phase::Finished;
                    let a = LoopAction::Stop {
                        outcome: RunOutcome::Failed {
                            error: RunError::State { error: StateError::TurnLimitExceeded },
                        },
                    };
                    proof {
                        assert(self@ =~~= loop_step(m, ev).0);
                        assert(a@ =~~= loop_step(m, ev).1);
                    }
                    a
                } else {
                    self.history.push(Message { role: Role::Assistant, content });
                    self.tool_turns = self.tool_turns + 1;
                    self.phase = Phase::AwaitTools;
                    let a = LoopAction::RunTools { tools };
                    proof {
                        assert(self@.history =~~= m.history.push(
                            (MessageView { role: Role::Assistant, content: cv }),
                        ));
                        assert(self@ =~~= loop_step(m, ev).0);
                        assert(a@ =~~= loop_step(m, ev).1);
                    }
                    a
                }
            },
            TurnEvent::ToolResults { results } => {
                let n = self.history.len();
                let kept = filter_results(results, &self.history[n - 1].content);
                let ghost keptv = kept@.map_values(|b: ContentBlock| b@);
                self.history.push(Message { role: Role::Tool, content: kept });
                self.phase = Phase::AwaitTurn;
                let a = LoopAction::CallProvider;
                proof {
                    assert(m.history.last() == m.history[n - 1]);
                    assert(self@.history =~~= m.history.push(
                        (MessageView { role: Role::Tool, content: keptv }),
                    ));
                    assert(self@ =~~= loop_step(m, ev).0);
                    assert(a@ =~~= loop_step(m, ev).1);
                }
                a
            },
        }
    }
}

} // verus!
